//! What a drop would leave behind.
use pbps_pg::drop_impact::{
    drop_blockers, drop_targets, edge as read_edge, graph_query, holds_token, removal, required, stored,
    Address, DropReport, Edge, EdgeRow, Graph, Part, Removal,
};
use pbps_pg::model::{Change, ChangeSet, Table, TableName};

fn address(object: i64) -> Address {
    Address {
        class: 1,
        object,
        part: 0,
    }
}

fn edge(dependent: i64, referenced: i64, kind: &str) -> Edge {
    Edge {
        dependent: address(dependent),
        referenced: address(referenced),
        kind: kind.into(),
        dependent_name: format!("object {dependent}"),
        referenced_name: format!("object {referenced}"),
    }
}

#[test]
fn automatic_edges_win_over_normal_edges_but_unknown_classes_still_block() {
    let mut unknown = edge(3, 1, "n");
    unknown.dependent.class = 999;
    let graph = Graph(vec![edge(2, 1, "n"), edge(2, 1, "a"), unknown]);
    assert_eq!(
        graph.blockers(address(1), 0, &[(0, address(1))]),
        ["object 3"]
    );
    assert!(
        Graph(vec![edge(2, 1, "n"), edge(2, 1, "a")])
            .blockers(address(1), 0, &[(0, address(1))])
            .is_empty()
    );
}

#[test]
fn internal_view_owners_preserve_transitive_blockers_and_removal_order() {
    let graph = Graph(vec![
        edge(2, 1, "n"),
        edge(2, 3, "i"),
        edge(4, 3, "n"),
        edge(4, 5, "i"),
    ]);
    assert_eq!(
        graph.blockers(address(1), 0, &[(0, address(1))]),
        ["object 2", "object 4"]
    );
    assert!(
        graph
            .blockers(
                address(1),
                2,
                &[(0, address(5)), (1, address(3)), (2, address(1))]
            )
            .is_empty()
    );
    assert_eq!(
        graph.blockers(
            address(1),
            2,
            &[(0, address(3)), (1, address(5)), (2, address(1))]
        ),
        ["object 4"]
    );
}

#[test]
fn deleting_an_internal_member_does_not_authorize_deleting_its_owner() {
    let graph = Graph(vec![edge(1, 2, "e")]);
    assert_eq!(
        graph.blockers(address(1), 0, &[(0, address(1))]),
        ["object 2 (internal owner of object 1)"]
    );
}

#[test]
fn stored_names_reverse_only_the_prefix_and_stop_at_a_new_object() {
    let t = TableName::new("app", "t");
    let u = TableName::new("app", "u");
    let cs = ChangeSet {
        changes: vec![
            Change::RenameTable {
                from: t.clone(),
                to: u.clone(),
            },
            Change::RenameColumn {
                table: u.clone(),
                from: "old".into(),
                to: "new".into(),
            },
            Change::CreateTable {
                name: t.clone(),
                table: Table {
                    columns: Vec::new(),
                    primary_key: None,
                    unique: Vec::new(),
                    checks: Vec::new(),
                    foreign_keys: Vec::new(),
                    indexes: Vec::new(),
                },
            },
        ],
    };
    assert_eq!(
        stored(&cs, 2, &u, Some("new")),
        Some((t.clone(), Some("old".into())))
    );
    assert_eq!(
        stored(&cs, 1, &u, Some("new")),
        Some((t.clone(), Some("new".into())))
    );
    assert_eq!(stored(&cs, 3, &t, None), None);
    assert_eq!(
        stored(&cs, 3, &u, Some("other")),
        Some((t, Some("other".into())))
    );
}

fn table() -> Table {
    Table {
        columns: Vec::new(),
        primary_key: None,
        unique: Vec::new(),
        checks: Vec::new(),
        foreign_keys: Vec::new(),
        indexes: Vec::new(),
    }
}

#[test]
fn a_removal_is_looked_up_under_the_names_the_catalog_has() {
    let t = TableName::new("app", "t");
    let u = TableName::new("app", "u");
    let plan = ChangeSet {
        changes: vec![
            Change::RenameTable {
                from: t.clone(),
                to: u.clone(),
            },
            Change::RenameColumn {
                table: u.clone(),
                from: "old".into(),
                to: "new".into(),
            },
            Change::DropColumn {
                column: u.column("new"),
            },
            Change::DropTable { name: u.clone() },
            Change::DropIndex {
                table: u.clone(),
                name: "ix".into(),
            },
            Change::DropCheck {
                table: u.clone(),
                name: "ck".into(),
            },
            Change::AlterColumnDefault {
                column: u.column("new"),
                from: Some("1".into()),
                to: None,
            },
            Change::AlterColumnDefault {
                column: u.column("new"),
                from: None,
                to: Some("1".into()),
            },
        ],
    };
    assert_eq!(removal(&plan, 0), Removal::Nothing);
    assert_eq!(
        removal(&plan, 2),
        Removal::Column {
            table: t.clone(),
            column: Some("old".into()),
            declared: u.column("new"),
        }
    );
    assert_eq!(removal(&plan, 3), Removal::Table(t.clone()));
    assert_eq!(
        removal(&plan, 4),
        Removal::Part(t.clone(), Part::Index("ix".into()))
    );
    assert_eq!(
        removal(&plan, 5),
        Removal::Part(t.clone(), Part::Constraint("ck".into()))
    );
    assert_eq!(
        removal(&plan, 6),
        Removal::Default {
            table: t,
            column: Some("old".into()),
        }
    );
    assert_eq!(removal(&plan, 7), Removal::Nothing);
}

#[test]
fn what_the_plan_itself_creates_is_not_looked_up() {
    let t = TableName::new("app", "t");
    let plan = ChangeSet {
        changes: vec![
            Change::CreateTable {
                name: t.clone(),
                table: table(),
            },
            Change::DropTable { name: t.clone() },
        ],
    };
    assert_eq!(removal(&plan, 1), Removal::Nothing);
    let targets = drop_targets(&plan);
    assert_eq!(targets, [(1, "table app.t".to_owned())]);
    assert_eq!(
        drop_blockers(&targets, &[], &Graph(Vec::new())),
        [DropReport {
            change_index: 1,
            target: "table app.t".into(),
            blocking: Vec::new(),
        }]
    );
}

#[test]
fn a_drop_is_judged_by_the_removals_in_front_of_it() {
    let plan = ChangeSet {
        changes: vec![
            Change::DropTable {
                name: TableName::new("app", "one"),
            },
            Change::DropColumn {
                column: TableName::new("app", "two").column("c"),
            },
        ],
    };
    let targets = drop_targets(&plan);
    let graph = Graph(vec![edge(2, 1, "n"), edge(3, 2, "n")]);
    let reports = drop_blockers(&targets, &[(0, address(1)), (1, address(2))], &graph);
    assert_eq!(reports.len(), 2);
    assert_eq!(reports[0].target, "table app.one");
    assert_eq!(reports[0].blocking, ["object 2", "object 3"]);
    assert_eq!(reports[1].target, "column app.two.c");
    assert_eq!(reports[1].blocking, ["object 3"]);
}

#[test]
fn the_graph_is_asked_for_once_per_address_and_in_order() {
    assert_eq!(graph_query(&[]), None);
    let query = graph_query(&[(0, address(7)), (1, address(5)), (2, address(7))])
        .expect("something is removed");
    assert!(
        query.contains("VALUES (1::oid,5::oid,0::int4),(1::oid,7::oid,0::int4)\n"),
        "{query}"
    );
}

#[test]
fn a_row_with_a_null_in_it_is_refused_by_the_column() {
    let row = EdgeRow {
        dc: Some(1),
        dob: Some(2),
        dp: Some(0),
        rc: Some(1),
        rob: Some(1),
        rp: Some(0),
        kind: Some("n".into()),
        dn: Some("object 2".into()),
        rn: Some("object 1".into()),
    };
    assert_eq!(read_edge(&row), Ok(edge(2, 1, "n")));
    let mut no_kind = row.clone();
    no_kind.kind = None;
    assert_eq!(
        read_edge(&no_kind),
        Err("drop_blockers: catalog omitted kind".to_owned())
    );
    let mut no_number = row;
    no_number.rob = None;
    assert_eq!(
        read_edge(&no_number),
        Err("drop_blockers: catalog omitted rob".to_owned())
    );
    assert_eq!(required(Some(3), "oid"), Ok(3));
    assert_eq!(
        required(None, "oid"),
        Err("drop_blockers: catalog omitted oid".to_owned())
    );
}

#[test]
fn an_address_contains_its_parts_and_a_closure_holds_its_root() {
    let part = Address {
        class: 1,
        object: 4,
        part: 2,
    };
    assert!(address(4).contains(part));
    assert!(!part.contains(address(4)));
    assert!(part.contains(part));
    let graph = Graph(vec![edge(2, 1, "a"), edge(3, 2, "n")]);
    assert_eq!(graph.closure(address(1), true), [address(1), address(2)]);
    let reached = graph.closure(address(1), false);
    assert_eq!(reached.len(), 3, "{reached:?}");
    assert!(reached.contains(&address(3)));
}

#[test]
fn a_token_that_does_not_read_back_refuses_the_read() {
    assert_eq!(holds_token(Some("7-1"), "7-1"), Ok(()));
    for probe in [None, Some(""), Some("7-2")] {
        assert_eq!(
            holds_token(probe, "7-1"),
            Err("drop_blockers requires the caller's transaction".to_owned())
        );
    }
}
