//! The routines a plan pins against replacement.
use pbps_pg::pins::{
    concluded, framing, pinned_routines_query, read, routine, routine_with, server_version, RoutineRow,
    Within, AGGREGATE_ROW,
};

#[test]
fn every_regproc_aggregate_column_is_read_as_an_oid() {
    for column in [
        "aggfnoid",
        "aggtransfn",
        "aggfinalfn",
        "aggcombinefn",
        "aggserialfn",
        "aggdeserialfn",
        "aggmtransfn",
        "aggminvtransfn",
        "aggmfinalfn",
    ] {
        assert!(
            AGGREGATE_ROW.contains(&format!("'{column}', a.{column}::oid")),
            "{column} is not cast to oid"
        );
    }
}

#[test]
fn the_routine_row_leaves_out_nothing_but_its_own_oid_and_acl() {
    let query = pinned_routines_query();
    assert!(query.contains("(pg_catalog.to_jsonb(p) - 'oid' - 'proacl')"));
    assert!(query.contains("aclexplode(p.proacl)"));
    assert!(!query.contains("pg_get_functiondef"));
}

#[test]
fn temporary_schemas_are_left_out_by_the_engines_own_predicate() {
    let query = pinned_routines_query();
    assert!(query.contains("NOT pg_catalog.pg_is_other_temp_schema(p.pronamespace)"));
    assert!(query.contains("pg_catalog.pg_my_temp_schema()"));
    assert!(!query.contains("pg_temp_"));
}

fn row(args: &str) -> RoutineRow {
    RoutineRow {
        namespace: Some(2200),
        schema_name: Some("app".into()),
        name: Some("f".into()),
        args: Some(args.into()),
        input: Some("{}".into()),
    }
}

#[test]
fn a_routines_argument_types_are_read_out_of_their_list() {
    let read = routine(&row(r#"["integer", "app.\"a,b\"", "café"]"#)).expect("a routine");
    assert_eq!(read.namespace, 2200);
    assert_eq!(read.schema, "app");
    assert_eq!(read.name, "f");
    assert_eq!(read.args, ["integer", "app.\"a,b\"", "café"]);
    assert_eq!(read.input, "{}");
    assert!(routine(&row("[]")).expect("a routine").args.is_empty());
}

#[test]
fn a_list_that_does_not_read_is_refused() {
    for text in ["", "integer", "[1]", "[\"a\"", "{}"] {
        let refused = routine(&row(text)).expect_err("no list of texts");
        assert!(
            refused.starts_with("a routine's argument list is not JSON: "),
            "{refused}"
        );
    }
    assert_eq!(
        routine_with(&row("[]"), Err("it ends".into())),
        Err("a routine's argument list is not JSON: it ends".to_owned())
    );
    assert_eq!(
        routine_with(&row("[]"), Ok(vec!["text".into()]))
            .expect("a routine")
            .args,
        ["text"]
    );
}

#[test]
fn a_null_is_refused_by_its_column() {
    let blank = |f: fn(&mut RoutineRow)| {
        let mut r = row("[]");
        f(&mut r);
        routine(&r).expect_err("a null")
    };
    assert_eq!(
        blank(|r| r.namespace = None),
        "column `namespace` is unexpectedly NULL"
    );
    assert_eq!(
        blank(|r| r.schema_name = None),
        "column `schema_name` is unexpectedly NULL"
    );
    assert_eq!(
        blank(|r| r.name = None),
        "column `name` is unexpectedly NULL"
    );
    assert_eq!(
        blank(|r| r.args = None),
        "column `args` is unexpectedly NULL"
    );
    assert_eq!(
        blank(|r| r.input = None),
        "column `input` is unexpectedly NULL"
    );
}

#[test]
fn a_read_is_the_version_and_every_routine() {
    let pins = read(
        Some(Some("180006".into())),
        &vec![row("[\"text\"]"), row("[]")],
    )
    .expect("a read");
    assert_eq!(pins.server_version, "180006");
    assert_eq!(pins.routines.len(), 2);
    assert_eq!(pins.routines[0].args, ["text"]);
    assert!(read(Some(Some("180006".into())), &vec![row("[]"), row("x")]).is_err());
    assert_eq!(
        server_version(None),
        Err("`server_version_num` returned no row".to_owned())
    );
    assert_eq!(
        server_version(Some(None)),
        Err("column `version` is unexpectedly NULL".to_owned())
    );
}

#[test]
fn the_read_is_undone_wherever_it_runs() {
    assert_eq!(
        framing(Within::OwnTransaction),
        (
            "BEGIN ISOLATION LEVEL READ COMMITTED READ ONLY;",
            vec!["ROLLBACK;"]
        )
    );
    assert_eq!(
        framing(Within::CallersTransaction),
        (
            "SAVEPOINT pbps_routine_pins",
            vec![
                "ROLLBACK TO SAVEPOINT pbps_routine_pins",
                "RELEASE SAVEPOINT pbps_routine_pins"
            ]
        )
    );
}

#[test]
fn a_failed_read_is_what_a_read_comes_to() {
    let found = pbps_pg::pins::Read {
        server_version: "170000".to_owned(),
        routines: Vec::new(),
    };
    assert_eq!(concluded(Ok::<_, &str>(found.clone()), Ok(())), Ok(found.clone()));
    assert_eq!(concluded(Ok(found), Err("closing")), Err("closing"));
    assert_eq!(concluded(Err("reading"), Ok(())), Err("reading"));
    assert_eq!(concluded(Err("reading"), Err("closing")), Err("reading"));
}
