//! The library's laws and formulas, on concrete values.
use pbps_pg::emit::{self, Created, Statement};
use pbps_pg::entries::{find, put_in, put_last};
use pbps_pg::error::DialectError;
use pbps_pg::estimate::{against, estimates, relation, Estimate, Lock, Reads, Rewrite, Rows, Shape};
use pbps_pg::granted::{
    default_acl_objects, listed, plural, relation_kind, routine_kind, Permissions,
};
use pbps_pg::lexer;
use pbps_pg::model::{
    is_created, stored_name, Change, ChangeSet, CheckConstraint, Column, ColumnType, DeclaredType,
    ForeignKey, GrantTarget, Index, IndexColumn, Module, ModuleId, ModuleKind, PrimaryKey, Reading,
    ReferentialAction, Strategy, Table, TableName, UniqueConstraint,
};
use pbps_pg::order;
use pbps_pg::sql;
use pbps_pg::text;
use pbps_pg::{Postgres, Unbuilt};

fn integer() -> Column {
    let ty = ColumnType {
        base: "integer".to_owned(),
        args: Vec::new(),
        spelled: "integer".to_owned(),
    };
    Column {
        ty: DeclaredType {
            written: ty.clone(),
            normal: Reading::As(ty),
        },
        nullable: false,
        default: None,
        identity: None,
        serial: None,
    }
}

fn table() -> Table {
    Table {
        columns: vec![("id".to_owned(), integer())],
        primary_key: None,
        unique: Vec::new(),
        checks: Vec::new(),
        foreign_keys: Vec::new(),
        indexes: Vec::new(),
    }
}

fn t() -> TableName {
    TableName::new("app", "t")
}

fn emitted(change: Change) -> Vec<Statement> {
    Postgres::new()
        .emit(&change, Strategy::default())
        .expect("statements")
}

fn sql_of(change: Change) -> Vec<String> {
    emitted(change).into_iter().map(|s| s.sql).collect()
}

fn scoped(body: &str) -> String {
    format!("SET search_path = \"app\";\n{body}\nRESET search_path;")
}

#[test]
fn a_quoted_name_reads_back_as_the_name() {
    for name in ["t", "Odd Name", "a\"b", "\"", "{}", "é"] {
        let quoted: Vec<char> = sql::quote(name).expect("a name").chars().collect();
        assert_eq!(lexer::one_ident_len(&quoted, 0), Some(quoted.len()));
        assert_eq!(text::undouble(&quoted[1..quoted.len() - 1], '"'), name);
    }
    assert_ne!(sql::quote("a\"b"), sql::quote("a\"\"b"));
}

#[test]
fn a_literal_reads_back_as_its_text() {
    assert_eq!(sql::literal("it's"), "'it''s'");
    let written: Vec<char> = sql::literal("it's '{}'").chars().collect();
    assert_eq!(
        lexer::end_of_literal(&written, 1, false),
        Some(written.len())
    );
    assert_eq!(text::undouble(&written[1..written.len() - 1], '\''), "it's '{}'");
}

#[test]
fn a_tag_is_never_in_the_body_it_closes() {
    assert_eq!(sql::dollar_tag("SELECT 1"), "$pbps$");
    assert_eq!(sql::dollar_tag("$pbps$"), "$pbps1$");
    assert_eq!(sql::dollar_tag("$pbps$ $pbps1$ $pbps2$"), "$pbps3$");
}

#[test]
fn a_placeholder_in_an_argument_is_text() {
    assert_eq!(text::fill2("{} and {}", "{}", "x"), "{} and x");
    assert_eq!(
        sql_of(Change::DropTable {
            name: TableName::new("app", "{}"),
        }),
        [scoped("DROP TABLE \"app\".\"{}\";")]
    );
}

#[test]
fn a_write_path_lists_every_schema_once_it_can_list_them() {
    let pg = Postgres::with_write_path_extras(vec!["shared".into()]);
    assert_eq!(pg.write_path_extras(), ["shared"]);
    assert_eq!(
        sql::write_path(&pg, "app"),
        Ok("\"app\", \"shared\"".to_owned())
    );
    for schema in ["$user", "pg_catalog", ""] {
        assert!(sql::write_path(&pg, schema).is_err(), "{schema}");
    }
    assert_eq!(Postgres::default(), Postgres::new());
    assert_eq!(pg.name(), "postgres");
    let framing = pg.transaction_framing();
    assert!(framing.begin.starts_with("SET standard_conforming_strings = on;"));
    assert!(framing.begin.ends_with(" BEGIN;"));
    assert_eq!(framing.commit, "COMMIT;");
    assert_eq!(framing.rollback, "ROLLBACK;");
    let pins = pg.session_pins().expect("pins");
    assert_eq!(framing.begin, format!("{pins} BEGIN;"));
}

#[test]
fn altering_a_module_is_its_drop_and_its_create() {
    let id = ModuleId::Named(TableName::new("app", "v"));
    let module = Module {
        kind: ModuleKind::View,
        definition: "SELECT 1".to_owned(),
    };
    let altered = sql_of(Change::AlterModule {
        id: id.clone(),
        module: module.clone(),
    });
    let dropped = sql_of(Change::DropModule {
        id: id.clone(),
        kind: ModuleKind::View,
    });
    let created = sql_of(Change::CreateModule { id, module });
    assert_eq!(altered, [dropped, created].concat());
}

#[test]
fn what_is_not_built_is_refused_by_its_step() {
    for (change, part) in [
        (
            Change::DropRole { name: "r".into() },
            Unbuilt::Roles,
        ),
        (
            Change::Grant { role: "r".into() },
            Unbuilt::Roles,
        ),
        (
            Change::PublicExecution {
                id: ModuleId::Named(t()),
            },
            Unbuilt::Roles,
        ),
        (
            Change::InsertRow { table: t() },
            Unbuilt::ReferenceData,
        ),
    ] {
        let refused = Postgres::new()
            .emit(&change, Strategy::default())
            .expect_err("not built");
        assert_eq!(refused, part.refuse());
        assert!(refused.message().contains(part.step()), "{refused:?}");
    }
}

#[test]
fn a_rename_sets_the_schema_first_and_ends_at_the_new_name() {
    let other = TableName::new("archive", "old_t");
    let statements = emitted(Change::RenameTable {
        from: t(),
        to: other.clone(),
    });
    let sql: Vec<&str> = statements.iter().map(|s| s.sql.as_str()).collect();
    assert_eq!(
        sql,
        [
            "SET search_path = \"app\";\nALTER TABLE \"app\".\"t\" SET SCHEMA \"archive\";\n\
             RESET search_path;",
            "SET search_path = \"archive\";\nALTER TABLE \"archive\".\"t\" RENAME TO \"old_t\";\n\
             RESET search_path;",
        ]
    );
    let between = TableName::new("archive", "t");
    assert_eq!(statements[0].renames, Some((t(), between.clone())));
    assert_eq!(statements[1].renames, Some((between, other)));
    assert!(emitted(Change::RenameTable { from: t(), to: t() }).is_empty());
}

#[test]
fn a_table_is_created_before_what_is_added_to_it() {
    let mut declared = table();
    declared.primary_key = Some(PrimaryKey {
        name: Some("t_pk".into()),
        columns: vec!["id".into()],
    });
    declared.unique = vec![(
        "t_uq".into(),
        UniqueConstraint {
            columns: vec!["id".into()],
        },
    )];
    declared.checks = vec![(
        "t_ck".into(),
        CheckConstraint {
            expression: "id > 0".into(),
        },
    )];
    declared.indexes = vec![(
        "t_ix".into(),
        Index {
            columns: vec![IndexColumn {
                name: "id".into(),
                descending: false,
            }],
            include_columns: Vec::new(),
            unique: false,
            filter: Some("id > 1".into()),
        },
    )];
    declared.foreign_keys = vec![(
        "t_fk".into(),
        ForeignKey {
            columns: vec!["id".into()],
            references_table: TableName::new("app", "p"),
            references_columns: vec!["id".into()],
            on_delete: ReferentialAction::SetNull,
            on_update: ReferentialAction::NoAction,
        },
    )];
    let statements = emitted(Change::CreateTable {
        name: t(),
        table: declared,
    });
    assert!(statements[0].sql.contains("CREATE TABLE \"app\".\"t\""));
    assert_eq!(statements[0].creates, [Created::Table(t())]);
    assert!(statements[1..]
        .iter()
        .all(|s| !s.creates.contains(&Created::Table(t()))));
    let all: String = statements.iter().map(|s| s.sql.as_str()).collect();
    for part in [
        "CONSTRAINT \"t_pk\" PRIMARY KEY (\"id\")",
        "CONSTRAINT \"t_uq\" UNIQUE (\"id\")",
        "ADD CONSTRAINT \"t_ck\" CHECK (id > 0\n);",
        "CREATE INDEX \"t_ix\" ON \"app\".\"t\" (\"id\" ASC) WHERE (id > 1\n);",
        "CONSTRAINT \"t_fk\" FOREIGN KEY (\"id\") REFERENCES \"app\".\"p\" (\"id\") \
         ON DELETE SET NULL",
    ] {
        assert!(all.contains(part), "{part}: {all}");
    }
}

#[test]
fn each_small_change_is_one_statement() {
    let cases = [
        (
            Change::DropColumn {
                column: t().column("c"),
            },
            "ALTER TABLE \"app\".\"t\" DROP COLUMN \"c\";",
        ),
        (
            Change::RenameColumn {
                table: t(),
                from: "c".into(),
                to: "d".into(),
            },
            "ALTER TABLE \"app\".\"t\" RENAME COLUMN \"c\" TO \"d\";",
        ),
        (
            Change::AlterColumnNullability {
                column: t().column("c"),
                to_nullable: true,
            },
            "ALTER TABLE \"app\".\"t\" ALTER COLUMN \"c\" DROP NOT NULL;",
        ),
        (
            Change::AlterColumnDefault {
                column: t().column("c"),
                from: Some("1".into()),
                to: None,
            },
            "ALTER TABLE \"app\".\"t\" ALTER COLUMN \"c\" DROP DEFAULT;",
        ),
        (
            Change::DropUnique {
                table: t(),
                name: "uq".into(),
            },
            "ALTER TABLE \"app\".\"t\" DROP CONSTRAINT \"uq\";",
        ),
        (
            Change::SetPrimaryKey {
                table: t(),
                from: None,
                to: Some(PrimaryKey {
                    name: None,
                    columns: vec!["id".into()],
                }),
            },
            "ALTER TABLE \"app\".\"t\" ADD PRIMARY KEY (\"id\");",
        ),
    ];
    for (change, body) in cases {
        assert_eq!(sql_of(change), [scoped(body)]);
    }
}

#[test]
fn a_name_that_cannot_be_written_refuses_the_change() {
    let refused = Postgres::new().emit(
        &Change::DropColumn {
            column: t().column(""),
        },
        Strategy::default(),
    );
    assert_eq!(refused, Err(DialectError::UnquotableIdent(String::new())));
}

#[test]
fn a_key_column_that_takes_nulls_is_refused() {
    let mut declared = table();
    declared.columns[0].1.nullable = true;
    declared.primary_key = Some(PrimaryKey {
        name: None,
        columns: vec!["id".into()],
    });
    let found = Postgres::new().validate_table(&t(), &declared, Vec::new());
    assert_eq!(found.len(), 1, "{found:?}");
    assert!(found[0].message().contains("`id`"), "{found:?}");
}

#[test]
fn what_is_refused_of_the_data_comes_last() {
    let data = DialectError::Invalid {
        dialect: "postgres",
        message: "a row has no key".to_owned(),
    };
    let found = Postgres::new().validate_table(
        &TableName::new("app", "__pbps_state"),
        &table(),
        vec![data.clone()],
    );
    assert_eq!(found.len(), 2, "{found:?}");
    assert_eq!(found[1], data);
}

fn measured(created: bool, column: Option<&str>, shape: Option<&Shape>) -> Estimate {
    let plan = ChangeSet {
        changes: if created {
            vec![
                Change::CreateTable {
                    name: t(),
                    table: table(),
                },
                Change::AlterColumnNullability {
                    column: t().column("id"),
                    to_nullable: false,
                },
            ]
        } else {
            vec![Change::AlterColumnNullability {
                column: t().column("id"),
                to_nullable: false,
            }]
        },
    };
    let mut found = estimates(&plan, Strategy::default());
    let mut last = found.pop().expect("an estimate");
    assert_eq!(relation(&mut last), Some("\"app\".\"t\"".to_owned()));
    against(&mut last, column, shape);
    last
}

fn shape() -> Shape {
    Shape {
        relkind: Some("r".into()),
        inherited: Some(false),
        reltuples: Some(12),
        column_is_indexed: Some(false),
        validated_column_check: None,
    }
}

#[test]
fn a_table_is_counted_and_an_unmeasured_shape_takes_the_answer_back() {
    let plain = measured(false, Some("id"), Some(&shape()));
    assert_eq!(plain.rows, Some(Rows::Estimated(12)));
    assert_eq!(plain.reads, Reads::EveryRow);
    assert_eq!(plain.rewrite, Rewrite::No);
    assert_eq!(plain.lock, Lock::AccessExclusive);
    assert_eq!(plain.lock.engine_name(), "AccessExclusiveLock");

    let mut never = shape();
    never.reltuples = Some(-1);
    assert_eq!(
        measured(false, None, Some(&never)).rows,
        Some(Rows::NeverAnalyzed)
    );

    for change in [
        (|s: &mut Shape| s.relkind = Some("p".into())) as fn(&mut Shape),
        |s: &mut Shape| s.inherited = Some(true),
    ] {
        let mut odd = shape();
        change(&mut odd);
        let back = measured(false, Some("id"), Some(&odd));
        assert!(matches!(back.rewrite, Rewrite::Unknown(_)), "{back:?}");
        assert!(matches!(back.reads, Reads::Unknown(_)), "{back:?}");
        assert!(!back.is_cheap());
    }

    let mut checked = shape();
    checked.validated_column_check = Some("id_set".into());
    let spared = measured(false, Some("id"), Some(&checked));
    assert_eq!(spared.rewrite, Rewrite::No);
    let Reads::Unknown(why) = spared.reads else {
        panic!("a check may spare the scan");
    };
    assert!(why.contains("check constraint id_set"), "{why}");
    assert_eq!(
        measured(false, None, Some(&checked)).reads,
        Reads::EveryRow
    );
}

#[test]
fn a_table_that_is_not_there_is_not_an_empty_one() {
    let absent = measured(false, None, None);
    assert_eq!(absent.rows, None);
    assert!(matches!(absent.rewrite, Rewrite::Unknown(_)));
    assert!(absent.rows_unknown.is_some());
    let created = measured(true, None, None);
    assert!(created.created());
    assert_eq!(created.rewrite, Rewrite::No);
    assert!(created.rows_unknown.is_some());
}

#[test]
fn a_name_is_traced_to_the_one_the_catalog_has() {
    let u = TableName::new("app", "u");
    let plan = vec![
        Change::RenameTable {
            from: t(),
            to: u.clone(),
        },
        Change::CreateTable {
            name: t(),
            table: table(),
        },
    ];
    assert_eq!(stored_name(&plan, &u), t());
    assert_eq!(
        stored_name(&plan, &TableName::new("app", "x")),
        TableName::new("app", "x")
    );
    assert!(is_created(&plan, &t()));
    assert!(!is_created(&plan, &u));
}

#[test]
fn texts_come_in_the_order_of_their_characters() {
    assert!(order::comes_before("a", "ab"));
    assert!(order::comes_before("Z", "a"));
    assert!(order::comes_before("z", "é"));
    assert!(!order::comes_before("a", "a"));
    let mut list = Vec::new();
    for s in ["b", "a", "c", "a"] {
        order::insert(&mut list, s.to_owned());
    }
    assert_eq!(list, ["a", "b", "c"]);
}

#[test]
fn an_entry_is_put_once_and_found_again() {
    let role = |s: &str| GrantTarget::Schema(s.to_owned());
    let held = |s: &str| Permissions(vec![s.to_owned()]);
    let mut sorted = Vec::new();
    let mut kept = Vec::new();
    for (target, permission) in [("b", "SELECT"), ("a", "INSERT"), ("b", "DELETE")] {
        put_in(&mut sorted, role(target), held(permission));
        put_last(&mut kept, role(target), held(permission));
    }
    assert_eq!(
        sorted,
        [(role("a"), held("INSERT")), (role("b"), held("DELETE"))]
    );
    assert_eq!(find(&sorted, &role("b")), Some(&held("DELETE")));
    assert_eq!(find(&sorted, &role("c")), None);
    assert_eq!(kept.len(), 2);
    assert_eq!(find(&kept, &role("b")), Some(&held("DELETE")));
}

#[test]
fn a_targets_kinds_come_objects_routines_schemas() {
    let held = Permissions(vec!["SELECT".to_owned()]);
    let mut list = Vec::new();
    let object = GrantTarget::Object(t());
    let routine = GrantTarget::Routine {
        name: TableName::new("app", "a"),
        args: Vec::new(),
    };
    let schema = GrantTarget::Schema("a".to_owned());
    for target in [&schema, &routine, &object] {
        put_in(&mut list, target.clone(), held.clone());
    }
    let targets: Vec<GrantTarget> = list.into_iter().map(|(target, _)| target).collect();
    assert_eq!(targets, [object, routine, schema]);
    let shown: Vec<String> = targets.iter().map(GrantTarget::show).collect();
    assert_eq!(shown, ["app.t", "app.a()", "schema::a"]);
}

#[test]
fn numbers_and_lists_are_written_out() {
    assert_eq!(text::show(0), "0");
    assert_eq!(text::show(u64::MAX), "18446744073709551615");
    assert_eq!(text::show_int(i64::MIN), "-9223372036854775808");
    assert_eq!(text::show_len(63), "63");
    assert_eq!(plural(1, "routine"), "1 routine");
    assert_eq!(plural(0, "routine"), "0 routines");
    assert_eq!(plural(4, "routine"), "4 routines");
    let names: Vec<String> = (1..=12).map(|n| format!("r{n}")).collect();
    assert_eq!(listed(&names[..2].to_vec()), "r1, r2");
    assert_eq!(
        listed(&names),
        "r1, r2, r3, r4, r5, r6, r7, r8, r9, r10 and 2 more"
    );
    assert_eq!(default_acl_objects('S'), "the sequences");
    assert_eq!(relation_kind('m'), "a materialized view");
    assert_eq!(routine_kind('w'), "a window function");
}

#[test]
fn folding_twice_is_folding_once() {
    for name in ["Customer", "AÄ", "x"] {
        let once = text::fold(name);
        assert_eq!(text::fold(&once), once);
    }
}

#[test]
fn only_an_ordinary_index_is_built_concurrently() {
    let index = |filter: Option<&str>| Index {
        columns: Vec::new(),
        include_columns: Vec::new(),
        unique: false,
        filter: filter.map(str::to_owned),
    };
    let online = Strategy { online: true };
    assert!(emit::built_concurrently(&index(None), online));
    assert!(!emit::built_concurrently(&index(Some("n > 0")), online));
    assert!(!emit::built_concurrently(&index(None), Strategy::default()));
}

#[test]
fn the_namespaces_of_the_kinds_are_the_engines() {
    let pg = Postgres::new();
    assert!(pg.shares_namespace_with_tables(ModuleKind::View));
    assert!(!pg.shares_namespace_with_tables(ModuleKind::Function));
    assert!(pg.overloads(ModuleKind::Procedure));
    assert!(!pg.overloads(ModuleKind::Trigger));
}

#[test]
fn a_rename_is_measured_under_the_name_its_table_has_before_it() {
    let rename = |from: &str, to: &str| Change::RenameTable {
        from: TableName::new("app", from),
        to: TableName::new("app", to),
    };
    let plan = ChangeSet {
        changes: vec![rename("b", "c"), rename("a", "b")],
    };
    let found: Vec<(String, String)> = estimates(&plan, Strategy::default())
        .iter()
        .map(|e| (e.table.show(), e.stored().show()))
        .collect();
    assert_eq!(
        found,
        [
            ("app.b".to_owned(), "app.b".to_owned()),
            ("app.a".to_owned(), "app.a".to_owned())
        ]
    );
    let replaced = ChangeSet {
        changes: vec![
            rename("t", "old"),
            Change::CreateTable {
                name: t(),
                table: table(),
            },
        ],
    };
    let measured = estimates(&replaced, Strategy::default());
    assert!(!measured[0].created());
    let twice = vec![rename("a", "b"), rename("b", "c")];
    assert_eq!(
        stored_name(&twice, &TableName::new("app", "c")),
        TableName::new("app", "a")
    );
    let new = vec![
        Change::CreateTable {
            name: t(),
            table: table(),
        },
        rename("t", "u"),
    ];
    assert!(is_created(&new, &TableName::new("app", "u")));
}

#[test]
fn grouping_comes_off_once_and_for_all() {
    let ungrouped = |s: &str| -> String {
        let cs: Vec<char> = s.chars().collect();
        lexer::without_grouping(&cs).iter().collect()
    };
    assert_eq!(ungrouped("(/* ) */ 'x')"), "/* ) */ 'x'");
    assert_eq!(ungrouped("('a') || ('b')"), "('a') || ('b')");
    assert_eq!(ungrouped(" (( a ) ) "), "a");
    for s in ["(/* ) */ 'x')", "('a') || ('b')", " (( a ) ) ", "", "(", "( )"] {
        let once = ungrouped(s);
        assert_eq!(ungrouped(&once), once);
        assert!(s.contains(&once));
        assert_eq!(once.trim_matches([' ', '\t', '\n', '\r', '\u{c}']), once);
    }
}

#[test]
fn what_stands_around_a_literal_leaves_it_bare() {
    for e in [
        "'x'",
        "E'a\\'b'",
        "$t$ -- ' ( $t$",
        "('x' -- note",
        "'a'\n 'b' -- tail",
        " /* ( */ (( U&'x' )) /* ) */ ",
    ] {
        let bare = lexer::is_a_bare_literal(e);
        assert_eq!(bare, e != "('x' -- note", "{e}");
        assert_eq!(lexer::is_a_bare_literal(&format!("/* c */ {e}")), bare, "{e}");
        if bare {
            assert!(lexer::is_a_bare_literal(&format!("({e}\n)")), "{e}");
            assert!(lexer::is_a_bare_literal(&format!("{e} -- c")), "{e}");
        }
    }
}

#[test]
fn an_estimate_can_be_read_part_by_part() {
    let rename = Change::RenameTable {
        from: t(),
        to: TableName::new("app", "u"),
    };
    let plan = ChangeSet {
        changes: vec![rename],
    };
    let mut found = estimates(&plan, Strategy::default());
    assert_eq!(found[0].about(), "renaming the table app.t");
    assert_eq!(found[0].table(), &t());
    assert_eq!(found[0].rewrite(), &Rewrite::No);
    assert_eq!(found[0].reads(), &Reads::Nothing);
    assert_eq!(found[0].lock(), Lock::AccessExclusive);
    assert!(found[0].also_locks().is_empty());
    assert_eq!(found[0].rows(), None);
    assert_eq!(found[0].rows_unknown(), None);
    against(&mut found[0], None, None);
    assert_eq!(
        found[0].rows_unknown(),
        Some("this database has no table by that name to measure")
    );
}

#[test]
fn the_lexis_is_this_engines() {
    let lexicon = Postgres::new().lexicon();
    assert_eq!(lexicon.quoted_identifiers, [('"', '"')]);
    assert!(lexicon.escape_strings);
    assert!(lexicon.dollar_quoted_strings);
    assert_eq!(lexicon.string_prefixes, ["u&", "e", "n", "b", "x"]);
    assert!(lexicon.unicode_identifiers);
    assert!(lexicon.identifier_continues('$'));
    assert!(lexicon.identifier_continues('\u{e9}'));
    assert!(!lexicon.identifier_continues('['));
}
