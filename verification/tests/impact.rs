//! What a rename leaves broken, and where it is said.
use pbps_pg::error::DialectError;
use pbps_pg::impact::{
    column_number, mentions, notes, relation_name, rename_impact, rename_targets, resolved,
    ImpactReport, NamedObject, Referrer, RenameTarget, TextRoutine, ATTNUM, CARRIED,
    NAMED_OBJECTS, RELATION, TEXT_BODIED_ROUTINES,
};
use pbps_pg::lexer;
use pbps_pg::model::{Change, ChangeSet, ModuleId, ModuleKind, TableName};

fn tname(s: &str) -> TableName {
    let (schema, name) = s.split_once('.').expect("a table name");
    TableName::new(schema, name)
}

/// The body with its literals and comments blanked out.
fn code_only(body: &str) -> String {
    let chars: Vec<char> = body.chars().collect();
    let mut out = String::new();
    let mut at = 0;
    while at < chars.len() {
        if chars[at] == '"' {
            let end = lexer::one_ident_len(&chars, at).unwrap_or(chars.len());
            out.extend(&chars[at..end]);
            at = end;
        } else if let Some(end) = lexer::skip_datum_at(&chars, at) {
            out.push(' ');
            at = end;
        } else {
            out.push(chars[at]);
            at += 1;
        }
    }
    out
}

fn mentions_name(body: &str, name: &str) -> bool {
    mentions(&code_only(body), name, name == "select")
}


#[test]
fn targets_are_taken_from_the_old_names() {
    let cs = ChangeSet {
        changes: vec![
            Change::RenameTable {
                from: tname("app.client"),
                to: tname("app.customer"),
            },
            Change::RenameColumn {
                table: tname("app.customer"),
                from: "email".into(),
                to: "contact_email".into(),
            },
            Change::DropTable {
                name: tname("app.old"),
            },
        ],
    };
    assert_eq!(
        rename_targets(&cs),
        [
            RenameTarget::Table(tname("app.client")),
            RenameTarget::Column(tname("app.client").column("email")),
        ],
        "only renames, and by their old names — table and column alike"
    );
}

#[test]
fn a_column_rename_alone_keeps_the_table_it_names() {
    let cs = ChangeSet {
        changes: vec![
            Change::RenameTable {
                from: tname("app.order"),
                to: tname("app.purchase"),
            },
            Change::RenameColumn {
                table: tname("app.customer"),
                from: "email".into(),
                to: "contact_email".into(),
            },
        ],
    };
    assert_eq!(
        rename_targets(&cs),
        [
            RenameTarget::Table(tname("app.order")),
            RenameTarget::Column(tname("app.customer").column("email")),
        ],
        "a table this plan does not rename is not translated"
    );
}

#[test]
fn a_module_drop_is_left_to_the_module_reader() {
    let cs = ChangeSet {
        changes: vec![Change::DropModule {
            id: ModuleId::Named(tname("app.active_customer")),
            kind: ModuleKind::View,
        }],
    };
    assert!(rename_targets(&cs).is_empty(), "{cs:#?}");
}

#[test]
fn a_column_target_reports_its_own_table() {
    let target = RenameTarget::Column(tname("app.customer").column("email"));
    assert_eq!(target.table(), tname("app.customer"));
    assert_eq!(target.show(), "column app.customer.email");
    assert_eq!(target.column(), Some("email"));
    assert_eq!(RenameTarget::Table(tname("app.customer")).column(), None);
}

#[test]
fn embedded_quotes_in_impact_names_use_the_emitters_spelling() {
    assert!(mentions_name(r#"SELECT "a""b" FROM t"#, "a\"b"));
    assert!(!mentions_name(r#"SELECT "ab" FROM t"#, "a\"b"));
    assert!(!mentions_name(r#"SELECT "a""""b" FROM t"#, "a\"b"));
}

#[test]
fn bare_reserved_words_are_not_impact_references() {
    for body in ["select 1", "SELECT 1", "SELECT other FROM t"] {
        assert!(!mentions_name(body, "select"), "{body}");
    }
    for body in [
        r#"SELECT "select" FROM t"#,
        "SELECT t.select FROM t",
        "SELECT t . SELECT FROM t",
        "SELECT t /* gap */ . select FROM t",
        "SELECT t .\u{000b}select FROM t",
    ] {
        assert!(mentions_name(body, "select"), "{body}");
    }
}

#[test]
fn quoted_impact_references_match_only_the_complete_identifier() {
    for body in [
        r#"SELECT "other email" FROM t"#,
        r#"SELECT "other EMAIL" FROM t"#,
        r#"SELECT "email other" FROM t"#,
        r#"SELECT "other ""email""" FROM t"#,
    ] {
        assert!(!mentions_name(body, "email"), "{body}");
    }
    assert!(mentions_name(r#"SELECT "email" FROM t"#, "email"));
    assert!(mentions_name(r#"SELECT "other email", email FROM t"#, "email"));
    assert!(!mentions_name(r#"SELECT "unfinished email"#, "email"));
}

#[test]
fn impact_references_ignore_literals_and_comments() {
    for body in [
        "RAISE NOTICE 'email';",
        "RAISE NOTICE 'EMAIL';",
        r"SELECT E'quote\' EMAIL';",
        "SELECT $$email$$;",
        "SELECT $message$EMAIL$message$;",
        r"SELECT U&'email';",
        "-- email\nSELECT 1",
        "/* email /* EMAIL */ email */ SELECT 1",
    ] {
        assert!(!mentions_name(body, "email"), "{body}");
    }
    assert!(mentions_name("SELECT email FROM t; RAISE NOTICE 'unrelated';",
        "email"
    ));
    assert!(mentions_name("-- email\nSELECT EMAIL FROM t", "email"));
}

#[test]
fn a_body_names_the_column_only_where_the_name_stands_alone() {
    assert!(mentions_name("SELECT email FROM customer", "email"));
    assert!(mentions_name("SELECT \"email\" FROM customer", "email"));
    assert!(mentions_name("RETURN (SELECT email);", "email"));
    assert!(mentions_name("email", "email"));

    assert!(!mentions_name("SELECT email_address FROM t", "email"));
    assert!(!mentions_name("SELECT contact_email FROM t", "email"));
    assert!(!mentions_name("SELECT emailx FROM t", "email"));
    assert!(!mentions_name("SELECT xä FROM t", "ä"));
    assert!(!mentions_name("SELECT äx FROM t", "ä"));
    assert!(mentions_name("SELECT ä FROM t", "ä"));
    assert!(!mentions_name("SELECT 王小明x FROM t", "王小明"));
    assert!(mentions_name("SELECT 王小明 FROM t", "王小明"));
    assert!(!mentions_name("SELECT email FROM t", ""));

    assert!(!mentions_name("SELECT email$1 FROM t", "email"));
    assert!(mentions_name("SELECT @email FROM t", "email"));
    assert!(!mentions_name("SELECT emailä FROM t", "email"));
}

#[test]
fn an_unquoted_mention_folds_case_and_a_quoted_one_does_not() {
    assert!(mentions_name("SELECT EMAIL FROM customer", "email"));
    assert!(mentions_name("SELECT Email FROM customer", "email"));
    assert!(!mentions_name("SELECT \"EMAIL\" FROM customer", "email"));
    assert!(!mentions_name("SELECT \"Email\" FROM customer", "email"));

    assert!(mentions_name("SELECT \"EMAIL\" FROM customer", "EMAIL"));

    assert!(!mentions_name("SELECT EMAIL FROM customer", "Email"));
    assert!(!mentions_name("SELECT email FROM customer", "Email"));
    assert!(mentions_name("SELECT \"Email\" FROM customer", "Email"));

    assert!(!mentions_name("SELECT EMAILX FROM t", "email"));

    assert!(mentions_name("SELECT \"email\" FROM customer", "email"));

    assert!(mentions_name("SELECT AÄ FROM t", "aÄ"));
}

#[test]
fn the_queries_ask_the_engine_which_bodies_it_parsed() {
    assert!(
        TEXT_BODIED_ROUTINES.contains("p.prosqlbody IS NULL"),
        "a language list would put `sql` on both sides of the line"
    );
    assert!(
        TEXT_BODIED_ROUTINES.contains("d.deptype = 'e'"),
        "extensions"
    );
    assert!(
        CARRIED.contains("d.deptype <> 'i'"),
        "an internal edge is the object's own parts"
    );
    assert!(
        CARRIED.contains("d.refobjsubid IN (0, $2)"),
        "a whole-relation edge reaches a column rename too"
    );
    assert!(
        ATTNUM.contains("NOT a.attisdropped"),
        "a dropped column keeps its slot (ADR-0012 §6)"
    );
    assert!(RELATION.contains("to_regclass($1)"), "{RELATION}");
    assert!(!RELATION.contains("$1::regclass"), "{RELATION}");
    for sql in [CARRIED, NAMED_OBJECTS, ATTNUM] {
        assert!(!sql.contains("to_regclass"), "{sql}");
        assert!(sql.contains("($1::int8)::oid"), "{sql}");
    }
}

#[test]
fn an_empty_report_knows_it_is_empty() {
    let r = ImpactReport {
        target: "column app.customer.email".into(),
        blocking: Vec::new(),
        advisory: Vec::new(),
        carried: Vec::new(),
    };
    assert!(r.is_empty());
    assert_eq!(notes(&r).len(), 1, "{:?}", notes(&r));
}

#[test]
fn a_target_is_asked_about_by_its_quoted_name_and_a_module_is_refused() {
    assert_eq!(
        relation_name(&RenameTarget::Table(tname("app.odd\"name"))),
        Ok("\"app\".\"odd\"\"name\"".to_owned())
    );
    assert!(matches!(
        relation_name(&RenameTarget::Table(TableName::new("app", ""))),
        Err(DialectError::UnquotableIdent(_))
    ));
    let module = RenameTarget::Module(ModuleId::Named(tname("app.v")));
    let refused = relation_name(&module).expect_err("a module is no target");
    assert!(
        refused.message().contains("module app.v is not a rename target"),
        "{refused:?}"
    );
}

#[test]
fn what_is_not_there_is_refused_and_not_answered() {
    let column = RenameTarget::Column(tname("app.t").column("c"));
    assert_eq!(resolved(&column, Some(16384)), Ok(16384));
    let refused = resolved(&column, None).expect_err("no table");
    assert!(
        refused.message().starts_with("app.t is not a table this database has"),
        "{refused:?}"
    );
    assert_eq!(column_number(&column, Some(Some(3))), Ok(3));
    assert_eq!(column_number(&column, Some(None)), Ok(0));
    let refused = column_number(&column, None).expect_err("no column");
    assert!(
        refused
            .message()
            .starts_with("column app.t.c is not a column this database has"),
        "{refused:?}"
    );
    assert_eq!(column_number(&RenameTarget::Table(tname("app.t")), None), Ok(0));
}

#[test]
fn a_report_holds_the_bodies_that_break_the_names_that_go_stale_and_what_is_carried() {
    let target = RenameTarget::Column(tname("app.customer").column("email"));
    let body = |name: &str, code: &str| TextRoutine {
        schema_name: "app".into(),
        routine_name: name.into(),
        args: "integer".into(),
        kind: "function".into(),
        language: "plpgsql".into(),
        code: code.into(),
    };
    let object = |name: &str| NamedObject {
        kind: "index".into(),
        name: name.into(),
    };
    let report = rename_impact(
        &target,
        false,
        &vec![
            body("quiet", "RETURN 1"),
            body("loud", "RETURN (SELECT email FROM customer)"),
        ],
        &vec![object("customer_email_ix"), object("customer_pk")],
        &vec!["view app.v".to_owned()],
    );
    assert_eq!(report.target, "column app.customer.email");
    assert!(report.blocking.is_empty());
    assert_eq!(
        report.advisory,
        [
            Referrer {
                kind: "function".into(),
                name: "app.loud(integer)".into(),
                detail: Some(
                    "its plpgsql body is text this engine never parsed, so the rename does not \
                     reach it and the failure lands the next time it runs"
                        .into()
                ),
            },
            Referrer {
                kind: "index".into(),
                name: "customer_email_ix".into(),
                detail: Some("the name embeds the old column name".into()),
            },
        ]
    );
    assert_eq!(
        report.carried,
        [Referrer {
            kind: "carried".into(),
            name: "view app.v".into(),
            detail: None,
        }]
    );
    assert!(!report.is_empty());
    assert_eq!(notes(&report).len(), 3);
}

#[test]
fn a_table_target_reads_bodies_by_the_table_and_no_names() {
    let target = RenameTarget::Table(tname("app.customer"));
    let report = rename_impact(
        &target,
        false,
        &vec![],
        &vec![NamedObject {
            kind: "index".into(),
            name: "customer_pk".into(),
        }],
        &vec![],
    );
    assert!(report.is_empty());
    assert!(rename_targets(&ChangeSet {
        changes: vec![Change::DropModule {
            id: ModuleId::Named(tname("app.v")),
            kind: ModuleKind::View,
        }],
    })
    .is_empty());
}

#[test]
fn a_rename_of_a_rename_is_asked_about_under_the_name_the_catalog_has() {
    let table = |from: &str, to: &str| Change::RenameTable {
        from: tname(from),
        to: tname(to),
    };
    let column = |on: &str, from: &str, to: &str| Change::RenameColumn {
        table: tname(on),
        from: from.into(),
        to: to.into(),
    };
    let targets = |changes: Vec<Change>| rename_targets(&ChangeSet { changes });
    assert_eq!(
        targets(vec![table("app.a", "app.b"), table("app.b", "app.c")]),
        [
            RenameTarget::Table(tname("app.a")),
            RenameTarget::Table(tname("app.a")),
        ]
    );
    assert_eq!(
        targets(vec![table("app.b", "app.c"), table("app.a", "app.b")]),
        [
            RenameTarget::Table(tname("app.b")),
            RenameTarget::Table(tname("app.a")),
        ]
    );
    assert_eq!(
        targets(vec![
            table("app.a", "app.b"),
            column("app.b", "x", "y"),
            column("app.b", "y", "z"),
        ]),
        [
            RenameTarget::Table(tname("app.a")),
            RenameTarget::Column(tname("app.a").column("x")),
            RenameTarget::Column(tname("app.a").column("x")),
        ]
    );
    assert_eq!(
        targets(vec![
            column("app.a", "y", "z"),
            column("app.a", "x", "y"),
        ]),
        [
            RenameTarget::Column(tname("app.a").column("y")),
            RenameTarget::Column(tname("app.a").column("x")),
        ]
    );
    assert_eq!(
        targets(vec![column("app.b", "x", "y"), table("app.a", "app.b")]),
        [
            RenameTarget::Column(tname("app.a").column("x")),
            RenameTarget::Table(tname("app.a")),
        ],
        "whichever of the two stands first"
    );
}
