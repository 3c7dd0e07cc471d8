//! A catalog's rows, read back.
//!
//! The declaration format these tests stand in for writes names joined by
//! dots and reads them by splitting on every dot, opens a signature with a
//! parenthesis, and knows a handful of types.
use pbps_pg::granted::{self, Role};
use pbps_pg::introspect::{
    self, module_identity, stored_type, survives_the_declaration, GrantedKind, Identity, Pulled,
    PulledTable, RawCatalog, RawColumn, RawConstraint, RawDefaultAcl, RawGrant, RawIdentity,
    RawIndex, RawModule, RawModuleArg, RawOtherGrant, RawRole, RawSharedDependency, RawTable,
    ReadArg, ReadBack, ReadType, SequenceBounds,
};
use pbps_pg::model::{
    ColumnRef, ColumnType, GrantTarget, ModuleId, ReferentialAction, RoutineArg, TableName,
    TypeArg,
};

fn find<'a, T>(list: &'a [(String, T)], name: &str) -> Option<&'a T> {
    list.iter().find(|(n, _)| n == name).map(|(_, value)| value)
}

fn entry<'a, T>(list: &'a [(String, T)], name: &str) -> &'a T {
    find(list, name).expect("the entry is there")
}

fn names_of<T>(list: &[(String, T)]) -> Vec<&str> {
    list.iter().map(|(name, _)| name.as_str()).collect()
}

fn table_of<'a>(pulled: &'a Pulled, schema: &str, name: &str) -> &'a PulledTable {
    let wanted = TableName::new(schema, name);
    let found = pulled.schema.tables.iter().find(|(n, _)| *n == wanted);
    &found.expect("the table is there").1
}

fn parse_type(spelled: &str) -> Option<ColumnType> {
    let (base, args) = match spelled.split_once('(') {
        None => (spelled, Vec::new()),
        Some((base, rest)) => {
            let inner = rest.strip_suffix(')')?;
            let args = inner
                .split(',')
                .map(|a| a.trim().parse::<i64>().ok().map(TypeArg::Int))
                .collect::<Option<Vec<TypeArg>>>()?;
            (base, args)
        }
    };
    if base.is_empty() || !base.chars().all(|c| c.is_ascii_alphanumeric() || c == ' ' || c == '_') {
        return None;
    }
    Some(ColumnType {
        base: base.to_owned(),
        args,
        spelled: spelled.to_owned(),
    })
}

fn is_catalogued(ty: &ColumnType) -> bool {
    match ty.base.as_str() {
        "integer" | "bigint" | "text" | "timestamp with time zone" => ty.args.is_empty(),
        "numeric" => true,
        _ => false,
    }
}

fn types_read(spellings: &[&str]) -> ReadBack {
    let mut read = ReadBack::default();
    for spelling in spellings {
        if let Some(ty) = parse_type(spelling) {
            let normal = if is_catalogued(&ty) { Some(ty.clone()) } else { None };
            read.types.push(((*spelling).to_owned(), ReadType { read: ty, normal }));
        }
    }
    read
}

fn parse_arg(spelled: &str) -> ReadArg {
    if spelled.matches('"').count() % 2 == 1 {
        return ReadArg::Refused("a quote in it is never closed".to_owned());
    }
    if spelled.contains(';') {
        return ReadArg::Refused("it holds a character no type has".to_owned());
    }
    ReadArg::As(RoutineArg {
        text: spelled.to_owned(),
        canonical: spelled.to_owned(),
        element: spelled.to_owned(),
        array: false,
        catalogued: true,
        overlong: None,
    })
}

fn parse_object(text: &str) -> Option<TableName> {
    let parts: Vec<&str> = text.split('.').collect();
    if parts.len() == 2 && parts.iter().all(|p| !p.is_empty()) {
        Some(TableName::new(parts[0], parts[1]))
    } else {
        None
    }
}

fn parse_signature(text: &str) -> Option<(TableName, Vec<RoutineArg>)> {
    let (name, rest) = text.split_once('(')?;
    let inner = rest.strip_suffix(')')?;
    let name = parse_object(name)?;
    let mut args = Vec::new();
    let mut from = 0;
    let mut quoted = false;
    let mut pieces = Vec::new();
    for (at, c) in inner.char_indices() {
        if c == '"' {
            quoted = !quoted;
        } else if c == ',' && !quoted {
            pieces.push(&inner[from..at]);
            from = at + 1;
        }
    }
    if !inner.is_empty() {
        pieces.push(&inner[from..]);
    }
    for piece in pieces {
        match parse_arg(piece) {
            ReadArg::As(arg) => args.push(arg),
            ReadArg::Refused(_) => return None,
        }
    }
    Some((name, args))
}

fn parse_module(text: &str) -> Option<ModuleId> {
    if text.contains('(') {
        let (name, args) = parse_signature(text)?;
        return Some(ModuleId::Routine { name, args });
    }
    let parts: Vec<&str> = text.split('.').collect();
    match parts.as_slice() {
        [schema, name] => Some(ModuleId::Named(TableName::new(schema, name))),
        [schema, table, name] => Some(ModuleId::Trigger {
            on: TableName::new(schema, table),
            name: (*name).to_owned(),
        }),
        _ => None,
    }
}

fn parse_target(text: &str) -> Option<GrantTarget> {
    if let Some(schema) = text.strip_prefix("schema::") {
        return Some(GrantTarget::Schema(schema.to_owned()));
    }
    if text.contains('(') {
        let (name, args) = parse_signature(text)?;
        return Some(GrantTarget::Routine { name, args });
    }
    parse_object(text).map(GrantTarget::Object)
}

/// What the declaration format makes of everything a catalog would write.
fn read_back(raw: &RawCatalog) -> ReadBack {
    let spellings: Vec<&str> = raw.columns.iter().map(|c| c.ty.as_str()).collect();
    let mut read = types_read(&spellings);
    for t in &raw.tables {
        let name = TableName::new(&t.schema, &t.name);
        if let Some(back) = parse_object(&name.show()) {
            read.tables.push((name.show(), back));
        }
        for c in raw.columns.iter().filter(|c| c.table_oid == t.oid) {
            let written = name.column(&c.name).show();
            let parts: Vec<&str> = written.split('.').collect();
            if let [schema, table, column] = parts.as_slice() {
                let back = ColumnRef {
                    table: TableName::new(schema, table),
                    name: (*column).to_owned(),
                };
                read.columns.push((written.clone(), back));
            }
        }
    }
    for arg in raw.module_args.iter().chain(&raw.routine_args) {
        read.args.push((arg.ty.clone(), parse_arg(&arg.ty)));
    }
    for m in &raw.modules {
        if let Ok((_, id)) = module_identity(raw, &read, m) {
            if let Some(back) = parse_module(&id.show()) {
                read.modules.push((id.show(), back));
            }
        }
    }
    for g in &raw.grants {
        if let Ok(target) = granted::target_of(g, &raw.routine_args, &read) {
            if let Some(back) = parse_target(&target.show()) {
                read.targets.push((target.show(), back));
            }
        }
    }
    for word in ["SELECT", "INSERT", "UPDATE", "DELETE", "EXECUTE", "USAGE", "MAINTAIN"] {
        read.permissions.push((word.to_owned(), word.to_owned()));
    }
    for increment in [1, 2] {
        read.bounds.push(SequenceBounds {
            ty: "integer".to_owned(),
            increment,
            min: 1,
            max: i64::from(i32::MAX),
        });
    }
    read
}

fn assemble(raw: &RawCatalog) -> Pulled {
    introspect::assemble(raw, &read_back(raw))
}

fn raw_module(kind: char, name: &str, definition: &str) -> RawModule {
    RawModule {
        oid: 1,
        kind,
        schema: "app".into(),
        name: name.into(),
        on_table: String::new(),
        definition: definition.into(),
    }
}

fn modules(raw: RawCatalog) -> Pulled {
    assemble(&raw)
}

fn role(name: &str) -> RawRole {
    RawRole {
        name: name.to_owned(),
        superuser: false,
    }
}

fn grant(
    grantee: Option<&str>,
    object: Option<&str>,
    kind: GrantedKind,
    permission: &str,
) -> RawGrant {
    RawGrant {
        grantee: grantee.map(str::to_owned),
        schema: "app".to_owned(),
        object: object.map(str::to_owned),
        routine_oid: if matches!(kind, GrantedKind::Routine(_)) { Some(1) } else { None },
        kind,
        permission: permission.to_owned(),
        grantable: false,
        column: None,
        defaulted: false,
        owner: "deploy".to_owned(),
    }
}

fn signature(types: &[&str]) -> Vec<RawModuleArg> {
    types
        .iter()
        .enumerate()
        .map(|(at, ty)| RawModuleArg {
            routine_oid: 1,
            position: at as i64 + 1,
            ty: (*ty).to_owned(),
        })
        .collect()
}

fn pulled_role<'a>(pulled: &'a Pulled, name: &str) -> &'a Role {
    find(&pulled.schema.roles, name).expect("the role was pulled")
}

fn declaring(kind: char, args: &[&str]) -> RawCatalog {
    RawCatalog {
        tables: vec![RawTable {
            oid: 10,
            schema: "app".to_owned(),
            name: "customer".to_owned(),
        }],
        modules: vec![
            RawModule {
                oid: 2,
                ..raw_module('v', "recent", " SELECT 1;")
            },
            raw_module(
                kind,
                "f",
                &format!(
                    "CREATE OR REPLACE {} app.f({})\n LANGUAGE sql\nAS $$ SELECT 1 $$\n",
                    if kind == 'f' { "FUNCTION" } else { "PROCEDURE" },
                    args.join(", ")
                ),
            ),
        ],
        module_args: signature(args),
        routine_args: signature(args),
        ..RawCatalog::default()
    }
}

#[test]
fn a_grant_is_read_back_under_the_target_a_declaration_would_write() {
    let pulled = assemble(&RawCatalog {
        roles: vec![role("app_reader")],
        grants: vec![
            grant(Some("app_reader"), None, GrantedKind::Schema, "USAGE"),
            grant(
                Some("app_reader"),
                Some("customer"),
                GrantedKind::Relation('r'),
                "SELECT",
            ),
            grant(
                Some("app_reader"),
                Some("recent"),
                GrantedKind::Relation('v'),
                "SELECT",
            ),
            grant(
                Some("app_reader"),
                Some("f"),
                GrantedKind::Routine('f'),
                "EXECUTE",
            ),
        ],
        ..declaring('f', &["integer", "text"])
    });
    let targets: Vec<String> = pulled_role(&pulled, "app_reader")
        .grants
        .iter().map(|(target, _)| target.show())
        .collect();
    assert_eq!(
        targets,
        [
            "app.customer",
            "app.recent",
            "app.f(integer,text)",
            "schema::app"
        ]
    );
}

#[test]
fn the_engines_default_is_reported_and_never_compared_as_a_grant() {
    let defaulted = |grantee: Option<&str>, permission: &str| RawGrant {
        defaulted: true,
        ..grant(grantee, Some("f"), GrantedKind::Routine('f'), permission)
    };
    let pulled = assemble(&RawCatalog {
        roles: vec![role("deploy")],
        grants: vec![
            defaulted(Some("deploy"), "EXECUTE"),
            defaulted(None, "EXECUTE"),
        ],
        ..RawCatalog::default()
    });
    assert!(pulled_role(&pulled, "deploy").grants.is_empty());
    let said = pulled.warnings.join("\n");
    assert!(said.contains("PUBLIC can execute 1 routine"), "{said}");
    assert!(said.contains("app.f()"), "{said}");
    assert!(
        pulled.unexpressible.is_empty(),
        "{:?}",
        pulled.unexpressible
    );
}

#[test]
fn the_owners_own_entry_is_the_zero_point_even_in_an_explicit_acl() {
    let pulled = assemble(&RawCatalog {
        roles: vec![role("deploy"), role("app_reader")],
        grants: vec![
            grant(
                Some("deploy"),
                Some("customer"),
                GrantedKind::Relation('r'),
                "SELECT",
            ),
            grant(
                Some("deploy"),
                Some("customer"),
                GrantedKind::Relation('r'),
                "MAINTAIN",
            ),
            grant(
                Some("app_reader"),
                Some("customer"),
                GrantedKind::Relation('r'),
                "SELECT",
            ),
        ],
        ..declaring('f', &[])
    });
    assert!(pulled_role(&pulled, "deploy").grants.is_empty());
    assert_eq!(pulled_role(&pulled, "app_reader").grants.len(), 1);
}

#[test]
fn execute_revoked_from_public_is_reported_although_it_is_the_absence_of_a_row() {
    let pulled = assemble(&RawCatalog {
        roles: vec![role("deploy")],
        grants: vec![grant(
            Some("deploy"),
            Some("f"),
            GrantedKind::Routine('f'),
            "EXECUTE",
        )],
        ..RawCatalog::default()
    });
    let said = pulled.warnings.join("\n");
    assert!(said.contains("revoked from PUBLIC"), "{said}");
    assert!(said.contains("app.f()"), "{said}");
}

#[test]
fn what_the_model_cannot_hold_is_reported_and_never_folded_into_the_grants() {
    let pulled = assemble(&RawCatalog {
        roles: vec![role("app_reader")],
        grants: vec![
            RawGrant {
                grantable: true,
                ..grant(
                    Some("app_reader"),
                    Some("customer"),
                    GrantedKind::Relation('r'),
                    "SELECT",
                )
            },
            RawGrant {
                column: Some("email".to_owned()),
                ..grant(
                    Some("app_reader"),
                    Some("customer"),
                    GrantedKind::Relation('r'),
                    "SELECT",
                )
            },
            grant(
                Some("app_reader"),
                Some("customer_id_seq"),
                GrantedKind::Relation('S'),
                "USAGE",
            ),
        ],
        ..declaring('f', &[])
    });
    assert!(pulled_role(&pulled, "app_reader").grants.is_empty());
    let what: Vec<&str> = pulled
        .unexpressible
        .iter()
        .map(|u| u.what.as_str())
        .collect();
    assert_eq!(what.len(), 3, "{what:?}");
    assert!(
        what.iter().any(|w| w.contains("WITH GRANT OPTION")),
        "{what:?}"
    );
    assert!(
        what.iter().any(|w| w.contains("column-level grant")),
        "{what:?}"
    );
    assert!(what.iter().any(|w| w.contains("sequence")), "{what:?}");
    assert!(pulled.unexpressible.iter().all(|u| u.role == "app_reader"));
}

#[test]
fn a_limitation_on_an_object_carries_that_object_as_its_target() {
    let on_customer = |permission: &str| {
        grant(
            Some("app_reader"),
            Some("customer"),
            GrantedKind::Relation('r'),
            permission,
        )
    };
    let pulled = assemble(&RawCatalog {
        roles: vec![role("app_reader")],
        grants: vec![
            RawGrant {
                column: Some("email".to_owned()),
                ..on_customer("SELECT")
            },
            RawGrant {
                grantable: true,
                ..on_customer("INSERT")
            },
            on_customer("CONNECT"),
        ],
        ..declaring('f', &[])
    });
    let customer = GrantTarget::Object(TableName::new("app", "customer"));
    assert_eq!(pulled.unexpressible.len(), 3, "{:?}", pulled.unexpressible);
    assert!(
        pulled
            .unexpressible
            .iter()
            .all(|u| u.target.as_ref() == Some(&customer)),
        "{:?}",
        pulled.unexpressible
    );
}

#[test]
fn a_comma_inside_an_argument_type_does_not_split_the_signature() {
    let pulled = assemble(&RawCatalog {
        roles: vec![role("app_reader")],
        grants: vec![grant(
            Some("app_reader"),
            Some("f"),
            GrantedKind::Routine('f'),
            "EXECUTE",
        )],
        ..declaring('f', &["app.\"amount,type\"", "integer"])
    });
    assert_eq!(
        pulled_role(&pulled, "app_reader")
            .grants
            .iter().map(|(target, _)| target.show())
            .collect::<Vec<_>>(),
        ["app.f(app.\"amount,type\",integer)"]
    );
    assert!(
        pulled.unexpressible.is_empty(),
        "{:?}",
        pulled.unexpressible
    );
}

#[test]
fn an_argument_a_declaration_cannot_spell_is_named_in_full() {
    let pulled = assemble(&RawCatalog {
        roles: vec![role("app_reader")],
        grants: vec![grant(
            Some("app_reader"),
            Some("f"),
            GrantedKind::Routine('f'),
            "EXECUTE",
        )],
        routine_args: signature(&["app.\"never closed"]),
        ..RawCatalog::default()
    });
    assert!(pulled_role(&pulled, "app_reader").grants.is_empty());
    assert_eq!(pulled.unexpressible.len(), 1, "{:?}", pulled.unexpressible);
    assert!(
        pulled.unexpressible[0].what.contains("app.\"never closed"),
        "{}",
        pulled.unexpressible[0].what
    );
}

#[test]
fn a_grant_on_a_relation_kind_this_model_does_not_declare_is_reported() {
    let pulled = assemble(&RawCatalog {
        roles: vec![role("app_reader")],
        grants: vec![
            grant(
                Some("app_reader"),
                Some("mv"),
                GrantedKind::Relation('m'),
                "SELECT",
            ),
            grant(
                Some("app_reader"),
                Some("parent"),
                GrantedKind::Relation('p'),
                "SELECT",
            ),
            grant(
                Some("app_reader"),
                Some("remote"),
                GrantedKind::Relation('f'),
                "SELECT",
            ),
            grant(
                Some("app_reader"),
                Some("agg"),
                GrantedKind::Routine('a'),
                "EXECUTE",
            ),
        ],
        ..RawCatalog::default()
    });
    assert!(pulled_role(&pulled, "app_reader").grants.is_empty());
    let what: Vec<&str> = pulled
        .unexpressible
        .iter()
        .map(|u| u.what.as_str())
        .collect();
    assert_eq!(what.len(), 4, "{what:?}");
    for named in [
        "a materialized view",
        "a partitioned table",
        "a foreign table",
        "an aggregate",
    ] {
        assert!(what.iter().any(|w| w.contains(named)), "{named}: {what:?}");
    }
}

#[test]
fn the_relkind_and_prokind_alphabets_are_not_read_as_one() {
    let pulled = assemble(&RawCatalog {
        roles: vec![role("app_reader")],
        grants: vec![
            grant(
                Some("app_reader"),
                Some("f"),
                GrantedKind::Relation('f'),
                "SELECT",
            ),
            grant(
                Some("app_reader"),
                Some("f"),
                GrantedKind::Routine('p'),
                "EXECUTE",
            ),
        ],
        ..declaring('p', &["integer"])
    });
    assert_eq!(
        pulled_role(&pulled, "app_reader")
            .grants
            .iter().map(|(target, _)| target.show())
            .collect::<Vec<_>>(),
        ["app.f(integer)"]
    );
    assert_eq!(pulled.unexpressible.len(), 1, "{:?}", pulled.unexpressible);
    assert!(
        pulled.unexpressible[0].what.contains("a foreign table"),
        "{}",
        pulled.unexpressible[0].what
    );
}

#[test]
fn a_grant_on_a_class_the_model_cannot_name_is_reported_grouped() {
    let other = |grantee: Option<&str>, class: &str, name: &str| RawOtherGrant {
        grantee: grantee.map(str::to_owned),
        class: class.to_owned(),
        name: name.to_owned(),
        permission: "USAGE".to_owned(),
        grantable: false,
        owner: Some("someone_else".to_owned()),
    };
    let pulled = assemble(&RawCatalog {
        roles: vec![role("app_reader")],
        other_grants: vec![
            other(Some("app_reader"), "a type", "app.money"),
            other(Some("app_reader"), "a type", "app.code"),
            other(Some("app_reader"), "a procedural language", "plpgsql"),
            other(None, "a type", "text"),
            other(Some("someone_else"), "a type", "app.money"),
        ],
        ..RawCatalog::default()
    });
    let what: Vec<&str> = pulled
        .unexpressible
        .iter()
        .map(|u| u.what.as_str())
        .collect();
    assert_eq!(what.len(), 2, "{what:?}");
    assert!(pulled.unexpressible.iter().all(|u| u.role == "app_reader"));
    assert!(pulled.unexpressible.iter().all(|u| u.target.is_none()));
    let types = what
        .iter()
        .find(|w| w.contains("a type"))
        .expect("the type line");
    assert!(types.contains("app.money"), "{types}");
    assert!(types.contains("app.code"), "{types}");
}

#[test]
fn the_owners_own_entry_in_an_unnameable_class_is_the_zero_point() {
    let pulled = assemble(&RawCatalog {
        roles: vec![role("ot_owner")],
        other_grants: vec![RawOtherGrant {
            grantee: Some("ot_owner".to_owned()),
            class: "a type".to_owned(),
            name: "app.money_kind".to_owned(),
            permission: "USAGE".to_owned(),
            grantable: false,
            owner: Some("ot_owner".to_owned()),
        }],
        ..RawCatalog::default()
    });
    assert!(
        pulled.unexpressible.is_empty(),
        "{:?}",
        pulled.unexpressible
    );
}

#[test]
fn a_grant_on_an_object_this_pull_did_not_record_is_reported_not_folded_in() {
    let pulled = assemble(&RawCatalog {
        roles: vec![role("app_reader")],
        grants: vec![
            grant(Some("app_reader"), None, GrantedKind::Schema, "USAGE"),
            grant(
                Some("app_reader"),
                Some("customer"),
                GrantedKind::Relation('r'),
                "SELECT",
            ),
        ],
        ..RawCatalog::default()
    });
    assert_eq!(
        pulled_role(&pulled, "app_reader")
            .grants
            .iter().map(|(target, _)| target.show())
            .collect::<Vec<_>>(),
        ["schema::app"],
        "the schema grant stands; the one on the missing table does not"
    );
    assert_eq!(pulled.unexpressible.len(), 1, "{:?}", pulled.unexpressible);
    assert!(
        pulled.unexpressible[0].what.contains("did not record"),
        "{}",
        pulled.unexpressible[0].what
    );
}

#[test]
fn a_relation_left_out_is_not_answered_for_by_a_routine_of_the_same_name() {
    let pulled = assemble(&RawCatalog {
        roles: vec![role("app_reader")],
        grants: vec![
            grant(Some("app_reader"), None, GrantedKind::Schema, "USAGE"),
            grant(
                Some("app_reader"),
                Some("f"),
                GrantedKind::Relation('r'),
                "SELECT",
            ),
            grant(
                Some("app_reader"),
                Some("f"),
                GrantedKind::Routine('f'),
                "EXECUTE",
            ),
        ],
        ..declaring('f', &["integer"])
    });
    assert_eq!(
        pulled_role(&pulled, "app_reader")
            .grants
            .iter().map(|(target, _)| target.show())
            .collect::<Vec<_>>(),
        ["app.f(integer)", "schema::app"],
        "the routine grant stands; the one on the missing table does not"
    );
    assert_eq!(pulled.unexpressible.len(), 1, "{:?}", pulled.unexpressible);
    assert!(
        pulled.unexpressible[0].what.contains("did not record"),
        "{}",
        pulled.unexpressible[0].what
    );
}

#[test]
fn a_target_whose_written_form_reads_back_as_another_object_is_reported() {
    let pulled = assemble(&RawCatalog {
        roles: vec![role("app_reader")],
        tables: vec![RawTable {
            oid: 11,
            schema: "app".to_owned(),
            name: "sales(archive)".to_owned(),
        }],
        grants: vec![grant(
            Some("app_reader"),
            Some("sales(archive)"),
            GrantedKind::Relation('r'),
            "SELECT",
        )],
        ..RawCatalog::default()
    });
    assert!(
        pulled.schema.tables.iter().any(|(name, _)| *name == TableName::new("app", "sales(archive)")),
        "{:?}",
        pulled.schema.tables
    );
    assert!(pulled_role(&pulled, "app_reader").grants.is_empty());
    assert_eq!(pulled.unexpressible.len(), 1, "{:?}", pulled.unexpressible);
    assert!(
        pulled.unexpressible[0].what.contains("parenthesis"),
        "{}",
        pulled.unexpressible[0].what
    );
}

#[test]
fn a_grant_option_on_an_unnameable_class_is_said_rather_than_flattened() {
    let pulled = assemble(&RawCatalog {
        roles: vec![role("app_reader")],
        other_grants: vec![RawOtherGrant {
            grantee: Some("app_reader".to_owned()),
            class: "a type".to_owned(),
            name: "app.money".to_owned(),
            permission: "USAGE".to_owned(),
            grantable: true,
            owner: Some("someone_else".to_owned()),
        }],
        ..RawCatalog::default()
    });
    assert_eq!(pulled.unexpressible.len(), 1);
    assert!(
        pulled.unexpressible[0].what.contains("WITH GRANT OPTION"),
        "{}",
        pulled.unexpressible[0].what
    );
}

#[test]
fn a_role_holding_nothing_is_pulled_as_a_role_and_not_left_out() {
    let pulled = assemble(&RawCatalog {
        roles: vec![role("app_reader")],
        ..RawCatalog::default()
    });
    assert!(find(&pulled.schema.roles, "app_reader").is_some());
    assert!(pulled_role(&pulled, "app_reader").grants.is_empty());
}

#[test]
fn a_default_privileges_entry_names_the_role_whose_creations_it_covers() {
    let pulled = assemble(&RawCatalog {
        default_acls: vec![RawDefaultAcl {
            grantor: "owner_a".to_owned(),
            in_schema: Some("app".to_owned()),
            objtype: 'r',
            acl: "{all_reader=r/owner_a}".to_owned(),
        }],
        ..RawCatalog::default()
    });
    let said = pulled.warnings.join("\n");
    assert!(said.contains("FOR ROLE owner_a"), "{said}");
    assert!(said.contains("the tables and views"), "{said}");
    assert!(said.contains("who creates an object"), "{said}");
}

#[test]
fn a_superuser_is_pulled_and_named_rather_than_filtered_out() {
    let pulled = assemble(&RawCatalog {
        roles: vec![RawRole {
            name: "deploy".to_owned(),
            superuser: true,
        }],
        ..RawCatalog::default()
    });
    assert!(find(&pulled.schema.roles, "deploy").is_some());
    assert!(
        pulled.warnings.iter().any(|w| w.contains("superuser")),
        "{:?}",
        pulled.warnings
    );
}

#[test]
fn a_deparsed_statement_is_cut_where_the_declaration_begins() {
    let raw = RawCatalog {
        modules: vec![
            raw_module(
                'v',
                "v",
                " SELECT id,\n    a\n   FROM app.t\n  WHERE a IS NULL;",
            ),
            raw_module(
                'f',
                "odd Name",
                "CREATE OR REPLACE FUNCTION app.\"odd Name\"(a integer)\n RETURNS integer\n \
                 LANGUAGE sql\nAS $function$ SELECT a $function$\n",
            ),
            raw_module(
                'p',
                "p",
                "CREATE OR REPLACE PROCEDURE app.p(a integer)\n LANGUAGE sql\nAS $procedure$ \
                 SELECT 1 $procedure$\n",
            ),
            RawModule {
                on_table: "t".into(),
                ..raw_module(
                    't',
                    "audit x",
                    "CREATE TRIGGER \"audit x\" AFTER INSERT ON app.t FOR EACH ROW EXECUTE \
                     FUNCTION app.trf()",
                )
            },
        ],
        module_args: vec![RawModuleArg {
            routine_oid: 1,
            position: 1,
            ty: "integer".into(),
        }],
        ..RawCatalog::default()
    };
    let pulled = modules(raw);
    let got: Vec<(String, String)> = pulled
        .schema
        .modules
        .iter()
        .map(|(id, m)| (id.show(), m.definition.clone()))
        .collect();
    assert_eq!(
        got,
        vec![
            (
                "app.v".to_owned(),
                "SELECT id,\n    a\n   FROM app.t\n  WHERE a IS NULL".to_owned(),
            ),
            (
                "app.odd Name(integer)".to_owned(),
                "(a integer)\n RETURNS integer\n LANGUAGE sql\nAS $function$ SELECT a \
                 $function$"
                    .to_owned()
            ),
            (
                "app.p(integer)".to_owned(),
                "(a integer)\n LANGUAGE sql\nAS $procedure$ SELECT 1 $procedure$".to_owned()
            ),
            (
                "app.t.audit x".to_owned(),
                "AFTER INSERT ON app.t FOR EACH ROW EXECUTE FUNCTION app.trf()".to_owned()
            ),
        ],
        "{pulled:#?}"
    );
    assert!(pulled.warnings.is_empty(), "{:?}", pulled.warnings);
}

#[test]
fn a_statement_this_reader_cannot_cut_is_named_and_never_read_as_empty() {
    for definition in [
        "CREATE FUNCTION app.f(a integer) RETURNS integer",
        "CREATE OR REPLACE FUNCTION (a integer)",
        "CREATE OR REPLACE FUNCTION app.\"f(a integer)",
        "CREATE OR REPLACE FUNCTION app.f",
        "",
    ] {
        let pulled = modules(RawCatalog {
            modules: vec![raw_module('f', "f", definition)],
            ..RawCatalog::default()
        });
        assert!(
            pulled.schema.modules.is_empty(),
            "`{definition}` produced a module"
        );
        assert_eq!(pulled.warnings.len(), 1, "`{definition}`");
        assert!(
            pulled.warnings[0].contains("app.f"),
            "{}",
            pulled.warnings[0]
        );
    }
}

#[test]
fn a_module_whose_name_the_declaration_cannot_write_is_left_out_and_named() {
    let pulled = modules(RawCatalog {
        modules: vec![raw_module('v', "f(int)", "SELECT 1")],
        ..RawCatalog::default()
    });
    assert!(pulled.schema.modules.is_empty(), "{pulled:#?}");
    assert_eq!(pulled.warnings.len(), 1, "{:?}", pulled.warnings);
    assert!(
        pulled.warnings[0].contains("cannot write back"),
        "{}",
        pulled.warnings[0]
    );
}

#[test]
fn a_routine_argument_the_model_cannot_hold_takes_the_routine_out() {
    let pulled = modules(RawCatalog {
        modules: vec![raw_module(
            'f',
            "f",
            "CREATE OR REPLACE FUNCTION app.f(a integer) RETURNS integer",
        )],
        module_args: vec![RawModuleArg {
            routine_oid: 1,
            position: 1,
            ty: "integer; DROP TABLE t".into(),
        }],
        ..RawCatalog::default()
    });
    assert!(pulled.schema.modules.is_empty(), "{pulled:#?}");
    assert_eq!(pulled.warnings.len(), 1, "{:?}", pulled.warnings);
    assert!(
        pulled.warnings[0].contains("app.f"),
        "{}",
        pulled.warnings[0]
    );
}

#[test]
fn a_kind_this_reader_does_not_know_is_named_rather_than_guessed() {
    let pulled = modules(RawCatalog {
        modules: vec![raw_module('m', "mv", "SELECT 1")],
        ..RawCatalog::default()
    });
    assert!(pulled.schema.modules.is_empty(), "{pulled:#?}");
    assert_eq!(pulled.warnings.len(), 1, "{:?}", pulled.warnings);
}

fn table(oid: i64, name: &str) -> RawTable {
    RawTable {
        oid,
        schema: "app".to_owned(),
        name: name.to_owned(),
    }
}

fn col(table_oid: i64, attnum: i32, name: &str, ty: &str) -> RawColumn {
    RawColumn {
        table_oid,
        attnum,
        name: name.to_owned(),
        ty: ty.to_owned(),
        nullable: true,
        default: None,
        identity: None,
        generated: false,
        owned_sequence: None,
        default_sequences: None,
        collation: None,
    }
}

fn constraint(table_oid: i64, name: &str, kind: char) -> RawConstraint {
    RawConstraint {
        table_oid,
        name: name.to_owned(),
        kind,
        columns: Vec::new(),
        ref_columns: Vec::new(),
        ref_table: None,
        on_delete: 'a',
        on_update: 'a',
        validated: true,
        deferrable: false,
        deferred: false,
        definition: String::new(),
        expression: None,
        match_type: 's',
        delete_set_columns: Vec::new(),
        index_oid: None,
        enforced: true,
        period: false,
        no_inherit: false,
        triggers_not_ordinary: false,
    }
}

fn index(oid: i64, table_oid: i64, name: &str) -> RawIndex {
    RawIndex {
        oid,
        table_oid,
        name: name.to_owned(),
        unique: false,
        primary: false,
        exclusion: false,
        valid: true,
        nulls_not_distinct: false,
        key_count: 1,
        columns: vec![1],
        options: vec![0],
        filter: None,
        has_expressions: false,
        method: "btree".to_owned(),
        nondefault_column_options: false,
    }
}

fn only(pulled: &Pulled) -> &PulledTable {
    &pulled.schema.tables.first().expect("one table").1
}

#[test]
fn a_column_is_found_by_its_attnum_and_never_by_its_position() {
    let mut pk = constraint(1, "t_pk", 'p');
    pk.columns = vec![4];
    let raw = RawCatalog {
        tables: vec![table(1, "t")],
        columns: vec![
            col(1, 1, "a", "integer"),
            col(1, 2, "b", "integer"),
            col(1, 4, "d", "integer"),
        ],
        constraints: vec![pk],
        indexes: Vec::new(),
        ..RawCatalog::default()
    };
    let pulled = assemble(&raw);
    assert!(pulled.warnings.is_empty(), "{:?}", pulled.warnings);
    assert_eq!(
        only(&pulled).primary_key.as_ref().unwrap().columns,
        ["d"],
        "attnum 4 is the third column, and taking it as the fourth would \
         have found nothing at all"
    );
}

#[test]
fn a_key_naming_a_column_the_pull_did_not_read_is_reported_and_left_out() {
    let mut pk = constraint(1, "t_pk", 'p');
    pk.columns = vec![1, 9];
    let raw = RawCatalog {
        tables: vec![table(1, "t")],
        columns: vec![col(1, 1, "a", "integer")],
        constraints: vec![pk],
        indexes: Vec::new(),
        ..RawCatalog::default()
    };
    let pulled = assemble(&raw);
    assert!(only(&pulled).primary_key.is_none());
    assert_eq!(pulled.limitations.len(), 1);
    assert!(pulled.warnings[0].contains("column number 9"));
}

#[test]
fn a_catalogued_not_null_is_not_read_back_as_a_check() {
    let mut not_null = constraint(1, "t_a_not_null", 'n');
    not_null.columns = vec![1];
    not_null.definition = "NOT NULL a".to_owned();
    let raw = RawCatalog {
        tables: vec![table(1, "t")],
        columns: vec![col(1, 1, "a", "integer")],
        constraints: vec![not_null],
        indexes: Vec::new(),
        ..RawCatalog::default()
    };
    let pulled = assemble(&raw);
    assert!(only(&pulled).checks.is_empty());
    assert!(pulled.warnings.is_empty(), "{:?}", pulled.warnings);
}

#[test]
fn a_constraint_kind_this_reader_does_not_know_is_reported() {
    let mut odd = constraint(1, "t_odd", 'z');
    odd.definition = "SOMETHING (a)".to_owned();
    let raw = RawCatalog {
        tables: vec![table(1, "t")],
        columns: vec![col(1, 1, "a", "integer")],
        constraints: vec![odd],
        indexes: Vec::new(),
        ..RawCatalog::default()
    };
    let pulled = assemble(&raw);
    assert_eq!(pulled.limitations.len(), 1);
    assert!(pulled.warnings[0].contains("kind `z`"));
    assert!(pulled.warnings[0].contains("SOMETHING (a)"));
}

#[test]
fn the_index_that_enforces_a_constraint_is_not_reported_again_as_an_index() {
    let mut pk = constraint(1, "t_pk", 'p');
    pk.columns = vec![1];
    pk.index_oid = Some(50);
    let mut backing = index(50, 1, "t_pk");
    backing.unique = true;
    backing.primary = true;
    let raw = RawCatalog {
        tables: vec![table(1, "t")],
        columns: vec![col(1, 1, "a", "integer")],
        constraints: vec![pk],
        indexes: vec![backing, index(51, 1, "t_a_ix")],
        ..RawCatalog::default()
    };
    let pulled = assemble(&raw);
    assert!(only(&pulled).primary_key.is_some());
    assert_eq!(names_of(&only(&pulled).indexes), ["t_a_ix"]);
}

#[test]
fn a_foreign_key_the_model_cannot_spell_the_action_of_is_left_out_and_named() {
    let mut fk = constraint(1, "t_fk", 'f');
    fk.columns = vec![1];
    fk.ref_columns = vec![1];
    fk.ref_table = Some(2);
    fk.on_delete = 'r';
    fk.definition = "FOREIGN KEY (a) REFERENCES app.other(x) ON DELETE RESTRICT".to_owned();
    let raw = RawCatalog {
        tables: vec![table(1, "t"), table(2, "other")],
        columns: vec![col(1, 1, "a", "integer"), col(2, 1, "x", "integer")],
        constraints: vec![fk],
        indexes: Vec::new(),
        ..RawCatalog::default()
    };
    let pulled = assemble(&raw);
    assert!(
        table_of(&pulled, "app", "t")
            .foreign_keys
            .is_empty()
    );
    assert!(pulled.warnings[0].contains("RESTRICT"));
}

#[test]
fn a_foreign_keys_referenced_columns_come_from_the_referenced_table() {
    let mut fk = constraint(1, "t_fk", 'f');
    fk.columns = vec![1, 2];
    fk.ref_columns = vec![1, 2];
    fk.ref_table = Some(2);
    fk.definition =
        "FOREIGN KEY (a, b) REFERENCES app.other(\"a)b\", z) ON UPDATE CASCADE".to_owned();
    fk.on_update = 'c';
    let raw = RawCatalog {
        tables: vec![table(1, "t"), table(2, "other")],
        columns: vec![
            col(1, 1, "a", "integer"),
            col(1, 2, "b", "integer"),
            col(2, 1, "a)b", "integer"),
            col(2, 2, "z", "integer"),
        ],
        constraints: vec![fk],
        indexes: Vec::new(),
        ..RawCatalog::default()
    };
    let pulled = assemble(&raw);
    let key = entry(&table_of(&pulled, "app", "t").foreign_keys, "t_fk");
    assert_eq!(key.references_columns, ["a)b", "z"]);
    assert_eq!(key.on_update, ReferentialAction::Cascade);
    assert!(pulled.warnings.is_empty(), "{:?}", pulled.warnings);
}

#[test]
fn a_referenced_column_the_pull_did_not_read_leaves_the_key_out() {
    let mut fk = constraint(1, "t_fk", 'f');
    fk.columns = vec![1];
    fk.ref_columns = vec![1, 2];
    fk.ref_table = Some(2);
    fk.definition = "FOREIGN KEY (a) REFERENCES app.other(x)".to_owned();
    let raw = RawCatalog {
        tables: vec![table(1, "t"), table(2, "other")],
        columns: vec![col(1, 1, "a", "integer"), col(2, 1, "x", "integer")],
        constraints: vec![fk],
        indexes: Vec::new(),
        ..RawCatalog::default()
    };
    let pulled = assemble(&raw);
    assert!(
        table_of(&pulled, "app", "t")
            .foreign_keys
            .is_empty()
    );
    assert!(pulled.warnings[0].contains("cannot resolve"));
}

#[test]
fn an_index_splits_its_key_from_its_include_at_the_catalogs_own_count() {
    let mut ix = index(50, 1, "t_ix");
    ix.key_count = 2;
    ix.columns = vec![3, 1, 2];
    ix.options = vec![1, 0, 0];
    ix.filter = Some("(c IS NOT NULL)".to_owned());
    let raw = RawCatalog {
        tables: vec![table(1, "t")],
        columns: vec![
            col(1, 1, "a", "integer"),
            col(1, 2, "b", "integer"),
            col(1, 3, "c", "integer"),
        ],
        constraints: Vec::new(),
        indexes: vec![ix],
        ..RawCatalog::default()
    };
    let pulled = assemble(&raw);
    let read = entry(&only(&pulled).indexes, "t_ix");
    assert_eq!(read.columns[0].name, "c");
    assert!(read.columns[0].descending, "indoption bit 0 is DESC");
    assert_eq!(read.columns[1].name, "a");
    assert_eq!(read.include_columns, ["b"]);
    assert_eq!(read.filter.as_deref(), Some("(c IS NOT NULL)"));
}

#[test]
fn only_a_null_ordering_that_is_not_its_directions_default_is_reported() {
    for (option, reported) in [(0, false), (1, true), (2, true), (3, false)] {
        let mut ix = index(50, 1, "t_ix");
        ix.options = vec![option];
        let raw = RawCatalog {
            tables: vec![table(1, "t")],
            columns: vec![col(1, 1, "a", "integer")],
            constraints: Vec::new(),
            indexes: vec![ix],
            ..RawCatalog::default()
        };
        let pulled = assemble(&raw);
        assert_eq!(
            !pulled.warnings.is_empty(),
            reported,
            "indoption {option}: {:?}",
            pulled.warnings
        );
        assert!(find(&only(&pulled).indexes, "t_ix").is_some());
    }
}

#[test]
fn an_index_the_model_cannot_hold_is_named_and_left_out() {
    for (name, mutate) in [
        (
            "method",
            (|ix: &mut RawIndex| ix.method = "gin".to_owned()) as fn(&mut RawIndex),
        ),
        ("expression", |ix: &mut RawIndex| ix.has_expressions = true),
        ("expression column", |ix: &mut RawIndex| {
            ix.columns = vec![0];
        }),
        ("exclusion", |ix: &mut RawIndex| ix.exclusion = true),
    ] {
        let mut ix = index(50, 1, "t_ix");
        mutate(&mut ix);
        let raw = RawCatalog {
            tables: vec![table(1, "t")],
            columns: vec![col(1, 1, "a", "integer")],
            constraints: Vec::new(),
            indexes: vec![ix],
            ..RawCatalog::default()
        };
        let pulled = assemble(&raw);
        assert!(only(&pulled).indexes.is_empty(), "{name}");
        assert_eq!(pulled.limitations.len(), 1, "{name}");
    }
}

#[test]
fn the_respelled_expressions_are_carried_through_untouched() {
    let mut column = col(1, 1, "amount", "numeric(10,2)");
    column.default = Some("(0)::numeric".to_owned());
    let mut check = constraint(1, "t_ck", 'c');
    check.definition = "CHECK ((amount >= (0)::numeric))".to_owned();
    check.expression = Some("(amount >= (0)::numeric)".to_owned());
    let mut ix = index(50, 1, "t_ix");
    ix.filter = Some("(amount IS NOT NULL)".to_owned());
    let raw = RawCatalog {
        tables: vec![table(1, "t")],
        columns: vec![column],
        constraints: vec![check],
        indexes: vec![ix],
        ..RawCatalog::default()
    };
    let pulled = assemble(&raw);
    let read = only(&pulled);
    assert_eq!(
        entry(&read.columns, "amount").default.as_deref(),
        Some("(0)::numeric")
    );
    assert_eq!(
        entry(&read.checks, "t_ck").expression, "(amount >= (0)::numeric)",
        "the expression, not the `CHECK (…)` clause an emitter wraps it in"
    );
    assert_eq!(
        entry(&read.indexes, "t_ix").filter.as_deref(),
        Some("(amount IS NOT NULL)")
    );
}

#[test]
fn a_type_the_catalogue_cannot_spell_takes_its_table_out_and_is_named() {
    for spelling in [
        "timestamp(3) with time zone",
        "app.money_amount",
        "bit(3)",
    ] {
        let raw = RawCatalog {
            tables: vec![table(1, "t")],
            columns: vec![col(1, 1, "when", spelling)],
            constraints: Vec::new(),
            indexes: Vec::new(),
            ..RawCatalog::default()
        };
        let pulled = assemble(&raw);
        assert!(pulled.schema.tables.is_empty(), "{spelling}");
        assert_eq!(pulled.limitations.len(), 1, "{spelling}");
        assert!(pulled.warnings[0].contains("issue #130"), "{spelling}");
        assert!(pulled.warnings[0].contains(spelling), "{spelling}");
    }

    let raw = RawCatalog {
        tables: vec![table(1, "t")],
        columns: vec![col(1, 1, "when", "timestamp with time zone")],
        constraints: Vec::new(),
        indexes: Vec::new(),
        ..RawCatalog::default()
    };
    let pulled = assemble(&raw);
    assert_eq!(
        entry(&only(&pulled).columns, "when").ty.spelled,
        "timestamp with time zone"
    );
    assert!(pulled.warnings.is_empty(), "{:?}", pulled.warnings);
}

#[test]
fn an_identity_the_model_cannot_tell_apart_is_named() {
    for (always, reported) in [(true, false), (false, true)] {
        let mut column = col(1, 1, "id", "integer");
        column.identity = Some(RawIdentity {
            always,
            seed: 5,
            increment: 2,
            min: 1,
            max: i64::from(i32::MAX),
            cycles: false,
            cache: 1,
        });
        let raw = RawCatalog {
            tables: vec![table(1, "t")],
            columns: vec![column],
            constraints: Vec::new(),
            indexes: Vec::new(),
            ..RawCatalog::default()
        };
        let pulled = assemble(&raw);
        assert_eq!(!pulled.warnings.is_empty(), reported, "always={always}");
        assert_eq!(
            entry(&only(&pulled).columns, "id").identity,
            Some(Identity {
                seed: 5,
                increment: 2
            })
        );
    }
}

#[test]
fn a_generated_column_is_named() {
    let mut column = col(1, 1, "total", "integer");
    column.generated = true;
    let raw = RawCatalog {
        tables: vec![table(1, "t")],
        columns: vec![column],
        constraints: Vec::new(),
        indexes: Vec::new(),
        ..RawCatalog::default()
    };
    let pulled = assemble(&raw);
    assert_eq!(pulled.limitations.len(), 1);
    assert!(pulled.warnings[0].contains("generated column"));
}

#[test]
fn a_generated_columns_expression_is_never_read_back_as_a_default() {
    let mut column = col(1, 1, "total", "integer");
    column.generated = true;
    column.default = Some("(id * 2)".to_owned());
    let raw = RawCatalog {
        tables: vec![table(1, "t")],
        columns: vec![column],
        constraints: Vec::new(),
        indexes: Vec::new(),
        ..RawCatalog::default()
    };
    let pulled = assemble(&raw);
    assert_eq!(entry(&only(&pulled).columns, "total").default, None);
    assert!(pulled.warnings[0].contains("(id * 2)"));
    assert!(pulled.warnings[0].contains("every write"));
}

#[test]
fn a_deferrable_key_is_left_out_and_named_whatever_kind_it_is() {
    for kind in ['p', 'u', 'f'] {
        let mut c = constraint(1, "t_key", kind);
        c.columns = vec![1];
        c.ref_columns = vec![1];
        c.ref_table = Some(1);
        c.definition = "UNIQUE (a) DEFERRABLE INITIALLY DEFERRED".to_owned();
        c.deferrable = true;
        c.deferred = true;
        let raw = RawCatalog {
            tables: vec![table(1, "t")],
            columns: vec![col(1, 1, "a", "integer")],
            constraints: vec![c],
            indexes: Vec::new(),
            ..RawCatalog::default()
        };
        let pulled = assemble(&raw);
        let read = only(&pulled);
        assert!(read.primary_key.is_none(), "{kind}");
        assert!(read.unique.is_empty(), "{kind}");
        assert!(read.foreign_keys.is_empty(), "{kind}");
        assert_eq!(pulled.limitations.len(), 1, "{kind}");
        assert!(pulled.warnings[0].contains("DEFERRABLE INITIALLY DEFERRED"));
    }
}

#[test]
fn a_deferrable_key_that_is_initially_immediate_is_named_as_that() {
    let mut c = constraint(1, "t_key", 'u');
    c.columns = vec![1];
    c.deferrable = true;
    c.deferred = false;
    let raw = RawCatalog {
        tables: vec![table(1, "t")],
        columns: vec![col(1, 1, "a", "integer")],
        constraints: vec![c],
        indexes: Vec::new(),
        ..RawCatalog::default()
    };
    let pulled = assemble(&raw);
    assert!(only(&pulled).unique.is_empty());
    assert!(
        pulled.warnings[0].contains("`DEFERRABLE`"),
        "{:?}",
        pulled.warnings
    );
    assert!(!pulled.warnings[0].contains("INITIALLY DEFERRED"));
}

#[test]
fn a_not_valid_foreign_key_is_carried_and_named() {
    let mut fk = constraint(1, "t_fk", 'f');
    fk.columns = vec![1];
    fk.ref_columns = vec![1];
    fk.ref_table = Some(2);
    fk.validated = false;
    fk.definition = "FOREIGN KEY (a) REFERENCES app.other(x) NOT VALID".to_owned();
    let raw = RawCatalog {
        tables: vec![table(1, "t"), table(2, "other")],
        columns: vec![col(1, 1, "a", "integer"), col(2, 1, "x", "integer")],
        constraints: vec![fk],
        indexes: Vec::new(),
        ..RawCatalog::default()
    };
    let pulled = assemble(&raw);
    assert!(
        find(&table_of(&pulled, "app", "t").foreign_keys, "t_fk").is_some()
    );
    assert_eq!(pulled.limitations.len(), 1);
    assert!(pulled.warnings[0].contains("NOT VALID"));
}

#[test]
fn a_check_is_stored_as_its_expression_and_not_as_the_whole_clause() {
    let mut check = constraint(1, "t_ck", 'c');
    check.definition = "CHECK ((id > 0))".to_owned();
    check.expression = Some("(id > 0)".to_owned());
    let raw = RawCatalog {
        tables: vec![table(1, "t")],
        columns: vec![col(1, 1, "id", "integer")],
        constraints: vec![check],
        indexes: Vec::new(),
        ..RawCatalog::default()
    };
    let pulled = assemble(&raw);
    assert_eq!(entry(&only(&pulled).checks, "t_ck").expression, "(id > 0)");
    assert!(pulled.warnings.is_empty(), "{:?}", pulled.warnings);
}

#[test]
fn a_check_with_no_readable_expression_is_left_out_and_named() {
    let mut check = constraint(1, "t_ck", 'c');
    check.definition = "CHECK ((id > 0))".to_owned();
    check.expression = None;
    let raw = RawCatalog {
        tables: vec![table(1, "t")],
        columns: vec![col(1, 1, "id", "integer")],
        constraints: vec![check],
        indexes: Vec::new(),
        ..RawCatalog::default()
    };
    let pulled = assemble(&raw);
    assert!(only(&pulled).checks.is_empty());
    assert!(pulled.warnings[0].contains("no readable expression"));
}

#[test]
fn a_foreign_key_whose_match_type_is_not_the_default_is_left_out_and_named() {
    for (match_type, expected) in [('s', true), ('f', false), ('p', false), ('z', false)] {
        let mut fk = constraint(1, "t_fk", 'f');
        fk.columns = vec![1];
        fk.ref_columns = vec![1];
        fk.ref_table = Some(2);
        fk.match_type = match_type;
        let raw = RawCatalog {
            tables: vec![table(1, "t"), table(2, "other")],
            columns: vec![col(1, 1, "a", "integer"), col(2, 1, "x", "integer")],
            constraints: vec![fk],
            indexes: Vec::new(),
            ..RawCatalog::default()
        };
        let pulled = assemble(&raw);
        assert_eq!(
            find(&table_of(&pulled, "app", "t").foreign_keys, "t_fk").is_some(),
            expected,
            "match type `{match_type}`"
        );
    }
}

#[test]
fn an_index_the_planner_will_not_use_is_left_out_and_named() {
    let mut ix = index(50, 1, "t_ix");
    ix.valid = false;
    let raw = RawCatalog {
        tables: vec![table(1, "t")],
        columns: vec![col(1, 1, "a", "integer")],
        constraints: Vec::new(),
        indexes: vec![ix],
        ..RawCatalog::default()
    };
    let pulled = assemble(&raw);
    assert!(only(&pulled).indexes.is_empty());
    assert!(pulled.warnings[0].contains("indisvalid = false"));
}

#[test]
fn a_unique_key_that_admits_one_null_is_left_out_whichever_shape_it_has() {
    let mut ix = index(50, 1, "t_ix");
    ix.unique = true;
    ix.nulls_not_distinct = true;
    let raw = RawCatalog {
        tables: vec![table(1, "t")],
        columns: vec![col(1, 1, "a", "integer")],
        constraints: Vec::new(),
        indexes: vec![ix.clone()],
        ..RawCatalog::default()
    };
    let pulled = assemble(&raw);
    assert!(only(&pulled).indexes.is_empty());
    assert!(pulled.warnings[0].contains("NULLS NOT DISTINCT"));

    let mut uq = constraint(1, "t_uq", 'u');
    uq.columns = vec![1];
    uq.index_oid = Some(50);
    let raw = RawCatalog {
        tables: vec![table(1, "t")],
        columns: vec![col(1, 1, "a", "integer")],
        constraints: vec![uq],
        indexes: vec![ix],
        ..RawCatalog::default()
    };
    let pulled = assemble(&raw);
    assert!(only(&pulled).unique.is_empty());
    assert!(only(&pulled).indexes.is_empty());
    assert!(pulled.warnings.iter().any(|w| w.contains("`t_uq`")));
}

#[test]
fn a_column_that_defaults_from_a_sequence_it_owns_is_carried_and_named() {
    let mut column = col(1, 1, "id", "integer");
    column.default = Some("nextval('app.t_id_seq'::regclass)".to_owned());
    column.owned_sequence = Some("t_id_seq".to_owned());
    let raw = RawCatalog {
        tables: vec![table(1, "t")],
        columns: vec![column],
        constraints: Vec::new(),
        indexes: Vec::new(),
        ..RawCatalog::default()
    };
    let pulled = assemble(&raw);
    assert_eq!(
        entry(&only(&pulled).columns, "id").default.as_deref(),
        Some("nextval('app.t_id_seq'::regclass)")
    );
    assert_eq!(pulled.limitations.len(), 1);
    assert!(pulled.warnings[0].contains("t_id_seq"));
}

#[test]
fn a_column_collated_other_than_its_type_is_named() {
    let mut column = col(1, 1, "name", "text");
    column.collation = Some("C".to_owned());
    let raw = RawCatalog {
        tables: vec![table(1, "t")],
        columns: vec![column],
        constraints: Vec::new(),
        indexes: Vec::new(),
        ..RawCatalog::default()
    };
    let pulled = assemble(&raw);
    assert_eq!(entry(&only(&pulled).columns, "name").ty.spelled, "text");
    assert_eq!(pulled.limitations.len(), 1);
    assert!(pulled.warnings[0].contains("COLLATE"));
}

#[test]
fn an_identity_whose_sequence_is_not_the_default_one_is_named() {
    let default_max = i64::from(i32::MAX);
    for (min, max, cycles, cache, reported) in [
        (1, default_max, false, 1, false),
        (5, 99, false, 1, true),
        (1, default_max, true, 1, true),
        (1, 99, false, 1, true),
        (1, default_max, false, 100, true),
    ] {
        let mut column = col(1, 1, "id", "integer");
        column.nullable = false;
        column.identity = Some(RawIdentity {
            always: true,
            seed: 1,
            increment: 1,
            min,
            max,
            cycles,
            cache,
        });
        let raw = RawCatalog {
            tables: vec![table(1, "t")],
            columns: vec![column],
            constraints: Vec::new(),
            indexes: Vec::new(),
            ..RawCatalog::default()
        };
        let pulled = assemble(&raw);
        assert_eq!(
            !pulled.warnings.is_empty(),
            reported,
            "{min}..={max} cycles={cycles} cache={cache}: {:?}",
            pulled.warnings
        );
        assert!(entry(&only(&pulled).columns, "id").identity.is_some());
    }
}

#[test]
fn a_foreign_key_whose_set_action_names_columns_is_left_out_and_named() {
    let mut fk = constraint(1, "t_fk", 'f');
    fk.columns = vec![1, 2];
    fk.ref_columns = vec![1, 2];
    fk.ref_table = Some(2);
    fk.on_delete = 'n';
    fk.delete_set_columns = vec![1];
    fk.definition =
        "FOREIGN KEY (a, b) REFERENCES app.other(x, y) ON DELETE SET NULL (a)".to_owned();
    let raw = RawCatalog {
        tables: vec![table(1, "t"), table(2, "other")],
        columns: vec![
            col(1, 1, "a", "integer"),
            col(1, 2, "b", "integer"),
            col(2, 1, "x", "integer"),
            col(2, 2, "y", "integer"),
        ],
        constraints: vec![fk],
        indexes: Vec::new(),
        ..RawCatalog::default()
    };
    let pulled = assemble(&raw);
    assert!(
        table_of(&pulled, "app", "t")
            .foreign_keys
            .is_empty()
    );
    assert!(pulled.warnings[0].contains("ON DELETE SET"));
}

#[test]
fn an_index_ordered_by_something_other_than_its_columns_own_is_left_out() {
    let mut ix = index(50, 1, "t_ix");
    ix.nondefault_column_options = true;
    let raw = RawCatalog {
        tables: vec![table(1, "t")],
        columns: vec![col(1, 1, "a", "text")],
        constraints: Vec::new(),
        indexes: vec![ix],
        ..RawCatalog::default()
    };
    let pulled = assemble(&raw);
    assert!(only(&pulled).indexes.is_empty());
    assert!(pulled.warnings[0].contains("operator class"));
}

#[test]
fn a_key_constraint_whose_index_covers_more_than_its_key_is_left_out() {
    let mut pk = constraint(1, "t_pk", 'p');
    pk.columns = vec![1];
    pk.index_oid = Some(50);
    let mut backing = index(50, 1, "t_pk");
    backing.unique = true;
    backing.primary = true;
    backing.key_count = 1;
    backing.columns = vec![1, 2];
    let raw = RawCatalog {
        tables: vec![table(1, "t")],
        columns: vec![col(1, 1, "a", "integer"), col(1, 2, "b", "integer")],
        constraints: vec![pk],
        indexes: vec![backing],
        ..RawCatalog::default()
    };
    let pulled = assemble(&raw);
    assert!(only(&pulled).primary_key.is_none());
    assert!(only(&pulled).indexes.is_empty());
    assert!(pulled.warnings[0].contains("INCLUDE"));
}

#[test]
fn a_foreign_keys_backing_index_belongs_to_the_referenced_table_and_stays() {
    let mut fk = constraint(2, "c_fk", 'f');
    fk.columns = vec![1];
    fk.ref_columns = vec![1];
    fk.ref_table = Some(1);
    fk.index_oid = Some(50);
    let mut referenced = index(50, 1, "p_uq");
    referenced.unique = true;
    referenced.columns = vec![1];
    referenced.key_count = 1;
    let raw = RawCatalog {
        tables: vec![table(1, "p"), table(2, "c")],
        columns: vec![col(1, 1, "a", "integer"), col(2, 1, "a", "integer")],
        constraints: vec![fk],
        indexes: vec![referenced],
        ..RawCatalog::default()
    };
    let pulled = assemble(&raw);
    let p = table_of(&pulled, "app", "p");
    assert!(
        find(&p.indexes, "p_uq").is_some(),
        "the referenced table's own index is not the foreign key's: {:?}",
        p.indexes
    );
    assert_eq!(
        table_of(&pulled, "app", "c")
            .foreign_keys
            .len(),
        1
    );
    assert!(pulled.warnings.is_empty(), "{:?}", pulled.warnings);
}

#[test]
fn a_constraint_the_engine_does_not_enforce_is_left_out_and_named() {
    for kind in ['c', 'f', 'p', 'u'] {
        let mut c = constraint(1, "t_c", kind);
        c.columns = vec![1];
        c.expression = Some("(a > 0)".to_owned());
        c.definition = "CHECK ((a > 0)) NOT ENFORCED".to_owned();
        if kind == 'f' {
            c.ref_columns = vec![1];
            c.ref_table = Some(1);
        }
        c.enforced = false;
        let raw = RawCatalog {
            tables: vec![table(1, "t")],
            columns: vec![col(1, 1, "a", "integer")],
            constraints: vec![c],
            indexes: Vec::new(),
            ..RawCatalog::default()
        };
        let pulled = assemble(&raw);
        let t = only(&pulled);
        assert!(
            t.checks.is_empty()
                && t.foreign_keys.is_empty()
                && t.primary_key.is_none()
                && t.unique.is_empty(),
            "{kind}: {t:?}"
        );
        assert!(
            pulled.warnings.iter().any(|w| w.contains("NOT ENFORCED")),
            "{kind}: {:?}",
            pulled.warnings
        );
    }
}

#[test]
fn a_default_over_a_sequence_the_column_does_not_own_is_carried_and_named() {
    let mut column = col(1, 1, "id", "integer");
    column.default = Some("nextval('app.s'::regclass)".to_owned());
    column.default_sequences = Some("`app.s`".to_owned());
    let raw = RawCatalog {
        tables: vec![table(1, "t")],
        columns: vec![column],
        constraints: Vec::new(),
        indexes: Vec::new(),
        ..RawCatalog::default()
    };
    let pulled = assemble(&raw);
    assert_eq!(
        entry(&only(&pulled).columns, "id").default.as_deref(),
        Some("nextval('app.s'::regclass)")
    );
    assert!(
        pulled.warnings[0].contains("does not own"),
        "{:?}",
        pulled.warnings
    );
    assert!(pulled.warnings[0].contains("`app.s`"));

    let mut plain = col(1, 1, "id", "integer");
    plain.default = Some("7".to_owned());
    let raw = RawCatalog {
        columns: vec![plain],
        ..raw
    };
    assert!(assemble(&raw).warnings.is_empty());
}

#[test]
fn a_constraint_whose_triggers_are_not_running_is_left_out_and_named() {
    let mut fk = constraint(1, "t_fk", 'f');
    fk.columns = vec![1];
    fk.ref_columns = vec![1];
    fk.ref_table = Some(1);
    fk.definition = "FOREIGN KEY (a) REFERENCES app.t(a)".to_owned();
    fk.triggers_not_ordinary = true;
    let raw = RawCatalog {
        tables: vec![table(1, "t")],
        columns: vec![col(1, 1, "a", "integer")],
        constraints: vec![fk],
        indexes: Vec::new(),
        ..RawCatalog::default()
    };
    let pulled = assemble(&raw);
    assert!(only(&pulled).foreign_keys.is_empty());
    assert!(
        pulled.warnings[0].contains("ordinary enable mode"),
        "{:?}",
        pulled.warnings
    );

    let mut running = constraint(1, "t_fk", 'f');
    running.columns = vec![1];
    running.ref_columns = vec![1];
    running.ref_table = Some(1);
    let raw = RawCatalog {
        constraints: vec![running],
        ..raw
    };
    let pulled = assemble(&raw);
    assert_eq!(only(&pulled).foreign_keys.len(), 1);
    assert!(pulled.warnings.is_empty(), "{:?}", pulled.warnings);
}

#[test]
fn a_name_that_does_not_survive_the_declaration_format_takes_its_table_out() {
    let mut odd = table(1, "t");
    odd.schema = "a.b".to_owned();
    let raw = RawCatalog {
        tables: vec![odd],
        columns: vec![col(1, 1, "x", "integer")],
        constraints: Vec::new(),
        indexes: Vec::new(),
        ..RawCatalog::default()
    };
    let pulled = assemble(&raw);
    assert!(
        pulled.schema.tables.is_empty(),
        "{:?}",
        pulled.schema.tables
    );
    assert!(
        pulled.warnings[0].contains("cannot write back"),
        "{:?}",
        pulled.warnings
    );

    let raw = RawCatalog {
        tables: vec![table(1, "t")],
        columns: vec![col(1, 1, "a.b", "integer")],
        constraints: Vec::new(),
        indexes: Vec::new(),
        ..RawCatalog::default()
    };
    let pulled = assemble(&raw);
    assert!(
        pulled.schema.tables.is_empty(),
        "{:?}",
        pulled.schema.tables
    );
    assert!(
        pulled.warnings[0].contains("`a.b`"),
        "{:?}",
        pulled.warnings
    );

    let raw = RawCatalog {
        columns: vec![col(1, 1, "a", "integer")],
        ..raw
    };
    let pulled = assemble(&raw);
    assert_eq!(pulled.schema.tables.len(), 1);
    assert!(pulled.warnings.is_empty(), "{:?}", pulled.warnings);
}

#[test]
fn a_foreign_key_pointing_at_a_refused_table_is_left_out_and_named() {
    let mut target = table(2, "t");
    target.schema = "a.b".to_owned();
    let mut fk = constraint(1, "c_fk", 'f');
    fk.columns = vec![1];
    fk.ref_columns = vec![1];
    fk.ref_table = Some(2);
    let raw = RawCatalog {
        tables: vec![table(1, "c"), target],
        columns: vec![col(1, 1, "a", "integer"), col(2, 1, "a", "integer")],
        constraints: vec![fk],
        indexes: Vec::new(),
        ..RawCatalog::default()
    };
    let pulled = assemble(&raw);
    assert_eq!(pulled.schema.tables.len(), 1, "{:?}", pulled.schema.tables);
    assert!(
        table_of(&pulled, "app", "c")
            .foreign_keys
            .is_empty(),
        "a key pointing at a table that is not in the pull is not a key"
    );
    assert!(
        pulled
            .warnings
            .iter()
            .any(|w| w.contains("cannot write back")),
        "{:?}",
        pulled.warnings
    );
    assert!(
        pulled.warnings.iter().any(|w| w.contains("c_fk")),
        "{:?}",
        pulled.warnings
    );

    let raw = RawCatalog {
        tables: vec![table(1, "c"), table(2, "t")],
        ..raw
    };
    let pulled = assemble(&raw);
    assert_eq!(
        table_of(&pulled, "app", "c")
            .foreign_keys
            .len(),
        1
    );
    assert!(pulled.warnings.is_empty(), "{:?}", pulled.warnings);
}

#[test]
fn a_foreign_key_whose_referenced_uniqueness_was_left_out_goes_with_it() {
    let mut fk = constraint(1, "c_fk", 'f');
    fk.columns = vec![1];
    fk.ref_columns = vec![1];
    fk.ref_table = Some(2);
    fk.index_oid = Some(50);
    let mut pk = constraint(2, "p_pk", 'p');
    pk.columns = vec![1];
    pk.index_oid = Some(50);
    let mut backing = index(50, 2, "p_pk");
    backing.unique = true;
    backing.primary = true;
    backing.key_count = 1;
    backing.columns = vec![1, 2];
    let raw = RawCatalog {
        tables: vec![table(1, "c"), table(2, "p")],
        columns: vec![
            col(1, 1, "a", "integer"),
            col(2, 1, "a", "integer"),
            col(2, 2, "b", "integer"),
        ],
        constraints: vec![fk, pk],
        indexes: vec![backing],
        ..RawCatalog::default()
    };
    let pulled = assemble(&raw);
    assert!(
        table_of(&pulled, "app", "p")
            .primary_key
            .is_none()
    );
    assert!(
        table_of(&pulled, "app", "c")
            .foreign_keys
            .is_empty(),
        "a key against a uniqueness that is not in the pull is not a key"
    );
    assert!(
        pulled.warnings.iter().any(|w| w.contains("INCLUDE")),
        "{:?}",
        pulled.warnings
    );
    assert!(
        pulled
            .warnings
            .iter()
            .any(|w| w.contains("uniqueness on the referenced table")),
        "{:?}",
        pulled.warnings
    );

    let mut pk = constraint(2, "p_pk", 'p');
    pk.columns = vec![1];
    pk.index_oid = Some(50);
    let mut backing = index(50, 2, "p_pk");
    backing.unique = true;
    backing.primary = true;
    backing.key_count = 1;
    backing.columns = vec![1];
    let mut fk = constraint(1, "c_fk", 'f');
    fk.columns = vec![1];
    fk.ref_columns = vec![1];
    fk.ref_table = Some(2);
    fk.index_oid = Some(50);
    let raw = RawCatalog {
        constraints: vec![fk, pk],
        indexes: vec![backing],
        ..raw
    };
    let pulled = assemble(&raw);
    assert_eq!(
        table_of(&pulled, "app", "c")
            .foreign_keys
            .len(),
        1
    );
    assert!(pulled.warnings.is_empty(), "{:?}", pulled.warnings);
}

#[test]
fn a_type_that_parses_back_as_a_different_value_does_not_survive() {
    let read = types_read(&[
        "bit(3)",
        "app.money_amount",
        "timestamp(3) with time zone",
        "integer",
        "numeric(10,2)",
        "timestamp with time zone",
    ]);
    let opaque = stored_type(&read, "bit(3)").expect_err("the catalogue cannot read it");
    assert_eq!(opaque.base, "bit(3)");
    assert!(opaque.args.is_empty());
    assert!(
        parse_type(&opaque.spelled).is_some(),
        "it parses, which is why parsing was the wrong question"
    );
    assert!(!survives_the_declaration(&read, &opaque));

    for spelling in ["app.money_amount", "timestamp(3) with time zone"] {
        let opaque = stored_type(&read, spelling).expect_err(spelling);
        assert!(!survives_the_declaration(&read, &opaque), "{spelling}");
    }

    for spelling in ["integer", "numeric(10,2)", "timestamp with time zone"] {
        let ty = stored_type(&read, spelling).expect(spelling);
        assert!(survives_the_declaration(&read, &ty), "{spelling}");
    }
}

#[test]
fn a_check_that_stops_at_this_table_is_left_out_and_named() {
    let mut c = constraint(1, "t_ck", 'c');
    c.expression = Some("(a > 0)".to_owned());
    c.definition = "CHECK ((a > 0)) NO INHERIT".to_owned();
    c.no_inherit = true;
    let raw = RawCatalog {
        tables: vec![table(1, "t")],
        columns: vec![col(1, 1, "a", "integer")],
        constraints: vec![c],
        indexes: Vec::new(),
        ..RawCatalog::default()
    };
    let pulled = assemble(&raw);
    assert!(only(&pulled).checks.is_empty());
    assert!(
        pulled.warnings[0].contains("NO INHERIT"),
        "{:?}",
        pulled.warnings
    );

    let mut ordinary = constraint(1, "t_ck", 'c');
    ordinary.expression = Some("(a > 0)".to_owned());
    let raw = RawCatalog {
        constraints: vec![ordinary],
        ..raw
    };
    let pulled = assemble(&raw);
    assert_eq!(only(&pulled).checks.len(), 1);
    assert!(pulled.warnings.is_empty(), "{:?}", pulled.warnings);
}

#[test]
fn a_temporal_key_is_left_out_and_named_rather_than_read_as_an_ordinary_one() {
    for kind in ['p', 'u', 'f'] {
        let mut c = constraint(1, "t_pk", kind);
        c.columns = vec![1, 2];
        c.definition = "PRIMARY KEY (id, valid WITHOUT OVERLAPS)".to_owned();
        if kind == 'f' {
            c.ref_columns = vec![1, 2];
            c.ref_table = Some(1);
        }
        c.period = true;
        let raw = RawCatalog {
            tables: vec![table(1, "t")],
            columns: vec![col(1, 1, "id", "integer"), col(1, 2, "valid", "daterange")],
            constraints: vec![c],
            indexes: Vec::new(),
            ..RawCatalog::default()
        };
        let pulled = assemble(&raw);
        let t = only(&pulled);
        assert!(
            t.primary_key.is_none() && t.unique.is_empty() && t.foreign_keys.is_empty(),
            "{kind}: {t:?}"
        );
        assert!(
            pulled.warnings.iter().any(|w| w.contains("temporal")),
            "{kind}: {:?}",
            pulled.warnings
        );
        let mut ordinary = constraint(1, "t_pk", kind);
        ordinary.columns = vec![1, 2];
        if kind == 'f' {
            ordinary.ref_columns = vec![1, 2];
            ordinary.ref_table = Some(1);
        }
        let raw = RawCatalog {
            constraints: vec![ordinary],
            ..raw
        };
        let ordinary = assemble(&raw);
        assert!(
            !ordinary.warnings.iter().any(|w| w.contains("temporal")),
            "{kind}: {:?}",
            ordinary.warnings
        );
    }
}

#[test]
fn every_limitation_names_the_table_it_belongs_to() {
    let mut column = col(2, 1, "total", "integer");
    column.generated = true;
    let raw = RawCatalog {
        tables: vec![table(1, "plain"), table(2, "odd")],
        columns: vec![col(1, 1, "a", "integer"), column],
        constraints: Vec::new(),
        indexes: Vec::new(),
        ..RawCatalog::default()
    };
    let pulled = assemble(&raw);
    assert_eq!(pulled.limitations.len(), 1);
    assert_eq!(pulled.limitations[0].table, TableName::new("app", "odd"));
    assert_eq!(pulled.warnings.len(), pulled.limitations.len());
}

#[test]
fn an_ordinary_table_produces_no_warning_at_all() {
    let mut pk = constraint(1, "t_pk", 'p');
    pk.columns = vec![1];
    pk.index_oid = Some(50);
    let mut backing = index(50, 1, "t_pk");
    backing.unique = true;
    backing.primary = true;
    let mut column = col(1, 1, "id", "integer");
    column.nullable = false;
    let raw = RawCatalog {
        tables: vec![table(1, "t")],
        columns: vec![column, col(1, 2, "note", "text")],
        constraints: vec![pk],
        indexes: vec![backing],
        ..RawCatalog::default()
    };
    let pulled = assemble(&raw);
    assert!(pulled.warnings.is_empty(), "{:?}", pulled.warnings);
    assert!(pulled.limitations.is_empty());
    let read = only(&pulled);
    assert_eq!(read.columns.len(), 2);
    assert!(!entry(&read.columns, "id").nullable);
    assert!(entry(&read.columns, "note").nullable);
    assert!(read.indexes.is_empty());
}

#[test]
fn what_nobody_granted_is_one_warning_to_a_shape() {
    let defaulted = |object: &str| RawGrant {
        defaulted: true,
        ..grant(
            Some("deploy"),
            Some(object),
            GrantedKind::Relation('r'),
            "SELECT",
        )
    };
    let own = |object: &str, permission: &str| {
        grant(
            Some("deploy"),
            Some(object),
            GrantedKind::Relation('r'),
            permission,
        )
    };
    let one = assemble(&RawCatalog {
        roles: vec![role("deploy")],
        grants: vec![defaulted("t")],
        ..RawCatalog::default()
    });
    assert!(pulled_role(&one, "deploy").grants.is_empty());
    assert!(one.unexpressible.is_empty());
    assert_eq!(one.warnings.len(), 1);
    assert!(
        one.warnings[0].starts_with("`deploy` holds SELECT on 1 relation: `app.t`."),
        "{}",
        one.warnings[0]
    );
    let mut column = own("t", "UPDATE");
    column.column = Some("c".to_owned());
    column.grantable = true;
    let many = assemble(&RawCatalog {
        roles: vec![role("deploy")],
        grants: vec![own("u", "SELECT"), defaulted("t"), column],
        ..RawCatalog::default()
    });
    assert_eq!(many.warnings.len(), 2, "{:?}", many.warnings);
    assert!(many.warnings[0].starts_with("`deploy` holds SELECT on 2 relations: `app.u`, `app.t`."));
    assert!(many.warnings[1].starts_with(
        "`deploy` holds UPDATE WITH GRANT OPTION on 1 relation: column `c` of `app.t`."
    ));
}

#[test]
fn an_unread_column_is_named_by_its_own_number() {
    let mut fk = constraint(1, "t_fk", 'f');
    fk.columns = vec![9, 1];
    fk.ref_table = Some(1);
    fk.ref_columns = vec![1, 1];
    let mut ix = index(60, 1, "t_ix");
    ix.columns = vec![1, 8, 1];
    ix.key_count = 1;
    let raw = RawCatalog {
        tables: vec![table(1, "t")],
        columns: vec![col(1, 1, "a", "integer")],
        constraints: vec![fk],
        indexes: vec![ix],
        ..RawCatalog::default()
    };
    let pulled = assemble(&raw);
    let said = pulled.warnings.join("\n");
    assert!(said.contains("foreign key `t_fk` on `app.t` names column number 9"), "{said}");
    assert!(said.contains("index `t_ix` on `app.t` names column number 8"), "{said}");
}

#[test]
fn a_recorded_identity_keeps_every_part_of_its_arguments() {
    let raw = declaring('f', &["numeric"]);
    let arg = RoutineArg {
        text: "numeric".to_owned(),
        canonical: "numeric".to_owned(),
        element: "num".to_owned(),
        array: true,
        catalogued: false,
        overlong: Some("long".to_owned()),
    };
    let mut read = read_back(&raw);
    read.args = vec![("numeric".to_owned(), ReadArg::As(arg.clone()))];
    read.modules = vec![(
        "app.f(numeric)".to_owned(),
        ModuleId::Routine {
            name: TableName::new("app", "f"),
            args: vec![arg.clone()],
        },
    )];
    let pulled = introspect::assemble(&raw, &read);
    let ids: Vec<&ModuleId> = pulled.schema.modules.iter().map(|(id, _)| id).collect();
    assert_eq!(
        ids,
        [&ModuleId::Routine {
            name: TableName::new("app", "f"),
            args: vec![arg],
        }]
    );
}

#[test]
fn the_order_the_catalog_names_its_tables_in_does_not_matter() {
    let mut pk = constraint(1, "a_pk", 'p');
    pk.columns = vec![1];
    pk.index_oid = Some(50);
    let mut fk = constraint(2, "b_fk", 'f');
    fk.columns = vec![1];
    fk.ref_table = Some(1);
    fk.ref_columns = vec![1];
    fk.index_oid = Some(50);
    let raw = RawCatalog {
        tables: vec![table(1, "a"), table(2, "b"), table(3, "c")],
        columns: vec![
            col(1, 1, "id", "integer"),
            col(2, 1, "a_id", "integer"),
            col(3, 1, "x", "integer"),
        ],
        constraints: vec![fk, pk],
        roles: vec![role("app_reader")],
        grants: vec![grant(
            Some("app_reader"),
            Some("b"),
            GrantedKind::Relation('r'),
            "SELECT",
        )],
        ..RawCatalog::default()
    };
    let first = assemble(&raw);
    assert_eq!(table_of(&first, "app", "b").foreign_keys.len(), 1);
    for order in [[1, 0, 2], [2, 1, 0], [1, 2, 0]] {
        let mut other = raw.clone();
        other.tables = order.iter().map(|i: &usize| raw.tables[*i].clone()).collect();
        assert_eq!(assemble(&other).schema, first.schema, "{order:?}");
    }
}
