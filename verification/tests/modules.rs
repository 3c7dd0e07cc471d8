//! Rebuilding a module: what it would destroy, who stands in the way and who
//! calls it.
use pbps_pg::model::{
    Cast, CheckConstraint, Column, ColumnType, DeclaredDefault, DeclaredType, Module, ModuleId,
    ModuleKind, Reading, RoutineArg, Table, TableName,
};
use pbps_pg::modules::{
    after_row_lock, arriving_kind, before_a_rebuild, callers_by_name, callers_report, dependents,
    dependents_query, in_the_callers_transaction, lock_plan, module_oid, not_in_the_catalog,
    rebound_by_this_plan, reference_class, row_lock, signature, to_rebuild, unmanaged_refusal,
    ArgRow, ArrivingRow, Carried, CatalogRows, DeclaredModule, DefaultRow, Dependent,
    DependentRow, Holds, LockPlan, Part, Rebound, Rebuild, RelationRow, RoutineRow, Schema,
    Serialized,
};

fn id(s: &str) -> ModuleId {
    let (name, args) = match s.split_once('(') {
        None => (s, None),
        Some((name, args)) => (name, Some(args.strip_suffix(')').expect("a closed list"))),
    };
    let (schema, name) = name.split_once('.').expect("a qualified name");
    let name = TableName::new(schema, name);
    let Some(args) = args else {
        return ModuleId::Named(name);
    };
    let read = |text: &str| RoutineArg {
        text: text.to_owned(),
        canonical: text.to_owned(),
        element: text.to_owned(),
        array: false,
        catalogued: true,
        overlong: None,
    };
    ModuleId::Routine {
        name,
        args: args.split(',').filter(|a| !a.is_empty()).map(read).collect(),
    }
}

fn empty_schema() -> Schema {
    Schema {
        tables: Vec::new(),
        modules: Vec::new(),
    }
}

fn integer() -> Column {
    let ty = ColumnType {
        base: "integer".to_owned(),
        args: Vec::new(),
        spelled: "integer".to_owned(),
    };
    Column {
        ty: DeclaredType {
            written: ty.clone(),
            normal: Reading::As(ty),
        },
        nullable: true,
        default: None,
        identity: None,
        serial: None,
    }
}

/// Declares a module, in the order of the identities, beside the objects its
/// text mentions. A name without a schema may be any of them.
fn declare(schema: &mut Schema, (id, module): (ModuleId, Module)) {
    let mut mentions = Vec::new();
    for word in module
        .definition
        .split(|c: char| !(c.is_alphanumeric() || c == '_' || c == '.'))
        .filter(|word| !word.is_empty())
    {
        match word.split_once('.') {
            Some((schema, name)) => mentions.push(TableName::new(schema, name)),
            None => {
                for schema in ["app", "shared", "elsewhere"] {
                    mentions.push(TableName::new(schema, word));
                }
            }
        }
    }
    schema.modules.push(DeclaredModule {
        id,
        module,
        mentions,
    });
    schema.modules.sort_by_key(|m| m.id.show());
}

fn schema_with_a_table() -> Schema {
    let mut d = integer();
    d.default = Some(DeclaredDefault {
        text: "app.g(1)".to_owned(),
        constant: false,
        core: "app.g(1)".to_owned(),
        cast: Cast::Absent,
    });
    let t = Table {
        columns: vec![("d".to_owned(), d), ("n".to_owned(), integer())],
        primary_key: None,
        unique: Vec::new(),
        checks: vec![(
            "ck".to_owned(),
            CheckConstraint {
                expression: "app.g(n) > 0".to_owned(),
            },
        )],
        foreign_keys: Vec::new(),
        indexes: Vec::new(),
    };
    Schema {
        tables: vec![(TableName::new("app", "t"), t)],
        modules: Vec::new(),
    }
}


fn module(definition: &str) -> Module {
    Module {
        kind: ModuleKind::Function,
        definition: definition.to_owned(),
    }
}

fn carried(what: &'static str, detail: &str) -> Carried {
    Carried {
        what,
        detail: detail.to_owned(),
    }
}

#[test]
fn a_module_that_carries_nothing_refuses_nothing() {
    let clean = Rebuild {
        id: id("app.v"),
        carries: Vec::new(),
        serialized: Serialized::By("the view's own ACCESS EXCLUSIVE lock"),
    };
    assert_eq!(clean.refusal(), None);
}

#[test]
fn one_refusal_names_every_thing_the_rebuild_would_destroy() {
    let loaded = Rebuild {
        id: id("app.v"),
        carries: vec![
            carried("the object's ACL", "{app=arwdDxtm/app,reader=r/app}"),
            carried("options in `pg_class.reloptions`", "security_invoker=true"),
        ],
        serialized: Serialized::By("the view's own ACCESS EXCLUSIVE lock"),
    };
    let refusal = loaded.refusal().expect("two carried things refuse");
    assert_eq!(refusal.matches("app.v").count(), 1, "{refusal}");
    assert!(refusal.contains("reader=r/app"), "{refusal}");
    assert!(refusal.contains("security_invoker=true"), "{refusal}");
}


fn dependent(described: &str, holds: Holds) -> Dependent {
    Dependent {
        described: described.to_owned(),
        holds,
    }
}

#[test]
fn a_part_is_managed_only_where_the_declaration_holds_that_part() {
    let declared = schema_with_a_table();
    let table = TableName::new("app", "t");
    let cases = [
        (Part::Check("ck".into()), true),
        (Part::Check("ck_other".into()), false),
        (Part::Default("d".into()), true),
        (Part::Default("n".into()), false),
        (Part::Default("absent".into()), false),
        (Part::Index("ix".into()), false),
    ];
    for (part, expected) in cases {
        let d = dependent(
            "a part",
            Holds::TablePart {
                table: table.clone(),
                part: part.clone(),
            },
        );
        assert_eq!(d.managed(&declared), expected, "{part:?}");
    }
    assert!(
        !dependent(
            "elsewhere",
            Holds::TablePart {
                table: TableName::new("other", "t"),
                part: Part::Check("ck".into()),
            },
        )
        .managed(&declared)
    );
}

#[test]
fn what_the_model_cannot_represent_is_never_managed() {
    let mut declared = schema_with_a_table();
    declare(&mut declared, (id("app.f()"), module("() RETURNS int")));
    for why in ["a generated column", "an index over an expression"] {
        assert!(
            !dependent("x", Holds::Unrepresentable(why.to_owned())).managed(&declared),
            "{why}"
        );
    }
}

#[test]
fn a_dependent_the_declarations_hold_is_not_a_refusal() {
    let mut declared = schema_with_a_table();
    declare(&mut declared, (id("app.v"), module("SELECT 1")));
    let all_declared = [
        dependent(
            "constraint ck on table app.t",
            Holds::TablePart {
                table: TableName::new("app", "t"),
                part: Part::Check("ck".into()),
            },
        ),
        dependent("view app.v", Holds::Module(id("app.v"))),
    ];
    assert_eq!(
        unmanaged_refusal(&id("app.g(integer)"), &all_declared, &declared),
        None
    );
    assert_eq!(to_rebuild(&all_declared, &declared).len(), 2);

    let one_missing = [dependent("view app.other", Holds::Module(id("app.other")))];
    let refusal = unmanaged_refusal(&id("app.g(integer)"), &one_missing, &declared)
        .expect("an undeclared dependent refuses");
    assert!(refusal.contains("app.other"), "{refusal}");
    assert!(!refusal.contains("CASCADE the"), "{refusal}");
    assert!(to_rebuild(&one_missing, &declared).is_empty());
}

#[test]
fn the_caller_scan_reports_names_and_never_the_object_itself() {
    let mut declared = empty_schema();
    declare(
        &mut declared,
        (
            id("app.g(integer)"),
            module("(a integer) RETURNS int AS $$ SELECT app.g(a) $$"),
        ),
    );
    declare(
        &mut declared,
        (
            id("app.caller()"),
            module("() RETURNS int LANGUAGE plpgsql AS $$ BEGIN RETURN app.g(1); END $$"),
        ),
    );
    declare(
        &mut declared,
        (
            id("app.bare()"),
            module("() RETURNS int LANGUAGE plpgsql AS $$ BEGIN RETURN g(1); END $$"),
        ),
    );
    declare(
        &mut declared,
        (
            id("app.unrelated()"),
            module("() RETURNS int LANGUAGE sql AS $$ SELECT 1 $$"),
        ),
    );
    let found = callers_by_name(&declared, &id("app.g(integer)"));
    assert_eq!(found, vec![id("app.bare()"), id("app.caller()")]);
    assert!(callers_report(&id("app.g(integer)"), &found).is_some());
    assert_eq!(callers_report(&id("app.g(integer)"), &[]), None);
}

#[test]
fn only_a_name_arriving_on_the_modules_own_write_path_rebinds_it() {
    let mut declared = empty_schema();
    declare(
        &mut declared,
        (
            id("app.caller()"),
            module("() RETURNS text LANGUAGE sql BEGIN ATOMIC SELECT f(1); END"),
        ),
    );
    declare(
        &mut declared,
        (
            id("app.quiet()"),
            module("() RETURNS int AS $$ SELECT 1 $$"),
        ),
    );
    let extras = vec!["shared".to_owned()];
    let nothing_changed: Vec<ModuleId> = Vec::new();

    let own = rebound_by_this_plan(
        &declared,
        &extras,
        &[id("app.f(integer)")],
        &nothing_changed,
    );
    assert_eq!(
        own,
        vec![Rebound {
            module: id("app.caller()"),
            arriving: id("app.f(integer)"),
        }]
    );

    assert_eq!(
        rebound_by_this_plan(
            &declared,
            &extras,
            &[id("shared.f(integer)")],
            &nothing_changed
        )
        .len(),
        1
    );

    assert!(
        rebound_by_this_plan(
            &declared,
            &extras,
            &[id("elsewhere.f(integer)")],
            &nothing_changed
        )
        .is_empty()
    );

    assert!(
        rebound_by_this_plan(
            &declared,
            &extras,
            &[id("app.nobody(integer)")],
            &nothing_changed
        )
        .is_empty()
    );

    let already: Vec<ModuleId> = [id("app.caller()")].into_iter().collect();
    assert!(
        rebound_by_this_plan(&declared, &extras, &[id("app.f(integer)")], &already).is_empty()
    );
}

fn no_rows() -> CatalogRows {
    CatalogRows {
        relation: None,
        defaults: Vec::new(),
        routine: None,
        enabled: Vec::new(),
        arriving: Vec::new(),
    }
}

fn audit() -> ModuleId {
    ModuleId::Trigger {
        on: TableName::new("app", "t"),
        name: "audit".to_owned(),
    }
}

fn details(kind: ModuleKind, rows: &CatalogRows) -> Vec<String> {
    before_a_rebuild(&id("app.v"), kind, rows, Serialized::By("a lock"))
        .carries
        .into_iter()
        .map(|c| c.detail)
        .collect()
}

#[test]
fn a_view_carries_its_owner_acl_options_defaults_and_arriving_grants() {
    let mut rows = no_rows();
    rows.relation = Some(RelationRow {
        owner: "app".into(),
        acl: "{reader=r/app}".into(),
        reloptions: "security_invoker=true".into(),
        deploying_as: "deploy".into(),
    });
    rows.defaults = vec![DefaultRow {
        column_name: "n".into(),
        expression: "1".into(),
    }];
    rows.arriving = vec![ArrivingRow {
        in_schema: "app".into(),
        acl: "{reader=r/deploy}".into(),
    }];
    assert_eq!(
        details(ModuleKind::View, &rows),
        [
            "`app` owns it and this session is `deploy`",
            "{reader=r/app}",
            "security_invoker=true",
            "column `n` defaults to 1",
            "`ALTER DEFAULT PRIVILEGES` for this account in app grants {reader=r/deploy}",
        ]
    );
    let mut own = no_rows();
    own.relation = Some(RelationRow {
        owner: "deploy".into(),
        acl: String::new(),
        reloptions: String::new(),
        deploying_as: "deploy".into(),
    });
    assert!(details(ModuleKind::View, &own).is_empty());
}

#[test]
fn a_routine_carries_its_owner_the_louder_where_it_runs_as_the_owner() {
    let mut rows = no_rows();
    rows.routine = Some(RoutineRow {
        owner: "app".into(),
        acl: String::new(),
        security_definer: true,
        deploying_as: "deploy".into(),
    });
    let found = details(ModuleKind::Function, &rows);
    assert_eq!(found.len(), 1);
    assert!(found[0].contains("`SECURITY DEFINER`"), "{}", found[0]);
    // The rows of another kind are not its own.
    assert!(details(ModuleKind::View, &rows).is_empty());
}

#[test]
fn a_trigger_carries_the_switch_an_operator_turned() {
    let mut rows = no_rows();
    rows.enabled = ["O", "D", "R", "A", "x"].map(str::to_owned).to_vec();
    assert_eq!(
        details(ModuleKind::Trigger, &rows),
        [
            "the trigger is disabled",
            "the trigger fires only on a replica",
            "the trigger fires always, replica or not",
            "`tgenabled` is `x`",
        ]
    );
}

#[test]
fn each_kind_is_locked_by_what_its_catalog_allows() {
    assert_eq!(
        lock_plan(&id("app.v"), ModuleKind::View),
        LockPlan::Statement(
            "LOCK TABLE \"app\".\"v\" IN ACCESS EXCLUSIVE MODE".to_owned(),
            "the view's own ACCESS EXCLUSIVE lock"
        )
    );
    assert_eq!(
        lock_plan(&audit(), ModuleKind::Trigger),
        LockPlan::Statement(
            "LOCK TABLE \"app\".\"t\" IN ACCESS EXCLUSIVE MODE".to_owned(),
            "the trigger's parent table's ACCESS EXCLUSIVE lock"
        )
    );
    assert!(matches!(
        lock_plan(&id("app.v"), ModuleKind::Trigger),
        LockPlan::Without(_)
    ));
    assert_eq!(
        lock_plan(&id("app.f(integer)"), ModuleKind::Procedure),
        LockPlan::RoutineRow
    );
    assert_eq!(
        row_lock(Ok(())),
        Serialized::By("a row lock on the routine's `pg_proc` entry")
    );
    let Serialized::Not(why) = row_lock(Err("permission denied".to_owned())) else {
        panic!("no lock was taken");
    };
    assert!(why.contains("(permission denied)"), "{why}");
    assert_eq!(
        not_in_the_catalog(&id("app.f(integer)")),
        Serialized::Not("`app.f(integer)` is not in the catalog".to_owned())
    );
}

#[test]
fn a_module_is_looked_up_by_everything_its_identity_holds() {
    let view = module_oid(&id("app.v"), ModuleKind::View).expect("a query");
    assert_eq!(view.parameters, ["app", "v"]);
    let routine = module_oid(&id("app.f(integer,text)"), ModuleKind::Function).expect("a query");
    assert_eq!(routine.parameters, ["app", "f", "integer,text"]);
    assert_eq!(signature(&id("app.f(integer,text)")), "integer,text");
    assert_eq!(signature(&id("app.v")), "");
    let trigger = module_oid(&audit(), ModuleKind::Trigger).expect("a query");
    assert_eq!(trigger.parameters, ["app", "t", "audit"]);
    assert_eq!(module_oid(&id("app.v"), ModuleKind::Trigger), None);
    assert_eq!(arriving_kind(ModuleKind::View), Some("r"));
    assert_eq!(arriving_kind(ModuleKind::Procedure), Some("f"));
    assert_eq!(arriving_kind(ModuleKind::Trigger), None);
    let query = dependents_query(reference_class(ModuleKind::Function));
    assert!(query.contains("'pg_catalog.pg_proc'::regclass"), "{query}");
    assert!(!query.contains("{}"), "{query}");
}

#[test]
fn a_read_outside_the_callers_transaction_is_refused() {
    assert_eq!(in_the_callers_transaction(Some("yes")), Ok(()));
    for probe in [None, Some(""), Some("no")] {
        assert!(in_the_callers_transaction(probe).is_err(), "{probe:?}");
    }
}

#[test]
fn a_dependent_is_read_as_what_the_declarations_would_call_it() {
    let row = |what: &str, name: &str, part: &str, oid: i64, unrepresentable: &str| DependentRow {
        what: what.into(),
        described: format!("{what} {name}"),
        dep_schema: "app".into(),
        dep_name: name.into(),
        part: part.into(),
        dep_oid: oid,
        unrepresentable: unrepresentable.into(),
    };
    let ModuleId::Routine { args, .. } = id("app.f(integer,text)") else {
        panic!("a routine");
    };
    let arg = |routine: i64, at: usize| ArgRow {
        routine,
        ty: Some(args[at].clone()),
    };
    let found = dependents(
        &vec![
            row("view", "v", "", 1, ""),
            row("routine", "f", "", 2, ""),
            row("routine", "odd", "", 3, ""),
            row("trigger", "t", "audit", 4, ""),
            row("check", "t", "ck", 5, ""),
            row("default", "t", "d", 6, ""),
            row("index", "t", "ix", 7, ""),
            row("view", "g", "", 8, "a generated column"),
            row("policy", "p", "", 9, ""),
        ],
        &vec![
            arg(2, 0),
            ArgRow {
                routine: 3,
                ty: None,
            },
            arg(2, 1),
        ],
    );
    let held: Vec<Holds> = found.iter().map(|d| d.holds.clone()).collect();
    let part = |part: Part| Holds::TablePart {
        table: TableName::new("app", "t"),
        part,
    };
    assert_eq!(found[0].described, "view v");
    assert_eq!(
        held,
        [
            Holds::Module(id("app.v")),
            Holds::Module(id("app.f(integer,text)")),
            Holds::Unrepresentable(
                "a routine whose argument types this model cannot hold as an identity".to_owned()
            ),
            Holds::Module(audit()),
            part(Part::Check("ck".into())),
            part(Part::Default("d".into())),
            part(Part::Index("ix".into())),
            Holds::Unrepresentable("a generated column".to_owned()),
            Holds::Unrepresentable(
                "a dependent of a kind this reader does not know (`policy`)".to_owned()
            ),
        ]
    );
}

#[test]
fn a_routine_is_keyed_alike_in_every_row_that_names_it() {
    let ModuleId::Routine { args, .. } = id("app.f(integer)") else {
        panic!("a routine");
    };
    let row = |described: &str| DependentRow {
        what: "routine".into(),
        described: described.into(),
        dep_schema: "app".into(),
        dep_name: "f".into(),
        part: String::new(),
        dep_oid: 2,
        unrepresentable: String::new(),
    };
    let found = dependents(
        &vec![row("its default"), row("its body")],
        &vec![ArgRow {
            routine: 2,
            ty: Some(args[0].clone()),
        }],
    );
    for dependent in found {
        assert_eq!(dependent.holds, Holds::Module(id("app.f(integer)")));
    }
}

#[test]
fn a_row_lock_that_failed_is_taken_back() {
    assert_eq!(after_row_lock(true), "RELEASE SAVEPOINT pbps_routine_lock");
    assert_eq!(
        after_row_lock(false),
        "ROLLBACK TO SAVEPOINT pbps_routine_lock"
    );
}

#[test]
fn the_refusal_of_a_rebuild_names_what_could_not_be_put_back() {
    let missing = [dependent("view app.other", Holds::Module(id("app.other")))];
    assert_eq!(
        unmanaged_refusal(&id("app.g(integer)"), &missing, &empty_schema()),
        Some(
            "`app.g(integer)` cannot be rebuilt: this engine has no `CREATE OR ALTER`, so the \
             change is a drop and a create (ADR-0009 §3), and these objects depend on it and this \
             project could not put them back:\n- view app.other — this project does not declare \
             it\nThe plan names every object it drops, or it does not drop (SPEC 14.3), so \
             `DROP … CASCADE` is not offered. Declare them, or remove the dependency, and plan \
             again."
                .to_owned()
        )
    );
}
