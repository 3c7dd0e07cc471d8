//! What a rebuild of a module would lose, and what has to be rebuilt with it.
use vstd::prelude::*;

use crate::acceptance;
use crate::model;
use crate::model::{Column, ModuleId, ModuleKind, Table, TableName};
use crate::modules;
use crate::modules::{
    ArgRow, CatalogRows, DeclaredModule, Dependent, DependentRow, HoldsView, LockPlan, OidQuery,
    PartView, Rebound, Rebuild, Schema, Serialized,
};
use crate::readings::count;
use crate::sql;
use crate::statements;
use crate::templates;
use crate::text;
use crate::validate;

verus! {

// ---------------------------------------------------------------------------
// What a rebuild would lose

proof fn either_holds<T>(a: Seq<T>, b: Seq<T>, x: T)
    ensures
        (a + b).contains(x) <==> a.contains(x) || b.contains(x),
{
    vstd::seq_lib::lemma_seq_concat_contains_all_elements(a, b, x);
}

/// A view loses everything that a `CREATE` does not put back, and nothing else:
/// an owner other than this account, an access list, options, every default of
/// its columns, and every grant that the new one would arrive with.
pub proof fn what_a_view_would_lose(rows: CatalogRows)
    ensures
        ({
            let lost = modules::carried_by(ModuleKind::View, rows);
            &&& lost.len() == match rows.relation {
                None => 0,
                Some(row) => count(row.owner@ != row.deploying_as@) + count(row.acl@.len() > 0)
                    + count(row.reloptions@.len() > 0),
            } + rows.defaults@.len() + rows.arriving@.len()
            &&& rows.relation matches Some(row) ==> {
                &&& row.owner@ != row.deploying_as@ ==> lost.contains(
                    (
                        modules::OWNER@,
                        "`"@ + row.owner@ + "` owns it and this session is `"@ + row.deploying_as@
                            + "`"@,
                    ),
                )
                &&& row.acl@.len() > 0 ==> lost.contains((modules::ACL@, row.acl@))
                &&& row.reloptions@.len() > 0 ==> lost.contains(
                    (modules::OPTIONS@, row.reloptions@),
                )
            }
            &&& forall|i: int|
                0 <= i < rows.defaults@.len() ==> lost.contains(
                    (
                        modules::VIEW_DEFAULT@,
                        "column `"@ + (#[trigger] rows.defaults@[i]).column_name@
                            + "` defaults to "@ + rows.defaults@[i].expression@,
                    ),
                )
        }),
{
    let lost = modules::carried_by(ModuleKind::View, rows);
    let a = modules::relation_carried(rows.relation);
    let b = modules::defaults_carried(rows.defaults@);
    let c = modules::arriving_carried(rows.arriving@);
    if let Some(row) = rows.relation {
        let o = modules::owner_carried(row.owner@, row.deploying_as@, false);
        let l = modules::text_carried(modules::ACL@, row.acl@);
        let p = modules::text_carried(modules::OPTIONS@, row.reloptions@);
        assert(a == o + l + p);
        if row.owner@ != row.deploying_as@ {
            templates::an_owner_of_a_module_reads(row.owner@, row.deploying_as@);
            let x = (
                modules::OWNER@,
                "`"@ + row.owner@ + "` owns it and this session is `"@ + row.deploying_as@ + "`"@,
            );
            assert(o[0] == x);
            assert(lost[0] == x);
        }
        if row.acl@.len() > 0 {
            assert(lost[o.len() as int] == (modules::ACL@, row.acl@));
        }
        if row.reloptions@.len() > 0 {
            assert(lost[(o.len() + l.len()) as int] == (modules::OPTIONS@, row.reloptions@));
        }
    }
    assert forall|i: int| 0 <= i < rows.defaults@.len() implies lost.contains(
        (
            modules::VIEW_DEFAULT@,
            "column `"@ + (#[trigger] rows.defaults@[i]).column_name@ + "` defaults to "@
                + rows.defaults@[i].expression@,
        ),
    ) by {
        templates::a_default_of_a_view_reads(
            rows.defaults@[i].column_name@,
            rows.defaults@[i].expression@,
        );
        assert(lost[a.len() + i] == b[i]);
    }
}

/// A routine loses an owner other than this account, an access list and every
/// grant that the new one would arrive with, and nothing else.
pub proof fn what_a_routine_would_lose(kind: ModuleKind, rows: CatalogRows)
    requires
        kind == ModuleKind::Function || kind == ModuleKind::Procedure,
    ensures
        ({
            let lost = modules::carried_by(kind, rows);
            &&& lost.len() == match rows.routine {
                None => 0,
                Some(row) => count(row.owner@ != row.deploying_as@) + count(row.acl@.len() > 0),
            } + rows.arriving@.len()
            &&& rows.routine matches Some(row) ==> {
                &&& row.owner@ != row.deploying_as@ && !row.security_definer ==> lost.contains(
                    (
                        modules::OWNER@,
                        "`"@ + row.owner@ + "` owns it and this session is `"@ + row.deploying_as@
                            + "`"@,
                    ),
                )
                &&& row.owner@ != row.deploying_as@ && row.security_definer ==> lost.contains(
                    (
                        modules::OWNER@,
                        text::filled(modules::DEFINER@, seq![row.owner@, row.deploying_as@]),
                    ),
                )
                &&& row.acl@.len() > 0 ==> lost.contains((modules::ACL@, row.acl@))
            }
        }),
{
    let lost = modules::carried_by(kind, rows);
    if let Some(row) = rows.routine {
        let o = modules::owner_carried(row.owner@, row.deploying_as@, row.security_definer);
        if row.owner@ != row.deploying_as@ {
            templates::an_owner_of_a_module_reads(row.owner@, row.deploying_as@);
            assert(o.len() == 1);
            assert(lost[0] == o[0]);
        }
        if row.acl@.len() > 0 {
            assert(lost[o.len() as int] == (modules::ACL@, row.acl@));
        }
    }
}

/// Every default privilege of this account is said of a view and of a routine,
/// with the schema it is for and what it grants.
pub proof fn what_a_replacement_would_arrive_with(kind: ModuleKind, rows: CatalogRows, at: int)
    requires
        kind != ModuleKind::Trigger,
        0 <= at < rows.arriving@.len(),
    ensures
        modules::carried_by(kind, rows).contains(
            (
                modules::ARRIVING@,
                "`ALTER DEFAULT PRIVILEGES` for this account in "@ + rows.arriving@[at].in_schema@
                    + " grants "@ + rows.arriving@[at].acl@,
            ),
        ),
{
    let lost = modules::carried_by(kind, rows);
    let c = modules::arriving_carried(rows.arriving@);
    templates::an_arriving_grant_reads(rows.arriving@[at].in_schema@, rows.arriving@[at].acl@);
    assert(lost[lost.len() - c.len() + at] == c[at]);
}

/// How a trigger's state is said, where it is not the one it is created with.
pub open spec fn state_in_words(enabled: Seq<char>) -> Seq<char> {
    if enabled == "D"@ {
        "the trigger is disabled"@
    } else if enabled == "R"@ {
        "the trigger fires only on a replica"@
    } else if enabled == "A"@ {
        "the trigger fires always, replica or not"@
    } else {
        "`tgenabled` is `"@ + enabled + "`"@
    }
}

proof fn switches(rows: Seq<Seq<char>>, n: int)
    requires
        0 <= n <= rows.len(),
    ensures
        forall|i: int|
            0 <= i < n && (#[trigger] rows[i]) != "O"@ ==> modules::switches_carried(
                rows,
                n,
            ).contains((modules::ENABLED@, state_in_words(rows[i]))),
        (forall|i: int| 0 <= i < n ==> (#[trigger] rows[i]) == "O"@)
            <==> modules::switches_carried(rows, n).len() == 0,
    decreases n,
{
    if n > 0 {
        switches(rows, n - 1);
        let front = modules::switches_carried(rows, n - 1);
        let all = modules::switches_carried(rows, n);
        templates::a_state_of_a_trigger_reads(rows[n - 1]);
        assert forall|i: int| 0 <= i < n && (#[trigger] rows[i]) != "O"@ implies all.contains(
            (modules::ENABLED@, state_in_words(rows[i])),
        ) by {
            if i < n - 1 {
                let x = (modules::ENABLED@, state_in_words(rows[i]));
                let k = front.index_of(x);
                assert(all[k] == x);
            } else {
                assert(all.last() == (modules::ENABLED@, state_in_words(rows[i])));
            }
        }
        if rows[n - 1] == "O"@ && front.len() == 0 {
            assert forall|i: int| 0 <= i < n implies (#[trigger] rows[i]) == "O"@ by {}
        }
    }
}

/// A trigger loses its state exactly where that is not the one a `CREATE` gives
/// it, and the state is said in words.
pub proof fn what_a_trigger_would_lose(rows: CatalogRows)
    ensures
        ({
            let lost = modules::carried_by(ModuleKind::Trigger, rows);
            &&& forall|i: int|
                0 <= i < rows.enabled@.len() && (#[trigger] rows.enabled@[i])@ != "O"@
                    ==> lost.contains((modules::ENABLED@, state_in_words(rows.enabled@[i]@)))
            &&& lost.len() == 0 <==> forall|i: int|
                0 <= i < rows.enabled@.len() ==> (#[trigger] rows.enabled@[i])@ == "O"@
        }),
{
    let states = text::texts(rows.enabled@);
    switches(states, rows.enabled@.len() as int);
    let lost = modules::carried_by(ModuleKind::Trigger, rows);
    assert forall|i: int|
        0 <= i < rows.enabled@.len() && (#[trigger] rows.enabled@[i])@
            != "O"@ implies lost.contains(
        (modules::ENABLED@, state_in_words(rows.enabled@[i]@)),
    ) by {
        assert(states[i] == rows.enabled@[i]@);
    }
    if lost.len() == 0 {
        assert forall|i: int| 0 <= i < rows.enabled@.len() implies (#[trigger] rows.enabled@[i])@
            == "O"@ by {
            assert(states[i] == rows.enabled@[i]@);
        }
    }
    if forall|i: int| 0 <= i < rows.enabled@.len() ==> (#[trigger] rows.enabled@[i])@ == "O"@ {
        assert forall|i: int| 0 <= i < states.len() implies (#[trigger] states[i]) == "O"@ by {
            assert(states[i] == rows.enabled@[i]@);
        }
    }
}

/// A rebuild is refused exactly where the catalog holds something that it would
/// lose, and the refusal names the module and lists all of it.
pub proof fn a_rebuild_that_would_lose_something_is_refused(
    id: ModuleId,
    kind: ModuleKind,
    rows: CatalogRows,
    serialized: Serialized,
    rebuild: Rebuild,
    refusal: Option<String>,
)
    requires
        call_ensures(modules::before_a_rebuild, (&id, kind, &rows, serialized), rebuild),
        call_ensures(Rebuild::refusal, (&rebuild,), refusal),
    ensures
        rebuild.id@ == id@,
        rebuild.serialized == serialized,
        refusal is Some <==> modules::carried_by(kind, rows).len() > 0,
        refusal matches Some(message) ==> message@ == text::filled(
            modules::CANNOT_CARRY@,
            seq![
                model::module_text(id@),
                text::joined(modules::carried_lines(modules::carried_by(kind, rows)), "\n"@),
            ],
        ),
{
    assert(modules::all_carried(rebuild.carries@).len() == rebuild.carries@.len());
}

/// Everything that would be lost is a line of its own, with what it is before
/// what it says.
pub proof fn a_lost_thing_is_a_line(lost: Seq<(Seq<char>, Seq<char>)>)
    ensures
        modules::carried_lines(lost).len() == lost.len(),
        forall|i: int|
            0 <= i < lost.len() ==> #[trigger] modules::carried_lines(lost)[i] == "- "@ + lost[i].0
                + ": "@ + lost[i].1,
{
    assert forall|i: int| 0 <= i < lost.len() implies #[trigger] modules::carried_lines(lost)[i]
        == "- "@ + lost[i].0 + ": "@ + lost[i].1 by {
        templates::a_carried_thing_reads(lost[i].0, lost[i].1);
    }
}

// ---------------------------------------------------------------------------
// The lock

/// A view is locked by its own name, a trigger by its table's, both against
/// everyone; a routine has no relation to lock.
pub proof fn a_rebuild_is_locked_by_its_relation(id: ModuleId, kind: ModuleKind, plan: LockPlan)
    requires
        call_ensures(modules::lock_plan, (&id, kind), plan),
        statements::is_table_name((model::module_schema(id@), model::module_name(id@))),
        id matches ModuleId::Trigger { on, name: _ } ==> statements::is_table_name(on@),
    ensures
        kind == ModuleKind::View ==> (plan matches LockPlan::Statement(s, by) && s@
            == "LOCK TABLE "@ + statements::table_in_quotes(
            (model::module_schema(id@), model::module_name(id@)),
        ) + " IN ACCESS EXCLUSIVE MODE"@ && by@ == "the view's own ACCESS EXCLUSIVE lock"@),
        kind == ModuleKind::Trigger ==> match id {
            ModuleId::Trigger { on, name: _ } => plan matches LockPlan::Statement(s, by) && s@
                == "LOCK TABLE "@ + statements::table_in_quotes(on@)
                + " IN ACCESS EXCLUSIVE MODE"@ && by@
                == "the trigger's parent table's ACCESS EXCLUSIVE lock"@,
            _ => plan matches LockPlan::Without(why) && why@ == "`"@ + model::module_text(id@)
                + "` does not say which table it is on, so there is no lock to take"@,
        },
        plan is RoutineRow <==> kind == ModuleKind::Function || kind == ModuleKind::Procedure,
{
    let own = (model::module_schema(id@), model::module_name(id@));
    statements::a_table_is_quoted(own);
    templates::a_table_lock_reads(modules::quoted_name(own));
    templates::a_qualified_name_reads(
        sql::quoted_text(own.0),
        sql::quoted_text(own.1),
    );
    templates::a_module_without_a_lock_reads(model::module_text(id@));
    statements::a_name_is_quoted(own.0);
    statements::a_name_is_quoted(own.1);
    if let ModuleId::Trigger { on, name: _ } = id {
        statements::a_table_is_quoted(on@);
        statements::a_name_is_quoted(on@.0);
        statements::a_name_is_quoted(on@.1);
        templates::a_table_lock_reads(modules::quoted_name(on@));
        templates::a_qualified_name_reads(
            sql::quoted_text(on@.0),
            sql::quoted_text(on@.1),
        );
    }
}

/// A row lock that was taken serializes the rebuild and is kept; one that was
/// not is said, and rolled back to where the transaction still runs.
pub proof fn a_row_lock_is_kept_or_rolled_back(
    taken: Result<(), String>,
    serialized: Serialized,
    ok: bool,
    next: &'static str,
)
    requires
        call_ensures(modules::row_lock, (taken,), serialized),
        call_ensures(modules::after_row_lock, (ok,), next),
    ensures
        taken is Ok <==> serialized is By,
        taken matches Err(e) ==> (serialized matches Serialized::Not(why) && why@ == text::filled(
            modules::NOT_SERIALIZED@,
            seq![e@],
        )),
        ok ==> next@ == "RELEASE SAVEPOINT pbps_routine_lock"@,
        !ok ==> next@ == "ROLLBACK TO SAVEPOINT pbps_routine_lock"@,
{
}

/// A connection is in the transaction of its caller exactly where it reads back
/// the mark that was set there.
pub proof fn only_the_mark_shows_a_transaction(probe: Option<&str>, r: Result<(), String>)
    requires
        call_ensures(modules::in_the_callers_transaction, (probe,), r),
    ensures
        r is Ok <==> (probe matches Some(p) && p@ == "yes"@),
{
}

/// A module that the catalog does not have is not locked, and is said to be
/// missing.
pub proof fn a_missing_module_is_not_locked(id: ModuleId, r: Serialized)
    requires
        call_ensures(modules::not_in_the_catalog, (&id,), r),
    ensures
        r matches Serialized::Not(why) && why@ == "`"@ + model::module_text(id@)
            + "` is not in the catalog"@,
{
    templates::a_module_that_is_not_there_reads(model::module_text(id@));
}

/// A module is looked up by its own schema and name, a routine by its argument
/// types too, and a trigger by its table and its name.
pub proof fn a_module_is_looked_up_by_its_identity(
    id: ModuleId,
    kind: ModuleKind,
    r: Option<OidQuery>,
)
    requires
        call_ensures(modules::module_oid, (&id, kind), r),
    ensures
        r is None <==> kind == ModuleKind::Trigger && !(id is Trigger),
        r matches Some(q) ==> {
            let given = text::texts(q.parameters@);
            match kind {
                ModuleKind::View => q.sql@ == modules::VIEW_OID@ && given == seq![
                    model::module_schema(id@),
                    model::module_name(id@),
                ],
                ModuleKind::Function | ModuleKind::Procedure => q.sql@ == modules::ROUTINE_OID@
                    && given.len() == 3 && given[0] == model::module_schema(id@) && given[1]
                    == model::module_name(id@) && (id@ matches model::ModuleIdView::Routine {
                    name: _,
                    args,
                } ==> given[2] == text::joined(model::written(args), ","@)),
                ModuleKind::Trigger => q.sql@ == modules::TRIGGER_OID@ && (
                id matches ModuleId::Trigger { on, name } ==> given == seq![on@.0, on@.1, name@]),
            }
        },
{
}

/// The grants that a module would arrive with are those on tables for a view
/// and those on functions for a routine; a trigger has none.
pub proof fn what_arrives_goes_by_the_kind(kind: ModuleKind, r: Option<&'static str>)
    requires
        call_ensures(modules::arriving_kind, (kind,), r),
    ensures
        r is None <==> kind == ModuleKind::Trigger,
        r matches Some(k) ==> k@ == if kind == ModuleKind::View {
            "r"@
        } else {
            "f"@
        },
{
}

/// What depends on a module is asked of the catalog that the module is in.
pub proof fn dependents_are_asked_of_the_modules_catalog(kind: ModuleKind, r: &'static str)
    requires
        call_ensures(modules::reference_class, (kind,), r),
    ensures
        kind == ModuleKind::View ==> r@ == "pg_catalog.pg_class"@,
        kind == ModuleKind::Trigger ==> r@ == "pg_catalog.pg_trigger"@,
        kind == ModuleKind::Function || kind == ModuleKind::Procedure ==> r@
            == "pg_catalog.pg_proc"@,
{
}

// ---------------------------------------------------------------------------
// What depends on a module

proof fn kinds_differ()
    ensures
        "view"@.len() == 4,
        "routine"@.len() == 7 && "routine"@[0] == 'r',
        "trigger"@.len() == 7 && "trigger"@[0] == 't',
        "check"@.len() == 5 && "check"@[0] == 'c',
        "default"@.len() == 7 && "default"@[0] == 'd',
        "index"@.len() == 5 && "index"@[0] == 'i',
{
    reveal_strlit("view");
    reveal_strlit("routine");
    reveal_strlit("trigger");
    reveal_strlit("check");
    reveal_strlit("default");
    reveal_strlit("index");
}

/// A dependent that the catalog says no declaration can hold is not held, for
/// the reason it gives, whatever kind it is of.
pub proof fn what_the_catalog_calls_unrepresentable_is(row: DependentRow, args: Seq<ArgRow>)
    requires
        row.unrepresentable@.len() > 0,
    ensures
        modules::holds_of(row, args) == HoldsView::Unrepresentable(row.unrepresentable@),
{
}

/// A dependent is held as what its row says it is, under the names it gives.
pub proof fn a_dependent_is_what_its_row_says(row: DependentRow, args: Seq<ArgRow>)
    requires
        row.unrepresentable@.len() == 0,
    ensures
        ({
            let name = (row.dep_schema@, row.dep_name@);
            let held = modules::holds_of(row, args);
            &&& row.what@ == "view"@ ==> held == HoldsView::Module(model::ModuleIdView::Named(name))
            &&& row.what@ == "trigger"@ ==> held == HoldsView::Module(
                model::ModuleIdView::Trigger { on: name, name: row.part@ },
            )
            &&& row.what@ == "check"@ ==> held == HoldsView::TablePart(
                name,
                PartView::Check(row.part@),
            )
            &&& row.what@ == "default"@ ==> held == HoldsView::TablePart(
                name,
                PartView::Default(row.part@),
            )
            &&& row.what@ == "index"@ ==> held == HoldsView::TablePart(
                name,
                PartView::Index(row.part@),
            )
            &&& !seq![
                "view"@,
                "routine"@,
                "trigger"@,
                "check"@,
                "default"@,
                "index"@,
            ].contains(row.what@) ==> held == HoldsView::Unrepresentable(
                "a dependent of a kind this reader does not know (`"@ + row.what@ + "`)"@,
            )
        }),
{
    kinds_differ();
    templates::an_unknown_dependent_reads(row.what@);
    let kinds = seq!["view"@, "routine"@, "trigger"@, "check"@, "default"@, "index"@];
    assert(kinds[0] == "view"@ && kinds[1] == "routine"@ && kinds[2] == "trigger"@ && kinds[3]
        == "check"@ && kinds[4] == "default"@ && kinds[5] == "index"@);
}

proof fn read_args(rows: Seq<ArgRow>, routine: i64, n: int)
    requires
        0 <= n <= rows.len(),
        forall|i: int|
            0 <= i < n ==> (#[trigger] rows[i]).routine == routine && rows[i].ty is Some,
    ensures
        modules::args_of(rows, routine, n) == Seq::new(n as nat, |i: int| rows[i].ty->0@),
    decreases n,
{
    if n > 0 {
        read_args(rows, routine, n - 1);
    }
    assert(modules::args_of(rows, routine, n) =~= Seq::new(n as nat, |i: int| rows[i].ty->0@));
}

proof fn no_args(rows: Seq<ArgRow>, routine: i64, n: int)
    requires
        0 <= n <= rows.len(),
        forall|i: int| 0 <= i < n ==> (#[trigger] rows[i]).routine != routine,
    ensures
        modules::args_of(rows, routine, n) == Seq::<model::ArgView>::empty(),
    decreases n,
{
    if n > 0 {
        no_args(rows, routine, n - 1);
    }
}

/// A routine that depends is held under its own argument types, in their order,
/// and under none where the rows are of other routines. One type that cannot be
/// read keeps it from being held at all.
pub proof fn a_dependent_routine_has_its_own_arguments(row: DependentRow, args: Seq<ArgRow>)
    requires
        row.unrepresentable@.len() == 0,
        row.what@ == "routine"@,
    ensures
        ({
            let name = (row.dep_schema@, row.dep_name@);
            let held = modules::holds_of(row, args);
            &&& (exists|i: int|
                0 <= i < args.len() && (#[trigger] args[i]).routine == row.dep_oid && args[i].ty
                    is None) ==> held is Unrepresentable
            &&& (forall|i: int|
                0 <= i < args.len() ==> (#[trigger] args[i]).routine == row.dep_oid && args[i].ty
                    is Some) ==> held == HoldsView::Module(
                model::ModuleIdView::Routine {
                    name,
                    args: Seq::new(args.len(), |i: int| args[i].ty->0@),
                },
            )
            &&& (forall|i: int| 0 <= i < args.len() ==> (#[trigger] args[i]).routine != row.dep_oid)
                ==> held == HoldsView::Module(
                model::ModuleIdView::Routine { name, args: Seq::empty() },
            )
        }),
{
    kinds_differ();
    if forall|i: int|
        0 <= i < args.len() ==> (#[trigger] args[i]).routine == row.dep_oid && args[i].ty is Some {
        read_args(args, row.dep_oid, args.len() as int);
    }
    if forall|i: int| 0 <= i < args.len() ==> (#[trigger] args[i]).routine != row.dep_oid {
        no_args(args, row.dep_oid, args.len() as int);
    }
}

/// Every row is a dependent of its own, in the engine's words for it.
pub proof fn every_row_is_a_dependent(
    rows: Vec<DependentRow>,
    args: Vec<ArgRow>,
    r: Vec<Dependent>,
)
    requires
        call_ensures(modules::dependents, (&rows, &args), r),
    ensures
        r@.len() == rows@.len(),
        forall|i: int|
            0 <= i < r@.len() ==> (#[trigger] r@[i]).described@ == rows@[i].described@
                && r@[i].holds@ == modules::holds_of(rows@[i], args@),
{
    let all = modules::all_dependents(r@);
    assert(all.len() == r@.len());
    assert forall|i: int| 0 <= i < r@.len() implies (#[trigger] r@[i]).described@
        == rows@[i].described@ && r@[i].holds@ == modules::holds_of(rows@[i], args@) by {
        assert(all[i] == r@[i]@);
        assert(all[i] == (rows@[i].described@, modules::holds_of(rows@[i], args@)));
    }
}

// ---------------------------------------------------------------------------
// What the project declares

/// Whether the first column of this name has a default.
pub open spec fn is_declared_with_a_default(
    columns: Seq<(String, Column)>,
    name: Seq<char>,
) -> bool {
    exists|k: int|
        0 <= k < columns.len() && (#[trigger] columns[k]).0@ == name && columns[k].1.default is Some
            && forall|j: int| 0 <= j < k ==> (#[trigger] columns[j]).0@ != name
}

proof fn first_table(
    tables: Seq<(TableName, Table)>,
    name: model::Qualified,
    at: int,
    which: int,
)
    requires
        0 <= at <= which < tables.len(),
        tables[which].0@ == name,
        forall|j: int| at <= j < which ==> (#[trigger] tables[j]).0@ != name,
    ensures
        modules::table_at(tables, name, at) == Some(tables[which].1),
    decreases which - at,
{
    if at < which {
        assert(tables[at].0@ != name);
        first_table(tables, name, at + 1, which);
    }
}

proof fn no_table(tables: Seq<(TableName, Table)>, name: model::Qualified, at: int)
    requires
        0 <= at <= tables.len(),
        forall|j: int| 0 <= j < tables.len() ==> (#[trigger] tables[j]).0@ != name,
    ensures
        modules::table_at(tables, name, at) is None,
    decreases tables.len() - at,
{
    if at < tables.len() {
        assert(tables[at].0@ != name);
        no_table(tables, name, at + 1);
    }
}

proof fn a_key_is_there<T>(entries: Seq<(String, T)>, name: Seq<char>)
    ensures
        validate::keys(entries).contains(name) <==> exists|k: int|
            0 <= k < entries.len() && (#[trigger] entries[k]).0@ == name,
{
    let keys = validate::keys(entries);
    if keys.contains(name) {
        let k = keys.index_of(name);
        assert(keys[k] == entries[k].0@);
    }
    if exists|k: int| 0 <= k < entries.len() && (#[trigger] entries[k]).0@ == name {
        let k = choose|k: int| 0 <= k < entries.len() && (#[trigger] entries[k]).0@ == name;
        assert(keys[k] == name);
    }
}

proof fn a_default_is_there(columns: Seq<(String, Column)>, name: Seq<char>)
    ensures
        (match validate::column_at(columns, name, 0) {
            Some(at) => columns[at].1.default is Some,
            None => false,
        }) == is_declared_with_a_default(columns, name),
{
    acceptance::first_column(columns, name, 0);
    match validate::column_at(columns, name, 0) {
        Some(k) => {
            assert(columns[k].0@ == name);
            if is_declared_with_a_default(columns, name) {
                let x = choose|x: int|
                    0 <= x < columns.len() && (#[trigger] columns[x]).0@ == name
                        && columns[x].1.default is Some && forall|j: int|
                        0 <= j < x ==> (#[trigger] columns[j]).0@ != name;
                if x < k {
                    assert(columns[x].0@ != name);
                }
                if k < x {
                    assert(columns[k].0@ != name);
                }
            }
        },
        None => {},
    }
}

/// A module is managed exactly where the project declares one of its identity.
pub proof fn a_declared_module_is_managed(id: model::ModuleIdView, declared: Schema)
    ensures
        modules::is_managed(HoldsView::Module(id), declared) <==> exists|i: int|
            0 <= i < declared.modules@.len() && (#[trigger] declared.modules@[i]).id@ == id,
{
}

/// A part of a table is managed exactly where the declared table of that name
/// has that part: a check or an index of its name, or a default on its column.
/// No part of a table that is not declared is.
pub proof fn a_declared_part_is_managed(name: model::Qualified, part: PartView, declared: Schema)
    ensures
        forall|at: int|
            0 <= at < declared.tables@.len() && (#[trigger] declared.tables@[at]).0@ == name && (
            forall|j: int| 0 <= j < at ==> (#[trigger] declared.tables@[j]).0@ != name) ==> (
            modules::is_managed(HoldsView::TablePart(name, part), declared) <==> match part {
                PartView::Check(c) => exists|k: int|
                    0 <= k < declared.tables@[at].1.checks@.len() && (
                    #[trigger] declared.tables@[at].1.checks@[k]).0@ == c,
                PartView::Index(c) => exists|k: int|
                    0 <= k < declared.tables@[at].1.indexes@.len() && (
                    #[trigger] declared.tables@[at].1.indexes@[k]).0@ == c,
                PartView::Default(c) => is_declared_with_a_default(
                    declared.tables@[at].1.columns@,
                    c,
                ),
            }),
        (forall|j: int| 0 <= j < declared.tables@.len() ==> (#[trigger] declared.tables@[j]).0@
            != name) ==> !modules::is_managed(HoldsView::TablePart(name, part), declared),
{
    assert forall|at: int|
        0 <= at < declared.tables@.len() && (#[trigger] declared.tables@[at]).0@ == name && (
        forall|j: int| 0 <= j < at ==> (#[trigger] declared.tables@[j]).0@ != name) implies (
    modules::is_managed(HoldsView::TablePart(name, part), declared) <==> match part {
        PartView::Check(c) => exists|k: int|
            0 <= k < declared.tables@[at].1.checks@.len() && (
            #[trigger] declared.tables@[at].1.checks@[k]).0@ == c,
        PartView::Index(c) => exists|k: int|
            0 <= k < declared.tables@[at].1.indexes@.len() && (
            #[trigger] declared.tables@[at].1.indexes@[k]).0@ == c,
        PartView::Default(c) => is_declared_with_a_default(declared.tables@[at].1.columns@, c),
    }) by {
        first_table(declared.tables@, name, 0, at);
        let t = declared.tables@[at].1;
        match part {
            PartView::Check(c) => a_key_is_there(t.checks@, c),
            PartView::Index(c) => a_key_is_there(t.indexes@, c),
            PartView::Default(c) => a_default_is_there(t.columns@, c),
        }
    }
    if forall|j: int| 0 <= j < declared.tables@.len() ==> (#[trigger] declared.tables@[j]).0@
        != name {
        no_table(declared.tables@, name, 0);
    }
}

proof fn managed_are_kept(
    dependents: Seq<(Seq<char>, HoldsView)>,
    declared: Schema,
    n: int,
    d: (Seq<char>, HoldsView),
)
    requires
        0 <= n <= dependents.len(),
    ensures
        modules::managed_ones(dependents, declared, n).contains(d) <==> modules::is_managed(
            d.1,
            declared,
        ) && exists|i: int| 0 <= i < n && #[trigger] dependents[i] == d,
        modules::managed_ones(dependents, declared, n).len() + modules::blocked_lines(
            dependents,
            declared,
            n,
        ).len() == n,
    decreases n,
{
    if n > 0 {
        managed_are_kept(dependents, declared, n - 1, d);
        let front = modules::managed_ones(dependents, declared, n - 1);
        let all = modules::managed_ones(dependents, declared, n);
        let last = dependents[n - 1];
        if modules::is_managed(last.1, declared) {
            assert(all =~= front + seq![last]);
            either_holds(front, seq![last], d);
            assert(seq![last].contains(d) <==> last == d) by {
                assert(seq![last][0] == last);
            }
        }
        if modules::is_managed(d.1, declared) && exists|i: int|
            0 <= i < n && #[trigger] dependents[i] == d {
            let i = choose|i: int| 0 <= i < n && #[trigger] dependents[i] == d;
            assert(i < n - 1 || last == d);
        }
    }
}

/// What is rebuilt with a module is exactly what depends on it and the project
/// declares; whatever else depends on it refuses the rebuild.
pub proof fn a_dependent_is_rebuilt_or_refuses(
    id: ModuleId,
    dependents: &[Dependent],
    declared: Schema,
    refusal: Option<String>,
    rebuilt: Vec<&Dependent>,
    d: (Seq<char>, HoldsView),
)
    requires
        call_ensures(modules::unmanaged_refusal, (&id, dependents, &declared), refusal),
        call_ensures(modules::to_rebuild, (dependents, &declared), rebuilt),
    ensures
        modules::all_borrowed(rebuilt@).contains(d) <==> modules::is_managed(d.1, declared)
            && exists|i: int| 0 <= i < dependents@.len() && (#[trigger] dependents@[i])@ == d,
        refusal is None <==> rebuilt@.len() == dependents@.len(),
{
    let all = modules::all_dependents(dependents@);
    managed_are_kept(all, declared, dependents@.len() as int, d);
    assert(modules::all_borrowed(rebuilt@).len() == rebuilt@.len());
    if exists|i: int| 0 <= i < dependents@.len() && (#[trigger] dependents@[i])@ == d {
        let i = choose|i: int| 0 <= i < dependents@.len() && (#[trigger] dependents@[i])@ == d;
        assert(all[i] == d);
    }
    if exists|i: int| 0 <= i < all.len() && #[trigger] all[i] == d {
        let i = choose|i: int| 0 <= i < all.len() && #[trigger] all[i] == d;
        assert(dependents@[i]@ == d);
    }
}

// ---------------------------------------------------------------------------
// What mentions a module

/// Whether a declared module's text mentions this name.
pub open spec fn names(module: DeclaredModule, name: model::Qualified) -> bool {
    exists|i: int| 0 <= i < module.mentions@.len() && (#[trigger] module.mentions@[i])@ == name
}

proof fn callers_are_all(
    all: Seq<DeclaredModule>,
    id: model::ModuleIdView,
    n: int,
    other: model::ModuleIdView,
)
    requires
        0 <= n <= all.len(),
    ensures
        modules::callers_of(all, id, n).contains(other) <==> other != id && exists|i: int|
            0 <= i < n && (#[trigger] all[i]).id@ == other && names(
                all[i],
                (model::module_schema(id), model::module_name(id)),
            ),
    decreases n,
{
    if n > 0 {
        callers_are_all(all, id, n - 1, other);
        let name = (model::module_schema(id), model::module_name(id));
        let front = modules::callers_of(all, id, n - 1);
        let here = modules::callers_of(all, id, n);
        let last = all[n - 1];
        if last.id@ != id && names(last, name) {
            assert(here =~= front + seq![last.id@]);
            either_holds(front, seq![last.id@], other);
            assert(seq![last.id@].contains(other) <==> last.id@ == other) by {
                assert(seq![last.id@][0] == last.id@);
            }
        }
        if other != id && exists|i: int|
            0 <= i < n && (#[trigger] all[i]).id@ == other && names(all[i], name) {
            let i = choose|i: int|
                0 <= i < n && (#[trigger] all[i]).id@ == other && names(all[i], name);
            assert(i < n - 1 || i == n - 1);
        }
    }
}

/// The callers of a module are exactly the other declared modules whose text
/// mentions its name.
pub proof fn a_caller_mentions_the_module(
    declared: Schema,
    id: ModuleId,
    callers: Vec<ModuleId>,
    other: model::ModuleIdView,
)
    requires
        call_ensures(modules::callers_by_name, (&declared, &id), callers),
    ensures
        modules::all_ids(callers@).contains(other) <==> other != id@ && exists|i: int|
            0 <= i < declared.modules@.len() && (#[trigger] declared.modules@[i]).id@ == other
                && names(
                declared.modules@[i],
                (model::module_schema(id@), model::module_name(id@)),
            ),
{
    callers_are_all(declared.modules@, id@, declared.modules@.len() as int, other);
}

/// Callers are reported exactly where there are any, each in a line of its own.
pub proof fn callers_are_reported(id: ModuleId, callers: &[ModuleId], r: Option<String>)
    requires
        call_ensures(modules::callers_report, (&id, callers), r),
    ensures
        r is None <==> callers@.len() == 0,
        forall|i: int|
            0 <= i < callers@.len() ==> #[trigger] modules::caller_lines(
                modules::all_ids(callers@),
            )[i] == "- "@ + model::module_text(callers@[i]@),
{
    assert forall|i: int| 0 <= i < callers@.len() implies #[trigger] modules::caller_lines(
        modules::all_ids(callers@),
    )[i] == "- "@ + model::module_text(callers@[i]@) by {
        templates::a_caller_reads(model::module_text(callers@[i]@));
        assert(modules::all_ids(callers@)[i] == callers@[i]@);
    }
}

/// Whether an arriving module stands where a declared one could find it, and
/// that one mentions its name.
pub open spec fn could_capture(
    module: DeclaredModule,
    extras: Seq<Seq<char>>,
    arriving: model::ModuleIdView,
) -> bool {
    &&& arriving != module.id@
    &&& names(module, (model::module_schema(arriving), model::module_name(arriving)))
    &&& model::module_schema(arriving) == model::module_schema(module.id@) || exists|k: int|
        0 <= k < extras.len() && #[trigger] extras[k] == model::module_schema(arriving)
}

proof fn rebound_one_is_all(
    module: DeclaredModule,
    extras: Seq<Seq<char>>,
    arriving: Seq<model::ModuleIdView>,
    n: int,
    x: (model::ModuleIdView, model::ModuleIdView),
)
    requires
        0 <= n <= arriving.len(),
    ensures
        modules::rebound_one(module, extras, arriving, n).contains(x) <==> module.id@ == x.0
            && could_capture(module, extras, x.1) && exists|k: int|
            0 <= k < n && #[trigger] arriving[k] == x.1,
    decreases n,
{
    if n > 0 {
        rebound_one_is_all(module, extras, arriving, n - 1, x);
        let front = modules::rebound_one(module, extras, arriving, n - 1);
        let here = modules::rebound_one(module, extras, arriving, n);
        let last = arriving[n - 1];
        let schema = model::module_schema(last);
        if extras.contains(schema) {
            assert(extras[extras.index_of(schema)] == schema);
        }
        assert(modules::captures(module, extras, last) == could_capture(module, extras, last));
        if could_capture(module, extras, last) {
            let one = seq![(module.id@, last)];
            assert(here =~= front + one);
            either_holds(front, one, x);
            assert(one.contains(x) <==> (module.id@, last) == x) by {
                assert(one[0] == (module.id@, last));
            }
        }
        if exists|k: int| 0 <= k < n && #[trigger] arriving[k] == x.1 {
            let k = choose|k: int| 0 <= k < n && #[trigger] arriving[k] == x.1;
            assert(k < n - 1 || k == n - 1);
        }
    }
}

proof fn rebound_are_all(
    all: Seq<DeclaredModule>,
    extras: Seq<Seq<char>>,
    arriving: Seq<model::ModuleIdView>,
    changed: Seq<model::ModuleIdView>,
    n: int,
    x: (model::ModuleIdView, model::ModuleIdView),
)
    requires
        0 <= n <= all.len(),
    ensures
        modules::rebound_of(all, extras, arriving, changed, n).contains(x) <==> !changed.contains(
            x.0,
        ) && arriving.contains(x.1) && exists|i: int|
            0 <= i < n && (#[trigger] all[i]).id@ == x.0 && could_capture(all[i], extras, x.1),
    decreases n,
{
    if n > 0 {
        rebound_are_all(all, extras, arriving, changed, n - 1, x);
        let front = modules::rebound_of(all, extras, arriving, changed, n - 1);
        let last = all[n - 1];
        let one = modules::rebound_one(last, extras, arriving, arriving.len() as int);
        rebound_one_is_all(last, extras, arriving, arriving.len() as int, x);
        either_holds(front, one, x);
        if arriving.contains(x.1) {
            assert(arriving[arriving.index_of(x.1)] == x.1);
        }
        if exists|i: int|
            0 <= i < n && (#[trigger] all[i]).id@ == x.0 && could_capture(all[i], extras, x.1) {
            let i = choose|i: int|
                0 <= i < n && (#[trigger] all[i]).id@ == x.0 && could_capture(
                    all[i],
                    extras,
                    x.1,
                );
            assert(i < n - 1 || i == n - 1);
        }
    }
}

/// A module is bound anew by an arriving one exactly where the plan does not
/// change it already, it mentions the arriving one's name, and that one stands
/// in its own schema or in one that is looked through behind it.
pub proof fn a_module_is_bound_anew_where_it_could_be_captured(
    declared: Schema,
    extras: &[String],
    arriving: &[ModuleId],
    changed: &[ModuleId],
    r: Vec<Rebound>,
    x: (model::ModuleIdView, model::ModuleIdView),
)
    requires
        call_ensures(modules::rebound_by_this_plan, (&declared, extras, arriving, changed), r),
    ensures
        modules::all_rebound(r@).contains(x) <==> !modules::all_ids(changed@).contains(x.0)
            && modules::all_ids(arriving@).contains(x.1) && exists|i: int|
            0 <= i < declared.modules@.len() && (#[trigger] declared.modules@[i]).id@ == x.0
                && could_capture(declared.modules@[i], text::texts(extras@), x.1),
{
    rebound_are_all(
        declared.modules@,
        text::texts(extras@),
        modules::all_ids(arriving@),
        modules::all_ids(changed@),
        declared.modules@.len() as int,
        x,
    );
}

} // verus!
