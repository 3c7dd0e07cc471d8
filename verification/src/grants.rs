//! What an entry of an access list comes to, and what is said of it.
use vstd::prelude::*;

use crate::entries;
use crate::entries::Entry;
use crate::granted;
use crate::granted::{Granted, Meaning, RoleView};
use crate::introspect;
use crate::introspect::{
    GrantedKind, RawCatalog, RawDefaultAcl, RawGrant, RawModuleArg, RawOtherGrant, RawRole,
    ReadBack, TableView,
};
use crate::model;
use crate::model::{ModuleKind, TargetView};
use crate::order;
use crate::templates;
use crate::text;

verus! {

// ---------------------------------------------------------------------------
// What a grant is on

/// A grant is on the schema where its row names no object, and on the object
/// its row names where that is a table or a view. Every other kind of relation
/// is refused, and so is a row that contradicts itself.
pub proof fn a_grant_is_on_what_its_row_names(
    g: RawGrant,
    rows: Seq<RawModuleArg>,
    read: ReadBack,
)
    ensures
        ({
            let on = granted::target_read(g, rows, read);
            &&& g.object is None ==> on == Ok::<TargetView, Seq<char>>(TargetView::Schema(g.schema@))
            &&& g.object matches Some(object) ==> match g.kind {
                GrantedKind::Relation(kind) => {
                    &&& kind == 'r' || kind == 'v' ==> on == Ok::<TargetView, Seq<char>>(
                        TargetView::Object((g.schema@, object@)),
                    )
                    &&& kind != 'r' && kind != 'v' ==> on is Err
                    &&& kind == 'm' ==> on == Err::<TargetView, Seq<char>>(
                        g.permission@ + " on `"@ + model::dotted((g.schema@, object@))
                            + "` is on "@ + "a materialized view"@
                            + ", which this model does not declare"@,
                    )
                    &&& kind == 'p' ==> on == Err::<TargetView, Seq<char>>(
                        g.permission@ + " on `"@ + model::dotted((g.schema@, object@))
                            + "` is on "@ + "a partitioned table"@
                            + ", which this model does not declare"@,
                    )
                    &&& kind == 'f' ==> on == Err::<TargetView, Seq<char>>(
                        g.permission@ + " on `"@ + model::dotted((g.schema@, object@))
                            + "` is on "@ + "a foreign table"@
                            + ", which this model does not declare"@,
                    )
                    &&& kind == 'c' ==> on == Err::<TargetView, Seq<char>>(
                        g.permission@ + " on `"@ + model::dotted((g.schema@, object@))
                            + "` is on "@ + "a composite type"@
                            + ", which this model does not declare"@,
                    )
                    &&& kind == 'S' ==> on == Err::<TargetView, Seq<char>>(
                        text::filled(
                            granted::ON_SEQUENCE@,
                            seq![g.permission@, model::dotted((g.schema@, object@))],
                        ),
                    )
                },
                GrantedKind::Routine(kind) => {
                    &&& kind != 'f' && kind != 'p' ==> on is Err
                    &&& kind == 'a' ==> on == Err::<TargetView, Seq<char>>(
                        g.permission@ + " on `"@ + model::dotted((g.schema@, object@))
                            + "` is on "@ + "an aggregate"@
                            + ", which this model does not declare"@,
                    )
                    &&& kind == 'w' ==> on == Err::<TargetView, Seq<char>>(
                        g.permission@ + " on `"@ + model::dotted((g.schema@, object@))
                            + "` is on "@ + "a window function"@
                            + ", which this model does not declare"@,
                    )
                },
                GrantedKind::Schema => on is Err,
            }
        }),
{
    if let Some(object) = g.object {
        let shown = model::dotted((g.schema@, object@));
        match g.kind {
            GrantedKind::Relation(kind) => templates::a_grant_on_another_kind_reads(
                g.permission@,
                shown,
                granted::relation_kind_text(kind),
            ),
            GrantedKind::Routine(kind) => templates::a_grant_on_another_kind_reads(
                g.permission@,
                shown,
                granted::routine_kind_text(kind),
            ),
            GrantedKind::Schema => {},
        }
    }
}

proof fn own_spellings(rows: Seq<RawModuleArg>, oid: i64, n: int)
    requires
        0 <= n <= rows.len(),
    ensures
        (forall|i: int| 0 <= i < n ==> (#[trigger] rows[i]).routine_oid == oid) ==> granted::spelled(
            rows,
            oid,
            n,
        ) == Seq::new(n as nat, |i: int| rows[i].ty@),
        (forall|i: int| 0 <= i < n ==> (#[trigger] rows[i]).routine_oid != oid) ==> granted::spelled(
            rows,
            oid,
            n,
        ) == Seq::<Seq<char>>::empty(),
    decreases n,
{
    if n > 0 {
        own_spellings(rows, oid, n - 1);
    }
    if forall|i: int| 0 <= i < n ==> (#[trigger] rows[i]).routine_oid == oid {
        assert(granted::spelled(rows, oid, n) =~= Seq::new(n as nat, |i: int| rows[i].ty@));
    }
}

/// A routine's arguments are the rows of its own number, in their order, and
/// none of another's.
pub proof fn a_granted_routine_has_its_own_arguments(g: RawGrant, rows: Seq<RawModuleArg>)
    ensures
        g.routine_oid is None ==> granted::spelled_args(g, rows) == Seq::<Seq<char>>::empty(),
        g.routine_oid matches Some(oid) ==> {
            &&& (forall|i: int| 0 <= i < rows.len() ==> (#[trigger] rows[i]).routine_oid == oid)
                ==> granted::spelled_args(g, rows) == Seq::new(rows.len(), |i: int| rows[i].ty@)
            &&& (forall|i: int| 0 <= i < rows.len() ==> (#[trigger] rows[i]).routine_oid != oid)
                ==> granted::spelled_args(g, rows) == Seq::<Seq<char>>::empty()
        },
{
    if let Some(oid) = g.routine_oid {
        own_spellings(rows, oid, rows.len() as int);
    }
}

proof fn named_args(read: ReadBack, spellings: Seq<Seq<char>>, k: int)
    requires
        0 <= k <= spellings.len(),
    ensures
        match granted::args_named(read, spellings, k) {
            Ok(args) => args.len() == k && forall|i: int|
                0 <= i < k ==> introspect::arg_read(read, #[trigger] spellings[i]) == Ok::<
                    model::ArgView,
                    Seq<char>,
                >(args[i]),
            Err(spelling) => exists|i: int|
                0 <= i < k && #[trigger] spellings[i] == spelling && introspect::arg_read(
                    read,
                    spelling,
                ) is Err && forall|j: int|
                    0 <= j < i ==> introspect::arg_read(read, #[trigger] spellings[j]) is Ok,
        },
    decreases k,
{
    if k > 0 {
        named_args(read, spellings, k - 1);
    }
}

/// A grant on a function or a procedure is on the one of its name whose
/// arguments read, each in its place, as its spellings do. The first spelling
/// that does not read is the one that is named.
pub proof fn a_grant_on_a_routine_names_its_arguments(
    g: RawGrant,
    rows: Seq<RawModuleArg>,
    read: ReadBack,
    object: String,
)
    requires
        g.object == Some(object),
        g.kind == GrantedKind::Routine('f') || g.kind == GrantedKind::Routine('p'),
    ensures
        match granted::target_read(g, rows, read) {
            Ok(TargetView::Routine { name, args }) => {
                let spellings = granted::spelled_args(g, rows);
                &&& name == (g.schema@, object@)
                &&& args.len() == spellings.len()
                &&& forall|i: int|
                    0 <= i < args.len() ==> introspect::arg_read(read, #[trigger] spellings[i])
                        == Ok::<model::ArgView, Seq<char>>(args[i])
            },
            Ok(_) => false,
            Err(what) => {
                let spellings = granted::spelled_args(g, rows);
                exists|i: int|
                    0 <= i < spellings.len() && introspect::arg_read(
                        read,
                        #[trigger] spellings[i],
                    ) is Err && (forall|j: int|
                        0 <= j < i ==> introspect::arg_read(read, #[trigger] spellings[j]) is Ok)
                        && what == text::filled(
                        granted::UNSPELLABLE_ARGUMENT@,
                        seq![g.permission@, model::dotted((g.schema@, object@)), spellings[i]],
                    )
            },
        },
{
    let spellings = granted::spelled_args(g, rows);
    named_args(read, spellings, spellings.len() as int);
}

/// How a grant's target is named: a schema as a schema, an object under its
/// schema, a routine with its arguments.
pub proof fn a_target_is_named_in_full(g: RawGrant, rows: Seq<RawModuleArg>)
    ensures
        granted::label(g, rows) == match g.object {
            None => "schema `"@ + g.schema@ + "`"@,
            Some(object) => if g.routine_oid is Some {
                "`"@ + g.schema@ + "."@ + object@ + "("@ + text::joined(
                    granted::spelled_args(g, rows),
                    ", "@,
                ) + ")`"@
            } else {
                "`"@ + g.schema@ + "."@ + object@ + "`"@
            },
        },
        granted::place_label(g, rows) == match g.column {
            Some(column) => "column `"@ + column@ + "` of "@ + granted::label(g, rows),
            None => granted::label(g, rows),
        },
{
    templates::a_granted_schema_reads(g.schema@);
    if let Some(object) = g.object {
        templates::a_granted_routine_reads(
            g.schema@,
            object@,
            text::joined(granted::spelled_args(g, rows), ", "@),
        );
        templates::a_granted_object_reads(g.schema@, object@);
    }
    if let Some(column) = g.column {
        templates::a_granted_column_reads(column@, granted::label(g, rows));
    }
}

// ---------------------------------------------------------------------------
// What a grant comes to

/// Whether a name is that of a role of the pull.
pub open spec fn is_a_role(roles: Seq<Entry<RoleView>>, name: Seq<char>) -> bool {
    exists|i: int| 0 <= i < roles.len() && (#[trigger] roles[i]).0 == seq![name]
}

proof fn a_role_is_an_entry(roles: Seq<Entry<RoleView>>, name: Seq<char>)
    ensures
        granted::is_role(roles, name) == is_a_role(roles, name),
{
    entries::found_is_an_entry(roles, seq![name]);
    if let Some(role) = entries::found(roles, seq![name]) {
        let i = choose|i: int| 0 <= i < roles.len() && #[trigger] roles[i] == (seq![name], role);
        assert(roles[i].0 == seq![name]);
    }
}

/// Whether the pull has what a grant is on: a table or a view under the name of
/// an object, a module under the identity of a routine. A schema is always
/// there.
pub open spec fn is_in_the_pull(
    tables: Seq<Entry<TableView>>,
    modules: Seq<Entry<(ModuleKind, Seq<char>)>>,
    target: TargetView,
) -> bool {
    match target {
        TargetView::Schema(_) => true,
        TargetView::Object(name) => {
            ||| exists|i: int|
                0 <= i < tables.len() && (#[trigger] tables[i]).0 == model::table_rank(name)
            ||| (entries::found(
                modules,
                model::module_rank(model::ModuleIdView::Named(name)),
            ) matches Some(m) && m.0 == ModuleKind::View)
        },
        TargetView::Routine { name, args } => exists|i: int|
            0 <= i < modules.len() && (#[trigger] modules[i]).0 == model::module_rank(
                model::ModuleIdView::Routine { name, args },
            ),
    }
}

proof fn recorded_is_in_the_pull(
    tables: Seq<Entry<TableView>>,
    modules: Seq<Entry<(ModuleKind, Seq<char>)>>,
    target: TargetView,
)
    ensures
        granted::is_recorded(tables, modules, target) == is_in_the_pull(tables, modules, target),
{
    match target {
        TargetView::Schema(_) => {},
        TargetView::Object(name) => {
            let key = model::table_rank(name);
            entries::found_is_an_entry(tables, key);
            if let Some(t) = entries::found(tables, key) {
                let i = choose|i: int| 0 <= i < tables.len() && #[trigger] tables[i] == (key, t);
                assert(tables[i].0 == key);
            }
        },
        TargetView::Routine { name, args } => {
            let key = model::module_rank(model::ModuleIdView::Routine { name, args });
            entries::found_is_an_entry(modules, key);
            if let Some(m) = entries::found(modules, key) {
                let i = choose|i: int| 0 <= i < modules.len() && #[trigger] modules[i] == (key, m);
                assert(modules[i].0 == key);
            }
        },
    }
}

/// Whether somebody granted this to a role of the pull: not to PUBLIC, not as
/// the engine's default and not to the owner.
pub open spec fn was_granted_to_a_role(roles: Seq<Entry<RoleView>>, g: RawGrant) -> bool {
    g.grantee matches Some(grantee) && !g.defaulted && grantee@ != g.owner@ && is_a_role(
        roles,
        grantee@,
    )
}

/// A role holds a permission exactly where somebody granted it to the role, on
/// the whole of something that the pull has and that is written as itself, by a
/// name that this model has for the permission, without the right to grant it
/// on.
pub proof fn a_role_holds_exactly_what_a_declaration_can_say(
    raw: RawCatalog,
    read: ReadBack,
    tables: Seq<Entry<TableView>>,
    modules: Seq<Entry<(ModuleKind, Seq<char>)>>,
    roles: Seq<Entry<RoleView>>,
    g: RawGrant,
    on: TargetView,
    held: Seq<char>,
)
    ensures
        granted::meaning(raw, read, tables, modules, roles, g) == (Meaning::Held {
            target: on,
            permission: held,
        }) <==> {
            &&& was_granted_to_a_role(roles, g)
            &&& granted::target_read(g, raw.routine_args@, read) == Ok::<TargetView, Seq<char>>(on)
            &&& (introspect::answer(read.targets@, model::target_text(on)) matches Some(back)
                && back@ == on)
            &&& is_in_the_pull(tables, modules, on)
            &&& g.column is None
            &&& !g.grantable
            &&& (introspect::answer(read.permissions@, g.permission@) matches Some(p) && p@ == held)
        },
{
    if let Some(grantee) = g.grantee {
        a_role_is_an_entry(roles, grantee@);
    }
    recorded_is_in_the_pull(tables, modules, on);
}

/// What PUBLIC may execute is counted; whatever else it holds is a warning. A
/// name that is no role of the pull is a warning too, which says who holds what
/// on what.
pub proof fn what_is_held_by_nobody_declared_is_said(
    raw: RawCatalog,
    read: ReadBack,
    tables: Seq<Entry<TableView>>,
    modules: Seq<Entry<(ModuleKind, Seq<char>)>>,
    roles: Seq<Entry<RoleView>>,
    g: RawGrant,
)
    ensures
        ({
            let m = granted::meaning(raw, read, tables, modules, roles, g);
            let on = granted::label(g, raw.routine_args@);
            &&& g.grantee is None && g.permission@ == "EXECUTE"@ && (g.kind == GrantedKind::Routine(
                'f',
            ) || g.kind == GrantedKind::Routine('p')) ==> m == Meaning::Executable(on)
            &&& g.grantee is None && (g.permission@ != "EXECUTE"@ || !(g.kind is Routine)) ==> m
                == Meaning::Warned(text::filled(granted::PUBLIC_HOLDS@, seq![g.permission@, on]))
            &&& m is Executable ==> g.grantee is None
            &&& g.grantee matches Some(grantee) ==> (!g.defaulted && grantee@ != g.owner@
                && !is_a_role(roles, grantee@) ==> m == Meaning::Warned(
                "`"@ + grantee@ + "` holds "@ + g.permission@ + " on "@ + on
                    + ", and is not a role this project can declare"@,
            ))
        }),
{
    if let Some(grantee) = g.grantee {
        a_role_is_an_entry(roles, grantee@);
        templates::a_stranger_reads(
            grantee@,
            g.permission@,
            granted::label(g, raw.routine_args@),
        );
    }
}

/// What the engine gives, and what an owner has, is gathered under who holds
/// it, on which kind of thing and with which right, and names what it is on.
pub proof fn the_zero_point_is_gathered_by_its_shape(
    raw: RawCatalog,
    read: ReadBack,
    tables: Seq<Entry<TableView>>,
    modules: Seq<Entry<(ModuleKind, Seq<char>)>>,
    roles: Seq<Entry<RoleView>>,
    g: RawGrant,
    grantee: String,
)
    requires
        g.grantee == Some(grantee),
        g.defaulted || grantee@ == g.owner@,
    ensures
        granted::meaning(raw, read, tables, modules, roles, g) == (Meaning::ZeroPoint {
            shape: seq![
                grantee@,
                match g.kind {
                    GrantedKind::Relation(_) => "relation"@,
                    GrantedKind::Routine(_) => "routine"@,
                    GrantedKind::Schema => "schema"@,
                },
                if g.grantable {
                    g.permission@ + " WITH GRANT OPTION"@
                } else {
                    g.permission@
                },
            ],
            on: granted::place_label(g, raw.routine_args@),
        }),
{
    templates::a_right_to_grant_reads(g.permission@);
}

/// Why a grant to a role is not held, in the order in which it is asked: what
/// it is on cannot be read, is not written as itself, or is not in the pull; it
/// is on one column; it is no permission of this model; it may be granted on.
pub proof fn a_grant_that_is_not_held_says_why(
    raw: RawCatalog,
    read: ReadBack,
    tables: Seq<Entry<TableView>>,
    modules: Seq<Entry<(ModuleKind, Seq<char>)>>,
    roles: Seq<Entry<RoleView>>,
    g: RawGrant,
    grantee: String,
)
    requires
        g.grantee == Some(grantee),
        was_granted_to_a_role(roles, g),
    ensures
        ({
            let m = granted::meaning(raw, read, tables, modules, roles, g);
            let on = granted::label(g, raw.routine_args@);
            match granted::target_read(g, raw.routine_args@, read) {
                Err(what) => m == (Meaning::Unexpressible {
                    target: None,
                    what: "role "@ + grantee@ + ": "@ + what,
                }),
                Ok(target) => {
                    let back = introspect::answer(read.targets@, model::target_text(target));
                    let is_itself = back matches Some(b) && b@ == target;
                    let there = is_in_the_pull(tables, modules, target);
                    let known = introspect::answer(read.permissions@, g.permission@) is Some;
                    &&& !is_itself ==> m == (Meaning::Unexpressible {
                        target: Some(target),
                        what: text::filled(
                            granted::AMBIGUOUS_TARGET@,
                            seq![grantee@, g.permission@, on],
                        ),
                    })
                    &&& is_itself && !there ==> m == (Meaning::Unexpressible {
                        target: Some(target),
                        what: "role "@ + grantee@ + ": "@ + g.permission@ + " on "@ + on
                            + " is on an object this pull did not record, so the declarations cannot express it"@,
                    })
                    &&& is_itself && there ==> (g.column matches Some(column) ==> m == (
                    Meaning::Unexpressible {
                        target: Some(target),
                        what: "role "@ + grantee@ + ": "@ + g.permission@ + " on column `"@
                            + column@ + "` of "@ + on
                            + " is a column-level grant, which the declarations cannot express"@,
                    }))
                    &&& is_itself && there && g.column is None && !known ==> m == (
                    Meaning::Unexpressible {
                        target: Some(target),
                        what: "role "@ + grantee@ + ": "@ + g.permission@ + " on "@ + on
                            + " is not a permission this model holds; the declarations cannot express it"@,
                    })
                    &&& is_itself && there && g.column is None && known && g.grantable ==> m == (
                    Meaning::Unexpressible {
                        target: Some(target),
                        what: "role "@ + grantee@ + ": "@ + g.permission@ + " on "@ + on
                            + " is `WITH GRANT OPTION`, which the declarations cannot express"@,
                    })
                },
            }
        }),
{
    a_role_is_an_entry(roles, grantee@);
    let on = granted::label(g, raw.routine_args@);
    match granted::target_read(g, raw.routine_args@, read) {
        Err(what) => templates::a_finding_of_a_role_reads(grantee@, what),
        Ok(target) => {
            recorded_is_in_the_pull(tables, modules, target);
            templates::an_unrecorded_target_reads(grantee@, g.permission@, on);
            templates::an_unheld_permission_reads(grantee@, g.permission@, on);
            templates::a_grant_to_grant_reads(grantee@, g.permission@, on);
            if let Some(column) = g.column {
                templates::a_grant_on_a_column_reads(grantee@, g.permission@, column@, on);
            }
        },
    }
}

// ---------------------------------------------------------------------------
// What is said of roles

/// Whether the warnings only grew.
spec fn goes_on(before: Seq<Seq<char>>, after: Seq<Seq<char>>) -> bool {
    before.len() <= after.len() && forall|i: int|
        0 <= i < before.len() ==> #[trigger] after[i] == before[i]
}

proof fn superusers_are_said(roles: Seq<RawRole>, start: Granted, n: int, i: int)
    requires
        0 <= i < n <= roles.len(),
        roles[i].superuser,
    ensures
        granted::with_roles(roles, start, n).warnings.contains(
            text::filled(granted::SUPERUSER@, seq![roles[i].name@]),
        ),
    decreases n,
{
    let front = granted::with_roles(roles, start, n - 1);
    let all = granted::with_roles(roles, start, n);
    let said = text::filled(granted::SUPERUSER@, seq![roles[i].name@]);
    if i == n - 1 {
        assert(all.warnings[front.warnings.len() as int] == said);
    } else {
        superusers_are_said(roles, start, n - 1, i);
        let k = front.warnings.index_of(said);
        assert(all.warnings[k] == said);
    }
}

/// How many of the first `n` roles pass every check.
pub open spec fn superusers(roles: Seq<RawRole>, n: int) -> nat
    decreases n,
{
    if n <= 0 {
        0
    } else if roles[n - 1].superuser {
        superusers(roles, n - 1) + 1
    } else {
        superusers(roles, n - 1)
    }
}

/// Of the roles only those that pass every check are said to, each once, and
/// every role starts with nothing granted.
pub proof fn only_a_superuser_is_said_to_be_one(roles: Seq<RawRole>, start: Granted, n: int)
    requires
        0 <= n <= roles.len(),
    ensures
        granted::with_roles(roles, start, n).warnings.len() == start.warnings.len() + superusers(
            roles,
            n,
        ),
        granted::with_roles(roles, start, n).unexpressible == start.unexpressible,
        granted::with_roles(roles, start, n).executable == start.executable,
        granted::with_roles(roles, start, n).standing == start.standing,
        entries::ordered(start.roles) && n > 0 ==> (entries::found(
            granted::with_roles(roles, start, n).roles,
            seq![roles[n - 1].name@],
        ) matches Some(role) && role.grants.len() == 0 && role.targets.len() == 0),
    decreases n,
{
    if n > 0 {
        only_a_superuser_is_said_to_be_one(roles, start, n - 1);
        if entries::ordered(start.roles) {
            roles_stay_in_order(roles, start, n - 1);
            let front = granted::with_roles(roles, start, n - 1);
            entries::put_is_a_map_insert(
                front.roles,
                seq![roles[n - 1].name@],
                granted::bare_role(),
            );
        }
    }
}

proof fn roles_stay_in_order(roles: Seq<RawRole>, start: Granted, n: int)
    requires
        0 <= n <= roles.len(),
        entries::ordered(start.roles),
    ensures
        entries::ordered(granted::with_roles(roles, start, n).roles),
    decreases n,
{
    if n > 0 {
        roles_stay_in_order(roles, start, n - 1);
        let front = granted::with_roles(roles, start, n - 1);
        entries::put_is_a_map_insert(
            front.roles,
            seq![roles[n - 1].name@],
            granted::bare_role(),
        );
    }
}

proof fn grants_only_add_warnings(
    raw: RawCatalog,
    read: ReadBack,
    tables: Seq<Entry<TableView>>,
    modules: Seq<Entry<(ModuleKind, Seq<char>)>>,
    start: Granted,
    n: int,
)
    ensures
        goes_on(
            start.warnings,
            granted::with_grants(raw, read, tables, modules, start, n).warnings,
        ),
    decreases n,
{
    if n > 0 {
        grants_only_add_warnings(raw, read, tables, modules, start, n - 1);
    }
}

/// Every role that passes every check is said to, everything that a role holds
/// elsewhere is said in its own line, and so is every standing instruction on
/// what a role creates.
pub proof fn what_grants_do_not_decide_is_said(raw: RawCatalog, read: ReadBack)
    ensures
        ({
            let said = introspect::assembled(raw, read).log.warnings;
            &&& forall|i: int|
                0 <= i < raw.roles@.len() && (#[trigger] raw.roles@[i]).superuser ==> said.contains(
                    text::filled(granted::SUPERUSER@, seq![raw.roles@[i].name@]),
                )
            &&& forall|i: int|
                0 <= i < raw.held_elsewhere@.len() ==> said.contains(
                    (#[trigger] raw.held_elsewhere@[i]).rendered@,
                )
            &&& forall|i: int|
                0 <= i < raw.default_acls@.len() ==> said.contains(
                    standing_instruction(#[trigger] raw.default_acls@[i]),
                )
        }),
{
    let tables = introspect::tables_read(raw, read).tables;
    let modules = introspect::modules_read(raw, read).modules;
    let before = introspect::modules_read(raw, read).log.warnings;
    let said = introspect::assembled(raw, read).log.warnings;
    let nothing = granted::nothing_granted();
    let n = raw.roles@.len() as int;
    let m = raw.grants@.len() as int;
    let start = granted::with_roles(raw.roles@, nothing, n);
    let known = granted::with_grants(raw, read, tables, modules, start, m);
    let all = granted::roles_read(raw, read, tables, modules, nothing).warnings;
    grants_only_add_warnings(raw, read, tables, modules, start, m);
    assert forall|k: int| 0 <= k < all.len() implies said.contains(#[trigger] all[k]) by {
        assert(said[before.len() + k] == all[k]);
    }
    assert forall|i: int|
        0 <= i < raw.roles@.len() && (#[trigger] raw.roles@[i]).superuser implies said.contains(
        text::filled(granted::SUPERUSER@, seq![raw.roles@[i].name@]),
    ) by {
        superusers_are_said(raw.roles@, nothing, n, i);
        let x = text::filled(granted::SUPERUSER@, seq![raw.roles@[i].name@]);
        let k = start.warnings.index_of(x);
        assert(known.warnings[k] == x);
        assert(all[k] == x);
    }
    let held = granted::held_notes(raw.held_elsewhere@);
    let acls = granted::default_acl_notes(raw.default_acls@);
    assert forall|i: int| 0 <= i < raw.held_elsewhere@.len() implies said.contains(
        (#[trigger] raw.held_elsewhere@[i]).rendered@,
    ) by {
        assert(all[all.len() - acls.len() - held.len() + i] == held[i]);
    }
    assert forall|i: int| 0 <= i < raw.default_acls@.len() implies said.contains(
        standing_instruction(#[trigger] raw.default_acls@[i]),
    ) by {
        assert(all[all.len() - acls.len() + i] == acls[i]);
        let d = raw.default_acls@[i];
        if let Some(schema) = d.in_schema {
            templates::a_granted_schema_reads(schema@);
        }
        assert(instruction_parts(d) =~= seq![
            d.grantor@,
            granted::where_text(d.in_schema),
            d.acl@,
            granted::default_acl_text(d.objtype),
        ]);
        assert(said.contains(acls[i]));
    }
}

/// What a standing instruction says: whose objects, in which schema, what it
/// grants, and on which kind of them.
pub open spec fn instruction_parts(d: RawDefaultAcl) -> Seq<Seq<char>> {
    seq![
        d.grantor@,
        match d.in_schema {
            Some(schema) => "schema `"@ + schema@ + "`"@,
            None => "every schema"@,
        },
        d.acl@,
        if d.objtype == 'r' {
            "the tables and views"@
        } else if d.objtype == 'S' {
            "the sequences"@
        } else if d.objtype == 'f' {
            "the functions and procedures"@
        } else if d.objtype == 'T' {
            "the types"@
        } else if d.objtype == 'n' {
            "the schemas"@
        } else {
            "the objects"@
        },
    ]
}

/// How a standing instruction is said.
pub open spec fn standing_instruction(d: RawDefaultAcl) -> Seq<char> {
    text::filled(granted::DEFAULT_PRIVILEGES@, instruction_parts(d))
}

// ---------------------------------------------------------------------------
// Grants that a declaration cannot name

/// Whether a grant on something that is no object of a schema was made to a
/// role: not to PUBLIC and not to the owner.
pub open spec fn is_another_grant(roles: Seq<Entry<RoleView>>, g: RawOtherGrant) -> bool {
    g.grantee matches Some(grantee) && is_a_role(roles, grantee@) && match g.owner {
        Some(owner) => owner@ != grantee@,
        None => true,
    }
}

/// Under what such grants are gathered: who holds which right on which kind.
pub open spec fn gathered_under(g: RawOtherGrant) -> Seq<Seq<char>> {
    seq![
        match g.grantee {
            Some(grantee) => grantee@,
            None => Seq::empty(),
        },
        g.class@,
        if g.grantable {
            g.permission@ + " WITH GRANT OPTION"@
        } else {
            g.permission@
        },
    ]
}

proof fn grants_are_gathered(
    raw: RawCatalog,
    roles: Seq<Entry<RoleView>>,
    n: int,
    i: int,
)
    requires
        0 <= n <= raw.other_grants@.len(),
    ensures
        entries::ordered(granted::lines(raw, roles, n)),
        0 <= i < n && is_another_grant(roles, raw.other_grants@[i]) ==> granted::names_under(
            granted::lines(raw, roles, n),
            gathered_under(raw.other_grants@[i]),
        ).contains(raw.other_grants@[i].name@),
        0 <= i < n && is_another_grant(roles, raw.other_grants@[i]) ==> entries::found(
            granted::lines(raw, roles, n),
            gathered_under(raw.other_grants@[i]),
        ) is Some,
    decreases n,
{
    if n > 0 {
        grants_are_gathered(raw, roles, n - 1, i);
        let g = raw.other_grants@[n - 1];
        let front = granted::lines(raw, roles, n - 1);
        let all = granted::lines(raw, roles, n);
        if let Some(grantee) = g.grantee {
            a_role_is_an_entry(roles, grantee@);
        }
        if is_another_grant(roles, g) {
            templates::a_right_to_grant_reads(g.permission@);
            let key = gathered_under(g);
            let names = granted::names_under(front, key);
            assert(key =~= seq![
                g.grantee->0@,
                g.class@,
                granted::right_text(g.permission@, g.grantable),
            ]);
            assert(all == granted::with_line(front, key, g.name@));
            entries::put_is_a_map_insert(front, key, names.push(g.name@));
            assert(names.push(g.name@)[names.len() as int] == g.name@);
            if 0 <= i < n - 1 && is_another_grant(roles, raw.other_grants@[i]) {
                let other = gathered_under(raw.other_grants@[i]);
                if other == key {
                    let k = names.index_of(raw.other_grants@[i].name@);
                    assert(names.push(g.name@)[k] == raw.other_grants@[i].name@);
                }
            }
        } else {
            assert(all == front);
        }
    } else {
        assert(granted::lines(raw, roles, n) =~= Seq::<Entry<Seq<Seq<char>>>>::empty());
    }
}

/// Nothing is gathered but such grants: not what an owner has, not what PUBLIC
/// has and not what a stranger has.
pub proof fn only_another_grant_is_gathered(
    raw: RawCatalog,
    roles: Seq<Entry<RoleView>>,
    n: int,
    key: Seq<Seq<char>>,
    name: Seq<char>,
)
    requires
        0 <= n <= raw.other_grants@.len(),
        granted::names_under(granted::lines(raw, roles, n), key).contains(name),
    ensures
        exists|i: int|
            0 <= i < n && is_another_grant(roles, #[trigger] raw.other_grants@[i])
                && gathered_under(raw.other_grants@[i]) == key && raw.other_grants@[i].name@
                == name,
    decreases n,
{
    if n > 0 {
        grants_are_gathered(raw, roles, n - 1, 0);
        let g = raw.other_grants@[n - 1];
        let front = granted::lines(raw, roles, n - 1);
        let all = granted::lines(raw, roles, n);
        if let Some(grantee) = g.grantee {
            a_role_is_an_entry(roles, grantee@);
        }
        if is_another_grant(roles, g) {
            templates::a_right_to_grant_reads(g.permission@);
            let under = gathered_under(g);
            assert(under =~= seq![
                g.grantee->0@,
                g.class@,
                granted::right_text(g.permission@, g.grantable),
            ]);
            let names = granted::names_under(front, under);
            assert(all == granted::with_line(front, under, g.name@));
            entries::put_is_a_map_insert(front, under, names.push(g.name@));
            if key == under {
                let k = names.push(g.name@).index_of(name);
                if k < names.len() {
                    assert(names[k] == name);
                    only_another_grant_is_gathered(raw, roles, n - 1, key, name);
                } else {
                    assert(is_another_grant(roles, raw.other_grants@[n - 1]));
                }
            } else {
                only_another_grant_is_gathered(raw, roles, n - 1, key, name);
            }
        } else {
            assert(all == front);
            only_another_grant_is_gathered(raw, roles, n - 1, key, name);
        }
    } else {
        let none = Seq::<Entry<Seq<Seq<char>>>>::empty();
        assert(granted::lines(raw, roles, n) =~= none);
        entries::found_is_an_entry(none, key);
    }
}

/// Every grant that a declaration has no name for is among what the pull could
/// not express, under the role that holds it, with its kind, its right and the
/// name of what it is on.
pub proof fn a_grant_on_something_else_is_reported(raw: RawCatalog, read: ReadBack, i: int)
    requires
        0 <= i < raw.other_grants@.len(),
        is_another_grant(introspect::assembled(raw, read).roles, raw.other_grants@[i]),
    ensures
        ({
            let pulled = introspect::assembled(raw, read);
            let g = raw.other_grants@[i];
            let key = gathered_under(g);
            exists|names: Seq<Seq<char>>|
                names.contains(g.name@) && pulled.unexpressible.contains(
                    (
                        key[0],
                        None::<TargetView>,
                        text::filled(
                            granted::UNNAMEABLE@,
                            seq![key[0], key[2], key[1], #[trigger] granted::list_text(names)],
                        ),
                    ),
                )
        }),
{
    let pulled = introspect::assembled(raw, read);
    let g = raw.other_grants@[i];
    let n = raw.other_grants@.len() as int;
    let key = gathered_under(g);
    let lines = granted::lines(raw, pulled.roles, n);
    grants_are_gathered(raw, pulled.roles, n, i);
    let names = granted::names_under(lines, key);
    entries::found_is_an_entry(lines, key);
    let k = choose|k: int| 0 <= k < lines.len() && #[trigger] lines[k] == (key, names);
    let found = granted::findings(lines, lines.len() as int);
    let x = (
        key[0],
        None::<TargetView>,
        text::filled(
            granted::UNNAMEABLE@,
            seq![key[0], key[2], key[1], granted::list_text(names)],
        ),
    );
    assert(found[k] == x);
    assert(pulled.unexpressible[pulled.unexpressible.len() - found.len() + k] == x);
}

// ---------------------------------------------------------------------------
// What a role holds, and what is closed

/// A role that is given a permission on a target lists that target under the
/// target's own key.
pub proof fn a_target_stands_under_its_own_key(
    role: RoleView,
    target: TargetView,
    permission: Seq<char>,
)
    requires
        role.targets.len() == role.grants.len(),
        forall|k: int|
            0 <= k < role.targets.len() ==> model::target_rank(#[trigger] role.targets[k])
                == role.grants[k].0,
    ensures
        ({
            let after = granted::with_permission(role, target, permission);
            &&& after.targets.len() == after.grants.len()
            &&& after.targets.contains(target)
            &&& forall|k: int|
                0 <= k < after.targets.len() ==> model::target_rank(#[trigger] after.targets[k])
                    == after.grants[k].0
        }),
{
    let after = granted::with_permission(role, target, permission);
    let rank = model::target_rank(target);
    let p = entries::place_from(role.grants, rank, 0);
    entries::place_is_in_range(role.grants, rank);
    assert(after.targets[p] == target);
    assert forall|k: int| 0 <= k < after.targets.len() implies model::target_rank(
        #[trigger] after.targets[k],
    ) == after.grants[k].0 by {
        if p < role.grants.len() && role.grants[p].0 == rank {
            if k != p {
                assert(after.targets[k] == role.targets[k]);
            }
        } else if k < p {
            assert(after.targets[k] == role.targets[k]);
        } else if k > p {
            assert(after.targets[k] == role.targets[k - 1]);
        }
    }
}

/// A routine is closed to PUBLIC exactly where somebody changed its access list
/// and PUBLIC is not on it.
pub proof fn a_routine_is_closed_where_its_list_was_changed(
    raw: RawCatalog,
    executable: Seq<Seq<char>>,
    n: int,
    on: Seq<char>,
)
    requires
        0 <= n <= raw.grants@.len(),
    ensures
        granted::closed(raw, executable, n).contains(on) <==> !executable.contains(on) && exists|
            i: int,
        |
            0 <= i < n && (raw.grants@[i].kind == GrantedKind::Routine('f') || raw.grants@[i].kind
                == GrantedKind::Routine('p')) && !raw.grants@[i].defaulted && granted::label(
                #[trigger] raw.grants@[i],
                raw.routine_args@,
            ) == on,
    decreases n,
{
    if n > 0 {
        a_routine_is_closed_where_its_list_was_changed(raw, executable, n - 1, on);
        let g = raw.grants@[n - 1];
        let front = granted::closed(raw, executable, n - 1);
        let here = granted::label(g, raw.routine_args@);
        a_text_more(front, here, on);
        if exists|i: int|
            0 <= i < n && (raw.grants@[i].kind == GrantedKind::Routine('f') || raw.grants@[i].kind
                == GrantedKind::Routine('p')) && !raw.grants@[i].defaulted && granted::label(
                #[trigger] raw.grants@[i],
                raw.routine_args@,
            ) == on {
            let i = choose|i: int|
                0 <= i < n && (raw.grants@[i].kind == GrantedKind::Routine('f')
                    || raw.grants@[i].kind == GrantedKind::Routine('p'))
                    && !raw.grants@[i].defaulted && granted::label(
                    #[trigger] raw.grants@[i],
                    raw.routine_args@,
                ) == on;
            assert(i < n - 1 || i == n - 1);
        }
    }
}

proof fn a_text_more(list: Seq<Seq<char>>, s: Seq<char>, other: Seq<char>)
    ensures
        order::with_text(list, s).contains(other) <==> list.contains(other) || other == s,
{
    let p = order::place_from(list, s, 0);
    let n = order::with_text(list, s);
    order::place_is_in_range(list, s);
    if p < list.len() && list[p] == s {
        assert(list.contains(s));
    } else {
        assert(n[p] == s);
        if list.contains(other) {
            let k = list.index_of(other);
            if k < p {
                assert(n[k] == other);
            } else {
                assert(n[k + 1] == other);
            }
        }
        if n.contains(other) {
            let k = n.index_of(other);
            if k < p {
                assert(list[k] == other);
            } else if k > p {
                assert(list[k - 1] == other);
            }
        }
    }
}

/// What nobody granted is said of who holds it, with which right, on how many
/// of which kind, and on which; what PUBLIC may and may not execute is counted
/// and listed, and not mentioned where there is none.
pub proof fn what_is_counted_is_listed(line: Entry<Seq<Seq<char>>>, routines: Seq<Seq<char>>)
    ensures
        granted::standing_note(line) == text::filled(
            granted::ZERO_POINT@,
            seq![
                line.0[0],
                line.0[2],
                granted::counted(line.1.len() as int, line.0[1]),
                granted::list_text(line.1),
            ],
        ),
        routines.len() == 0 ==> granted::routines_note(granted::PUBLIC_EXECUTES@, routines).len()
            == 0 && granted::routines_note(granted::CLOSED_TO_PUBLIC@, routines).len() == 0,
        routines.len() > 0 ==> granted::routines_note(granted::CLOSED_TO_PUBLIC@, routines) == seq![
            text::filled(
                granted::CLOSED_TO_PUBLIC@,
                seq![
                    granted::counted(routines.len() as int, "routine"@),
                    granted::list_text(routines),
                ],
            ),
        ],
{
}

// ---------------------------------------------------------------------------
// Counts and lists

/// One thing is one, and every other number of them is many.
pub proof fn a_count_agrees_with_its_noun(n: int, what: Seq<char>)
    requires
        n >= 0,
    ensures
        granted::counted(n, what) == if n == 1 {
            "1 "@ + what
        } else {
            text::decimal(n as nat) + " "@ + what + "s"@
        },
{
    templates::one_thing_reads(what);
    templates::several_things_reads(text::decimal(n as nat), what);
}

/// Up to ten names are listed in full. Of more, ten are, and the rest is
/// counted.
pub proof fn a_list_shows_ten_and_counts_the_rest(names: Seq<Seq<char>>)
    ensures
        granted::list_text(names) == if names.len() <= 10 {
            text::joined(names, ", "@)
        } else {
            text::joined(names.subrange(0, 10), ", "@) + " and "@ + text::decimal(
                (names.len() - 10) as nat,
            ) + " more"@
        },
{
    if names.len() > 10 {
        let rest = text::decimal((names.len() - 10) as nat);
        templates::what_is_left_reads(rest);
        assert(names.take(10) =~= names.subrange(0, 10));
        let shown = text::joined(names.subrange(0, 10), ", "@);
        assert(shown + (" and "@ + rest + " more"@) =~= shown + " and "@ + rest + " more"@);
    }
}

} // verus!
