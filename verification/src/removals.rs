//! What a plan removes, and when that clears the way for its drops.
use vstd::prelude::*;

use crate::costs;
use crate::drop_impact;
use crate::drop_impact::{
    Address, Classes, DropReport, Edge, EdgeRow, Part, PartView, RemovalView,
};
use crate::impact;
use crate::model;
use crate::model::{Change, ModuleKind};
use crate::order;
use crate::templates;
use crate::text;

verus! {

// ---------------------------------------------------------------------------
// What a change removes

/// A module that is dropped, or dropped to be created again, is removed: the
/// one of that identity, as the kind it is.
pub proof fn a_dropped_module_is_removed(changes: Seq<Change>, at: int)
    ensures
        changes[at] matches Change::DropModule { id, kind } ==> drop_impact::removal_of(
            changes,
            at,
        ) == RemovalView::Module(id@, kind),
        changes[at] matches Change::AlterModule { id, module } ==> drop_impact::removal_of(
            changes,
            at,
        ) == RemovalView::Module(id@, module.kind),
{
}

/// Whether no change before `at` gives this table its name.
pub open spec fn is_untouched(changes: Seq<Change>, at: int, table: model::Qualified) -> bool {
    forall|i: int| 0 <= i < at ==> !costs::gives(#[trigger] changes[i], table)
}

/// Whether no change before `at` gives this column its name, in a table that
/// none of them gives its name.
pub open spec fn is_untouched_column(
    changes: Seq<Change>,
    at: int,
    table: model::Qualified,
    column: Seq<char>,
) -> bool {
    is_untouched(changes, at, table) && forall|i: int|
        0 <= i < at ==> match #[trigger] changes[i] {
            Change::RenameColumn { table: on, from: _, to } => !(on@ == table && to@ == column),
            Change::AddColumn { table: on, name, column: _ } => !(on@ == table && name@ == column),
            _ => true,
        }
}

proof fn an_untouched_table_is_stored_as_named(
    changes: Seq<Change>,
    at: int,
    table: model::Qualified,
)
    requires
        0 <= at <= changes.len(),
        is_untouched(changes, at, table),
    ensures
        drop_impact::stored_at(changes, at, table, None) == Some((table, None::<Seq<char>>)),
    decreases at,
{
    if at > 0 {
        assert(!costs::gives(changes[at - 1], table));
        an_untouched_table_is_stored_as_named(changes, at - 1, table);
    }
}

proof fn an_untouched_column_is_stored_as_named(
    changes: Seq<Change>,
    at: int,
    table: model::Qualified,
    column: Seq<char>,
)
    requires
        0 <= at <= changes.len(),
        is_untouched_column(changes, at, table, column),
    ensures
        drop_impact::stored_at(changes, at, table, Some(column)) == Some((table, Some(column))),
    decreases at,
{
    if at > 0 {
        assert(!costs::gives(changes[at - 1], table));
        an_untouched_column_is_stored_as_named(changes, at - 1, table, column);
    }
}

/// A change that drops a table, a column or a part of a table removes exactly
/// that, under its own name where nothing before it gave it that name.
pub proof fn a_drop_removes_what_it_names(changes: Seq<Change>, at: int)
    requires
        0 <= at < changes.len(),
    ensures
        match changes[at] {
            Change::DropTable { name } => is_untouched(changes, at, name@)
                ==> drop_impact::removal_of(changes, at) == RemovalView::Table(name@),
            Change::DropColumn { column } => is_untouched_column(
                changes,
                at,
                column@.0,
                column@.1,
            ) ==> drop_impact::removal_of(changes, at) == (RemovalView::Column {
                table: column@.0,
                column: Some(column@.1),
                declared: column@,
            }),
            Change::DropCheck { table, name } => is_untouched(changes, at, table@)
                ==> drop_impact::removal_of(changes, at) == RemovalView::Part(
                table@,
                PartView::Constraint(name@),
            ),
            Change::DropUnique { table, name } => is_untouched(changes, at, table@)
                ==> drop_impact::removal_of(changes, at) == RemovalView::Part(
                table@,
                PartView::Constraint(name@),
            ),
            Change::DropForeignKey { table, name } => is_untouched(changes, at, table@)
                ==> drop_impact::removal_of(changes, at) == RemovalView::Part(
                table@,
                PartView::Constraint(name@),
            ),
            Change::DropIndex { table, name } => is_untouched(changes, at, table@)
                ==> drop_impact::removal_of(changes, at) == RemovalView::Part(
                table@,
                PartView::Index(name@),
            ),
            Change::SetPrimaryKey { table, from, to: _ } => is_untouched(changes, at, table@)
                ==> drop_impact::removal_of(changes, at) == if from is Some {
                RemovalView::Part(table@, PartView::PrimaryKey)
            } else {
                RemovalView::Nothing
            },
            Change::AlterColumnDefault { column, from, to: _ } => is_untouched_column(
                changes,
                at,
                column@.0,
                column@.1,
            ) ==> drop_impact::removal_of(changes, at) == if from is Some {
                RemovalView::Default { table: column@.0, column: Some(column@.1) }
            } else {
                RemovalView::Nothing
            },
            _ => true,
        },
{
    match changes[at] {
        Change::DropTable { name } => {
            if is_untouched(changes, at, name@) {
                an_untouched_table_is_stored_as_named(changes, at, name@);
            }
        },
        Change::DropColumn { column } => {
            if is_untouched_column(changes, at, column@.0, column@.1) {
                an_untouched_column_is_stored_as_named(changes, at, column@.0, column@.1);
            }
        },
        Change::AlterColumnDefault { column, from, to: _ } => {
            if is_untouched_column(changes, at, column@.0, column@.1) {
                an_untouched_column_is_stored_as_named(changes, at, column@.0, column@.1);
            }
        },
        Change::DropCheck { table, name } => {
            if is_untouched(changes, at, table@) {
                an_untouched_table_is_stored_as_named(changes, at, table@);
            }
        },
        Change::DropUnique { table, name } => {
            if is_untouched(changes, at, table@) {
                an_untouched_table_is_stored_as_named(changes, at, table@);
            }
        },
        Change::DropForeignKey { table, name } => {
            if is_untouched(changes, at, table@) {
                an_untouched_table_is_stored_as_named(changes, at, table@);
            }
        },
        Change::DropIndex { table, name } => {
            if is_untouched(changes, at, table@) {
                an_untouched_table_is_stored_as_named(changes, at, table@);
            }
        },
        Change::SetPrimaryKey { table, from, to: _ } => {
            if is_untouched(changes, at, table@) {
                an_untouched_table_is_stored_as_named(changes, at, table@);
            }
        },
        _ => {},
    }
}

/// What neither drops nor replaces anything removes nothing.
pub proof fn what_drops_nothing_removes_nothing(changes: Seq<Change>, at: int)
    requires
        match changes[at] {
            Change::DropTable { .. } => false,
            Change::DropColumn { .. } => false,
            Change::DropModule { .. } => false,
            Change::AlterModule { .. } => false,
            Change::DropCheck { .. } => false,
            Change::DropUnique { .. } => false,
            Change::DropForeignKey { .. } => false,
            Change::DropIndex { .. } => false,
            Change::SetPrimaryKey { .. } => false,
            Change::AlterColumnDefault { .. } => false,
            _ => true,
        },
    ensures
        drop_impact::removal_of(changes, at) == RemovalView::Nothing,
{
}

proof fn a_stored_table_is_its_origin(changes: Seq<Change>, n: int, table: model::Qualified)
    ensures
        match drop_impact::stored_at(changes, n, table, None) {
            Some((name, column)) => model::origin(changes, n, table) == (name, false) && column
                is None,
            None => model::origin(changes, n, table).1,
        },
    decreases n,
{
    if n > 0 {
        match changes[n - 1] {
            Change::RenameTable { from, to } => {
                if to@ == table {
                    a_stored_table_is_its_origin(changes, n - 1, from@);
                } else {
                    a_stored_table_is_its_origin(changes, n - 1, table);
                }
            },
            _ => {
                a_stored_table_is_its_origin(changes, n - 1, table);
            },
        }
    }
}

/// A table that is dropped is looked up under a name the catalog has, and only
/// one that the plan creates is not looked up at all.
pub proof fn a_dropped_table_is_one_the_catalog_has(
    catalog: Set<model::Qualified>,
    changes: Seq<Change>,
    at: int,
)
    requires
        0 <= at < changes.len(),
        changes[at] matches Change::DropTable { name } && impact::has_table(
            catalog,
            changes,
            at,
            name@,
        ),
    ensures
        match drop_impact::removal_of(changes, at) {
            RemovalView::Table(table) => catalog.contains(table),
            RemovalView::Nothing => costs::creates_something(changes, at),
            _ => false,
        },
{
    let name = changes[at]->DropTable_name;
    impact::a_table_is_traced_to_the_catalog(catalog, changes, at, name@);
    a_stored_table_is_its_origin(changes, at, name@);
    if model::origin(changes, at, name@).1 {
        costs::only_a_creation_creates(changes, at, name@);
    }
}

// ---------------------------------------------------------------------------
// Addresses and edges

/// A whole object holds each of its parts, and a part holds itself alone.
pub proof fn an_object_holds_its_parts(a: Address, b: Address)
    ensures
        a.covers(b) <==> a.class == b.class && a.object == b.object && (a.part == 0 || a.part
            == b.part),
        a.covers(a),
{
}

/// What each kind of dependency does: a normal one neither goes with what it
/// needs nor owns it, an automatic one goes with it, an internal one goes with
/// it and is owned by it, and a member of an extension is owned and stays.
pub proof fn what_a_dependency_does(e: Edge)
    ensures
        e.kind@ == "n"@ ==> !e.is_automatic() && !e.is_owner(),
        e.kind@ == "a"@ ==> e.is_automatic() && !e.is_owner(),
        e.kind@ == "i"@ ==> e.is_automatic() && e.is_owner(),
        e.kind@ == "e"@ ==> !e.is_automatic() && e.is_owner(),
        e.kind@ == "x"@ ==> e.is_automatic() && !e.is_owner(),
        e.kind@ == "P"@ ==> e.is_automatic() && !e.is_owner(),
        e.kind@ == "S"@ ==> e.is_automatic() && !e.is_owner(),
        e.is_automatic() || e.is_owner() ==> e.kind@.len() == 1,
{
    reveal_strlit("n");
    reveal_strlit("a");
    reveal_strlit("i");
    reveal_strlit("e");
    reveal_strlit("x");
    reveal_strlit("P");
    reveal_strlit("S");
    assert("n"@[0] == 'n' && "a"@[0] == 'a' && "i"@[0] == 'i' && "e"@[0] == 'e' && "x"@[0] == 'x'
        && "P"@[0] == 'P' && "S"@[0] == 'S');
}

/// A row is an edge exactly where it leaves nothing out, and the edge is what
/// the row says: the first address depends on the second.
pub proof fn an_edge_is_what_its_row_says(row: EdgeRow, r: Result<Edge, String>)
    requires
        call_ensures(drop_impact::edge, (&row,), r),
    ensures
        r is Ok <==> row.dc is Some && row.dob is Some && row.dp is Some && row.rc is Some
            && row.rob is Some && row.rp is Some && row.kind is Some && row.dn is Some && row.rn
            is Some,
        r matches Ok(e) ==> e.dependent.class == row.dc->0 && e.dependent.object == row.dob->0
            && e.dependent.part == row.dp->0 && e.referenced.class == row.rc->0
            && e.referenced.object == row.rob->0 && e.referenced.part == row.rp->0 && e.kind@
            == row.kind->0@ && e.dependent_name@ == row.dn->0@ && e.referenced_name@
            == row.rn->0@,
{
}

/// Each kind of module has its row in its own catalog.
pub proof fn a_module_is_in_its_own_catalog(classes: Classes, kind: ModuleKind, r: i64)
    requires
        call_ensures(drop_impact::module_class, (classes, kind), r),
    ensures
        kind == ModuleKind::View ==> r == classes.relation,
        kind == ModuleKind::Function ==> r == classes.routine,
        kind == ModuleKind::Procedure ==> r == classes.routine,
        kind == ModuleKind::Trigger ==> r == classes.trigger,
{
}

/// A part of a table is asked for by its name in the catalog of its class: an
/// index among the relations, a constraint among the constraints.
pub proof fn a_part_is_asked_for_where_it_is(
    classes: Classes,
    part: Part,
    r: (&'static str, i64, &str),
)
    requires
        call_ensures(drop_impact::part_query, (classes, &part), r),
    ensures
        part matches Part::Index(name) ==> r.1 == classes.relation && r.2@ == name@,
        part matches Part::Constraint(name) ==> r.1 == classes.constraint && r.2@ == name@,
        part is PrimaryKey ==> r.1 == classes.constraint && r.2@.len() == 0,
{
    reveal_strlit("");
}

// ---------------------------------------------------------------------------
// Blockers

/// Whether no removal takes this object away, directly or with something that
/// goes automatically.
pub open spec fn is_never_removed(
    edges: Seq<Edge>,
    removals: Seq<(usize, Address)>,
    a: Address,
) -> bool {
    forall|i: int|
        0 <= i < removals.len() ==> !drop_impact::reaches(
            drop_impact::closure_of(edges, (#[trigger] removals[i]).1, true),
            a,
        )
}

proof fn gone_no_later(
    edges: Seq<Edge>,
    removals: Seq<(usize, Address)>,
    n: int,
    a: Address,
    k: int,
)
    requires
        0 <= k < n <= removals.len(),
        removals[k].1.covers(a),
    ensures
        drop_impact::gone_at(edges, removals, n, a) matches Some(at) && at <= removals[k].0,
    decreases n,
{
    if k == n - 1 {
        drop_impact::a_closure_is_the_least_closed_set(edges, removals[k].1, true);
        let c = drop_impact::closure_of(edges, removals[k].1, true);
        assert(c.contains(removals[k].1) && removals[k].1.covers(a));
        assert(drop_impact::reaches(c, a));
    } else {
        gone_no_later(edges, removals, n - 1, a, k);
    }
}

proof fn gone_no_earlier(
    edges: Seq<Edge>,
    removals: Seq<(usize, Address)>,
    n: int,
    a: Address,
    least: int,
)
    requires
        0 <= n <= removals.len(),
        forall|i: int|
            0 <= i < removals.len() && drop_impact::reaches(
                drop_impact::closure_of(edges, (#[trigger] removals[i]).1, true),
                a,
            ) ==> least <= removals[i].0,
    ensures
        drop_impact::gone_at(edges, removals, n, a) matches Some(at) ==> least <= at,
    decreases n,
{
    if n > 0 {
        gone_no_earlier(edges, removals, n - 1, a, least);
        assert(drop_impact::reaches(
            drop_impact::closure_of(edges, removals[n - 1].1, true),
            a,
        ) ==> least <= removals[n - 1].0);
    }
}

proof fn never_gone(edges: Seq<Edge>, removals: Seq<(usize, Address)>, n: int, a: Address)
    requires
        0 <= n <= removals.len(),
        is_never_removed(edges, removals, a),
    ensures
        drop_impact::gone_at(edges, removals, n, a) is None,
    decreases n,
{
    if n > 0 {
        assert(!drop_impact::reaches(
            drop_impact::closure_of(edges, removals[n - 1].1, true),
            a,
        ));
        never_gone(edges, removals, n - 1, a);
    }
}

/// Whether a plan takes the dependent of an edge away before everything the
/// edge could hold up: no later than the drop, and no later than whatever takes
/// away what the edge refers to.
pub open spec fn is_cleared(
    edges: Seq<Edge>,
    removals: Seq<(usize, Address)>,
    at_root: int,
    e: Edge,
) -> bool {
    exists|k: int|
        0 <= k < removals.len() && (#[trigger] removals[k]).1.covers(e.dependent) && removals[k].0
            <= at_root && forall|i: int|
            0 <= i < removals.len() && drop_impact::reaches(
                drop_impact::closure_of(edges, (#[trigger] removals[i]).1, true),
                e.referenced,
            ) ==> removals[k].0 <= removals[i].0
}

/// A dependent that the plan takes away first does not block.
pub proof fn a_cleared_dependent_does_not_block(
    edges: Seq<Edge>,
    removals: Seq<(usize, Address)>,
    root: Address,
    at_root: int,
    e: Edge,
)
    requires
        is_cleared(edges, removals, at_root, e),
    ensures
        !drop_impact::blocks_as_dependent(edges, removals, root, at_root, e),
{
    let k = choose|k: int|
        0 <= k < removals.len() && (#[trigger] removals[k]).1.covers(e.dependent) && removals[k].0
            <= at_root && forall|i: int|
            0 <= i < removals.len() && drop_impact::reaches(
                drop_impact::closure_of(edges, (#[trigger] removals[i]).1, true),
                e.referenced,
            ) ==> removals[k].0 <= removals[i].0;
    let n = removals.len() as int;
    gone_no_later(edges, removals, n, e.dependent, k);
    gone_no_earlier(edges, removals, n, e.referenced, removals[k].0 as int);
}

/// A plan that takes every dependent of what it drops away first has no
/// blockers: nothing that is gone by then stands in the way.
pub proof fn a_cleared_drop_has_no_blockers(
    edges: Seq<Edge>,
    removals: Seq<(usize, Address)>,
    root: Address,
    at_root: int,
    name: Seq<char>,
)
    requires
        forall|i: int|
            0 <= i < edges.len() ==> (#[trigger] edges[i]).is_automatic() || is_cleared(
                edges,
                removals,
                at_root,
                edges[i],
            ),
        forall|i: int| 0 <= i < edges.len() ==> !(#[trigger] edges[i]).is_owner(),
    ensures
        !drop_impact::is_blocking(
            edges,
            removals,
            root,
            at_root,
            edges.len() as int,
            name,
        ),
{
    assert forall|i: int| 0 <= i < edges.len() implies !drop_impact::blocks_as_dependent(
        edges,
        removals,
        root,
        at_root,
        #[trigger] edges[i],
    ) by {
        if !edges[i].is_automatic() {
            a_cleared_dependent_does_not_block(edges, removals, root, at_root, edges[i]);
        }
    }
}

/// What depends on the dropped object itself, does not go with it and is taken
/// away by nothing in the plan blocks the drop, under its own name.
pub proof fn a_dependent_that_stays_blocks(
    edges: Seq<Edge>,
    removals: Seq<(usize, Address)>,
    root: Address,
    at_root: int,
    i: int,
)
    requires
        0 <= i < edges.len(),
        edges[i].kind@ == "n"@,
        root.covers(edges[i].referenced),
        is_never_removed(edges, removals, edges[i].dependent),
    ensures
        drop_impact::is_blocking(
            edges,
            removals,
            root,
            at_root,
            edges.len() as int,
            edges[i].dependent_name@,
        ),
{
    let e = edges[i];
    what_a_dependency_does(e);
    never_gone(edges, removals, removals.len() as int, e.dependent);
    drop_impact::a_closure_is_the_least_closed_set(edges, root, false);
    let c = drop_impact::closure_of(edges, root, false);
    assert(c.contains(root) && root.covers(e.referenced));
    assert(drop_impact::reaches(c, e.referenced));
    assert(drop_impact::blocks_as_dependent(edges, removals, root, at_root, edges[i]));
}

/// A dependent of a dependent blocks too: what is reached through another
/// object stands in the way as much as what is reached directly.
pub proof fn a_dependent_of_a_dependent_is_reached(
    edges: Seq<Edge>,
    root: Address,
    i: int,
    j: int,
)
    requires
        0 <= i < edges.len(),
        0 <= j < edges.len(),
        root.covers(edges[i].referenced),
        edges[i].dependent.covers(edges[j].referenced),
    ensures
        drop_impact::closure_of(edges, root, false).contains(edges[i].dependent),
        drop_impact::closure_of(edges, root, false).contains(edges[j].dependent),
{
    drop_impact::a_closure_is_the_least_closed_set(edges, root, false);
    let c = drop_impact::closure_of(edges, root, false);
    assert(c.contains(root) && root.covers(edges[i].referenced));
    assert(drop_impact::brings_dependent(edges[i], c, false));
    assert(c.contains(edges[i].dependent) && edges[i].dependent.covers(edges[j].referenced));
    assert(drop_impact::brings_dependent(edges[j], c, false));
}

/// A report is about one drop of the plan. It holds blockers only where the
/// drop has an address, and they are those of the removals up to the drop and
/// of none behind it.
pub proof fn a_report_is_about_its_own_drop(
    report: DropReport,
    target: (usize, String),
    removals: Seq<(usize, Address)>,
    edges: Seq<Edge>,
    k: int,
)
    requires
        drop_impact::reports_drop(report, target, removals, edges),
        0 <= k < removals.len(),
        removals[k].0 == target.0,
        forall|i: int| 0 <= i < k ==> (#[trigger] removals[i]).0 < target.0,
        forall|i: int| k < i < removals.len() ==> (#[trigger] removals[i]).0 > target.0,
    ensures
        report.change_index == target.0,
        report.target@ == target.1@,
        order::sorted(text::texts(report.blocking@)),
        forall|name: Seq<char>| #[trigger]
            text::texts(report.blocking@).contains(name) <==> drop_impact::is_blocking(
                edges,
                removals.take(k + 1),
                removals[k].1,
                target.0 as int,
                edges.len() as int,
                name,
            ),
{
    removal_is_found(removals, target.0 as int, 0, k);
    up_to_the_drop(removals, target.0 as int, removals.len() as int, k);
}

proof fn removal_is_found(removals: Seq<(usize, Address)>, index: int, at: int, k: int)
    requires
        0 <= at <= k < removals.len(),
        removals[k].0 == index,
        forall|i: int| 0 <= i < k ==> (#[trigger] removals[i]).0 < index,
    ensures
        drop_impact::removal_at(removals, index, at) == Some(removals[k].1),
    decreases k - at,
{
    if at < k {
        assert(removals[at].0 < index);
        removal_is_found(removals, index, at + 1, k);
    }
}

proof fn up_to_the_drop(removals: Seq<(usize, Address)>, index: int, n: int, k: int)
    requires
        0 <= k < removals.len(),
        0 <= n <= removals.len(),
        removals[k].0 == index,
        forall|i: int| 0 <= i < k ==> (#[trigger] removals[i]).0 < index,
        forall|i: int| k < i < removals.len() ==> (#[trigger] removals[i]).0 > index,
    ensures
        drop_impact::removals_to(removals, index, n) == removals.take(
            if n <= k + 1 {
                n
            } else {
                k + 1
            },
        ),
    decreases n,
{
    if n > 0 {
        up_to_the_drop(removals, index, n - 1, k);
        let rest = drop_impact::removals_to(removals, index, n - 1);
        if n - 1 <= k {
            assert(removals.take(n - 1).push(removals[n - 1]) =~= removals.take(n));
        }
    } else {
        assert(removals.take(0) =~= Seq::<(usize, Address)>::empty());
    }
}

/// The drops of a plan are its dropped tables and columns, each at its place
/// and by its name, and nothing else.
pub proof fn the_drops_of_a_plan(changes: Seq<Change>, n: int, k: int)
    requires
        0 <= n <= changes.len(),
        0 <= k < n,
    ensures
        changes[k] matches Change::DropTable { name } ==> drop_impact::drops_of(
            changes,
            n,
        ).contains((k, "table "@ + name@.0 + seq!['.'] + name@.1)),
        changes[k] matches Change::DropColumn { column } ==> drop_impact::drops_of(
            changes,
            n,
        ).contains(
            (k, "column "@ + column@.0.0 + seq!['.'] + column@.0.1 + seq!['.'] + column@.1),
        ),
        forall|t: Seq<char>| #[trigger]
            drop_impact::drops_of(changes, n).contains((k, t)) ==> changes[k] is DropTable
                || changes[k] is DropColumn,
    decreases n,
{
    let rest = drop_impact::drops_of(changes, n - 1);
    let all = drop_impact::drops_of(changes, n);
    places_are_in_range(changes, n - 1);
    if k < n - 1 {
        the_drops_of_a_plan(changes, n - 1, k);
        assert forall|x: (int, Seq<char>)| rest.contains(x) implies all.contains(x) by {
            let i = choose|i: int| 0 <= i < rest.len() && rest[i] == x;
            assert(all[i] == x);
        }
        assert forall|t: Seq<char>| #[trigger]
            all.contains((k, t)) implies changes[k] is DropTable || changes[k] is DropColumn by {
            let i = choose|i: int| 0 <= i < all.len() && all[i] == (k, t);
            if i < rest.len() {
                assert(rest[i] == (k, t));
                assert(rest.contains((k, t)));
            }
        }
    } else {
        match changes[k] {
            Change::DropTable { name } => {
                templates::a_dropped_table_in_words_reads(model::dotted(name@));
                assert("table "@ + model::dotted(name@) =~= "table "@ + name@.0 + seq!['.']
                    + name@.1);
                assert(all[rest.len() as int] == (k, "table "@ + name@.0 + seq!['.'] + name@.1));
            },
            Change::DropColumn { column } => {
                let t = "column "@ + column@.0.0 + seq!['.'] + column@.0.1 + seq!['.'] + column@.1;
                templates::a_dropped_column_of_a_plan_reads(model::column_text(column@));
                assert("column "@ + model::column_text(column@) =~= t);
                assert(all[rest.len() as int] == (k, t));
            },
            _ => {
                assert forall|t: Seq<char>| !#[trigger] all.contains((k, t)) by {
                    if all.contains((k, t)) {
                        let i = choose|i: int| 0 <= i < all.len() && all[i] == (k, t);
                        assert(rest[i].0 < n - 1);
                    }
                }
            },
        }
    }
}

proof fn places_are_in_range(changes: Seq<Change>, n: int)
    ensures
        forall|i: int|
            0 <= i < drop_impact::drops_of(changes, n).len() ==> 0 <= (
            #[trigger] drop_impact::drops_of(changes, n)[i]).0 < n,
    decreases n,
{
    if n > 0 {
        places_are_in_range(changes, n - 1);
        let rest = drop_impact::drops_of(changes, n - 1);
        assert forall|i: int| 0 <= i < drop_impact::drops_of(changes, n).len() implies 0 <= (
        #[trigger] drop_impact::drops_of(changes, n)[i]).0 < n by {
            if i < rest.len() {
                assert(drop_impact::drops_of(changes, n)[i] == rest[i]);
            }
        }
    }
}

} // verus!
