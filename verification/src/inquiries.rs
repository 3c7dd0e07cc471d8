//! What a plan asks of the catalog, and what it makes of the answers.
use vstd::prelude::*;

use crate::drop_impact;
use crate::drop_impact::{Address, Edge, EdgeRow};
use crate::error;
use crate::error::DialectError;
use crate::estimate;
use crate::estimate::{
    Estimate, EstimateView, Lock, Reads, ReadsView, Rewrite, RewriteView, Shape,
};
use crate::impact;
use crate::impact::{ImpactReport, RenameTarget, TargetView};
use crate::model;
use crate::model::{Change, ChangeSet, ColumnRef, TableName};
use crate::modules;
use crate::modules::{Dependent, HoldsView, Schema};
use crate::templates;
use crate::text;

verus! {

// ---------------------------------------------------------------------------
// Locks and rows

/// A lock has the engine's own name, and only the one that shuts everyone out
/// keeps readers out.
pub proof fn a_lock_says_whom_it_keeps_out(
    lock: Lock,
    name: &'static str,
    blocks: &'static str,
)
    requires
        call_ensures(Lock::engine_name, (lock,), name),
        call_ensures(Lock::blocks, (lock,), blocks),
    ensures
        lock is AccessExclusive ==> name@ == "AccessExclusiveLock"@ && blocks@
            == "reads and writes"@,
        lock is Share ==> name@ == "ShareLock"@ && blocks@ == "writes"@,
        lock is ShareRowExclusive ==> name@ == "ShareRowExclusiveLock"@ && blocks@ == "writes"@,
        lock is ShareUpdateExclusive ==> name@ == "ShareUpdateExclusiveLock"@ && blocks@
            == "neither reads nor writes, only other schema changes"@,
{
}

/// An estimate answers for what it is: what it is about, which table, what is
/// rewritten and read, and under which locks.
pub proof fn an_estimate_answers_for_itself(
    e: Estimate,
    about: &str,
    table: &TableName,
    rewrite: &Rewrite,
    reads: &Reads,
    lock: Lock,
    also: &Vec<TableName>,
)
    requires
        call_ensures(Estimate::about, (&e,), about),
        call_ensures(Estimate::table, (&e,), table),
        call_ensures(Estimate::rewrite, (&e,), rewrite),
        call_ensures(Estimate::reads, (&e,), reads),
        call_ensures(Estimate::lock, (&e,), lock),
        call_ensures(Estimate::also_locks, (&e,), also),
    ensures
        about@ == e@.about,
        table@ == e@.table,
        rewrite is Yes <==> e@.rewrite is Yes,
        rewrite is No <==> e@.rewrite is No,
        rewrite matches Rewrite::Unknown(why) ==> e@.rewrite == RewriteView::Unknown(why@),
        reads is Nothing <==> e@.reads is Nothing,
        reads is EveryRow <==> e@.reads is EveryRow,
        reads matches Reads::Unknown(why) ==> e@.reads == ReadsView::Unknown(why@),
        lock == e@.lock,
        also@.len() == e@.also_locks.len(),
        forall|i: int| 0 <= i < also@.len() ==> (#[trigger] also@[i])@ == e@.also_locks[i],
{
    assert(estimate::all_names(also@).len() == also@.len());
    assert forall|i: int| 0 <= i < also@.len() implies (#[trigger] also@[i])@ == e@.also_locks[i] by {
        assert(estimate::all_names(also@)[i] == also@[i]@);
    }
}

/// Whether a table is neither partitioned nor inherited from.
pub open spec fn stands_alone(shape: Shape) -> bool {
    &&& shape.inherited != Some(true)
    &&& !(shape.relkind matches Some(kind) && kind@ == "p"@)
}

/// What an index on the column does to a rewrite, and what a check on it does
/// to a scan, nobody can say from here; everything else an estimate says of a
/// table that stands alone is left as it is.
pub proof fn an_index_or_a_check_makes_a_cost_unknown(e: EstimateView, asked: bool, shape: Shape)
    requires
        stands_alone(shape),
    ensures
        ({
            let m = estimate::measured(e, asked, Some(shape));
            let indexed = asked && e.rewrite is Yes && shape.column_is_indexed == Some(true);
            let checked = asked && e.rewrite is No && e.reads is EveryRow
                && shape.validated_column_check is Some;
            &&& m.rewrite == if indexed {
                RewriteView::Unknown(estimate::INDEXED@)
            } else {
                e.rewrite
            }
            &&& m.reads == if indexed {
                ReadsView::Unknown(estimate::INDEXED@)
            } else if checked {
                ReadsView::Unknown(
                    text::filled(
                        estimate::CHECKED@,
                        seq![shape.validated_column_check->0@],
                    ),
                )
            } else {
                e.reads
            }
            &&& m.lock == e.lock
            &&& m.also_locks == e.also_locks
            &&& m.about == e.about
            &&& m.table == e.table
            &&& m.stored == e.stored
            &&& m.created == e.created
        }),
{
}

/// The parts of a partitioned table, and of one that is inherited from, are
/// tables of their own: what a change costs them is not known, and why is said.
pub proof fn a_table_in_parts_has_an_unknown_cost(e: EstimateView, asked: bool, shape: Shape)
    requires
        !stands_alone(shape),
    ensures
        ({
            let m = estimate::measured(e, asked, Some(shape));
            let why = if shape.relkind matches Some(kind) && kind@ == "p"@ {
                estimate::PARTITIONED@
            } else {
                estimate::INHERITED@
            };
            m.rewrite == RewriteView::Unknown(why) && m.reads == ReadsView::Unknown(why) && m.lock
                == e.lock && m.about == e.about
        }),
{
}

// ---------------------------------------------------------------------------
// Owners

/// What owns something that a drop reaches is reached with it.
pub proof fn an_owner_of_what_is_reached_is_reached(
    edges: Seq<Edge>,
    root: Address,
    i: int,
    j: int,
)
    requires
        0 <= i < edges.len(),
        0 <= j < edges.len(),
        root.covers(edges[i].referenced),
        edges[j].kind@ == "i"@ || edges[j].kind@ == "e"@,
        edges[i].dependent.covers(edges[j].dependent),
    ensures
        drop_impact::closure_of(edges, root, false).contains(edges[j].referenced),
{
    drop_impact::a_closure_is_the_least_closed_set(edges, root, false);
    let c = drop_impact::closure_of(edges, root, false);
    assert(c.contains(root) && root.covers(edges[i].referenced));
    assert(drop_impact::brings_dependent(edges[i], c, false));
    assert(c.contains(edges[i].dependent) && edges[i].dependent.covers(edges[j].dependent));
    assert(drop_impact::brings_owner(edges[j], c, root, false));
}

/// A drop reaches nothing where nothing refers to it and nothing owns it.
pub proof fn a_drop_that_nothing_refers_to_reaches_only_itself(
    edges: Seq<Edge>,
    root: Address,
    automatic: bool,
    other: Address,
)
    requires
        forall|i: int|
            0 <= i < edges.len() ==> !root.covers((#[trigger] edges[i]).referenced) && !(
            edges[i].is_owner() && root.covers(edges[i].dependent)),
        other != root,
    ensures
        !drop_impact::closure_of(edges, root, automatic).contains(other),
{
    let s = Set::<Address>::empty().insert(root);
    assert(s.contains(root));
    assert(!s.contains(other));
    assert forall|i: int| 0 <= i < edges.len() implies {
        let e = #[trigger] edges[i];
        (drop_impact::brings_dependent(e, s, automatic) ==> s.contains(e.dependent)) && (
        drop_impact::brings_owner(e, s, root, automatic) ==> s.contains(e.referenced))
    } by {
        let e = edges[i];
        if drop_impact::reaches(s, e.referenced) {
            let x = choose|x: Address| s.contains(x) && #[trigger] x.covers(e.referenced);
            assert(x == root);
        }
        if drop_impact::reaches(s, e.dependent) {
            let x = choose|x: Address| s.contains(x) && #[trigger] x.covers(e.dependent);
            assert(x == root);
        }
    }
    assert(drop_impact::is_closed(edges, s, root, automatic));
}

/// What owns something that a drop takes away stands in its way where the plan
/// does not take the owner away too, and is named with what it owns.
pub proof fn an_owner_that_stays_blocks(
    edges: Seq<Edge>,
    removals: Seq<(usize, Address)>,
    root: Address,
    at_root: int,
    i: int,
)
    requires
        0 <= i < edges.len(),
        edges[i].kind@ == "i"@ || edges[i].kind@ == "e"@,
        root.covers(edges[i].dependent),
        drop_impact::position(edges, removals, edges[i].dependent) is Some,
        drop_impact::position(edges, removals, edges[i].referenced) is None,
    ensures
        drop_impact::is_blocking(
            edges,
            removals,
            root,
            at_root,
            edges.len() as int,
            edges[i].referenced_name@ + " (internal owner of "@ + edges[i].dependent_name@ + ")"@,
        ),
{
    let e = edges[i];
    drop_impact::a_closure_is_the_least_closed_set(edges, root, false);
    let c = drop_impact::closure_of(edges, root, false);
    assert(c.contains(root) && root.covers(e.dependent));
    assert(drop_impact::reaches(c, e.dependent));
    assert(drop_impact::blocks_as_owner(edges, removals, root, edges[i]));
    templates::an_owner_in_words_reads(e.referenced_name@, e.dependent_name@);
}

// ---------------------------------------------------------------------------
// What is asked about a drop

/// The first column that a row leaves out is the one that is named.
pub proof fn an_omitted_column_is_named(row: EdgeRow, r: Result<Edge, String>)
    requires
        call_ensures(drop_impact::edge, (&row,), r),
    ensures
        row.dc is None ==> (r matches Err(e) && e@ == "drop_blockers: catalog omitted "@ + "dc"@),
        row.dc is Some && row.dob is None ==> (r matches Err(e) && e@
            == "drop_blockers: catalog omitted "@ + "dob"@),
        row.dc is Some && row.dob is Some && row.dp is None ==> (r matches Err(e) && e@
            == "drop_blockers: catalog omitted "@ + "dp"@),
        row.dc is Some && row.dob is Some && row.dp is Some && row.rc is None ==> (r matches Err(e)
            && e@ == "drop_blockers: catalog omitted "@ + "rc"@),
{
    templates::an_omitted_column_reads("dc"@);
    templates::an_omitted_column_reads("dob"@);
    templates::an_omitted_column_reads("dp"@);
    templates::an_omitted_column_reads("rc"@);
}

/// A number that the catalog leaves out is an error that names it, and one that
/// is there is that number.
pub proof fn a_required_number_is_there(value: Option<i64>, name: &str, r: Result<i64, String>)
    requires
        call_ensures(drop_impact::required, (value, name), r),
    ensures
        value matches Some(n) ==> r == Ok::<i64, String>(n),
        value is None ==> (r matches Err(e) && e@ == "drop_blockers: catalog omitted "@ + name@),
{
    templates::an_omitted_column_reads(name@);
}

/// Only the token that was set shows the transaction it was set in.
pub proof fn only_the_token_shows_a_transaction(
    probe: Option<&str>,
    token: &str,
    r: Result<(), String>,
)
    requires
        call_ensures(drop_impact::holds_token, (probe, token), r),
    ensures
        r is Ok <==> (probe matches Some(p) && p@ == token@),
{
}

/// What is not in the catalog is said to be absent by its name.
pub proof fn what_is_absent_is_named(
    table: TableName,
    column: ColumnRef,
    no_table: String,
    no_column: String,
)
    requires
        call_ensures(drop_impact::absent_table, (&table,), no_table),
        call_ensures(drop_impact::absent_column, (&column,), no_column),
    ensures
        no_table@ == "drop_blockers: table "@ + (table.schema@ + "."@ + table.name@)
            + " is absent from the catalog"@,
        no_column@ == "drop_blockers: column "@ + (column.table.schema@ + "."@ + column.table.name@
            + "."@ + column.name@) + " is absent from the catalog"@,
{
    reveal_strlit(".");
    assert(seq!['.'] =~= "."@);
    templates::an_absent_table_reads(model::dotted(table@));
    templates::an_absent_column_reads(model::column_text(column@));
}

/// The graph is asked for where the plan removes anything, from every address
/// that it removes, each once and in order.
pub proof fn the_graph_is_asked_for_from_every_removal(
    removals: &[(usize, Address)],
    r: Option<String>,
)
    requires
        call_ensures(drop_impact::graph_query, (removals,), r),
    ensures
        r is None <==> removals@.len() == 0,
        r matches Some(query) ==> exists|seeds: Seq<Address>|
            query@ == #[trigger] drop_impact::graph_text(seeds) && (forall|a: Address|
                #[trigger] seeds.contains(a) <==> exists|i: int|
                    0 <= i < removals@.len() && (#[trigger] removals@[i]).1 == a) && forall|
                i: int,
                j: int,
            |
                0 <= i < j < seeds.len() ==> comes_before(#[trigger] seeds[i], #[trigger] seeds[j]),
{
    if let Some(query) = r {
        let seeds = choose|v: Seq<Address>|
            drop_impact::are_roots(v, removals@) && query@ == #[trigger] drop_impact::graph_text(v);
        assert forall|i: int, j: int| 0 <= i < j < seeds.len() implies comes_before(
            #[trigger] seeds[i],
            #[trigger] seeds[j],
        ) by {
            assert(drop_impact::address_before(seeds[i], seeds[j]));
        }
    }
}

/// Whether an address stands before another: by its catalog, its row and its
/// part.
pub open spec fn comes_before(a: Address, b: Address) -> bool {
    a.class < b.class || (a.class == b.class && (a.object < b.object || (a.object == b.object
        && a.part < b.part)))
}

/// The graph is asked for by the numbers of each address, in a row of its own.
pub proof fn a_seed_is_its_three_numbers(seeds: Seq<Address>, i: int)
    requires
        0 <= i < seeds.len(),
    ensures
        drop_impact::graph_text(seeds) == text::filled(
            drop_impact::GRAPH@,
            seq![
                text::joined(
                    Seq::new(seeds.len(), |k: int| drop_impact::seed_text(seeds[k])),
                    ","@,
                ),
            ],
        ),
        drop_impact::seed_text(seeds[i]) == "("@ + text::decimal_int(seeds[i].class as int)
            + "::oid,"@ + text::decimal_int(seeds[i].object as int) + "::oid,"@
            + text::decimal_int(seeds[i].part as int) + "::int4)"@,
{
    templates::a_seed_reads(
        text::decimal_int(seeds[i].class as int),
        text::decimal_int(seeds[i].object as int),
        text::decimal_int(seeds[i].part as int),
    );
}

// ---------------------------------------------------------------------------
// What is asked about a rename

proof fn targets_are_the_renames(changes: Seq<Change>, n: int, target: TargetView)
    requires
        0 <= n <= changes.len(),
    ensures
        impact::targets_of(changes, n).contains(target) <==> exists|i: int|
            0 <= i < n && #[trigger] is_renamed(changes, i, target),
    decreases n,
{
    if n > 0 {
        targets_are_the_renames(changes, n - 1, target);
        let rest = impact::targets_of(changes, n - 1);
        let all = impact::targets_of(changes, n);
        match impact::target_of(changes, n - 1) {
            Some(x) => {
                assert(all =~= rest + seq![x]);
                vstd::seq_lib::lemma_seq_concat_contains_all_elements(rest, seq![x], target);
                assert(seq![x].contains(target) <==> x == target) by {
                    assert(seq![x][0] == x);
                }
            },
            None => {},
        }
        if exists|i: int|
            0 <= i < n && #[trigger] is_renamed(changes, i, target) {
            let i = choose|i: int|
                0 <= i < n && #[trigger] is_renamed(changes, i, target);
            assert(i < n - 1 || i == n - 1);
        }
        assert(is_renamed(changes, n - 1, target) <==> impact::target_of(changes, n - 1) == Some(
            target,
        ));
    }
}

/// Whether a change of a plan renames this, under the name that the catalog
/// has for it.
pub open spec fn is_renamed(changes: Seq<Change>, at: int, target: TargetView) -> bool {
    match changes[at] {
        Change::RenameTable { from, to: _ } => target == TargetView::Table(
            model::origin(changes, at, from@).0,
        ),
        Change::RenameColumn { table, from, to: _ } => target == TargetView::Column(
            model::origin(changes, changes.len() as int, table@).0,
            model::column_origin(changes, at, table@, from@),
        ),
        _ => false,
    }
}

/// The targets of a plan are exactly what it renames, tables and columns, each
/// under the name that the catalog has for it.
pub proof fn every_rename_is_a_target(
    changes: ChangeSet,
    targets: Vec<RenameTarget>,
    target: TargetView,
)
    requires
        call_ensures(impact::rename_targets, (&changes,), targets),
    ensures
        impact::target_views(targets@).contains(target) <==> exists|i: int|
            0 <= i < changes.changes@.len() && #[trigger] is_renamed(changes.changes@, i, target),
{
    targets_are_the_renames(changes.changes@, changes.changes@.len() as int, target);
}

/// How a target is shown, and which table it belongs to.
pub proof fn a_target_is_shown_under_its_table(
    target: RenameTarget,
    shown: String,
    table: TableName,
)
    requires
        call_ensures(RenameTarget::show, (&target,), shown),
        call_ensures(RenameTarget::table, (&target,), table),
    ensures
        target@ matches TargetView::Table(t) ==> shown@ == "table "@ + (t.0 + "."@ + t.1) && table@
            == t,
        target@ matches TargetView::Column(t, c) ==> shown@ == "column "@ + (t.0 + "."@ + t.1
            + "."@ + c) && table@ == t,
{
    reveal_strlit(".");
    assert(seq!['.'] =~= "."@);
    match target@ {
        TargetView::Table(t) => templates::a_table_target_in_words_reads(model::dotted(t)),
        TargetView::Column(t, c) => templates::a_column_target_in_words_reads(
            model::column_text((t, c)),
        ),
        _ => {},
    }
}

/// A rename of what the catalog does not have is refused by name, and of what
/// it has goes by its numbers: a table has the column number zero.
pub proof fn a_rename_goes_by_the_catalogs_numbers(
    target: RenameTarget,
    oid: Option<i64>,
    found: Result<i64, DialectError>,
    row: Option<Option<i32>>,
    number: Result<i32, DialectError>,
)
    requires
        call_ensures(impact::resolved, (&target, oid), found),
        call_ensures(impact::column_number, (&target, row), number),
    ensures
        oid matches Some(n) ==> found == Ok::<i64, DialectError>(n),
        oid is None ==> (found matches Err(e) && e@ == error::refused(
            model::dotted(impact::target_table(target@))
                + " is not a table this database has, so what a rename of "@ + impact::target_text(
                target@,
            ) + " would affect cannot be read"@,
        )),
        !(target@ is Column) ==> number == Ok::<i32, DialectError>(0),
        target@ is Column ==> (row matches Some(Some(n)) ==> number == Ok::<i32, DialectError>(n)),
        target@ is Column ==> (row matches Some(None) ==> number == Ok::<i32, DialectError>(0)),
        target@ is Column ==> (row is None ==> (number matches Err(e) && e@ == error::refused(
            impact::target_text(target@)
                + " is not a column this database has, so what a rename of it would affect cannot be read"@,
        ))),
{
    templates::a_table_nobody_has_reads(
        model::dotted(impact::target_table(target@)),
        impact::target_text(target@),
    );
    templates::a_column_nobody_has_reads(impact::target_text(target@));
}

/// A report is empty exactly where it lists nothing, and always says what no
/// query can see; what it lists is explained under it.
pub proof fn a_report_is_explained(report: ImpactReport, empty: bool, said: Vec<String>)
    requires
        call_ensures(ImpactReport::is_empty, (&report,), empty),
        call_ensures(impact::notes, (&report,), said),
    ensures
        empty <==> report.blocking@.len() == 0 && report.advisory@.len() == 0
            && report.carried@.len() == 0,
        text::texts(said@).contains(impact::OUTSIDE_NOTE@),
        report.carried@.len() > 0 ==> text::texts(said@).contains(impact::CARRIED_NOTE@),
        report.advisory@.len() > 0 ==> text::texts(said@).contains(impact::ADVISORY_NOTE@),
        said@.len() == 1 + (if report.carried@.len() > 0 {
            1int
        } else {
            0
        }) + (if report.advisory@.len() > 0 {
            1int
        } else {
            0
        }),
{
    let all = text::texts(said@);
    assert(all.len() == said@.len());
    assert(all.last() == impact::OUTSIDE_NOTE@);
    if report.carried@.len() > 0 {
        assert(all[0] == impact::CARRIED_NOTE@);
    }
    if report.advisory@.len() > 0 {
        assert(all[all.len() - 2] == impact::ADVISORY_NOTE@);
    }
}

// ---------------------------------------------------------------------------
// What a refused rebuild lists

proof fn blockers_are_listed(
    dependents: Seq<(Seq<char>, HoldsView)>,
    declared: Schema,
    n: int,
    i: int,
)
    requires
        0 <= i < n <= dependents.len(),
        !modules::is_managed(dependents[i].1, declared),
    ensures
        modules::blocked_lines(dependents, declared, n).contains(
            "- "@ + dependents[i].0 + " — "@ + match dependents[i].1 {
                HoldsView::Unrepresentable(why) => why,
                _ => "this project does not declare it"@,
            },
        ),
    decreases n,
{
    let rest = modules::blocked_lines(dependents, declared, n - 1);
    let all = modules::blocked_lines(dependents, declared, n);
    let line = "- "@ + dependents[i].0 + " — "@ + match dependents[i].1 {
        HoldsView::Unrepresentable(why) => why,
        _ => "this project does not declare it"@,
    };
    if i == n - 1 {
        templates::a_blocker_reads(dependents[i].0, modules::blocked_why(dependents[i].1));
        assert(all.last() == line);
    } else {
        blockers_are_listed(dependents, declared, n - 1, i);
        let k = rest.index_of(line);
        assert(all[k] == line);
    }
}

/// A refused rebuild lists every dependent that stands in its way, in the
/// engine's words, with why it cannot be put back.
pub proof fn a_refused_rebuild_lists_what_stands_in_its_way(
    dependents: Seq<Dependent>,
    declared: Schema,
    i: int,
)
    requires
        0 <= i < dependents.len(),
        !modules::is_managed(dependents[i].holds@, declared),
    ensures
        modules::blocked_lines(
            modules::all_dependents(dependents),
            declared,
            dependents.len() as int,
        ).contains(
            "- "@ + dependents[i].described@ + " — "@ + match dependents[i].holds@ {
                HoldsView::Unrepresentable(why) => why,
                _ => "this project does not declare it"@,
            },
        ),
{
    let all = modules::all_dependents(dependents);
    assert(all[i] == dependents[i]@);
    blockers_are_listed(all, declared, dependents.len() as int, i);
}

} // verus!
