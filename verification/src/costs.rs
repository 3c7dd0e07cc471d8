//! What each kind of change costs, stated of the change itself.
use vstd::prelude::*;

use crate::estimate;
use crate::estimate::{Estimate, EstimateView, Lock, RewriteView, Rows, Shape};
use crate::impact;
use crate::model;
use crate::model::{Change, ColumnType, Reading, Strategy, TypeArg};
use crate::templates;

verus! {

/// Whether a change adds a constraint or an index to a table that is there.
pub open spec fn adds_a_constraint(change: Change) -> bool {
    match change {
        Change::AddCheck { .. } => true,
        Change::AddUnique { .. } => true,
        Change::AddForeignKey { .. } => true,
        Change::AddIndex { .. } => true,
        Change::SetPrimaryKey { table: _, from: _, to } => to is Some,
        _ => false,
    }
}

/// The table a change of a table's stored rows is about, as the plan names it.
pub open spec fn table_of(change: Change) -> Option<model::Qualified> {
    match change {
        Change::AlterColumnType { column, .. } => Some(column@.0),
        Change::AlterColumnNullability { column, .. } => Some(column@.0),
        Change::AlterColumnDefault { column, .. } => Some(column@.0),
        Change::DropColumn { column } => Some(column@.0),
        Change::AddColumn { table, .. } => Some(table@),
        Change::AddCheck { table, .. } => Some(table@),
        Change::AddUnique { table, .. } => Some(table@),
        Change::AddForeignKey { table, .. } => Some(table@),
        Change::AddIndex { table, .. } => Some(table@),
        Change::SetPrimaryKey { table, from: _, to } => if to is Some {
            Some(table@)
        } else {
            None
        },
        Change::RenameColumn { table, .. } => Some(table@),
        Change::RenameTable { from, to: _ } => Some(from@),
        _ => None,
    }
}

/// A change of a table's stored rows, and no other, has an estimate, and it is
/// about that table.
pub proof fn an_estimate_is_about_the_changes_own_table(change: Change, strategy: Strategy)
    ensures
        match table_of(change) {
            Some(table) => estimate::estimated(change, strategy) matches Some(e) && e.table == table
                && e.stored == table && !e.created && e.rows is None && e.rows_unknown is None,
            None => estimate::estimated(change, strategy) is None,
        },
{
}

/// Adding a constraint or an index to a table reads every row of it and
/// rewrites none: it is never free of the table's size.
pub proof fn adding_a_constraint_is_never_cheap(change: Change, strategy: Strategy)
    requires
        adds_a_constraint(change),
    ensures
        estimate::estimated(change, strategy) matches Some(e) && e.reads is EveryRow && e.rewrite
            is No,
{
}

/// A constraint is added under the lock that keeps readers out. A foreign key
/// keeps only writers out, of the table it points at too where that is another
/// one. An index is built beside the readers, and beside the writers where that
/// was asked for and no filter is in the way.
pub proof fn the_lock_of_a_new_constraint(change: Change, strategy: Strategy)
    requires
        adds_a_constraint(change),
    ensures
        estimate::estimated(change, strategy) matches Some(e) && match change {
            Change::AddForeignKey { table, name: _, constraint } => e.lock
                == Lock::ShareRowExclusive && (constraint.references_table@ == table@
                ==> e.also_locks.len() == 0) && (constraint.references_table@ != table@
                ==> e.also_locks == seq![constraint.references_table@]),
            Change::AddIndex { table: _, name: _, index } => e.also_locks.len() == 0 && e.lock
                == if strategy.online && index.filter is None {
                Lock::ShareUpdateExclusive
            } else {
                Lock::Share
            },
            _ => e.lock == Lock::AccessExclusive && e.also_locks.len() == 0,
        },
{
}

/// Every change but a new foreign key and a new index keeps readers out.
pub proof fn most_changes_keep_readers_out(change: Change, strategy: Strategy)
    requires
        !(change is AddForeignKey),
        !(change is AddIndex),
    ensures
        estimate::estimated(change, strategy) matches Some(e) ==> e.lock == Lock::AccessExclusive
            && e.also_locks.len() == 0,
{
}

/// What touches the catalog alone is free of the table's size: a dropped
/// column, a changed default, a renamed column or table, a column that may be
/// null from now on, and a new column without a default or with one that is a
/// constant.
pub proof fn a_catalog_change_is_free(change: Change, strategy: Strategy)
    requires
        match change {
            Change::DropColumn { .. } => true,
            Change::AlterColumnDefault { .. } => true,
            Change::RenameColumn { .. } => true,
            Change::RenameTable { .. } => true,
            Change::AlterColumnNullability { column: _, to_nullable } => to_nullable,
            Change::AddColumn { table: _, name: _, column } => match column.default {
                Some(default) => default.constant,
                None => true,
            },
            _ => false,
        },
    ensures
        estimate::estimated(change, strategy) matches Some(e) && e.rewrite is No && e.reads
            is Nothing,
{
}

/// Tightening a column rewrites nothing and reads every row.
pub proof fn tightening_a_column_reads_every_row(column: model::ColumnRef, strategy: Strategy)
    ensures
        estimate::estimated(
            Change::AlterColumnNullability { column, to_nullable: false },
            strategy,
        ) matches Some(e) && e.rewrite is No && e.reads is EveryRow,
{
}

/// A new column whose default this tool does not parse costs nobody knows
/// what.
pub proof fn an_unparsed_default_costs_nobody_knows_what(
    table: model::TableName,
    name: String,
    column: model::Column,
    strategy: Strategy,
)
    requires
        column.default is Some,
        !column.default->0.constant,
    ensures
        estimate::estimated(Change::AddColumn { table, name, column }, strategy) matches Some(e)
            && e.rewrite is Unknown && e.reads is Unknown,
{
}

// ---------------------------------------------------------------------------
// Types

/// Whether a type is this word with no arguments.
pub open spec fn is_bare(ty: ColumnType, base: Seq<char>) -> bool {
    ty.base@ == base && ty.args@.len() == 0
}

/// Whether a type is this word with one number.
pub open spec fn is_sized(ty: ColumnType, base: Seq<char>, n: i64) -> bool {
    ty.base@ == base && ty.args@ == seq![TypeArg::Int(n)]
}

/// Whether a type is this word with a precision and a scale.
pub open spec fn is_scaled(ty: ColumnType, base: Seq<char>, precision: i64, scale: i64) -> bool {
    ty.base@ == base && ty.args@ == seq![TypeArg::Int(precision), TypeArg::Int(scale)]
}

/// What a change between two types that were read rewrites, where no zone
/// decides it.
pub open spec fn rewrites(from: ColumnType, to: ColumnType) -> RewriteView {
    estimate::rewrite_of(Reading::As(from), Reading::As(to), false)
}

/// The rewrite of a type change is its read, and both are in its estimate.
pub proof fn a_type_change_reads_what_it_rewrites(change: Change, strategy: Strategy)
    requires
        change is AlterColumnType,
    ensures
        estimate::estimated(change, strategy) matches Some(e) && (e.rewrite is Yes <==> e.reads
            is EveryRow) && (e.rewrite is No <==> e.reads is Nothing) && e.rewrite
            == estimate::rewrite_of(
            change->AlterColumnType_from.normal,
            change->AlterColumnType_to.normal,
            change->AlterColumnType_zone_decided,
        ),
{
}

/// A varying string keeps its bytes exactly where its bound does not tighten.
pub proof fn a_varying_string_is_free_to_widen(from: ColumnType, to: ColumnType, n: i64, m: i64)
    requires
        is_sized(from, "character varying"@, n),
        is_sized(to, "character varying"@, m),
    ensures
        n <= m ==> rewrites(from, to) is No,
        m < n ==> rewrites(from, to) is Yes,
{
    reveal_strlit("character varying");
    reveal_strlit("text");
    reveal_strlit("numeric");
    assert("character varying"@.len() == 17 && "text"@.len() == 4 && "numeric"@.len() == 7);
    assert(from@.args[0] == model::TypeArgView::Int(n as int));
    assert(to@.args[0] == model::TypeArgView::Int(m as int));
}

/// Losing the bound is free, and gaining one is not.
pub proof fn a_varying_string_may_lose_its_bound(from: ColumnType, to: ColumnType, n: i64)
    requires
        is_sized(from, "character varying"@, n),
        is_bare(to, "character varying"@),
    ensures
        rewrites(from, to) is No,
        rewrites(to, from) is Yes,
{
    reveal_strlit("character varying");
    reveal_strlit("text");
    reveal_strlit("numeric");
    assert("character varying"@.len() == 17 && "text"@.len() == 4 && "numeric"@.len() == 7);
    assert(from@.args.len() == 1 && to@.args.len() == 0);
}

/// A varying string becomes text for free, whatever its bound, and text
/// becomes one for free exactly where that has no bound.
pub proof fn text_is_a_varying_string_without_a_bound(v: ColumnType, t: ColumnType)
    requires
        v.base@ == "character varying"@,
        t.base@ == "text"@,
        v.args@.len() > 0 ==> v.args@[0] is Int,
    ensures
        rewrites(v, t) is No,
        v.args@.len() == 0 ==> rewrites(t, v) is No,
        v.args@.len() > 0 ==> rewrites(t, v) is Yes,
{
    reveal_strlit("character varying");
    reveal_strlit("text");
    reveal_strlit("numeric");
    assert("character varying"@.len() == 17 && "text"@.len() == 4 && "numeric"@.len() == 7);
}

/// A number keeps its stored form exactly where its scale stays and its
/// precision does not shrink.
pub proof fn a_number_is_free_to_widen(
    from: ColumnType,
    to: ColumnType,
    p: i64,
    s: i64,
    q: i64,
    t: i64,
)
    requires
        is_scaled(from, "numeric"@, p, s),
        is_scaled(to, "numeric"@, q, t),
    ensures
        s == t && p <= q ==> rewrites(from, to) is No,
        s != t || q < p ==> rewrites(from, to) is Yes,
{
    reveal_strlit("character varying");
    reveal_strlit("text");
    reveal_strlit("numeric");
    assert("character varying"@.len() == 17 && "text"@.len() == 4 && "numeric"@.len() == 7);
    assert(from@.args[0] == model::TypeArgView::Int(p as int));
    assert(to@.args[0] == model::TypeArgView::Int(q as int));
    assert(from@.args[1] == model::TypeArgView::Int(s as int));
    assert(to@.args[1] == model::TypeArgView::Int(t as int));
}

/// A number may lose its precision for free, and gaining one rewrites.
pub proof fn a_number_may_lose_its_precision(from: ColumnType, to: ColumnType, p: i64, s: i64)
    requires
        is_scaled(from, "numeric"@, p, s),
        is_bare(to, "numeric"@),
    ensures
        rewrites(from, to) is No,
        rewrites(to, from) is Yes,
{
    reveal_strlit("character varying");
    reveal_strlit("text");
    reveal_strlit("numeric");
    assert("character varying"@.len() == 17 && "text"@.len() == 4 && "numeric"@.len() == 7);
    assert(from@.args.len() == 2 && to@.args.len() == 0);
}

/// Every other change of type rewrites the table.
pub proof fn every_other_type_change_rewrites(from: ColumnType, to: ColumnType)
    requires
        from@ != to@,
        !(from.base@ == "character varying"@ && to.base@ == "character varying"@),
        !(from.base@ == "character varying"@ && to.base@ == "text"@),
        !(from.base@ == "text"@ && to.base@ == "character varying"@),
        !(from.base@ == "numeric"@ && to.base@ == "numeric"@),
    ensures
        rewrites(from, to) is Yes,
{
}

/// No change of type costs nothing, a change that the session's zone decides
/// costs nobody knows what, and neither does one of a type that was not read.
pub proof fn a_type_change_that_cannot_be_known(from: Reading, to: Reading, zone_decided: bool)
    ensures
        from is As && to is As && from->As_0@ == to->As_0@ ==> estimate::rewrite_of(
            from,
            to,
            zone_decided,
        ) is No,
        from is As && to is As && from->As_0@ != to->As_0@ && zone_decided
            ==> estimate::rewrite_of(from, to, zone_decided) is Unknown,
        from is Refused || to is Refused ==> estimate::rewrite_of(from, to, zone_decided)
            is Unknown,
{
}

// ---------------------------------------------------------------------------
// Words

/// An estimate says what its change does, in words that name the object.
pub proof fn an_estimate_names_its_change(change: Change, strategy: Strategy)
    ensures
        estimate::estimated(change, strategy) matches Some(e) ==> match change {
            Change::AlterColumnType { column, from: _, to, .. } => e.about == "changing "@
                + model::column_text(column@) + " to "@ + to.written.spelled@,
            Change::AlterColumnNullability { column, to_nullable } => e.about == "making "@
                + model::column_text(column@) + " "@ + (if to_nullable {
                "nullable"@
            } else {
                "NOT NULL"@
            }),
            Change::AddColumn { table, name, column: _ } => e.about == "adding the column "@
                + model::column_text((table@, name@)),
            Change::DropColumn { column } => e.about == "dropping "@ + model::column_text(column@)
                + ", which does not reclaim its space"@,
            Change::AddCheck { table: _, name, constraint: _ } => e.about == "adding the check "@
                + name@,
            Change::AddUnique { table: _, name, constraint: _ } => e.about
                == "adding the unique constraint "@ + name@,
            Change::AddForeignKey { table: _, name, constraint: _ } => e.about
                == "adding the foreign key "@ + name@,
            Change::AddIndex { table: _, name, index: _ } => e.about == "building the index "@
                + name@,
            Change::AlterColumnDefault { column, from: _, to: _ } => e.about
                == "changing the default of "@ + model::column_text(column@),
            Change::RenameColumn { table, from, to: _ } => e.about == "renaming "@
                + model::column_text((table@, from@)),
            Change::RenameTable { from, to: _ } => e.about == "renaming the table "@
                + model::dotted(from@),
            _ => true,
        },
{
    match change {
        Change::AlterColumnType { column, from: _, to, .. } => {
            templates::a_type_change_in_words_reads(
                model::column_text(column@),
                to.written.spelled@,
            );
        },
        Change::AlterColumnNullability { column, to_nullable } => {
            templates::a_nullability_in_words_reads(
                model::column_text(column@),
                if to_nullable {
                    "nullable"@
                } else {
                    "NOT NULL"@
                },
            );
        },
        Change::AddColumn { table, name, column: _ } => {
            templates::a_new_column_in_words_reads(model::column_text((table@, name@)));
        },
        Change::DropColumn { column } => {
            templates::a_dropped_column_in_words_reads(model::column_text(column@));
        },
        Change::AddCheck { table: _, name, constraint: _ } => {
            templates::a_new_check_in_words_reads(name@);
        },
        Change::AddUnique { table: _, name, constraint: _ } => {
            templates::a_new_unique_constraint_in_words_reads(name@);
        },
        Change::AddForeignKey { table: _, name, constraint: _ } => {
            templates::a_new_foreign_key_in_words_reads(name@);
        },
        Change::AddIndex { table: _, name, index: _ } => {
            templates::an_index_build_in_words_reads(name@);
        },
        Change::AlterColumnDefault { column, from: _, to: _ } => {
            templates::a_changed_default_in_words_reads(model::column_text(column@));
        },
        Change::RenameColumn { table, from, to: _ } => {
            templates::a_renamed_column_in_words_reads(model::column_text((table@, from@)));
        },
        Change::RenameTable { from, to: _ } => {
            templates::a_renamed_table_in_words_reads(model::dotted(from@));
        },
        _ => {},
    }
}

/// A column is named by its schema, its table and its own name, with dots
/// between them.
pub proof fn a_column_is_named_in_full(column: (model::Qualified, Seq<char>))
    ensures
        model::column_text(column) == column.0.0 + seq!['.'] + column.0.1 + seq!['.'] + column.1,
        model::dotted(column.0) == column.0.0 + seq!['.'] + column.0.1,
{
}

// ---------------------------------------------------------------------------
// A plan

/// How many of the first `n` changes are about a table's stored rows.
pub open spec fn costly(changes: Seq<Change>, n: int) -> nat
    decreases n,
{
    if n <= 0 {
        0
    } else {
        costly(changes, n - 1) + if table_of(changes[n - 1]) is Some {
            1nat
        } else {
            0nat
        }
    }
}

/// A plan has an estimate for every change of a table's stored rows, in the
/// plan's order, and each is the change's own: only the name to measure under
/// is the plan's to add.
pub proof fn a_plan_estimates_every_change(
    changes: Seq<Change>,
    n: int,
    strategy: Strategy,
    i: int,
)
    requires
        0 <= i < n <= changes.len(),
    ensures
        estimate::plan_estimates(changes, n, strategy).len() == costly(changes, n),
        table_of(changes[i]) is Some ==> costly(changes, i) < costly(changes, n) && ({
            let e = estimate::plan_estimates(changes, n, strategy)[costly(changes, i) as int];
            let own = estimate::estimated(changes[i], strategy)->0;
            &&& e.about == own.about
            &&& e.table == own.table
            &&& e.rewrite == own.rewrite
            &&& e.reads == own.reads
            &&& e.lock == own.lock
            &&& e.also_locks == own.also_locks
        }),
    decreases n,
{
    an_estimate_is_about_the_changes_own_table(changes[n - 1], strategy);
    if i < n - 1 {
        a_plan_estimates_every_change(changes, n - 1, strategy, i);
    } else if n > 1 {
        a_plan_estimates_every_change(changes, n - 1, strategy, n - 2);
    } else {
        assert(estimate::plan_estimates(changes, 0, strategy).len() == 0);
    }
}

/// Whether one of the first `n` changes creates some table.
pub open spec fn creates_something(changes: Seq<Change>, n: int) -> bool {
    exists|i: int| 0 <= i < n && (#[trigger] changes[i]) is CreateTable
}

/// A table that is traced to a creation was created by one.
pub proof fn only_a_creation_creates(changes: Seq<Change>, n: int, table: model::Qualified)
    requires
        0 <= n <= changes.len(),
        model::origin(changes, n, table).1,
    ensures
        creates_something(changes, n),
    decreases n,
{
    if n > 0 {
        match changes[n - 1] {
            Change::RenameTable { from, to } => {
                if to@ == table {
                    only_a_creation_creates(changes, n - 1, from@);
                } else {
                    only_a_creation_creates(changes, n - 1, table);
                }
            },
            Change::CreateTable { name, table: _ } => {
                assert(changes[n - 1] is CreateTable);
                if name@ != table {
                    only_a_creation_creates(changes, n - 1, table);
                }
            },
            _ => {
                only_a_creation_creates(changes, n - 1, table);
            },
        }
    }
}

/// Whether a change gives a table this name.
pub open spec fn gives(change: Change, table: model::Qualified) -> bool {
    match change {
        Change::RenameTable { from: _, to } => to@ == table,
        Change::CreateTable { name, table: _ } => name@ == table,
        _ => false,
    }
}

/// A name that no change gives is the catalog's own.
pub proof fn a_name_nothing_gives_is_the_catalogs(
    changes: Seq<Change>,
    n: int,
    table: model::Qualified,
)
    requires
        0 <= n <= changes.len(),
        forall|i: int| 0 <= i < n ==> !gives(#[trigger] changes[i], table),
    ensures
        model::origin(changes, n, table) == (table, false),
    decreases n,
{
    if n > 0 {
        assert(!gives(changes[n - 1], table));
        a_name_nothing_gives_is_the_catalogs(changes, n - 1, table);
    }
}

/// The last change that gives a table its name decides: a rename hands the
/// question to the old name, and a creation ends it.
pub proof fn the_last_change_that_gives_a_name_decides(
    changes: Seq<Change>,
    at: int,
    n: int,
    table: model::Qualified,
)
    requires
        0 <= at < n <= changes.len(),
        gives(changes[at], table),
        forall|i: int| at < i < n ==> !gives(#[trigger] changes[i], table),
    ensures
        changes[at] matches Change::RenameTable { from, .. } ==> model::origin(changes, n, table)
            == model::origin(changes, at, from@),
        changes[at] is CreateTable ==> model::origin(changes, n, table) == (table, true),
    decreases n,
{
    if at < n - 1 {
        assert(!gives(changes[n - 1], table));
        the_last_change_that_gives_a_name_decides(changes, at, n - 1, table);
    }
}

/// An estimate is measured under a name that the catalog has, unless the plan
/// creates the table: the table of a change that is no rename is found under
/// the name the whole plan gives it, and that of a rename under the one the
/// changes before it leave. Nothing is called created by a plan that creates
/// nothing.
pub proof fn an_estimate_is_measured_under_a_name_the_catalog_has(
    catalog: Set<model::Qualified>,
    changes: Seq<Change>,
    at: int,
    e: EstimateView,
)
    requires
        0 <= at < changes.len(),
        changes[at] is RenameTable ==> impact::has_table(catalog, changes, at, e.table),
        !(changes[at] is RenameTable) ==> impact::has_table(
            catalog,
            changes,
            changes.len() as int,
            e.table,
        ),
    ensures
        ({
            let p = estimate::placed(changes, at, e);
            &&& p.created || catalog.contains(p.stored)
            &&& p.created ==> creates_something(changes, changes.len() as int)
            &&& p.table == e.table
        }),
{
    let n = if changes[at] is RenameTable {
        at
    } else {
        changes.len() as int
    };
    impact::a_table_is_traced_to_the_catalog(catalog, changes, n, e.table);
    if estimate::placed(changes, at, e).created {
        only_a_creation_creates(changes, n, e.table);
        let i = choose|i: int| 0 <= i < n && (#[trigger] changes[i]) is CreateTable;
        assert(changes[i] is CreateTable);
    }
}

// ---------------------------------------------------------------------------
// What the catalog adds

/// A change is called cheap exactly where it rewrites nothing and reads
/// nothing.
pub proof fn cheap_is_neither_written_nor_read(e: Estimate, r: bool)
    requires
        call_ensures(Estimate::is_cheap, (&e,), r),
    ensures
        r <==> e@.rewrite is No && e@.reads is Nothing,
{
}

/// A count of minus one is a table nobody has analyzed and not a count, and
/// neither is no count at all.
pub proof fn never_analyzed_is_not_empty(e: EstimateView, asked: bool, shape: Shape)
    ensures
        ({
            let m = estimate::measured(e, asked, Some(shape));
            &&& shape.reltuples is None || shape.reltuples == Some(-1i64) ==> m.rows == Some(
                Rows::NeverAnalyzed,
            )
            &&& shape.reltuples matches Some(n) ==> (n != -1 ==> m.rows == Some(
                Rows::Estimated(n),
            ))
            &&& m.rows_unknown is None
        }),
{
}

/// Of a partitioned table, and of one that others inherit from, nothing is
/// known, whatever the change alone said.
pub proof fn an_unmeasured_table_is_unknown(e: EstimateView, asked: bool, shape: Shape)
    requires
        (shape.relkind is Some && shape.relkind->0@ == "p"@) || shape.inherited == Some(true),
    ensures
        estimate::measured(e, asked, Some(shape)).rewrite is Unknown,
        estimate::measured(e, asked, Some(shape)).reads is Unknown,
{
    reveal_strlit("p");
}

/// Whether a table is of the shape the estimates were made on.
pub open spec fn is_ordinary(shape: Shape) -> bool {
    !(shape.relkind is Some && shape.relkind->0@ == "p"@) && shape.inherited != Some(true)
}

/// Retyping a column that an index is built over is not known where the table
/// is rebuilt for it, and a validated check may spare a tightened column its
/// scan; both only where the column was asked about. Everything else of an
/// ordinary table stands as it was.
pub proof fn an_ordinary_table_keeps_its_estimate(e: EstimateView, asked: bool, shape: Shape)
    requires
        is_ordinary(shape),
    ensures
        ({
            let m = estimate::measured(e, asked, Some(shape));
            let indexed = asked && e.rewrite is Yes && shape.column_is_indexed == Some(true);
            let checked = asked && e.rewrite is No && e.reads is EveryRow
                && shape.validated_column_check is Some;
            &&& indexed ==> m.rewrite is Unknown && m.reads is Unknown
            &&& checked ==> m.rewrite == e.rewrite && m.reads is Unknown
            &&& !indexed && !checked ==> m.rewrite == e.rewrite && m.reads == e.reads
            &&& m.lock == e.lock && m.table == e.table && m.stored == e.stored
        }),
{
    reveal_strlit("p");
}

/// A table that is not there keeps its estimate where the plan creates it, and
/// is otherwise known for nothing; either way there is a reason and no count.
pub proof fn a_table_that_is_not_there_is_not_empty(e: EstimateView, asked: bool)
    ensures
        ({
            let m = estimate::measured(e, asked, None);
            &&& e.created ==> m.rewrite == e.rewrite && m.reads == e.reads
            &&& !e.created ==> m.rewrite is Unknown && m.reads is Unknown
            &&& m.rows_unknown is Some
            &&& m.rows == e.rows
        }),
{
}

} // verus!
