//! What reaches a pull, and what keeps it out.
use vstd::prelude::*;

use crate::entries;
use crate::entries::Entry;
use crate::introspect;
use crate::introspect::{
    Built, ModuleRead, RawCatalog, RawColumn, RawConstraint, RawIndex, RawModule,
    RawTable, ReadBack, SequenceBounds, Tables,
};
use crate::lexer;
use crate::model;
use crate::model::Qualified;
use crate::readings;
use crate::scans::is_word;
use crate::text;

verus! {

// ---------------------------------------------------------------------------
// Answers

proof fn an_answer_is_first<T>(list: Seq<(String, T)>, key: Seq<char>, from: int, at: int)
    requires
        0 <= from <= at <= list.len(),
        forall|i: int| from <= i < at ==> (#[trigger] list[i]).0@ != key,
    ensures
        at == list.len() ==> introspect::answer_from(list, key, from) is None,
        at < list.len() && list[at].0@ == key ==> introspect::answer_from(list, key, from) == Some(
            list[at].1,
        ),
    decreases at - from,
{
    if from < at {
        assert(list[from].0@ != key);
        an_answer_is_first(list, key, from + 1, at);
    }
}

/// A spelling reads as what the first answer about it says, and as nothing
/// where there is none.
pub proof fn the_first_answer_counts<T>(list: Seq<(String, T)>, key: Seq<char>, at: int)
    requires
        0 <= at <= list.len(),
        forall|i: int| 0 <= i < at ==> (#[trigger] list[i]).0@ != key,
    ensures
        at == list.len() ==> introspect::answer(list, key) is None,
        at < list.len() && list[at].0@ == key ==> introspect::answer(list, key) == Some(
            list[at].1,
        ),
{
    an_answer_is_first(list, key, 0, at);
}

proof fn bounds_are_first(
    list: Seq<SequenceBounds>,
    ty: Seq<char>,
    increment: i64,
    from: int,
    at: int,
)
    requires
        0 <= from <= at <= list.len(),
        forall|i: int|
            from <= i < at ==> (#[trigger] list[i]).ty@ != ty || list[i].increment != increment,
    ensures
        at == list.len() ==> introspect::bounds_from(list, ty, increment, from) is None,
        at < list.len() && list[at].ty@ == ty && list[at].increment == increment
            ==> introspect::bounds_from(list, ty, increment, from) == Some(
            (list[at].min, list[at].max),
        ),
    decreases at - from,
{
    if from < at {
        assert(list[from].ty@ != ty || list[from].increment != increment);
        bounds_are_first(list, ty, increment, from + 1, at);
    }
}

/// The usual bounds of a sequence are those first given for its type and its
/// step.
pub proof fn usual_bounds_go_by_type_and_step(
    list: Seq<SequenceBounds>,
    ty: Seq<char>,
    increment: i64,
    at: int,
)
    requires
        0 <= at <= list.len(),
        forall|i: int|
            0 <= i < at ==> (#[trigger] list[i]).ty@ != ty || list[i].increment != increment,
    ensures
        at == list.len() ==> introspect::bounds_from(list, ty, increment, 0) is None,
        at < list.len() && list[at].ty@ == ty && list[at].increment == increment
            ==> introspect::bounds_from(list, ty, increment, 0) == Some(
            (list[at].min, list[at].max),
        ),
{
    bounds_are_first(list, ty, increment, 0, at);
}

// ---------------------------------------------------------------------------
// Tables that cannot be written

/// Whether a column's type is read back as the type it was stored as.
pub open spec fn type_reads_back(read: ReadBack, c: RawColumn) -> bool {
    let column = introspect::column_read(read, c);
    introspect::answer(read.types@, column.spelled) matches Some(t) && t.read@ == column.ty
}

/// Whether a column's address is read back as that column.
pub open spec fn address_reads_back(read: ReadBack, table: Qualified, c: RawColumn) -> bool {
    introspect::answer(
        read.columns@,
        table.0 + "."@ + table.1 + "."@ + c.name@,
    ) matches Some(back) && back@ == (table, c.name@)
}

/// Whether a table's name is read back as that table.
pub open spec fn name_reads_back(read: ReadBack, table: Qualified) -> bool {
    introspect::answer(read.tables@, table.0 + "."@ + table.1) matches Some(back) && back@ == table
}

proof fn unwritable_types(raw: RawCatalog, read: ReadBack, oid: i64, n: int)
    requires
        0 <= n <= raw.columns@.len(),
    ensures
        introspect::unwritable_columns(raw, read, oid, n).len() == 0 <==> forall|i: int|
            0 <= i < n && (#[trigger] raw.columns@[i]).table_oid == oid ==> type_reads_back(
                read,
                raw.columns@[i],
            ),
    decreases n,
{
    if n > 0 {
        unwritable_types(raw, read, oid, n - 1);
        let c = raw.columns@[n - 1];
        if introspect::unwritable_columns(raw, read, oid, n).len() == 0 {
            assert forall|i: int|
                0 <= i < n && (#[trigger] raw.columns@[i]).table_oid == oid implies type_reads_back(
                read,
                raw.columns@[i],
            ) by {}
        } else if forall|i: int|
            0 <= i < n && (#[trigger] raw.columns@[i]).table_oid == oid ==> type_reads_back(
                read,
                raw.columns@[i],
            ) {
            assert(c.table_oid == oid ==> type_reads_back(read, c));
        }
    }
}

proof fn lost_names(raw: RawCatalog, read: ReadBack, oid: i64, name: Qualified, at: int)
    requires
        0 <= at <= raw.columns@.len(),
    ensures
        introspect::lost_column(raw, read, oid, name, at) is None <==> forall|i: int|
            at <= i < raw.columns@.len() && (#[trigger] raw.columns@[i]).table_oid == oid
                ==> address_reads_back(read, name, raw.columns@[i]),
    decreases raw.columns@.len() - at,
{
    if at < raw.columns@.len() {
        reveal_strlit(".");
        assert(seq!['.'] =~= "."@);
        let c = raw.columns@[at];
        assert(introspect::column_reads_back(read, name, c.name@) == address_reads_back(
            read,
            name,
            c,
        ));
        lost_names(raw, read, oid, name, at + 1);
        if introspect::lost_column(raw, read, oid, name, at) is None {
            assert forall|i: int|
                at <= i < raw.columns@.len() && (#[trigger] raw.columns@[i]).table_oid
                    == oid implies address_reads_back(read, name, raw.columns@[i]) by {}
        } else if forall|i: int|
            at <= i < raw.columns@.len() && (#[trigger] raw.columns@[i]).table_oid == oid
                ==> address_reads_back(read, name, raw.columns@[i]) {
            assert(c.table_oid == oid ==> address_reads_back(read, name, c));
        }
    }
}

/// A table is kept in the pull exactly where it can be written and read: its
/// name is read back as itself, and of every column of its own both the type
/// and the address are. Columns of other tables do not matter.
pub proof fn a_table_that_reads_back_is_kept(raw: RawCatalog, read: ReadBack, t: RawTable)
    ensures
        introspect::unwritable(raw, read, t) is None <==> {
            let name = (t.schema@, t.name@);
            &&& name_reads_back(read, name)
            &&& forall|i: int|
                0 <= i < raw.columns@.len() && (#[trigger] raw.columns@[i]).table_oid == t.oid
                    ==> type_reads_back(read, raw.columns@[i]) && address_reads_back(
                    read,
                    name,
                    raw.columns@[i],
                )
        },
{
    reveal_strlit(".");
    assert(seq!['.'] =~= "."@);
    let name = (t.schema@, t.name@);
    unwritable_types(raw, read, t.oid, raw.columns@.len() as int);
    lost_names(raw, read, t.oid, name, 0);
    assert(introspect::table_reads_back(read, name) == name_reads_back(read, name));
}

// ---------------------------------------------------------------------------
// The columns of a table

/// The names of a table's own columns, in the order of the rows.
pub open spec fn own_columns(columns: Seq<RawColumn>, oid: i64, n: int) -> Seq<Seq<char>>
    decreases n,
{
    if n <= 0 {
        Seq::empty()
    } else if columns[n - 1].table_oid == oid {
        own_columns(columns, oid, n - 1).push(columns[n - 1].name@)
    } else {
        own_columns(columns, oid, n - 1)
    }
}

proof fn columns_keep_their_order(
    raw: RawCatalog,
    read: ReadBack,
    t: RawTable,
    surviving: Seq<i64>,
    n: int,
)
    requires
        0 <= n <= raw.columns@.len(),
        forall|i: int, j: int|
            0 <= i < j < raw.columns@.len() && (#[trigger] raw.columns@[i]).table_oid == t.oid && (
            #[trigger] raw.columns@[j]).table_oid == t.oid ==> raw.columns@[i].name@
                != raw.columns@[j].name@,
    ensures
        ({
            let kept = introspect::with_columns(raw, read, t, surviving, n).table.columns;
            let names = own_columns(raw.columns@, t.oid, n);
            &&& kept.len() == names.len()
            &&& forall|k: int| 0 <= k < kept.len() ==> (#[trigger] kept[k]).0 == seq![names[k]]
            &&& forall|k: int|
                0 <= k < names.len() ==> exists|i: int|
                    0 <= i < n && (#[trigger] raw.columns@[i]).table_oid == t.oid
                        && raw.columns@[i].name@ == #[trigger] names[k]
        }),
    decreases n,
{
    if n > 0 {
        columns_keep_their_order(raw, read, t, surviving, n - 1);
        let front = introspect::with_columns(raw, read, t, surviving, n - 1).table.columns;
        let names = own_columns(raw.columns@, t.oid, n - 1);
        let all = own_columns(raw.columns@, t.oid, n);
        let c = raw.columns@[n - 1];
        if c.table_oid == t.oid {
            entries::found_is_an_entry(front, seq![c.name@]);
            entries::position_has_key(front, seq![c.name@]);
            assert(entries::position_from(front, seq![c.name@], 0) is None) by {
                if let Some(p) = entries::position_from(front, seq![c.name@], 0) {
                    assert(front[p].0 == seq![names[p]]);
                    assert(seq![names[p]][0] == seq![c.name@][0]);
                    let i = choose|i: int|
                        0 <= i < n - 1 && (#[trigger] raw.columns@[i]).table_oid == t.oid
                            && raw.columns@[i].name@ == names[p];
                    assert(raw.columns@[i].name@ != raw.columns@[n - 1].name@);
                }
            }
            assert forall|k: int| 0 <= k < all.len() implies exists|i: int|
                0 <= i < n && (#[trigger] raw.columns@[i]).table_oid == t.oid
                    && raw.columns@[i].name@ == #[trigger] all[k] by {
                if k < names.len() {
                    let i = choose|i: int|
                        0 <= i < n - 1 && (#[trigger] raw.columns@[i]).table_oid == t.oid
                            && raw.columns@[i].name@ == names[k];
                    assert(raw.columns@[i].name@ == all[k]);
                } else {
                    assert(raw.columns@[n - 1].name@ == all[k]);
                }
            }
        } else {
            assert forall|k: int| 0 <= k < all.len() implies exists|i: int|
                0 <= i < n && (#[trigger] raw.columns@[i]).table_oid == t.oid
                    && raw.columns@[i].name@ == #[trigger] all[k] by {
                let i = choose|i: int|
                    0 <= i < n - 1 && (#[trigger] raw.columns@[i]).table_oid == t.oid
                        && raw.columns@[i].name@ == names[k];
                assert(raw.columns@[i].name@ == all[k]);
            }
        }
    }
}

proof fn parts_keep_the_columns(
    raw: RawCatalog,
    refused: Seq<i64>,
    t: RawTable,
    start: Built,
    m: int,
    n: int,
)
    requires
        0 <= m,
        0 <= n,
    ensures
        introspect::with_constraints(raw, refused, t, start, m).table.columns
            == start.table.columns,
        introspect::with_indexes(raw, t, start, n).table.columns == start.table.columns,
    decreases m + n,
{
    if m > 0 {
        parts_keep_the_columns(raw, refused, t, start, m - 1, 0);
    }
    if n > 0 {
        parts_keep_the_columns(raw, refused, t, start, 0, n - 1);
    }
}

/// A table has its own columns and no others, in the order the catalog gives
/// them.
pub proof fn a_table_has_its_own_columns_in_order(
    raw: RawCatalog,
    read: ReadBack,
    refused: Seq<i64>,
    t: RawTable,
    surviving: Seq<i64>,
)
    requires
        forall|i: int, j: int|
            0 <= i < j < raw.columns@.len() && (#[trigger] raw.columns@[i]).table_oid == t.oid && (
            #[trigger] raw.columns@[j]).table_oid == t.oid ==> raw.columns@[i].name@
                != raw.columns@[j].name@,
    ensures
        ({
            let kept = introspect::built(raw, read, refused, t, surviving).table.columns;
            let names = own_columns(raw.columns@, t.oid, raw.columns@.len() as int);
            &&& kept.len() == names.len()
            &&& forall|k: int| 0 <= k < kept.len() ==> (#[trigger] kept[k]).0 == seq![names[k]]
        }),
{
    let n = raw.columns@.len() as int;
    columns_keep_their_order(raw, read, t, surviving, n);
    let columns = introspect::with_columns(raw, read, t, surviving, n);
    let m = raw.constraints@.len() as int;
    parts_keep_the_columns(raw, refused, t, columns, m, 0);
    parts_keep_the_columns(
        raw,
        refused,
        t,
        introspect::with_constraints(raw, refused, t, columns, m),
        0,
        raw.indexes@.len() as int,
    );
}

// ---------------------------------------------------------------------------
// The indexes of a table

proof fn putting_brings_one_key<A>(e: Seq<Entry<A>>, key: Seq<Seq<char>>, value: A, i: int)
    requires
        0 <= i < entries::put(e, key, value).len(),
    ensures
        entries::put(e, key, value)[i].0 == key || exists|j: int|
            0 <= j < e.len() && (#[trigger] e[j]).0 == entries::put(e, key, value)[i].0,
{
    let p = entries::place_from(e, key, 0);
    entries::place_is_in_range(e, key);
    let all = entries::put(e, key, value);
    if p < e.len() && e[p].0 == key {
        if i != p {
            assert(e[i].0 == all[i].0);
        }
    } else if i < p {
        assert(e[i].0 == all[i].0);
    } else if i > p {
        assert(e[i - 1].0 == all[i].0);
    }
}

/// Whether an index row is one that a table has as an index: its own, kept, and
/// not there to enforce a key or an exclusion.
pub open spec fn is_an_index_of(raw: RawCatalog, t: RawTable, i: RawIndex) -> bool {
    &&& i.table_oid == t.oid
    &&& readings::is_plain_index(i)
    &&& readings::are_live(raw.columns@, i.table_oid, i.columns@)
    &&& forall|k: int|
        0 <= k < raw.constraints@.len() && (raw.constraints@[k].kind == 'p'
            || raw.constraints@[k].kind == 'u' || raw.constraints@[k].kind == 'x') ==> (
        #[trigger] raw.constraints@[k]).index_oid != Some(i.oid)
}

proof fn an_index_stands_alone(raw: RawCatalog, t: RawTable, i: RawIndex)
    ensures
        is_an_index_of(raw, t, i) <==> i.table_oid == t.oid && !introspect::is_a_constraint(
            raw.constraints@,
            i.oid,
        ) && introspect::index_read(raw.columns@, i, introspect::name_of(t)) is Kept,
{
    readings::an_index_is_read_as_its_row_says(raw.columns@, i, introspect::name_of(t));
    if introspect::is_a_constraint(raw.constraints@, i.oid) {
        let k = choose|k: int|
            0 <= k < raw.constraints@.len() && #[trigger] introspect::enforces(
                raw.constraints@[k],
                i.oid,
            );
        assert(raw.constraints@[k].index_oid == Some(i.oid));
    } else {
        assert forall|k: int|
            0 <= k < raw.constraints@.len() && (raw.constraints@[k].kind == 'p'
                || raw.constraints@[k].kind == 'u' || raw.constraints@[k].kind == 'x') implies (
        #[trigger] raw.constraints@[k]).index_oid != Some(i.oid) by {
            assert(!introspect::enforces(raw.constraints@[k], i.oid));
        }
    }
}

proof fn indexes_come_from_rows(raw: RawCatalog, t: RawTable, start: Built, n: int, x: int)
    requires
        0 <= n <= raw.indexes@.len(),
        start.table.indexes.len() == 0,
        0 <= x < introspect::with_indexes(raw, t, start, n).table.indexes.len(),
    ensures
        exists|i: int|
            0 <= i < n && is_an_index_of(raw, t, #[trigger] raw.indexes@[i])
                && introspect::with_indexes(raw, t, start, n).table.indexes[x].0 == seq![
                raw.indexes@[i].name@,
            ],
    decreases n,
{
    if n > 0 {
        let front = introspect::with_indexes(raw, t, start, n - 1);
        let all = introspect::with_indexes(raw, t, start, n).table.indexes;
        let i = raw.indexes@[n - 1];
        an_index_stands_alone(raw, t, i);
        if is_an_index_of(raw, t, i) {
            let index = introspect::index_read(
                raw.columns@,
                i,
                introspect::name_of(t),
            )->Kept_index;
            assert(all == entries::put(front.table.indexes, seq![i.name@], index));
            putting_brings_one_key(front.table.indexes, seq![i.name@], index, x);
            if all[x].0 != seq![i.name@] {
                let j = choose|j: int|
                    0 <= j < front.table.indexes.len() && (#[trigger] front.table.indexes[j]).0
                        == all[x].0;
                indexes_come_from_rows(raw, t, start, n - 1, j);
            } else {
                assert(is_an_index_of(raw, t, raw.indexes@[n - 1]));
            }
        } else {
            assert(all == front.table.indexes);
            indexes_come_from_rows(raw, t, start, n - 1, x);
        }
    }
}

proof fn no_indexes_before(
    raw: RawCatalog,
    read: ReadBack,
    refused: Seq<i64>,
    t: RawTable,
    surviving: Seq<i64>,
    start: Built,
    m: int,
    n: int,
)
    requires
        start.table.indexes.len() == 0,
        0 <= m,
        0 <= n,
    ensures
        introspect::with_columns(raw, read, t, surviving, n).table.indexes.len() == 0,
        introspect::with_constraints(raw, refused, t, start, m).table.indexes.len() == 0,
    decreases m + n,
{
    if n > 0 {
        no_indexes_before(raw, read, refused, t, surviving, start, 0, n - 1);
    }
    if m > 0 {
        no_indexes_before(raw, read, refused, t, surviving, start, m - 1, 0);
    }
}

/// A table has no index but its own that stand alone: one that enforces a key
/// is the key, and is not there a second time.
pub proof fn an_index_of_a_key_is_no_index(
    raw: RawCatalog,
    read: ReadBack,
    refused: Seq<i64>,
    t: RawTable,
    surviving: Seq<i64>,
    x: int,
)
    requires
        0 <= x < introspect::built(raw, read, refused, t, surviving).table.indexes.len(),
    ensures
        exists|i: int|
            0 <= i < raw.indexes@.len() && is_an_index_of(raw, t, #[trigger] raw.indexes@[i])
                && introspect::built(raw, read, refused, t, surviving).table.indexes[x].0 == seq![
                raw.indexes@[i].name@,
            ],
{
    let n = raw.columns@.len() as int;
    let m = raw.constraints@.len() as int;
    let bare = introspect::with_columns(raw, read, t, surviving, 0);
    no_indexes_before(raw, read, refused, t, surviving, bare, 0, n);
    let columns = introspect::with_columns(raw, read, t, surviving, n);
    no_indexes_before(raw, read, refused, t, surviving, columns, m, 0);
    let constraints = introspect::with_constraints(raw, refused, t, columns, m);
    indexes_come_from_rows(raw, t, constraints, raw.indexes@.len() as int, x);
}

// ---------------------------------------------------------------------------
// What a foreign key can rest on

/// Whether a constraint is a key of this table that reached the pull, enforced
/// by this index.
pub open spec fn is_a_key_over(raw: RawCatalog, t: RawTable, c: RawConstraint, oid: i64) -> bool {
    &&& c.table_oid == t.oid
    &&& c.kind == 'p' || c.kind == 'u'
    &&& c.index_oid == Some(oid)
    &&& readings::is_plain_constraint(raw.indexes@, c)
    &&& readings::are_live(raw.columns@, c.table_oid, c.columns@)
}

/// Whether an index of this table reached the pull, as an index or as the key
/// it enforces.
pub open spec fn has_reached(raw: RawCatalog, t: RawTable, oid: i64) -> bool {
    ||| exists|k: int|
        0 <= k < raw.constraints@.len() && is_a_key_over(
            raw,
            t,
            #[trigger] raw.constraints@[k],
            oid,
        )
    ||| exists|k: int|
        0 <= k < raw.indexes@.len() && (#[trigger] raw.indexes@[k]).oid == oid && is_an_index_of(
            raw,
            t,
            raw.indexes@[k],
        )
}

proof fn one_more(a: Seq<i64>, x: i64, o: i64)
    ensures
        a.push(x).contains(o) <==> a.contains(o) || x == o,
{
    if a.contains(o) {
        let k = a.index_of(o);
        assert(a.push(x)[k] == o);
    }
    if a.push(x).contains(o) {
        let k = a.push(x).index_of(o);
        if k < a.len() {
            assert(a[k] == o);
        }
    }
    assert(a.push(x)[a.len() as int] == x);
}

proof fn columns_reach_nothing(
    raw: RawCatalog,
    read: ReadBack,
    t: RawTable,
    surviving: Seq<i64>,
    n: int,
)
    ensures
        introspect::with_columns(raw, read, t, surviving, n).surviving == surviving,
    decreases n,
{
    if n > 0 {
        columns_reach_nothing(raw, read, t, surviving, n - 1);
    }
}

proof fn keys_reach(
    raw: RawCatalog,
    refused: Seq<i64>,
    t: RawTable,
    start: Built,
    n: int,
    oid: i64,
)
    requires
        0 <= n <= raw.constraints@.len(),
    ensures
        introspect::with_constraints(raw, refused, t, start, n).surviving.contains(oid)
            <==> start.surviving.contains(oid) || exists|k: int|
            0 <= k < n && is_a_key_over(raw, t, #[trigger] raw.constraints@[k], oid),
    decreases n,
{
    if n > 0 {
        keys_reach(raw, refused, t, start, n - 1, oid);
        let front = introspect::with_constraints(raw, refused, t, start, n - 1).surviving;
        let all = introspect::with_constraints(raw, refused, t, start, n).surviving;
        let c = raw.constraints@[n - 1];
        let name = introspect::name_of(t);
        let out = introspect::constraint_read(raw, refused, Seq::empty(), c, name);
        if c.kind == 'p' || c.kind == 'u' {
            readings::a_key_is_read_as_its_row_says(raw, refused, Seq::empty(), c, name);
        } else if c.kind == 'c' {
            readings::a_check_is_read_as_its_row_says(raw, refused, Seq::empty(), c, name);
        } else if c.kind != 'f' {
            readings::a_constraint_without_a_place_is_said(raw, refused, Seq::empty(), c, name);
        }
        if let Some(o) = c.index_oid {
            one_more(front, o, oid);
        }
        assert(all.contains(oid) <==> front.contains(oid) || is_a_key_over(raw, t, c, oid));
        if exists|k: int| 0 <= k < n && is_a_key_over(raw, t, #[trigger] raw.constraints@[k], oid) {
            let k = choose|k: int|
                0 <= k < n && is_a_key_over(raw, t, #[trigger] raw.constraints@[k], oid);
            assert(k < n - 1 || k == n - 1);
        }
    }
}

proof fn indexes_reach(raw: RawCatalog, t: RawTable, start: Built, n: int, oid: i64)
    requires
        0 <= n <= raw.indexes@.len(),
    ensures
        introspect::with_indexes(raw, t, start, n).surviving.contains(oid)
            <==> start.surviving.contains(oid) || exists|k: int|
            0 <= k < n && (#[trigger] raw.indexes@[k]).oid == oid && is_an_index_of(
                raw,
                t,
                raw.indexes@[k],
            ),
    decreases n,
{
    if n > 0 {
        indexes_reach(raw, t, start, n - 1, oid);
        let front = introspect::with_indexes(raw, t, start, n - 1).surviving;
        let all = introspect::with_indexes(raw, t, start, n).surviving;
        let i = raw.indexes@[n - 1];
        an_index_stands_alone(raw, t, i);
        one_more(front, i.oid, oid);
        assert(all.contains(oid) <==> front.contains(oid) || (i.oid == oid && is_an_index_of(
            raw,
            t,
            i,
        )));
        if exists|k: int|
            0 <= k < n && (#[trigger] raw.indexes@[k]).oid == oid && is_an_index_of(
                raw,
                t,
                raw.indexes@[k],
            ) {
            let k = choose|k: int|
                0 <= k < n && (#[trigger] raw.indexes@[k]).oid == oid && is_an_index_of(
                    raw,
                    t,
                    raw.indexes@[k],
                );
            assert(k < n - 1 || k == n - 1);
        }
    }
}

proof fn tables_reach(
    raw: RawCatalog,
    read: ReadBack,
    refused: Seq<i64>,
    start: Tables,
    n: int,
    oid: i64,
)
    requires
        0 <= n <= raw.tables@.len(),
    ensures
        introspect::with_tables(raw, read, refused, start, n).surviving.contains(oid)
            <==> start.surviving.contains(oid) || exists|j: int|
            0 <= j < n && !refused.contains((#[trigger] raw.tables@[j]).oid) && has_reached(
                raw,
                raw.tables@[j],
                oid,
            ),
    decreases n,
{
    if n > 0 {
        tables_reach(raw, read, refused, start, n - 1, oid);
        let front = introspect::with_tables(raw, read, refused, start, n - 1);
        let t = raw.tables@[n - 1];
        let c = raw.columns@.len() as int;
        let m = raw.constraints@.len() as int;
        let columns = introspect::with_columns(raw, read, t, front.surviving, c);
        let constraints = introspect::with_constraints(raw, refused, t, columns, m);
        columns_reach_nothing(raw, read, t, front.surviving, c);
        keys_reach(raw, refused, t, columns, m, oid);
        indexes_reach(raw, t, constraints, raw.indexes@.len() as int, oid);
        if exists|j: int|
            0 <= j < n && !refused.contains((#[trigger] raw.tables@[j]).oid) && has_reached(
                raw,
                raw.tables@[j],
                oid,
            ) {
            let j = choose|j: int|
                0 <= j < n && !refused.contains((#[trigger] raw.tables@[j]).oid) && has_reached(
                    raw,
                    raw.tables@[j],
                    oid,
                );
            assert(j < n - 1 || j == n - 1);
        }
    }
}

proof fn foreign_keys_reach_nothing(
    raw: RawCatalog,
    refused: Seq<i64>,
    t: RawTable,
    start: Tables,
    n: int,
)
    ensures
        introspect::with_foreign_keys(raw, refused, t, start, n).surviving == start.surviving,
    decreases n,
{
    if n > 0 {
        foreign_keys_reach_nothing(raw, refused, t, start, n - 1);
    }
}

proof fn all_foreign_keys_reach_nothing(
    raw: RawCatalog,
    refused: Seq<i64>,
    start: Tables,
    n: int,
)
    ensures
        introspect::with_all_foreign_keys(raw, refused, start, n).surviving == start.surviving,
    decreases n,
{
    if n > 0 {
        all_foreign_keys_reach_nothing(raw, refused, start, n - 1);
        let front = introspect::with_all_foreign_keys(raw, refused, start, n - 1);
        foreign_keys_reach_nothing(
            raw,
            refused,
            raw.tables@[n - 1],
            front,
            raw.constraints@.len() as int,
        );
    }
}

/// What a foreign key can rest on is exactly what reached the pull: an index of
/// a table that is kept, which is there as an index or as the primary key or
/// unique constraint that it enforces.
pub proof fn a_foreign_key_rests_on_what_reached_the_pull(
    raw: RawCatalog,
    read: ReadBack,
    oid: i64,
)
    ensures
        introspect::tables_read(raw, read).surviving.contains(oid) <==> exists|j: int|
            0 <= j < raw.tables@.len() && !introspect::refused_tables(
                raw,
                read,
                raw.tables@.len() as int,
            ).contains((#[trigger] raw.tables@[j]).oid) && has_reached(raw, raw.tables@[j], oid),
{
    let n = raw.tables@.len() as int;
    let refused = introspect::refused_tables(raw, read, n);
    let start = Tables {
        tables: Seq::empty(),
        log: introspect::refusals_log(raw, read, introspect::empty_log(), n),
        surviving: Seq::empty(),
    };
    tables_reach(raw, read, refused, start, n, oid);
    all_foreign_keys_reach_nothing(
        raw,
        refused,
        introspect::with_tables(raw, read, refused, start, n),
        n,
    );
}

// ---------------------------------------------------------------------------
// Modules

/// A module is kept exactly where its kind is known, every argument type of it
/// reads, there is a text behind its name, and its identity is read back as
/// itself.
pub proof fn a_module_that_reads_back_is_kept(raw: RawCatalog, read: ReadBack, m: RawModule)
    ensures
        introspect::module_read(raw, read, m) is Kept <==> match introspect::identity_read(
            raw,
            read,
            m,
        ) {
            Ok((_, id)) => {
                &&& introspect::definition_read(m) matches Some(text) && text.len() > 0
                &&& introspect::answer(read.modules@, model::module_text(id)) matches Some(back)
                    && back@ == id
            },
            Err(_) => false,
        },
        introspect::module_read(raw, read, m) matches ModuleRead::Kept { id: _, kind: _, definition }
            ==> Some(definition) == introspect::definition_read(m),
        m.kind != 'v' && m.kind != 'f' && m.kind != 'p' && m.kind != 't' ==> introspect::module_read(
            raw,
            read,
            m,
        ) is LeftOut,
        m.kind == 'v' || m.kind == 't' ==> introspect::identity_read(raw, read, m) is Ok,
{
}

/// Whether the key under which each entry stands is that of its own identity.
pub open spec fn keys_fit(modules: introspect::Modules) -> bool {
    &&& modules.ids.len() == modules.modules.len()
    &&& forall|k: int|
        0 <= k < modules.ids.len() ==> model::module_rank(#[trigger] modules.ids[k])
            == modules.modules[k].0
}

proof fn a_module_keeps_the_keys(
    raw: RawCatalog,
    read: ReadBack,
    m: RawModule,
    front: introspect::Modules,
)
    requires
        keys_fit(front),
    ensures
        keys_fit(introspect::with_module(raw, read, m, front)),
{
    if let ModuleRead::Kept { id, kind, definition } = introspect::module_read(raw, read, m) {
        let rank = model::module_rank(id);
        let p = entries::place_from(front.modules, rank, 0);
        entries::place_is_in_range(front.modules, rank);
        let after = introspect::with_module(raw, read, m, front);
        assert forall|k: int| 0 <= k < after.ids.len() implies model::module_rank(
            #[trigger] after.ids[k],
        ) == after.modules[k].0 by {
            if p < front.modules.len() && front.modules[p].0 == rank {
                if k != p {
                    assert(after.ids[k] == front.ids[k]);
                }
            } else if k < p {
                assert(after.ids[k] == front.ids[k]);
            } else if k > p {
                assert(after.ids[k] == front.ids[k - 1]);
            }
        }
    }
}

proof fn modules_keep_the_keys(
    raw: RawCatalog,
    read: ReadBack,
    start: introspect::Modules,
    n: int,
)
    requires
        keys_fit(start),
    ensures
        keys_fit(introspect::with_modules(raw, read, start, n)),
    decreases n,
{
    if n > 0 {
        modules_keep_the_keys(raw, read, start, n - 1);
        a_module_keeps_the_keys(
            raw,
            read,
            raw.modules@[n - 1],
            introspect::with_modules(raw, read, start, n - 1),
        );
    }
}

/// Every module of a pull stands under the key of its own identity.
pub proof fn a_module_stands_under_its_own_key(raw: RawCatalog, read: ReadBack)
    ensures
        ({
            let pulled = introspect::assembled(raw, read);
            &&& pulled.ids.len() == pulled.modules.len()
            &&& forall|k: int|
                0 <= k < pulled.ids.len() ==> model::module_rank(#[trigger] pulled.ids[k])
                    == pulled.modules[k].0
        }),
{
    let start = introspect::Modules {
        modules: Seq::empty(),
        ids: Seq::empty(),
        log: introspect::tables_read(raw, read).log,
    };
    modules_keep_the_keys(raw, read, start, raw.modules@.len() as int);
}

/// Which letters are white: the spaces of the first alphabet, the next line,
/// and the spaces and separators of the others; nothing that is printed is.
pub proof fn what_is_white(c: char)
    ensures
        c == ' ' || ('\u{9}' <= c && c <= '\u{d}') ==> text::is_white(c),
        c == '\u{85}' || c == '\u{a0}' || c == '\u{1680}' || c == '\u{2028}' || c == '\u{2029}' || c
            == '\u{202f}' || c == '\u{205f}' || c == '\u{3000}' ==> text::is_white(c),
        '\u{2000}' <= c && c <= '\u{200a}' ==> text::is_white(c),
        '!' <= c && c <= '~' ==> !text::is_white(c),
        text::is_white(c) && c > '\u{a0}' ==> c >= '\u{1680}' && c <= '\u{3000}',
        text::is_space(c) ==> text::is_white(c),
        text::is_space(c) <==> c == ' ' || c == '\t' || c == '\n' || c == '\r' || c == '\u{c}',
{
}

/// Whether every letter of a text is white.
pub open spec fn is_all_white(s: Seq<char>) -> bool {
    forall|i: int| 0 <= i < s.len() ==> text::is_white(#[trigger] s[i])
}

proof fn white_start(front: Seq<char>, s: Seq<char>, at: int)
    requires
        0 <= at <= front.len(),
        is_all_white(front),
        s.len() > 0 ==> !text::is_white(s[0]),
    ensures
        text::white_from(front + s, at) == front.len(),
    decreases front.len() - at,
{
    let t = front + s;
    if at < front.len() {
        assert(t[at] == front[at]);
        white_start(front, s, at + 1);
    } else if at < t.len() {
        assert(t[at] == s[0]);
    }
}

proof fn white_stop(s: Seq<char>, back: Seq<char>, from: int, to: int)
    requires
        0 <= from <= s.len() <= to <= s.len() + back.len(),
        is_all_white(back),
        s.len() > from ==> !text::is_white(s.last()),
    ensures
        text::white_to(s + back, from, to) == s.len(),
    decreases to,
{
    let t = s + back;
    if to > s.len() {
        assert(t[to - 1] == back[to - 1 - s.len()]);
        white_stop(s, back, from, to - 1);
    } else if to > from {
        assert(t[to - 1] == s.last());
    }
}

/// Stripping takes what is white off both ends and nothing else.
pub proof fn stripping_takes_what_is_white(front: Seq<char>, s: Seq<char>, back: Seq<char>)
    requires
        is_all_white(front),
        is_all_white(back),
        s.len() > 0,
        !text::is_white(s[0]),
        !text::is_white(s.last()),
    ensures
        text::stripped(front + s + back) == s,
{
    let t = front + s + back;
    assert(t =~= front + (s + back));
    white_start(front, s + back, 0);
    let body = front + s;
    assert(body.last() == s.last());
    white_stop(body, back, front.len() as int, t.len() as int);
    assert(text::stripped(t) =~= s);
}

proof fn terminators(s: Seq<char>, n: nat, to: int)
    requires
        s.len() > 0,
        s.last() != ';',
        s.len() <= to <= s.len() + n,
    ensures
        text::without_to(s + Seq::new(n, |i: int| ';'), ';', to) == s.len(),
    decreases to,
{
    let t = s + Seq::new(n, |i: int| ';');
    if to > s.len() {
        assert(t[to - 1] == ';');
        terminators(s, n, to - 1);
    } else {
        assert(t[to - 1] == s.last());
    }
}

/// A view's query is what the engine deparses without what is white around it
/// and without its terminators.
pub proof fn a_query_has_no_terminator(
    front: Seq<char>,
    query: Seq<char>,
    n: nat,
    back: Seq<char>,
)
    requires
        is_all_white(front),
        is_all_white(back),
        query.len() > 0,
        !text::is_white(query[0]),
        !text::is_white(query.last()),
        query.last() != ';',
    ensures
        introspect::query_of(front + (query + Seq::new(n, |i: int| ';')) + back) == query,
{
    let ended = query + Seq::new(n, |i: int| ';');
    assert(ended[0] == query[0]);
    if n > 0 {
        assert(ended.last() == ';');
    } else {
        assert(ended =~= query);
    }
    stripping_takes_what_is_white(front, ended, back);
    terminators(query, n, ended.len() as int);
    let u = ended.take(query.len() as int);
    assert(u =~= query);
    let none = Seq::<char>::empty();
    assert(query + none =~= query);
    white_stop(query, none, 0, query.len() as int);
    assert(u.take(query.len() as int) =~= query);
}

proof fn a_bare_identifier_ends(s: Seq<char>, at: int, word: Seq<char>)
    requires
        is_word(word),
        0 <= at,
        at + word.len() <= s.len(),
        s.subrange(at, at + word.len()) == word,
        at + word.len() < s.len() ==> !lexer::goes_on(s[at + word.len()]),
    ensures
        introspect::past_identifier(s, at) == Some(at + word.len()),
{
    let front = s.take(at);
    let back = s.skip(at + word.len());
    assert(s =~= front + word + back);
    if back.len() > 0 {
        assert(back[0] == s[at + word.len()]);
    }
    crate::scans::a_word_ends_at_its_end(front, word, back);
    assert(s[at] == s.subrange(at, at + word.len())[0]);
    assert(lexer::goes_on(word[0]));
}

/// What a routine or a trigger is deparsed as is cut behind its prefix and its
/// name, with or without a schema; a text that begins otherwise is not cut.
pub proof fn a_definition_stands_behind_its_name(
    front: Seq<char>,
    prefix: Seq<char>,
    schema: Seq<char>,
    name: Seq<char>,
    rest: Seq<char>,
)
    requires
        is_all_white(front),
        prefix.len() > 0,
        !text::is_white(prefix[0]),
        is_word(schema),
        is_word(name),
        rest.len() > 0 ==> !lexer::goes_on(rest[0]) && rest[0] != '.',
    ensures
        introspect::behind_name(front + (prefix + name + rest), prefix) == Some(
            text::stripped(rest),
        ),
        introspect::behind_name(front + (prefix + schema + "."@ + name + rest), prefix) == Some(
            text::stripped(rest),
        ),
{
    reveal_strlit(".");
    let a = (front.len() + prefix.len()) as int;
    let body = prefix + name + rest;
    let s = front + body;
    assert(body[0] == prefix[0]);
    white_start(front, body, 0);
    assert(s.subrange(front.len() as int, a) =~= prefix);
    let e = a + name.len();
    assert(s.subrange(a, e) =~= name);
    if e < s.len() {
        assert(s[e] == rest[0]);
    }
    a_bare_identifier_ends(s, a, name);
    assert(introspect::past_qualified(s, a) == Some(e));
    assert(s.subrange(e, s.len() as int) =~= rest);
    let body = prefix + schema + "."@ + name + rest;
    let s = front + body;
    assert(body[0] == prefix[0]);
    white_start(front, body, 0);
    assert(s.subrange(front.len() as int, a) =~= prefix);
    let d = a + schema.len();
    let e = d + 1 + name.len();
    assert(s.subrange(a, d) =~= schema);
    assert(s[d] == '.');
    assert(s.subrange(d + 1, e) =~= name);
    if e < s.len() {
        assert(s[e] == rest[0]);
    }
    a_bare_identifier_ends(s, a, schema);
    a_bare_identifier_ends(s, d + 1, name);
    assert(introspect::past_qualified(s, d + 1) == Some(e));
    assert(introspect::past_qualified(s, a) == Some(e));
    assert(s.subrange(e, s.len() as int) =~= rest);
}

} // verus!
