//! What a pull finds does not rest on the order in which the catalog names its
//! tables.
use vstd::prelude::*;

use crate::entries;
use crate::entries::Entry;
use crate::granted;
use crate::introspect;
use crate::introspect::{
    Built, Modules, RawCatalog, RawConstraint, RawTable, ReadBack, TableView, Tables,
};
use crate::model;
use crate::recorded;

verus! {

/// The rank of a table's name.
spec fn rank_of(t: RawTable) -> Seq<Seq<char>> {
    model::table_rank(introspect::name_of(t))
}

/// Whether no two tables share a number, and no two a name.
pub open spec fn tables_are_distinct(tables: Seq<RawTable>) -> bool {
    forall|i: int, j: int|
        0 <= i < tables.len() && 0 <= j < tables.len() && i != j ==> {
            &&& (#[trigger] tables[i]).oid != (#[trigger] tables[j]).oid
            &&& introspect::name_of(tables[i]) != introspect::name_of(tables[j])
        }
}

/// Whether two catalogs differ in their tables alone.
spec fn same_rest(a: RawCatalog, b: RawCatalog) -> bool {
    b == (RawCatalog { tables: b.tables, ..a })
}

/// Whether two lists of numbers hold the same.
spec fn same_numbers(a: Seq<i64>, b: Seq<i64>) -> bool {
    forall|o: i64| #[trigger] a.contains(o) == b.contains(o)
}

// ---------------------------------------------------------------------------
// One table

proof fn refusals_agree(a: RawCatalog, b: RawCatalog, read: ReadBack, t: RawTable)
    requires
        same_rest(a, b),
    ensures
        introspect::unwritable(a, read, t) == introspect::unwritable(b, read, t),
{
    types_agree(a, b, read, t.oid, a.columns@.len() as int);
    names_agree(a, b, read, t.oid, introspect::name_of(t), 0);
}

proof fn types_agree(a: RawCatalog, b: RawCatalog, read: ReadBack, table: i64, n: int)
    requires
        same_rest(a, b),
    ensures
        introspect::unwritable_columns(a, read, table, n) == introspect::unwritable_columns(
            b,
            read,
            table,
            n,
        ),
    decreases n,
{
    if n > 0 {
        types_agree(a, b, read, table, n - 1);
    }
}

proof fn names_agree(
    a: RawCatalog,
    b: RawCatalog,
    read: ReadBack,
    table: i64,
    name: model::Qualified,
    at: int,
)
    requires
        same_rest(a, b),
        0 <= at <= a.columns@.len(),
    ensures
        introspect::lost_column(a, read, table, name, at) == introspect::lost_column(
            b,
            read,
            table,
            name,
            at,
        ),
    decreases a.columns@.len() - at,
{
    if at < a.columns@.len() {
        names_agree(a, b, read, table, name, at + 1);
    }
}

proof fn columns_agree(
    a: RawCatalog,
    b: RawCatalog,
    read: ReadBack,
    t: RawTable,
    s: Seq<i64>,
    n: int,
)
    requires
        same_rest(a, b),
    ensures
        ({
            let x = introspect::with_columns(a, read, t, s, n);
            let y = introspect::with_columns(b, read, t, Seq::empty(), n);
            x.table == y.table && x.surviving == s && y.surviving == Seq::<i64>::empty()
        }),
    decreases n,
{
    if n > 0 {
        columns_agree(a, b, read, t, s, n - 1);
    }
}

proof fn constraints_agree(
    a: RawCatalog,
    b: RawCatalog,
    p: Seq<i64>,
    q: Seq<i64>,
    t: RawTable,
    x: Built,
    y: Built,
    s: Seq<i64>,
    n: int,
)
    requires
        same_rest(a, b),
        x.table == y.table,
        x.surviving == s + y.surviving,
    ensures
        ({
            let u = introspect::with_constraints(a, p, t, x, n);
            let v = introspect::with_constraints(b, q, t, y, n);
            u.table == v.table && u.surviving == s + v.surviving
        }),
    decreases n,
{
    if n > 0 {
        constraints_agree(a, b, p, q, t, x, y, s, n - 1);
        let u = introspect::with_constraints(a, p, t, x, n - 1);
        let v = introspect::with_constraints(b, q, t, y, n - 1);
        let c = a.constraints@[n - 1];
        if let Some(oid) = c.index_oid {
            assert(u.surviving.push(oid) =~= s + v.surviving.push(oid));
        }
    }
}

proof fn indexes_agree(
    a: RawCatalog,
    b: RawCatalog,
    t: RawTable,
    x: Built,
    y: Built,
    s: Seq<i64>,
    n: int,
)
    requires
        same_rest(a, b),
        x.table == y.table,
        x.surviving == s + y.surviving,
    ensures
        ({
            let u = introspect::with_indexes(a, t, x, n);
            let v = introspect::with_indexes(b, t, y, n);
            u.table == v.table && u.surviving == s + v.surviving
        }),
    decreases n,
{
    if n > 0 {
        indexes_agree(a, b, t, x, y, s, n - 1);
        let u = introspect::with_indexes(a, t, x, n - 1);
        let v = introspect::with_indexes(b, t, y, n - 1);
        let oid = a.indexes@[n - 1].oid;
        assert(u.surviving.push(oid) =~= s + v.surviving.push(oid));
    }
}

/// A table, all but its foreign keys, rests on the tables neither named nor
/// built before it.
proof fn builds_agree(
    a: RawCatalog,
    b: RawCatalog,
    read: ReadBack,
    p: Seq<i64>,
    q: Seq<i64>,
    t: RawTable,
    s: Seq<i64>,
)
    requires
        same_rest(a, b),
    ensures
        ({
            let x = introspect::built(a, read, p, t, s);
            let y = introspect::built(b, read, q, t, Seq::empty());
            x.table == y.table && x.surviving == s + y.surviving
        }),
{
    let n = a.columns@.len() as int;
    let m = a.constraints@.len() as int;
    let none = Seq::<i64>::empty();
    columns_agree(a, b, read, t, s, n);
    let x = introspect::with_columns(a, read, t, s, n);
    let y = introspect::with_columns(b, read, t, none, n);
    assert(s + none =~= s);
    constraints_agree(a, b, p, q, t, x, y, s, m);
    let u = introspect::with_constraints(a, p, t, x, m);
    let v = introspect::with_constraints(b, q, t, y, m);
    indexes_agree(a, b, t, u, v, s, a.indexes@.len() as int);
}

// ---------------------------------------------------------------------------
// All tables

/// The table that a row describes, all but its foreign keys.
spec fn base(raw: RawCatalog, read: ReadBack, refused: Seq<i64>, t: RawTable) -> TableView {
    introspect::built(raw, read, refused, t, Seq::empty()).table
}

/// The indexes of a row's table that reach the pull.
spec fn own(raw: RawCatalog, read: ReadBack, refused: Seq<i64>, t: RawTable) -> Seq<i64> {
    introspect::built(raw, read, refused, t, Seq::empty()).surviving
}

/// Whether one of the first `n` rows is recorded under this key.
spec fn is_read(raw: RawCatalog, refused: Seq<i64>, n: int, key: Seq<Seq<char>>) -> bool {
    exists|i: int|
        0 <= i < n && !refused.contains((#[trigger] raw.tables@[i]).oid) && rank_of(
            raw.tables@[i],
        ) == key
}

/// Whether an index of one of the first `n` rows reaches the pull.
spec fn reaches(raw: RawCatalog, read: ReadBack, refused: Seq<i64>, n: int, o: i64) -> bool {
    exists|i: int|
        0 <= i < n && !refused.contains((#[trigger] raw.tables@[i]).oid) && own(
            raw,
            read,
            refused,
            raw.tables@[i],
        ).contains(o)
}

proof fn tables_are_bases(
    raw: RawCatalog,
    read: ReadBack,
    refused: Seq<i64>,
    start: Tables,
    n: int,
)
    requires
        0 <= n <= raw.tables@.len(),
        start.tables.len() == 0,
        tables_are_distinct(raw.tables@),
    ensures
        ({
            let all = introspect::with_tables(raw, read, refused, start, n);
            &&& entries::ordered(all.tables)
            &&& forall|i: int|
                0 <= i < n && !refused.contains((#[trigger] raw.tables@[i]).oid)
                    ==> entries::found(all.tables, rank_of(raw.tables@[i])) == Some(
                    base(raw, read, refused, raw.tables@[i]),
                )
            &&& forall|key: Seq<Seq<char>>|
                (#[trigger] entries::found(all.tables, key)) is Some ==> is_read(
                    raw,
                    refused,
                    n,
                    key,
                )
        }),
    decreases n,
{
    let all = introspect::with_tables(raw, read, refused, start, n);
    if n <= 0 {
        assert forall|key: Seq<Seq<char>>| (#[trigger] entries::found(all.tables, key)) is None by {
            entries::found_is_an_entry(all.tables, key);
        }
    } else {
        tables_are_bases(raw, read, refused, start, n - 1);
        let front = introspect::with_tables(raw, read, refused, start, n - 1);
        let t = raw.tables@[n - 1];
        if refused.contains(t.oid) {
            assert forall|key: Seq<Seq<char>>| is_read(raw, refused, n - 1, key) implies is_read(
                raw,
                refused,
                n,
                key,
            ) by {}
        } else {
            builds_agree(raw, raw, read, refused, refused, t, front.surviving);
            let table = base(raw, read, refused, t);
            entries::put_is_a_map_insert(front.tables, rank_of(t), table);
            assert(all.tables == entries::put(front.tables, rank_of(t), table));
            assert forall|i: int|
                0 <= i < n && !refused.contains((#[trigger] raw.tables@[i]).oid) implies
                entries::found(all.tables, rank_of(raw.tables@[i])) == Some(
                base(raw, read, refused, raw.tables@[i]),
            ) by {
                if i < n - 1 {
                    recorded::different_tables_are_different_keys(
                        introspect::name_of(raw.tables@[i]),
                        introspect::name_of(t),
                    );
                }
            }
            assert forall|key: Seq<Seq<char>>|
                (#[trigger] entries::found(all.tables, key)) is Some implies is_read(
                raw,
                refused,
                n,
                key,
            ) by {
                if key == rank_of(t) {
                    assert(rank_of(raw.tables@[n - 1]) == key);
                } else {
                    assert(entries::found(front.tables, key) is Some);
                    assert(is_read(raw, refused, n - 1, key));
                }
            }
        }
    }
}

proof fn one_more_reaches(
    raw: RawCatalog,
    read: ReadBack,
    refused: Seq<i64>,
    n: int,
    o: i64,
)
    requires
        0 < n <= raw.tables@.len(),
    ensures
        reaches(raw, read, refused, n, o) == (reaches(raw, read, refused, n - 1, o) || (
        !refused.contains(raw.tables@[n - 1].oid) && own(
            raw,
            read,
            refused,
            raw.tables@[n - 1],
        ).contains(o))),
{
    if reaches(raw, read, refused, n, o) {
        let i = choose|i: int|
            0 <= i < n && !refused.contains((#[trigger] raw.tables@[i]).oid) && own(
                raw,
                read,
                refused,
                raw.tables@[i],
            ).contains(o);
        if i < n - 1 {
            assert(reaches(raw, read, refused, n - 1, o));
        }
    }
}

proof fn survivors_are_owned(
    raw: RawCatalog,
    read: ReadBack,
    refused: Seq<i64>,
    start: Tables,
    n: int,
    o: i64,
)
    requires
        0 <= n <= raw.tables@.len(),
        start.surviving.len() == 0,
    ensures
        introspect::with_tables(raw, read, refused, start, n).surviving.contains(o) == reaches(
            raw,
            read,
            refused,
            n,
            o,
        ),
    decreases n,
{
    if n > 0 {
        survivors_are_owned(raw, read, refused, start, n - 1, o);
        one_more_reaches(raw, read, refused, n, o);
        let front = introspect::with_tables(raw, read, refused, start, n - 1);
        let all = introspect::with_tables(raw, read, refused, start, n);
        let t = raw.tables@[n - 1];
        if !refused.contains(t.oid) {
            builds_agree(raw, raw, read, refused, refused, t, front.surviving);
            either_holds(front.surviving, own(raw, read, refused, t), o);
            assert(all.surviving == front.surviving + own(raw, read, refused, t));
        }
    }
}

proof fn either_holds(a: Seq<i64>, b: Seq<i64>, o: i64)
    ensures
        (a + b).contains(o) == (a.contains(o) || b.contains(o)),
{
    let c = a + b;
    if c.contains(o) {
        let k = choose|k: int| 0 <= k < c.len() && c[k] == o;
        if k < a.len() {
            assert(a[k] == o);
        } else {
            assert(b[k - a.len()] == o);
        }
    }
    if a.contains(o) {
        let k = choose|k: int| 0 <= k < a.len() && a[k] == o;
        assert(c[k] == o);
    }
    if b.contains(o) {
        let k = choose|k: int| 0 <= k < b.len() && b[k] == o;
        assert(c[a.len() + k] == o);
    }
}

/// A table with its foreign keys among the first `n` constraints.
spec fn keyed(
    raw: RawCatalog,
    refused: Seq<i64>,
    surviving: Seq<i64>,
    t: RawTable,
    table: TableView,
    n: int,
) -> TableView
    decreases n,
{
    if n <= 0 {
        table
    } else {
        let front = keyed(raw, refused, surviving, t, table, n - 1);
        let c = raw.constraints@[n - 1];
        if c.table_oid == t.oid && c.kind == 'f' {
            introspect::with_kept(
                front,
                introspect::constraint_read(
                    raw,
                    refused,
                    surviving,
                    c,
                    introspect::name_of(t),
                ).kept,
            )
        } else {
            front
        }
    }
}

proof fn foreign_keys_are_keyed(
    raw: RawCatalog,
    refused: Seq<i64>,
    t: RawTable,
    start: Tables,
    table: TableView,
    n: int,
)
    requires
        entries::ordered(start.tables),
        entries::found(start.tables, rank_of(t)) == Some(table),
    ensures
        ({
            let all = introspect::with_foreign_keys(raw, refused, t, start, n);
            &&& entries::ordered(all.tables)
            &&& all.surviving == start.surviving
            &&& entries::found(all.tables, rank_of(t)) == Some(
                keyed(raw, refused, start.surviving, t, table, n),
            )
            &&& forall|key: Seq<Seq<char>>|
                key != rank_of(t) ==> #[trigger] entries::found(all.tables, key) == entries::found(
                    start.tables,
                    key,
                )
        }),
    decreases n,
{
    if n > 0 {
        foreign_keys_are_keyed(raw, refused, t, start, table, n - 1);
        let front = introspect::with_foreign_keys(raw, refused, t, start, n - 1);
        let value = keyed(raw, refused, start.surviving, t, table, n);
        entries::put_behind_is_a_map_insert(front.tables, rank_of(t), value);
        entries::replacing_keeps_the_order(front.tables, rank_of(t), value);
    }
}

proof fn all_foreign_keys_are_keyed(
    raw: RawCatalog,
    read: ReadBack,
    refused: Seq<i64>,
    start: Tables,
    n: int,
)
    requires
        0 <= n <= raw.tables@.len(),
        tables_are_distinct(raw.tables@),
        entries::ordered(start.tables),
        forall|i: int|
            0 <= i < raw.tables@.len() && !refused.contains((#[trigger] raw.tables@[i]).oid)
                ==> entries::found(start.tables, rank_of(raw.tables@[i])) == Some(
                base(raw, read, refused, raw.tables@[i]),
            ),
    ensures
        ({
            let all = introspect::with_all_foreign_keys(raw, refused, start, n);
            &&& entries::ordered(all.tables)
            &&& all.surviving == start.surviving
            &&& forall|i: int|
                0 <= i < raw.tables@.len() && !refused.contains((#[trigger] raw.tables@[i]).oid)
                    ==> entries::found(all.tables, rank_of(raw.tables@[i])) == Some(
                    if i < n {
                        keyed(
                            raw,
                            refused,
                            start.surviving,
                            raw.tables@[i],
                            base(raw, read, refused, raw.tables@[i]),
                            raw.constraints@.len() as int,
                        )
                    } else {
                        base(raw, read, refused, raw.tables@[i])
                    },
                )
            &&& forall|key: Seq<Seq<char>>|
                (#[trigger] entries::found(all.tables, key)) is Some ==> entries::found(
                    start.tables,
                    key,
                ) is Some
        }),
    decreases n,
{
    if n > 0 {
        all_foreign_keys_are_keyed(raw, read, refused, start, n - 1);
        let front = introspect::with_all_foreign_keys(raw, refused, start, n - 1);
        let all = introspect::with_all_foreign_keys(raw, refused, start, n);
        let t = raw.tables@[n - 1];
        if !refused.contains(t.oid) {
            foreign_keys_are_keyed(
                raw,
                refused,
                t,
                front,
                base(raw, read, refused, t),
                raw.constraints@.len() as int,
            );
            assert forall|i: int|
                0 <= i < raw.tables@.len() && !refused.contains((#[trigger] raw.tables@[i]).oid)
                    && i != n - 1 implies entries::found(all.tables, rank_of(raw.tables@[i]))
                == entries::found(front.tables, rank_of(raw.tables@[i])) by {
                recorded::different_tables_are_different_keys(
                    introspect::name_of(raw.tables@[i]),
                    introspect::name_of(t),
                );
            }
        }
    }
}

// ---------------------------------------------------------------------------
// Two orders

proof fn a_name_is_the_tables_own(tables: Seq<RawTable>, n: int, oid: i64)
    requires
        0 <= n <= tables.len(),
    ensures
        match introspect::table_named(tables, n, oid) {
            Some(name) => exists|i: int|
                0 <= i < n && (#[trigger] tables[i]).oid == oid && introspect::name_of(tables[i])
                    == name,
            None => forall|i: int| 0 <= i < n ==> (#[trigger] tables[i]).oid != oid,
        },
    decreases n,
{
    if n > 0 {
        if tables[n - 1].oid != oid {
            a_name_is_the_tables_own(tables, n - 1, oid);
        }
    }
}

proof fn table_names_agree(a: Seq<RawTable>, b: Seq<RawTable>, oid: i64)
    requires
        tables_are_distinct(a),
        forall|t: RawTable| #[trigger] a.contains(t) == b.contains(t),
    ensures
        introspect::table_named(a, a.len() as int, oid) == introspect::table_named(
            b,
            b.len() as int,
            oid,
        ),
{
    a_name_is_the_tables_own(a, a.len() as int, oid);
    a_name_is_the_tables_own(b, b.len() as int, oid);
    if introspect::table_named(b, b.len() as int, oid) is Some {
        let i = choose|i: int|
            0 <= i < b.len() && (#[trigger] b[i]).oid == oid && Some(introspect::name_of(b[i]))
                == introspect::table_named(b, b.len() as int, oid);
        assert(b.contains(b[i]));
        assert(a.contains(b[i]));
        let j = choose|j: int| 0 <= j < a.len() && a[j] == b[i];
        assert(a[j].oid == oid);
    }
    if introspect::table_named(a, a.len() as int, oid) is Some {
        let i = choose|i: int|
            0 <= i < a.len() && (#[trigger] a[i]).oid == oid && Some(introspect::name_of(a[i]))
                == introspect::table_named(a, a.len() as int, oid);
        assert(a.contains(a[i]));
        let j = choose|j: int| 0 <= j < b.len() && b[j] == a[i];
        assert(b[j].oid == oid);
    }
}

proof fn keys_agree(
    a: RawCatalog,
    b: RawCatalog,
    p: Seq<i64>,
    q: Seq<i64>,
    x: Seq<i64>,
    y: Seq<i64>,
    t: RawTable,
    table: TableView,
    n: int,
)
    requires
        same_rest(a, b),
        same_numbers(p, q),
        same_numbers(x, y),
        forall|oid: i64| #[trigger]
            introspect::table_named(a.tables@, a.tables@.len() as int, oid)
                == introspect::table_named(b.tables@, b.tables@.len() as int, oid),
    ensures
        keyed(a, p, x, t, table, n) == keyed(b, q, y, t, table, n),
    decreases n,
{
    if n > 0 {
        keys_agree(a, b, p, q, x, y, t, table, n - 1);
        let c = a.constraints@[n - 1];
        a_key_agrees(a, b, p, q, x, y, c, introspect::name_of(t));
    }
}

proof fn a_key_agrees(
    a: RawCatalog,
    b: RawCatalog,
    p: Seq<i64>,
    q: Seq<i64>,
    x: Seq<i64>,
    y: Seq<i64>,
    c: RawConstraint,
    name: model::Qualified,
)
    requires
        same_rest(a, b),
        same_numbers(p, q),
        same_numbers(x, y),
        forall|oid: i64| #[trigger]
            introspect::table_named(a.tables@, a.tables@.len() as int, oid)
                == introspect::table_named(b.tables@, b.tables@.len() as int, oid),
    ensures
        introspect::constraint_read(a, p, x, c, name) == introspect::constraint_read(
            b,
            q,
            y,
            c,
            name,
        ),
{
    if let Some(oid) = c.index_oid {
        assert(x.contains(oid) == y.contains(oid));
    }
    if let Some(oid) = c.ref_table {
        assert(p.contains(oid) == q.contains(oid));
    }
}

proof fn a_refusal_is_a_tables(raw: RawCatalog, read: ReadBack, n: int, o: i64)
    requires
        0 <= n <= raw.tables@.len(),
    ensures
        introspect::refused_tables(raw, read, n).contains(o) <==> exists|i: int|
            0 <= i < n && (#[trigger] raw.tables@[i]).oid == o && introspect::unwritable(
                raw,
                read,
                raw.tables@[i],
            ) is Some,
    decreases n,
{
    if n > 0 {
        a_refusal_is_a_tables(raw, read, n - 1, o);
        let front = introspect::refused_tables(raw, read, n - 1);
        let all = introspect::refused_tables(raw, read, n);
        let t = raw.tables@[n - 1];
        if introspect::unwritable(raw, read, t) is Some {
            assert(all == front.push(t.oid));
            assert(all[front.len() as int] == t.oid);
            if front.contains(o) {
                let k = choose|k: int| 0 <= k < front.len() && front[k] == o;
                assert(all[k] == o);
            }
        }
    }
}

/// One direction of it: what is refused in one order is refused in the other.
proof fn a_refusal_carries_over(a: RawCatalog, b: RawCatalog, read: ReadBack, o: i64)
    requires
        same_rest(a, b),
        forall|t: RawTable| #[trigger] a.tables@.contains(t) ==> b.tables@.contains(t),
        introspect::refused_tables(a, read, a.tables@.len() as int).contains(o),
    ensures
        introspect::refused_tables(b, read, b.tables@.len() as int).contains(o),
{
    let n = a.tables@.len() as int;
    let m = b.tables@.len() as int;
    a_refusal_is_a_tables(a, read, n, o);
    a_refusal_is_a_tables(b, read, m, o);
    let i = choose|i: int|
        0 <= i < n && (#[trigger] a.tables@[i]).oid == o && introspect::unwritable(
            a,
            read,
            a.tables@[i],
        ) is Some;
    refusals_agree(a, b, read, a.tables@[i]);
    assert(a.tables@.contains(a.tables@[i]));
    let j = choose|j: int| 0 <= j < m && b.tables@[j] == a.tables@[i];
    assert(b.tables@[j].oid == o);
}

/// One direction of it: an index that survives in one order survives in the
/// other.
proof fn a_survivor_carries_over(
    a: RawCatalog,
    b: RawCatalog,
    read: ReadBack,
    p: Seq<i64>,
    q: Seq<i64>,
    o: i64,
)
    requires
        same_rest(a, b),
        same_numbers(p, q),
        forall|t: RawTable| #[trigger] a.tables@.contains(t) ==> b.tables@.contains(t),
        reaches(a, read, p, a.tables@.len() as int, o),
    ensures
        reaches(b, read, q, b.tables@.len() as int, o),
{
    let i = choose|i: int|
        0 <= i < a.tables@.len() && !p.contains((#[trigger] a.tables@[i]).oid) && own(
            a,
            read,
            p,
            a.tables@[i],
        ).contains(o);
    let t = a.tables@[i];
    let none = Seq::<i64>::empty();
    builds_agree(a, b, read, p, q, t, none);
    assert(none + own(b, read, q, t) =~= own(b, read, q, t));
    assert(a.tables@.contains(t));
    let j = choose|j: int| 0 <= j < b.tables@.len() && b.tables@[j] == t;
    assert(p.contains(t.oid) == q.contains(t.oid));
    assert(!q.contains(b.tables@[j].oid));
}

/// One direction of it: what stands under a key in one order stands there in
/// the other.
proof fn a_table_carries_over(
    a: RawCatalog,
    b: RawCatalog,
    read: ReadBack,
    key: Seq<Seq<char>>,
)
    requires
        same_rest(a, b),
        tables_are_distinct(a.tables@),
        tables_are_distinct(b.tables@),
        forall|t: RawTable| #[trigger] a.tables@.contains(t) == b.tables@.contains(t),
        entries::found(introspect::tables_read(a, read).tables, key) is Some,
    ensures
        entries::found(introspect::tables_read(b, read).tables, key) == entries::found(
            introspect::tables_read(a, read).tables,
            key,
        ),
{
    let n = a.tables@.len() as int;
    let m = b.tables@.len() as int;
    let p = introspect::refused_tables(a, read, n);
    let q = introspect::refused_tables(b, read, m);
    assert(same_numbers(p, q)) by {
        assert forall|o: i64| #[trigger] p.contains(o) == q.contains(o) by {
            if p.contains(o) {
                a_refusal_carries_over(a, b, read, o);
            }
            if q.contains(o) {
                a_refusal_carries_over(b, a, read, o);
            }
        }
    }
    let from = Tables {
        tables: Seq::empty(),
        log: introspect::refusals_log(a, read, introspect::empty_log(), n),
        surviving: Seq::empty(),
    };
    let other = Tables {
        tables: Seq::empty(),
        log: introspect::refusals_log(b, read, introspect::empty_log(), m),
        surviving: Seq::empty(),
    };
    tables_are_bases(a, read, p, from, n);
    tables_are_bases(b, read, q, other, m);
    let x = introspect::with_tables(a, read, p, from, n);
    let y = introspect::with_tables(b, read, q, other, m);
    assert(same_numbers(x.surviving, y.surviving)) by {
        assert forall|o: i64| #[trigger] x.surviving.contains(o) == y.surviving.contains(o) by {
            survivors_are_owned(a, read, p, from, n, o);
            survivors_are_owned(b, read, q, other, m, o);
            if reaches(a, read, p, n, o) {
                a_survivor_carries_over(a, b, read, p, q, o);
            }
            if reaches(b, read, q, m, o) {
                a_survivor_carries_over(b, a, read, q, p, o);
            }
        }
    }
    all_foreign_keys_are_keyed(a, read, p, x, n);
    all_foreign_keys_are_keyed(b, read, q, y, m);
    assert(entries::found(x.tables, key) is Some);
    assert(is_read(a, p, n, key));
    let i = choose|i: int|
        0 <= i < n && !p.contains((#[trigger] a.tables@[i]).oid) && rank_of(a.tables@[i]) == key;
    let t = a.tables@[i];
    assert(a.tables@.contains(t));
    let j = choose|j: int| 0 <= j < m && b.tables@[j] == t;
    assert(p.contains(t.oid) == q.contains(t.oid));
    assert(!q.contains(b.tables@[j].oid));
    let none = Seq::<i64>::empty();
    builds_agree(a, b, read, p, q, t, none);
    assert forall|oid: i64| #[trigger]
        introspect::table_named(a.tables@, n, oid) == introspect::table_named(
            b.tables@,
            m,
            oid,
        ) by {
        table_names_agree(a.tables@, b.tables@, oid);
    }
    keys_agree(
        a,
        b,
        p,
        q,
        x.surviving,
        y.surviving,
        t,
        base(a, read, p, t),
        a.constraints@.len() as int,
    );
}

proof fn tables_read_in_order(raw: RawCatalog, read: ReadBack)
    requires
        tables_are_distinct(raw.tables@),
    ensures
        entries::ordered(introspect::tables_read(raw, read).tables),
{
    let n = raw.tables@.len() as int;
    let refused = introspect::refused_tables(raw, read, n);
    let start = Tables {
        tables: Seq::empty(),
        log: introspect::refusals_log(raw, read, introspect::empty_log(), n),
        surviving: Seq::empty(),
    };
    tables_are_bases(raw, read, refused, start, n);
    all_foreign_keys_are_keyed(
        raw,
        read,
        refused,
        introspect::with_tables(raw, read, refused, start, n),
        n,
    );
}

proof fn modules_agree(
    a: RawCatalog,
    b: RawCatalog,
    read: ReadBack,
    x: Modules,
    y: Modules,
    n: int,
)
    requires
        same_rest(a, b),
        x.modules == y.modules,
        x.ids == y.ids,
    ensures
        ({
            let u = introspect::with_modules(a, read, x, n);
            let v = introspect::with_modules(b, read, y, n);
            u.modules == v.modules && u.ids == v.ids
        }),
    decreases n,
{
    if n > 0 {
        modules_agree(a, b, read, x, y, n - 1);
    }
}

proof fn grants_agree(
    a: RawCatalog,
    b: RawCatalog,
    read: ReadBack,
    tables: Seq<Entry<TableView>>,
    modules: Seq<Entry<(model::ModuleKind, Seq<char>)>>,
    start: granted::Granted,
    n: int,
)
    requires
        same_rest(a, b),
    ensures
        granted::with_grants(a, read, tables, modules, start, n) == granted::with_grants(
            b,
            read,
            tables,
            modules,
            start,
            n,
        ),
    decreases n,
{
    if n > 0 {
        grants_agree(a, b, read, tables, modules, start, n - 1);
    }
}

proof fn lines_agree(
    a: RawCatalog,
    b: RawCatalog,
    roles: Seq<Entry<granted::RoleView>>,
    n: int,
)
    requires
        same_rest(a, b),
    ensures
        granted::lines(a, roles, n) == granted::lines(b, roles, n),
    decreases n,
{
    if n > 0 {
        lines_agree(a, b, roles, n - 1);
    }
}

/// The schema that a pull describes does not rest on the order in which the
/// catalog names its tables: a key is kept or not whichever of its two tables
/// comes first.
pub proof fn the_order_of_the_tables_does_not_matter(
    raw: RawCatalog,
    other: RawCatalog,
    read: ReadBack,
)
    requires
        other == (RawCatalog { tables: other.tables, ..raw }),
        other.tables@.to_multiset() == raw.tables@.to_multiset(),
        tables_are_distinct(raw.tables@),
    ensures
        ({
            let a = introspect::assembled(raw, read);
            let b = introspect::assembled(other, read);
            &&& a.tables == b.tables
            &&& a.modules == b.modules
            &&& a.ids == b.ids
            &&& a.roles == b.roles
            &&& a.unexpressible == b.unexpressible
        }),
{
    let s = raw.tables@;
    let r = other.tables@;
    s.to_multiset_ensures();
    r.to_multiset_ensures();
    assert forall|t: RawTable| #[trigger] s.contains(t) == r.contains(t) by {
        assert(s.contains(t) <==> s.to_multiset().count(t) > 0);
        assert(r.contains(t) <==> r.to_multiset().count(t) > 0);
    }
    assert(s.no_duplicates()) by {
        assert forall|i: int, j: int|
            0 <= i < s.len() && 0 <= j < s.len() && i != j implies s[i] != s[j] by {
            assert(s[i].oid != s[j].oid);
        }
    }
    s.lemma_multiset_has_no_duplicates();
    r.lemma_multiset_has_no_duplicates_conv();
    assert(tables_are_distinct(r)) by {
        assert forall|i: int, j: int| 0 <= i < r.len() && 0 <= j < r.len() && i != j implies {
            &&& (#[trigger] r[i]).oid != (#[trigger] r[j]).oid
            &&& introspect::name_of(r[i]) != introspect::name_of(r[j])
        } by {
            assert(r.contains(r[i]) && r.contains(r[j]));
            assert(s.contains(r[i]) && s.contains(r[j]));
            let k = choose|k: int| 0 <= k < s.len() && s[k] == r[i];
            let l = choose|l: int| 0 <= l < s.len() && s[l] == r[j];
            assert(r[i] != r[j]);
            assert(s[k].oid != s[l].oid);
        }
    }
    let a = introspect::tables_read(raw, read);
    let b = introspect::tables_read(other, read);
    tables_read_in_order(raw, read);
    tables_read_in_order(other, read);
    assert forall|key: Seq<Seq<char>>| #[trigger]
        entries::found(a.tables, key) == entries::found(b.tables, key) by {
        if entries::found(a.tables, key) is Some {
            a_table_carries_over(raw, other, read, key);
        }
        if entries::found(b.tables, key) is Some {
            a_table_carries_over(other, raw, read, key);
        }
    }
    entries::the_same_map_is_the_same_list(a.tables, b.tables);
    modules_agree(
        raw,
        other,
        read,
        Modules { modules: Seq::empty(), ids: Seq::empty(), log: a.log },
        Modules { modules: Seq::empty(), ids: Seq::empty(), log: b.log },
        raw.modules@.len() as int,
    );
    let modules = introspect::modules_read(raw, read).modules;
    let start = granted::with_roles(
        raw.roles@,
        granted::nothing_granted(),
        raw.roles@.len() as int,
    );
    let m = raw.grants@.len() as int;
    grants_agree(raw, other, read, a.tables, modules, start, m);
    lines_agree(
        raw,
        other,
        granted::with_grants(raw, read, a.tables, modules, start, m).roles,
        raw.other_grants@.len() as int,
    );
}

} // verus!
