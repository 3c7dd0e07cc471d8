//! Laws of a pull: what a catalog holds, and the model can, is in it.
use vstd::prelude::*;

use crate::entries;
use crate::entries::Entry;
use crate::introspect;
use crate::introspect::{
    Built, IndexRead, Kept, ModuleRead, Modules, RawCatalog, RawConstraint, RawTable, ReadBack,
    TableView, Tables,
};
use crate::model;

verus! {

// ---------------------------------------------------------------------------
// Catalogs

/// Whether no two columns of a table have one name.
pub open spec fn columns_are_named(raw: RawCatalog, oid: i64) -> bool {
    forall|a: int, b: int|
        0 <= a < b < raw.columns@.len() && (#[trigger] raw.columns@[a]).table_oid == oid && (
        #[trigger] raw.columns@[b]).table_oid == oid ==> raw.columns@[a].name@
            != raw.columns@[b].name@
}

/// Whether no two constraints of a table have one name, and one of them at
/// most is its primary key.
pub open spec fn constraints_are_named(raw: RawCatalog, oid: i64) -> bool {
    forall|a: int, b: int|
        0 <= a < b < raw.constraints@.len() && (#[trigger] raw.constraints@[a]).table_oid == oid
            && (#[trigger] raw.constraints@[b]).table_oid == oid ==> raw.constraints@[a].name@
            != raw.constraints@[b].name@ && !(raw.constraints@[a].kind == 'p'
            && raw.constraints@[b].kind == 'p')
}

/// Whether no two indexes of a table have one name.
pub open spec fn indexes_are_named(raw: RawCatalog, oid: i64) -> bool {
    forall|a: int, b: int|
        0 <= a < b < raw.indexes@.len() && (#[trigger] raw.indexes@[a]).table_oid == oid && (
        #[trigger] raw.indexes@[b]).table_oid == oid ==> raw.indexes@[a].name@
            != raw.indexes@[b].name@
}

/// Whether no two tables have one name.
pub open spec fn tables_are_named(raw: RawCatalog) -> bool {
    forall|a: int, b: int|
        0 <= a < b < raw.tables@.len() ==> introspect::name_of(#[trigger] raw.tables@[a])
            != introspect::name_of(#[trigger] raw.tables@[b])
}

// ---------------------------------------------------------------------------
// One table

/// Whether what a constraint leaves is in a table.
pub open spec fn holds(table: TableView, kept: Kept) -> bool {
    match kept {
        Kept::Nothing => true,
        Kept::PrimaryKey { name, columns } => table.primary_key == Some((Some(name), columns)),
        Kept::Unique { name, columns } => entries::found(table.unique, seq![name]) == Some(columns),
        Kept::Check { name, expression } => entries::found(table.checks, seq![name]) == Some(
            expression,
        ),
        Kept::ForeignKey { name, key } => entries::found(table.foreign_keys, seq![name]) == Some(
            key,
        ),
    }
}

/// Whether what one constraint leaves takes the place of what another left.
spec fn displaces(later: Kept, earlier: Kept) -> bool {
    match (later, earlier) {
        (Kept::PrimaryKey { .. }, Kept::PrimaryKey { .. }) => true,
        (Kept::Unique { name: a, .. }, Kept::Unique { name: b, .. }) => a == b,
        (Kept::Check { name: a, .. }, Kept::Check { name: b, .. }) => a == b,
        (Kept::ForeignKey { name: a, .. }, Kept::ForeignKey { name: b, .. }) => a == b,
        _ => false,
    }
}

/// Whether the parts of a table stand in order.
spec fn is_tidy(table: TableView) -> bool {
    &&& entries::ordered(table.unique)
    &&& entries::ordered(table.checks)
    &&& entries::ordered(table.foreign_keys)
    &&& entries::ordered(table.indexes)
}

proof fn different_names_are_different_keys(a: Seq<char>, b: Seq<char>)
    requires
        a != b,
    ensures
        seq![a] != seq![b],
{
    assert(seq![a][0] == a && seq![b][0] == b);
}

proof fn keeping_holds(table: TableView, kept: Kept, earlier: Kept)
    requires
        is_tidy(table),
    ensures
        is_tidy(introspect::with_kept(table, kept)),
        holds(introspect::with_kept(table, kept), kept),
        holds(table, earlier) && !displaces(kept, earlier) ==> holds(
            introspect::with_kept(table, kept),
            earlier,
        ),
{
    match kept {
        Kept::Nothing => {},
        Kept::PrimaryKey { name, columns } => {},
        Kept::Unique { name, columns } => {
            entries::put_is_a_map_insert(table.unique, seq![name], columns);
            if let Kept::Unique { name: other, columns: _ } = earlier {
                if name != other {
                    different_names_are_different_keys(name, other);
                }
            }
        },
        Kept::Check { name, expression } => {
            entries::put_is_a_map_insert(table.checks, seq![name], expression);
            if let Kept::Check { name: other, expression: _ } = earlier {
                if name != other {
                    different_names_are_different_keys(name, other);
                }
            }
        },
        Kept::ForeignKey { name, key } => {
            entries::put_is_a_map_insert(table.foreign_keys, seq![name], key);
            if let Kept::ForeignKey { name: other, key: _ } = earlier {
                if name != other {
                    different_names_are_different_keys(name, other);
                }
            }
        },
    }
}

/// What a constraint leaves has its name, and is of its kind.
proof fn a_constraint_keeps_its_name(
    raw: RawCatalog,
    refused: Seq<i64>,
    surviving: Seq<i64>,
    c: RawConstraint,
    table: model::Qualified,
)
    ensures
        match introspect::constraint_read(raw, refused, surviving, c, table).kept {
            Kept::Nothing => true,
            Kept::PrimaryKey { name, .. } => name == c.name@ && c.kind == 'p',
            Kept::Unique { name, .. } => name == c.name@ && c.kind == 'u',
            Kept::Check { name, .. } => name == c.name@ && c.kind == 'c',
            Kept::ForeignKey { name, .. } => name == c.name@ && c.kind == 'f',
        },
{
}

proof fn named_constraints_do_not_displace(
    raw: RawCatalog,
    refused: Seq<i64>,
    surviving: Seq<i64>,
    t: RawTable,
    a: int,
    b: int,
)
    requires
        constraints_are_named(raw, t.oid),
        0 <= a < b < raw.constraints@.len(),
        raw.constraints@[a].table_oid == t.oid,
        raw.constraints@[b].table_oid == t.oid,
    ensures
        !displaces(
            introspect::constraint_read(
                raw,
                refused,
                surviving,
                raw.constraints@[b],
                introspect::name_of(t),
            ).kept,
            introspect::constraint_read(
                raw,
                refused,
                surviving,
                raw.constraints@[a],
                introspect::name_of(t),
            ).kept,
        ),
{
    let name = introspect::name_of(t);
    a_constraint_keeps_its_name(raw, refused, surviving, raw.constraints@[a], name);
    a_constraint_keeps_its_name(raw, refused, surviving, raw.constraints@[b], name);
}

proof fn a_column_stays(
    raw: RawCatalog,
    read: ReadBack,
    t: RawTable,
    surviving: Seq<i64>,
    n: int,
    k: int,
)
    requires
        n <= raw.columns@.len(),
        columns_are_named(raw, t.oid),
    ensures
        ({
            let after = introspect::with_columns(raw, read, t, surviving, n).table;
            &&& is_tidy(after)
            &&& 0 <= k < n && raw.columns@[k].table_oid == t.oid ==> entries::found(
                after.columns,
                seq![raw.columns@[k].name@],
            ) == Some(introspect::column_read(read, raw.columns@[k]))
        }),
    decreases n,
{
    if n > 0 {
        a_column_stays(raw, read, t, surviving, n - 1, k);
        let front = introspect::with_columns(raw, read, t, surviving, n - 1).table;
        let c = raw.columns@[n - 1];
        if c.table_oid == t.oid {
            entries::put_behind_is_a_map_insert(
                front.columns,
                seq![c.name@],
                introspect::column_read(read, c),
            );
            if 0 <= k < n - 1 && raw.columns@[k].table_oid == t.oid {
                different_names_are_different_keys(raw.columns@[k].name@, c.name@);
            }
        }
    }
}

proof fn a_constraint_stays(
    raw: RawCatalog,
    refused: Seq<i64>,
    t: RawTable,
    start: Built,
    n: int,
    k: int,
)
    requires
        n <= raw.constraints@.len(),
        constraints_are_named(raw, t.oid),
        is_tidy(start.table),
    ensures
        ({
            let after = introspect::with_constraints(raw, refused, t, start, n).table;
            &&& is_tidy(after)
            &&& after.columns == start.table.columns
            &&& 0 <= k < n && raw.constraints@[k].table_oid == t.oid && raw.constraints@[k].kind
                != 'f' ==> holds(
                after,
                introspect::constraint_read(
                    raw,
                    refused,
                    Seq::empty(),
                    raw.constraints@[k],
                    introspect::name_of(t),
                ).kept,
            )
        }),
    decreases n,
{
    if n > 0 {
        a_constraint_stays(raw, refused, t, start, n - 1, k);
        let front = introspect::with_constraints(raw, refused, t, start, n - 1).table;
        let name = introspect::name_of(t);
        let c = raw.constraints@[n - 1];
        let empty = Seq::<i64>::empty();
        let kept = introspect::constraint_read(raw, refused, empty, c, name).kept;
        let other = raw.constraints@[if 0 <= k < n {
            k
        } else {
            n - 1
        }];
        let earlier = introspect::constraint_read(raw, refused, empty, other, name).kept;
        if c.table_oid == t.oid && c.kind != 'f' {
            keeping_holds(front, kept, earlier);
            if 0 <= k < n - 1 && other.table_oid == t.oid {
                named_constraints_do_not_displace(raw, refused, empty, t, k, n - 1);
            }
        }
    }
}

proof fn an_index_stays(raw: RawCatalog, t: RawTable, start: Built, n: int, k: int)
    requires
        n <= raw.indexes@.len(),
        indexes_are_named(raw, t.oid),
        is_tidy(start.table),
    ensures
        ({
            let after = introspect::with_indexes(raw, t, start, n).table;
            &&& is_tidy(after)
            &&& after == (TableView { indexes: after.indexes, ..start.table })
            &&& 0 <= k < n && raw.indexes@[k].table_oid == t.oid && !introspect::is_a_constraint(
                raw.constraints@,
                raw.indexes@[k].oid,
            ) ==> (introspect::index_read(
                raw.columns@,
                raw.indexes@[k],
                introspect::name_of(t),
            ) matches IndexRead::Kept { index, .. } ==> entries::found(
                after.indexes,
                seq![raw.indexes@[k].name@],
            ) == Some(index))
        }),
    decreases n,
{
    if n > 0 {
        an_index_stays(raw, t, start, n - 1, k);
        let front = introspect::with_indexes(raw, t, start, n - 1).table;
        let i = raw.indexes@[n - 1];
        if i.table_oid == t.oid && !introspect::is_a_constraint(raw.constraints@, i.oid) {
            if let IndexRead::Kept { index, notes: _ } = introspect::index_read(
                raw.columns@,
                i,
                introspect::name_of(t),
            ) {
                entries::put_is_a_map_insert(front.indexes, seq![i.name@], index);
                if 0 <= k < n - 1 && raw.indexes@[k].table_oid == t.oid {
                    different_names_are_different_keys(raw.indexes@[k].name@, i.name@);
                }
            }
        }
    }
}

/// Whether a table holds everything that its rows describe, apart from its
/// foreign keys.
spec fn is_described(
    raw: RawCatalog,
    read: ReadBack,
    refused: Seq<i64>,
    t: RawTable,
    table: TableView,
) -> bool {
    let name = introspect::name_of(t);
    &&& forall|k: int|
        0 <= k < raw.columns@.len() && (#[trigger] raw.columns@[k]).table_oid == t.oid
            ==> entries::found(table.columns, seq![raw.columns@[k].name@]) == Some(
            introspect::column_read(read, raw.columns@[k]),
        )
    &&& forall|k: int|
        0 <= k < raw.constraints@.len() && (#[trigger] raw.constraints@[k]).table_oid == t.oid
            && raw.constraints@[k].kind != 'f' ==> holds(
            table,
            introspect::constraint_read(
                raw,
                refused,
                Seq::empty(),
                raw.constraints@[k],
                name,
            ).kept,
        )
    &&& forall|k: int|
        0 <= k < raw.indexes@.len() && (#[trigger] raw.indexes@[k]).table_oid == t.oid
            && !introspect::is_a_constraint(raw.constraints@, raw.indexes@[k].oid) ==> (
        introspect::index_read(raw.columns@, raw.indexes@[k], name) matches IndexRead::Kept {
            index,
            ..
        } ==> entries::found(table.indexes, seq![raw.indexes@[k].name@]) == Some(index))
}

/// Whether the parts of a table have names of their own.
pub open spec fn parts_are_named(raw: RawCatalog, oid: i64) -> bool {
    &&& columns_are_named(raw, oid)
    &&& constraints_are_named(raw, oid)
    &&& indexes_are_named(raw, oid)
}

proof fn a_built_table_is_described(
    raw: RawCatalog,
    read: ReadBack,
    refused: Seq<i64>,
    t: RawTable,
    surviving: Seq<i64>,
)
    requires
        parts_are_named(raw, t.oid),
    ensures
        is_tidy(introspect::built(raw, read, refused, t, surviving).table),
        is_described(
            raw,
            read,
            refused,
            t,
            introspect::built(raw, read, refused, t, surviving).table,
        ),
{
    let name = introspect::name_of(t);
    let n = raw.columns@.len() as int;
    let m = raw.constraints@.len() as int;
    let p = raw.indexes@.len() as int;
    let columns = introspect::with_columns(raw, read, t, surviving, n);
    let constraints = introspect::with_constraints(raw, refused, t, columns, m);
    let table = introspect::built(raw, read, refused, t, surviving).table;
    a_column_stays(raw, read, t, surviving, n, 0);
    a_constraint_stays(raw, refused, t, columns, m, 0);
    an_index_stays(raw, t, constraints, p, 0);
    assert forall|k: int|
        0 <= k < raw.columns@.len() && (#[trigger] raw.columns@[k]).table_oid
            == t.oid implies entries::found(table.columns, seq![raw.columns@[k].name@]) == Some(
        introspect::column_read(read, raw.columns@[k]),
    ) by {
        a_column_stays(raw, read, t, surviving, n, k);
    }
    assert forall|k: int|
        0 <= k < raw.constraints@.len() && (#[trigger] raw.constraints@[k]).table_oid == t.oid
            && raw.constraints@[k].kind != 'f' implies holds(
        table,
        introspect::constraint_read(raw, refused, Seq::empty(), raw.constraints@[k], name).kept,
    ) by {
        a_constraint_stays(raw, refused, t, columns, m, k);
        a_constraint_keeps_its_name(raw, refused, Seq::empty(), raw.constraints@[k], name);
    }
    assert forall|k: int|
        0 <= k < raw.indexes@.len() && (#[trigger] raw.indexes@[k]).table_oid == t.oid
            && !introspect::is_a_constraint(raw.constraints@, raw.indexes@[k].oid) implies (
    introspect::index_read(raw.columns@, raw.indexes@[k], name) matches IndexRead::Kept {
        index,
        ..
    } ==> entries::found(table.indexes, seq![raw.indexes@[k].name@]) == Some(index)) by {
        an_index_stays(raw, t, constraints, p, k);
    }
}

// ---------------------------------------------------------------------------
// Every table

/// Two tables of different names stand under different keys.
pub proof fn different_tables_are_different_keys(a: model::Qualified, b: model::Qualified)
    requires
        a != b,
    ensures
        model::table_rank(a) != model::table_rank(b),
{
    let x = model::table_rank(a);
    let y = model::table_rank(b);
    assert(x[0] == a.0 && x[1] == a.1 && y[0] == b.0 && y[1] == b.1);
}

proof fn a_table_stays(
    raw: RawCatalog,
    read: ReadBack,
    refused: Seq<i64>,
    start: Tables,
    n: int,
    i: int,
)
    requires
        0 <= n <= raw.tables@.len(),
        0 <= i < raw.tables@.len(),
        tables_are_named(raw),
        entries::ordered(start.tables),
        !refused.contains(raw.tables@[i].oid),
        parts_are_named(raw, raw.tables@[i].oid),
    ensures
        ({
            let after = introspect::with_tables(raw, read, refused, start, n).tables;
            let t = raw.tables@[i];
            &&& entries::ordered(after)
            &&& i < n ==> (entries::found(after, model::table_rank(introspect::name_of(t)))
                matches Some(table) && is_tidy(table) && is_described(
                raw,
                read,
                refused,
                t,
                table,
            ))
        }),
    decreases n,
{
    if n > 0 {
        a_table_stays(raw, read, refused, start, n - 1, i);
        let front = introspect::with_tables(raw, read, refused, start, n - 1);
        let t = raw.tables@[n - 1];
        if !refused.contains(t.oid) {
            let b = introspect::built(raw, read, refused, t, front.surviving);
            let key = model::table_rank(introspect::name_of(t));
            entries::put_is_a_map_insert(front.tables, key, b.table);
            if i == n - 1 {
                a_built_table_is_described(raw, read, refused, t, front.surviving);
            } else if i < n - 1 {
                different_tables_are_different_keys(
                    introspect::name_of(raw.tables@[i]),
                    introspect::name_of(t),
                );
            }
        }
    }
}

/// Whether a table differs from another in its foreign keys alone.
spec fn same_but_keys(a: TableView, b: TableView) -> bool {
    b == (TableView { foreign_keys: b.foreign_keys, ..a })
}

/// What the foreign keys of a table leave in it: each of them, and what was
/// there.
proof fn foreign_keys_stay(
    raw: RawCatalog,
    refused: Seq<i64>,
    t: RawTable,
    start: Tables,
    n: int,
    k: int,
)
    requires
        n <= raw.constraints@.len(),
        constraints_are_named(raw, t.oid),
        entries::found(start.tables, model::table_rank(introspect::name_of(t))) matches Some(table)
            && is_tidy(table),
    ensures
        ({
            let key = model::table_rank(introspect::name_of(t));
            let after = introspect::with_foreign_keys(raw, refused, t, start, n);
            &&& after.surviving == start.surviving
            &&& entries::found(after.tables, key) matches Some(table) && is_tidy(table)
                && same_but_keys(entries::found(start.tables, key)->0, table) && (0 <= k < n
                && raw.constraints@[k].table_oid == t.oid && raw.constraints@[k].kind == 'f'
                ==> holds(
                table,
                introspect::constraint_read(
                    raw,
                    refused,
                    start.surviving,
                    raw.constraints@[k],
                    introspect::name_of(t),
                ).kept,
            ))
        }),
    decreases n,
{
    if n > 0 {
        foreign_keys_stay(raw, refused, t, start, n - 1, k);
        let name = introspect::name_of(t);
        let key = model::table_rank(name);
        let front = introspect::with_foreign_keys(raw, refused, t, start, n - 1);
        let table = entries::found(front.tables, key)->0;
        let c = raw.constraints@[n - 1];
        if c.table_oid == t.oid && c.kind == 'f' {
            let kept = introspect::constraint_read(raw, refused, start.surviving, c, name).kept;
            let other = raw.constraints@[if 0 <= k < n {
                k
            } else {
                n - 1
            }];
            let earlier = introspect::constraint_read(
                raw,
                refused,
                start.surviving,
                other,
                name,
            ).kept;
            entries::put_behind_is_a_map_insert(
                front.tables,
                key,
                introspect::with_kept(table, kept),
            );
            keeping_holds(table, kept, earlier);
            a_constraint_keeps_its_name(raw, refused, start.surviving, c, name);
            if 0 <= k < n - 1 && other.table_oid == t.oid {
                named_constraints_do_not_displace(raw, refused, start.surviving, t, k, n - 1);
            }
        }
    }
}

/// The foreign keys of one table leave every other one alone.
proof fn other_tables_stay(
    raw: RawCatalog,
    refused: Seq<i64>,
    t: RawTable,
    start: Tables,
    n: int,
    other: model::Qualified,
)
    requires
        other != introspect::name_of(t),
    ensures
        ({
            let after = introspect::with_foreign_keys(raw, refused, t, start, n);
            &&& after.surviving == start.surviving
            &&& entries::found(after.tables, model::table_rank(other)) == entries::found(
                start.tables,
                model::table_rank(other),
            )
        }),
    decreases n,
{
    if n > 0 {
        other_tables_stay(raw, refused, t, start, n - 1, other);
        let name = introspect::name_of(t);
        let key = model::table_rank(name);
        let front = introspect::with_foreign_keys(raw, refused, t, start, n - 1);
        let c = raw.constraints@[n - 1];
        different_tables_are_different_keys(other, name);
        if let Some(table) = entries::found(front.tables, key) {
            entries::put_behind_is_a_map_insert(
                front.tables,
                key,
                introspect::with_kept(
                    table,
                    introspect::constraint_read(raw, refused, front.surviving, c, name).kept,
                ),
            );
        }
    }
}

/// Whether every foreign key of a table that was not left out is in it.
spec fn keys_are_held(
    raw: RawCatalog,
    refused: Seq<i64>,
    surviving: Seq<i64>,
    t: RawTable,
    table: TableView,
) -> bool {
    forall|k: int|
        0 <= k < raw.constraints@.len() && (#[trigger] raw.constraints@[k]).table_oid == t.oid
            && raw.constraints@[k].kind == 'f' ==> holds(
            table,
            introspect::constraint_read(
                raw,
                refused,
                surviving,
                raw.constraints@[k],
                introspect::name_of(t),
            ).kept,
        )
}

proof fn all_foreign_keys_stay(
    raw: RawCatalog,
    refused: Seq<i64>,
    start: Tables,
    n: int,
    i: int,
)
    requires
        0 <= n <= raw.tables@.len(),
        0 <= i < raw.tables@.len(),
        tables_are_named(raw),
        constraints_are_named(raw, raw.tables@[i].oid),
        !refused.contains(raw.tables@[i].oid),
        entries::found(
            start.tables,
            model::table_rank(introspect::name_of(raw.tables@[i])),
        ) matches Some(table) && is_tidy(table),
    ensures
        ({
            let t = raw.tables@[i];
            let key = model::table_rank(introspect::name_of(t));
            let after = introspect::with_all_foreign_keys(raw, refused, start, n);
            &&& after.surviving == start.surviving
            &&& entries::found(after.tables, key) matches Some(table) && is_tidy(table)
                && same_but_keys(entries::found(start.tables, key)->0, table) && (i < n
                ==> keys_are_held(raw, refused, start.surviving, t, table))
        }),
    decreases n,
{
    if n > 0 {
        all_foreign_keys_stay(raw, refused, start, n - 1, i);
        let t = raw.tables@[n - 1];
        let name = introspect::name_of(raw.tables@[i]);
        let key = model::table_rank(name);
        let front = introspect::with_all_foreign_keys(raw, refused, start, n - 1);
        let m = raw.constraints@.len() as int;
        if !refused.contains(t.oid) {
            if i == n - 1 {
                foreign_keys_stay(raw, refused, t, front, m, 0);
                let after = introspect::with_all_foreign_keys(raw, refused, start, n);
                let table = entries::found(after.tables, key)->0;
                assert forall|k: int|
                    0 <= k < raw.constraints@.len() && (
                    #[trigger] raw.constraints@[k]).table_oid == t.oid && raw.constraints@[k].kind
                        == 'f' implies holds(
                    table,
                    introspect::constraint_read(
                        raw,
                        refused,
                        start.surviving,
                        raw.constraints@[k],
                        introspect::name_of(t),
                    ).kept,
                ) by {
                    foreign_keys_stay(raw, refused, t, front, m, k);
                }
            } else {
                if i < n - 1 {
                    assert(introspect::name_of(raw.tables@[i]) != introspect::name_of(
                        raw.tables@[n - 1],
                    ));
                } else {
                    assert(introspect::name_of(raw.tables@[n - 1]) != introspect::name_of(
                        raw.tables@[i],
                    ));
                }
                other_tables_stay(raw, refused, t, front, m, name);
            }
        }
    }
}

/// What a catalog holds of a table that can be written, and the model can, is
/// in the pull: every column as it was read, and every constraint and index
/// that was not left out.
pub proof fn what_a_table_holds_is_in_the_pull(raw: RawCatalog, read: ReadBack, i: int)
    requires
        0 <= i < raw.tables@.len(),
        tables_are_named(raw),
        parts_are_named(raw, raw.tables@[i].oid),
        !introspect::refused_tables(raw, read, raw.tables@.len() as int).contains(
            raw.tables@[i].oid,
        ),
    ensures
        ({
            let t = raw.tables@[i];
            let name = introspect::name_of(t);
            let refused = introspect::refused_tables(raw, read, raw.tables@.len() as int);
            let surviving = introspect::tables_read(raw, read).surviving;
            &&& entries::found(
                introspect::assembled(raw, read).tables,
                model::table_rank(name),
            ) matches Some(table) && {
                &&& forall|k: int|
                    0 <= k < raw.columns@.len() && (#[trigger] raw.columns@[k]).table_oid == t.oid
                        ==> entries::found(table.columns, seq![raw.columns@[k].name@]) == Some(
                        introspect::column_read(read, raw.columns@[k]),
                    )
                &&& forall|k: int|
                    0 <= k < raw.constraints@.len() && (
                    #[trigger] raw.constraints@[k]).table_oid == t.oid ==> holds(
                        table,
                        introspect::constraint_read(
                            raw,
                            refused,
                            surviving,
                            raw.constraints@[k],
                            name,
                        ).kept,
                    )
                &&& forall|k: int|
                    0 <= k < raw.indexes@.len() && (#[trigger] raw.indexes@[k]).table_oid == t.oid
                        && !introspect::is_a_constraint(raw.constraints@, raw.indexes@[k].oid)
                        ==> (introspect::index_read(raw.columns@, raw.indexes@[k], name) matches
                        IndexRead::Kept { index, .. } ==> entries::found(
                        table.indexes,
                        seq![raw.indexes@[k].name@],
                    ) == Some(index))
            }
        }),
{
    let n = raw.tables@.len() as int;
    let t = raw.tables@[i];
    let name = introspect::name_of(t);
    let refused = introspect::refused_tables(raw, read, n);
    let start = Tables {
        tables: Seq::empty(),
        log: introspect::refusals_log(raw, read, introspect::empty_log(), n),
        surviving: Seq::empty(),
    };
    a_table_stays(raw, read, refused, start, n, i);
    let first = introspect::with_tables(raw, read, refused, start, n);
    all_foreign_keys_stay(raw, refused, first, n, i);
    let tables = introspect::tables_read(raw, read);
    let key = model::table_rank(name);
    let before = entries::found(first.tables, key)->0;
    let table = entries::found(tables.tables, key)->0;
    assert(same_but_keys(before, table));
    assert forall|k: int|
        0 <= k < raw.constraints@.len() && (#[trigger] raw.constraints@[k]).table_oid
            == t.oid implies holds(
        table,
        introspect::constraint_read(
            raw,
            refused,
            tables.surviving,
            raw.constraints@[k],
            name,
        ).kept,
    ) by {
        if raw.constraints@[k].kind != 'f' {
            a_constraint_keeps_its_name(raw, refused, tables.surviving, raw.constraints@[k], name);
            assert(holds(
                before,
                introspect::constraint_read(
                    raw,
                    refused,
                    Seq::empty(),
                    raw.constraints@[k],
                    name,
                ).kept,
            ));
        }
    }
}

// ---------------------------------------------------------------------------
// Modules

/// Whether no two modules that were read have one identity.
pub open spec fn modules_are_named(raw: RawCatalog, read: ReadBack) -> bool {
    forall|a: int, b: int|
        #![trigger raw.modules@[a], raw.modules@[b]]
        0 <= a < b < raw.modules@.len() ==> match (
            introspect::module_read(raw, read, raw.modules@[a]),
            introspect::module_read(raw, read, raw.modules@[b]),
        ) {
            (ModuleRead::Kept { id: one, .. }, ModuleRead::Kept { id: other, .. }) =>
                model::module_rank(one) != model::module_rank(other),
            _ => true,
        }
}

proof fn a_module_stays(raw: RawCatalog, read: ReadBack, start: Modules, n: int, i: int)
    requires
        n <= raw.modules@.len(),
        modules_are_named(raw, read),
        entries::ordered(start.modules),
    ensures
        entries::ordered(introspect::with_modules(raw, read, start, n).modules),
        0 <= i < n ==> (introspect::module_read(raw, read, raw.modules@[i]) matches
            ModuleRead::Kept { id, kind, definition } ==> entries::found(
            introspect::with_modules(raw, read, start, n).modules,
            model::module_rank(id),
        ) == Some((kind, definition))),
    decreases n,
{
    if n > 0 {
        a_module_stays(raw, read, start, n - 1, i);
        let front = introspect::with_modules(raw, read, start, n - 1);
        let m = raw.modules@[n - 1];
        if let ModuleRead::Kept { id, kind, definition } = introspect::module_read(raw, read, m) {
            entries::put_is_a_map_insert(
                front.modules,
                model::module_rank(id),
                (kind, definition),
            );
            if 0 <= i < n - 1 {
                let other = raw.modules@[i];
                assert(match (
                    introspect::module_read(raw, read, other),
                    introspect::module_read(raw, read, m),
                ) {
                    (ModuleRead::Kept { id: one, .. }, ModuleRead::Kept { id: two, .. }) =>
                        model::module_rank(one) != model::module_rank(two),
                    _ => true,
                });
            }
        }
    }
}

/// A module that was not left out is in the pull, under its identity and with
/// the definition that was read.
pub proof fn what_a_module_says_is_in_the_pull(raw: RawCatalog, read: ReadBack, i: int)
    requires
        0 <= i < raw.modules@.len(),
        modules_are_named(raw, read),
    ensures
        introspect::module_read(raw, read, raw.modules@[i]) matches ModuleRead::Kept {
            id,
            kind,
            definition,
        } ==> entries::found(
            introspect::assembled(raw, read).modules,
            model::module_rank(id),
        ) == Some((kind, definition)),
{
    let none = Seq::<Entry<(model::ModuleKind, Seq<char>)>>::empty();
    a_module_stays(
        raw,
        read,
        Modules {
            modules: none,
            ids: Seq::empty(),
            log: introspect::tables_read(raw, read).log,
        },
        raw.modules@.len() as int,
        i,
    );
}

} // verus!
