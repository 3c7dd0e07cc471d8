//! What each row of a catalog is read as, stated of the row itself.
use vstd::prelude::*;

use crate::entries;
use crate::introspect;
use crate::introspect::{
    IndexRead, Kept, ModuleRead, RawCatalog, RawColumn, RawConstraint, RawIndex, RawModule,
    RawTable, ReadBack,
};
use crate::model;
use crate::model::{ModuleKind, Qualified, ReferentialAction};
use crate::recorded;
use crate::text;

verus! {

// ---------------------------------------------------------------------------
// Numbers and names

/// Whether a table has a column of this number with this name.
pub open spec fn is_named(columns: Seq<RawColumn>, table: i64, attnum: i32, name: Seq<char>) -> bool {
    exists|k: int|
        0 <= k < columns.len() && (#[trigger] columns[k]).table_oid == table && columns[k].attnum
            == attnum && columns[k].name@ == name
}

/// Whether a table has a column of this number.
pub open spec fn is_live(columns: Seq<RawColumn>, table: i64, attnum: i32) -> bool {
    exists|k: int|
        0 <= k < columns.len() && (#[trigger] columns[k]).table_oid == table && columns[k].attnum
            == attnum
}

/// Whether every number of a list has a column.
pub open spec fn are_live(columns: Seq<RawColumn>, table: i64, attnums: Seq<i32>) -> bool {
    forall|j: int| 0 <= j < attnums.len() ==> is_live(columns, table, #[trigger] attnums[j])
}

/// Whether a list of names is that of the numbers, in their order.
pub open spec fn are_named(
    columns: Seq<RawColumn>,
    table: i64,
    attnums: Seq<i32>,
    names: Seq<Seq<char>>,
) -> bool {
    &&& names.len() == attnums.len()
    &&& forall|j: int|
        0 <= j < names.len() ==> is_named(columns, table, attnums[j], #[trigger] names[j])
}

proof fn a_number_is_its_columns(columns: Seq<RawColumn>, n: int, table: i64, attnum: i32)
    requires
        0 <= n <= columns.len(),
    ensures
        introspect::column_named(columns, n, table, attnum) matches Some(name) ==> is_named(
            columns,
            table,
            attnum,
            name,
        ),
        introspect::column_named(columns, n, table, attnum) is None ==> forall|k: int|
            0 <= k < n ==> !((#[trigger] columns[k]).table_oid == table && columns[k].attnum
                == attnum),
    decreases n,
{
    if n > 0 {
        if columns[n - 1].table_oid == table && columns[n - 1].attnum == attnum {
            assert(is_named(columns, table, attnum, columns[n - 1].name@));
        } else {
            a_number_is_its_columns(columns, n - 1, table, attnum);
        }
    }
}

proof fn numbers_are_their_columns(
    columns: Seq<RawColumn>,
    table: i64,
    attnums: Seq<i32>,
    k: int,
)
    requires
        0 <= k <= attnums.len(),
    ensures
        match introspect::names_of(columns, table, attnums, k) {
            Ok(names) => are_named(columns, table, attnums.take(k), names) && are_live(
                columns,
                table,
                attnums.take(k),
            ),
            Err(attnum) => !are_live(columns, table, attnums.take(k)) && !is_live(
                columns,
                table,
                attnum,
            ) && attnums.take(k).contains(attnum),
        },
    decreases k,
{
    if k > 0 {
        numbers_are_their_columns(columns, table, attnums, k - 1);
        let n = columns.len() as int;
        let last = attnums[k - 1];
        let front = attnums.take(k - 1);
        let all = attnums.take(k);
        a_number_is_its_columns(columns, n, table, last);
        assert(all[k - 1] == last);
        assert forall|j: int| 0 <= j < k - 1 implies #[trigger] all[j] == front[j] by {}
        match introspect::names_of(columns, table, attnums, k - 1) {
            Ok(names) => {
                match introspect::column_named(columns, n, table, last) {
                    Some(name) => {
                        let more = names.push(name);
                        assert forall|j: int| 0 <= j < more.len() implies is_named(
                            columns,
                            table,
                            all[j],
                            #[trigger] more[j],
                        ) by {
                            if j < k - 1 {
                                assert(is_named(columns, table, front[j], names[j]));
                            }
                        }
                        assert forall|j: int| 0 <= j < all.len() implies is_live(
                            columns,
                            table,
                            #[trigger] all[j],
                        ) by {
                            if j < k - 1 {
                                assert(is_live(columns, table, front[j]));
                            } else {
                                let x = choose|x: int|
                                    0 <= x < n && (#[trigger] columns[x]).table_oid == table
                                        && columns[x].attnum == last && columns[x].name@ == name;
                                assert(columns[x].table_oid == table);
                            }
                        }
                    },
                    None => {
                        assert(!is_live(columns, table, all[k - 1]));
                    },
                }
            },
            Err(attnum) => {
                let j = choose|j: int| 0 <= j < front.len() && front[j] == attnum;
                assert(all[j] == attnum);
                assert(!is_live(columns, table, all[j]));
            },
        }
    }
}

/// Numbers have names exactly where each has a column, and each name is its own
/// number's; a number without a column is the one that is handed back.
pub proof fn numbers_are_named_by_their_columns(
    columns: Seq<RawColumn>,
    table: i64,
    attnums: Seq<i32>,
)
    ensures
        match introspect::names_behind(columns, table, attnums) {
            Ok(names) => are_live(columns, table, attnums) && are_named(
                columns,
                table,
                attnums,
                names,
            ),
            Err(attnum) => !are_live(columns, table, attnums) && attnums.contains(attnum)
                && !is_live(columns, table, attnum),
        },
{
    numbers_are_their_columns(columns, table, attnums, attnums.len() as int);
    assert(attnums.take(attnums.len() as int) =~= attnums);
}

// ---------------------------------------------------------------------------
// Indexes

/// Whether an index is one the model can hold: an ordinary one over columns.
pub open spec fn is_plain_index(i: RawIndex) -> bool {
    i.method@ == "btree"@ && !i.has_expressions && !i.columns@.contains(0) && i.valid
        && !i.nondefault_column_options && !i.nulls_not_distinct && !i.exclusion
}

/// How many of an index's columns are its keys.
pub open spec fn keys_of(i: RawIndex) -> int {
    if i.key_count <= i.columns@.len() {
        i.key_count as int
    } else {
        i.columns@.len() as int
    }
}

/// Whether the key at `k` is in descending order: bit 0 of its option.
pub open spec fn is_descending(i: RawIndex, k: int) -> bool {
    0 <= k < i.options@.len() && i.options@[k] & 1 == 1
}

/// Whether the nulls of the key at `k` come first: bit 1 of its option.
pub open spec fn has_nulls_first(i: RawIndex, k: int) -> bool {
    0 <= k < i.options@.len() && i.options@[k] & 2 == 2
}

/// Whether a pulled index is the one that a row describes: as unique, over the
/// same columns in the same order and directions, with the same payload and
/// the same filter.
pub open spec fn is_index_of(
    columns: Seq<RawColumn>,
    i: RawIndex,
    index: model::IndexView,
) -> bool {
    &&& index.unique == i.unique
    &&& index.filter == text::text_in(i.filter)
    &&& index.columns.len() == keys_of(i)
    &&& forall|k: int|
        0 <= k < index.columns.len() ==> is_named(
            columns,
            i.table_oid,
            i.columns@[k],
            (#[trigger] index.columns[k]).0,
        ) && index.columns[k].1 == is_descending(i, k)
    &&& index.include_columns.len() == i.columns@.len() - keys_of(i)
    &&& forall|k: int|
        0 <= k < index.include_columns.len() ==> is_named(
            columns,
            i.table_oid,
            i.columns@[keys_of(i) + k],
            #[trigger] index.include_columns[k],
        )
}

proof fn no_option_is_no_bit()
    ensures
        0i32 & 1 == 0,
        0i32 & 2 == 0,
{
    assert(0i32 & 1 == 0) by (bit_vector);
    assert(0i32 & 2 == 0) by (bit_vector);
}

/// An index is kept exactly where the model can hold it and every column it
/// names is there, and what is kept is the index that the row describes.
pub proof fn an_index_is_read_as_its_row_says(
    columns: Seq<RawColumn>,
    i: RawIndex,
    table: Qualified,
)
    ensures
        introspect::index_read(columns, i, table) is Kept <==> is_plain_index(i) && are_live(
            columns,
            i.table_oid,
            i.columns@,
        ),
        introspect::index_read(columns, i, table) matches IndexRead::Kept { index, .. }
            ==> is_index_of(columns, i, index),
{
    reveal_strlit("btree");
    no_option_is_no_bit();
    let cut = keys_of(i);
    let all = i.columns@;
    let front = all.take(cut);
    let back = all.skip(cut);
    assert(front == i.columns@.take(introspect::key_len(i)));
    assert(back == i.columns@.skip(introspect::key_len(i)));
    numbers_are_named_by_their_columns(columns, i.table_oid, front);
    numbers_are_named_by_their_columns(columns, i.table_oid, back);
    assert(are_live(columns, i.table_oid, all) <==> are_live(columns, i.table_oid, front)
        && are_live(columns, i.table_oid, back)) by {
        if are_live(columns, i.table_oid, all) {
            assert forall|j: int| 0 <= j < front.len() implies is_live(
                columns,
                i.table_oid,
                #[trigger] front[j],
            ) by {
                assert(front[j] == all[j]);
            }
            assert forall|j: int| 0 <= j < back.len() implies is_live(
                columns,
                i.table_oid,
                #[trigger] back[j],
            ) by {
                assert(back[j] == all[cut + j]);
            }
        }
        if are_live(columns, i.table_oid, front) && are_live(columns, i.table_oid, back) {
            assert forall|j: int| 0 <= j < all.len() implies is_live(
                columns,
                i.table_oid,
                #[trigger] all[j],
            ) by {
                if j < cut {
                    assert(front[j] == all[j]);
                } else {
                    assert(back[j - cut] == all[j]);
                }
            }
        }
    }
    if let IndexRead::Kept { index, notes: _ } = introspect::index_read(columns, i, table) {
        assert forall|k: int| 0 <= k < index.columns.len() implies is_named(
            columns,
            i.table_oid,
            i.columns@[k],
            (#[trigger] index.columns[k]).0,
        ) && index.columns[k].1 == is_descending(i, k) by {
            assert(front[k] == all[k]);
        }
        assert forall|k: int| 0 <= k < index.include_columns.len() implies is_named(
            columns,
            i.table_oid,
            i.columns@[keys_of(i) + k],
            #[trigger] index.include_columns[k],
        ) by {
            assert(back[k] == all[cut + k]);
        }
    }
}

/// Whether the nulls of one of the first `n` keys stand at the end that its
/// direction does not imply.
pub open spec fn crosses(i: RawIndex, n: int) -> bool {
    exists|k: int| 0 <= k < n && #[trigger] has_nulls_first(i, k) != is_descending(i, k)
}

proof fn crossings_are_noted(i: RawIndex, t: Seq<char>, names: Seq<Seq<char>>, n: int)
    requires
        0 <= n,
    ensures
        introspect::crossed(i, t, names, n).len() > 0 <==> crosses(i, n),
    decreases n,
{
    no_option_is_no_bit();
    if n > 0 {
        crossings_are_noted(i, t, names, n - 1);
        assert(introspect::nulls_first(i, n - 1) == has_nulls_first(i, n - 1));
        assert(introspect::descends(i, n - 1) == is_descending(i, n - 1));
        if crosses(i, n) {
            let k = choose|k: int|
                0 <= k < n && #[trigger] has_nulls_first(i, k) != is_descending(i, k);
            if k < n - 1 {
                assert(has_nulls_first(i, k) != is_descending(i, k));
            }
        }
        if crosses(i, n - 1) {
            let k = choose|k: int|
                0 <= k < n - 1 && #[trigger] has_nulls_first(i, k) != is_descending(i, k);
            assert(has_nulls_first(i, k) != is_descending(i, k));
        }
    }
}

/// A kept index is noted exactly where the nulls of a key stand at the end
/// that its direction does not imply.
pub proof fn an_index_with_its_nulls_elsewhere_is_noted(
    columns: Seq<RawColumn>,
    i: RawIndex,
    table: Qualified,
)
    ensures
        introspect::index_read(columns, i, table) matches IndexRead::Kept { index: _, notes }
            ==> (notes.len() > 0 <==> crosses(i, keys_of(i))),
{
    if let IndexRead::Kept { index, notes } = introspect::index_read(columns, i, table) {
        let front = i.columns@.take(introspect::key_len(i));
        numbers_are_named_by_their_columns(columns, i.table_oid, front);
        let names = introspect::names_behind(columns, i.table_oid, front)->Ok_0;
        crossings_are_noted(i, model::dotted(table), names, names.len() as int);
    }
}

/// An index that the model can hold is in the pull as the catalog has it: under
/// its name, as unique as it is, over its columns in their directions, with its
/// payload and its filter.
pub proof fn an_index_is_in_the_pull_as_the_catalog_has_it(
    raw: RawCatalog,
    read: ReadBack,
    i: int,
    k: int,
)
    requires
        0 <= i < raw.tables@.len(),
        recorded::tables_are_named(raw),
        recorded::parts_are_named(raw, raw.tables@[i].oid),
        !introspect::refused_tables(raw, read, raw.tables@.len() as int).contains(
            raw.tables@[i].oid,
        ),
        0 <= k < raw.indexes@.len(),
        raw.indexes@[k].table_oid == raw.tables@[i].oid,
        is_plain_index(raw.indexes@[k]),
        are_live(raw.columns@, raw.indexes@[k].table_oid, raw.indexes@[k].columns@),
        forall|j: int|
            0 <= j < raw.constraints@.len() ==> !enforces(
                #[trigger] raw.constraints@[j],
                raw.indexes@[k].oid,
            ),
    ensures
        entries::found(
            introspect::assembled(raw, read).tables,
            model::table_rank((raw.tables@[i].schema@, raw.tables@[i].name@)),
        ) matches Some(table) && entries::found(
            table.indexes,
            seq![raw.indexes@[k].name@],
        ) matches Some(index) && is_index_of(raw.columns@, raw.indexes@[k], index),
{
    recorded::what_a_table_holds_is_in_the_pull(raw, read, i);
    an_index_is_read_as_its_row_says(
        raw.columns@,
        raw.indexes@[k],
        introspect::name_of(raw.tables@[i]),
    );
    assert(!introspect::is_a_constraint(raw.constraints@, raw.indexes@[k].oid)) by {
        assert forall|j: int| 0 <= j < raw.constraints@.len() implies !#[trigger] introspect::enforces(
            raw.constraints@[j],
            raw.indexes@[k].oid,
        ) by {
            assert(!enforces(raw.constraints@[j], raw.indexes@[k].oid));
        }
    }
}

/// Whether a constraint is a key or an exclusion that this index enforces. A
/// foreign key names an index of the table it points at, and enforces nothing
/// with it.
pub open spec fn enforces(c: RawConstraint, oid: i64) -> bool {
    (c.kind == 'p' || c.kind == 'u' || c.kind == 'x') && c.index_oid == Some(oid)
}

// ---------------------------------------------------------------------------
// Constraints

/// Whether an index of this number carries columns that are no keys.
pub open spec fn carries_more(indexes: Seq<RawIndex>, oid: Option<i64>) -> bool {
    exists|k: int|
        0 <= k < indexes.len() && oid == Some((#[trigger] indexes[k]).oid)
            && indexes[k].columns@.len() > indexes[k].key_count
}

/// Whether an index of this number admits one null at most.
pub open spec fn admits_one_null(indexes: Seq<RawIndex>, oid: Option<i64>) -> bool {
    exists|k: int|
        0 <= k < indexes.len() && oid == Some((#[trigger] indexes[k]).oid)
            && indexes[k].nulls_not_distinct
}

/// Whether a constraint is one the model can hold, its columns aside: it is
/// enforced, by triggers in their ordinary mode, about values and not ranges,
/// at once and not later, and for a check on the children too.
pub open spec fn is_plain_constraint(indexes: Seq<RawIndex>, c: RawConstraint) -> bool {
    &&& c.enforced
    &&& !c.triggers_not_ordinary
    &&& !c.period
    &&& c.kind == 'c' ==> !c.no_inherit
    &&& c.kind == 'p' || c.kind == 'u' || c.kind == 'f' ==> !c.deferrable
    &&& c.kind == 'p' || c.kind == 'u' ==> !carries_more(indexes, c.index_oid) && !admits_one_null(
        indexes,
        c.index_oid,
    )
}

/// The index of a key carries more, and admits one null, exactly where one of
/// that number does.
pub proof fn a_key_carries_more(indexes: Seq<RawIndex>, oid: Option<i64>)
    ensures
        introspect::is_covering(indexes, oid) == carries_more(indexes, oid),
        introspect::is_one_null(indexes, oid) == admits_one_null(indexes, oid),
{
    if introspect::is_covering(indexes, oid) {
        let k = choose|k: int|
            0 <= k < indexes.len() && #[trigger] introspect::covers(indexes[k], oid->0);
        assert(oid == Some(indexes[k].oid));
    }
    if carries_more(indexes, oid) {
        let k = choose|k: int|
            0 <= k < indexes.len() && oid == Some((#[trigger] indexes[k]).oid)
                && indexes[k].columns@.len() > indexes[k].key_count;
        assert(introspect::covers(indexes[k], oid->0));
    }
    if introspect::is_one_null(indexes, oid) {
        let k = choose|k: int|
            0 <= k < indexes.len() && #[trigger] introspect::one_null(indexes[k], oid->0);
        assert(oid == Some(indexes[k].oid));
    }
    if admits_one_null(indexes, oid) {
        let k = choose|k: int|
            0 <= k < indexes.len() && oid == Some((#[trigger] indexes[k]).oid)
                && indexes[k].nulls_not_distinct;
        assert(introspect::one_null(indexes[k], oid->0));
    }
}

proof fn what_disqualifies(indexes: Seq<RawIndex>, c: RawConstraint, t: Seq<char>)
    requires
        c.kind == 'p' || c.kind == 'u' || c.kind == 'c' || c.kind == 'f' || c.kind == 'x',
    ensures
        introspect::disqualified(indexes, c, t) is None <==> is_plain_constraint(indexes, c),
{
    a_key_carries_more(indexes, c.index_oid);
}

/// A primary key and a unique constraint are kept exactly where the model can
/// hold them and every column they name is there, as what they are: under their
/// names, over their columns in order.
pub proof fn a_key_is_read_as_its_row_says(
    raw: RawCatalog,
    refused: Seq<i64>,
    surviving: Seq<i64>,
    c: RawConstraint,
    table: Qualified,
)
    requires
        c.kind == 'p' || c.kind == 'u',
    ensures
        ({
            let kept = introspect::constraint_read(raw, refused, surviving, c, table).kept;
            &&& !(kept is Nothing) <==> is_plain_constraint(raw.indexes@, c) && are_live(
                raw.columns@,
                c.table_oid,
                c.columns@,
            )
            &&& !(kept is Nothing) ==> match kept {
                Kept::PrimaryKey { name, columns } => c.kind == 'p' && name == c.name@
                    && are_named(raw.columns@, c.table_oid, c.columns@, columns),
                Kept::Unique { name, columns } => c.kind == 'u' && name == c.name@ && are_named(
                    raw.columns@,
                    c.table_oid,
                    c.columns@,
                    columns,
                ),
                _ => false,
            }
        }),
{
    what_disqualifies(raw.indexes@, c, model::dotted(table));
    numbers_are_named_by_their_columns(raw.columns@, c.table_oid, c.columns@);
}

/// A check is kept exactly where the model can hold it and its expression was
/// read: verbatim, whether or not the rows that were there were ever checked.
/// One that was never checked is noted.
pub proof fn a_check_is_read_as_its_row_says(
    raw: RawCatalog,
    refused: Seq<i64>,
    surviving: Seq<i64>,
    c: RawConstraint,
    table: Qualified,
)
    requires
        c.kind == 'c',
    ensures
        ({
            let out = introspect::constraint_read(raw, refused, surviving, c, table);
            &&& is_plain_constraint(raw.indexes@, c) && c.expression is Some ==> out.kept == (
            Kept::Check { name: c.name@, expression: c.expression->0@ })
            &&& !(is_plain_constraint(raw.indexes@, c) && c.expression is Some) ==> out.kept
                is Nothing && out.notes.len() > 0
            &&& is_plain_constraint(raw.indexes@, c) && c.expression is Some ==> out.notes.len()
                == if c.validated {
                0nat
            } else {
                1nat
            }
        }),
{
    what_disqualifies(raw.indexes@, c, model::dotted(table));
}

/// The action that a letter of the catalog stands for, where the model has it.
pub open spec fn is_action(letter: char, action: ReferentialAction) -> bool {
    match action {
        ReferentialAction::NoAction => letter == 'a',
        ReferentialAction::Cascade => letter == 'c',
        ReferentialAction::SetNull => letter == 'n',
        ReferentialAction::SetDefault => letter == 'd',
    }
}

/// Whether the model has the action that a letter stands for.
pub open spec fn has_action(letter: char) -> bool {
    letter == 'a' || letter == 'c' || letter == 'n' || letter == 'd'
}

/// Whether a table of this number was read and can be recorded.
pub open spec fn is_recorded(tables: Seq<RawTable>, refused: Seq<i64>, oid: i64) -> bool {
    !refused.contains(oid) && exists|k: int|
        0 <= k < tables.len() && (#[trigger] tables[k]).oid == oid
}

proof fn a_table_is_found_by_its_number(tables: Seq<RawTable>, n: int, oid: i64)
    requires
        0 <= n <= tables.len(),
    ensures
        match introspect::table_named(tables, n, oid) {
            Some(name) => exists|k: int|
                0 <= k < n && (#[trigger] tables[k]).oid == oid && (
                tables[k].schema@,
                tables[k].name@,
            ) == name,
            None => forall|k: int| 0 <= k < n ==> (#[trigger] tables[k]).oid != oid,
        },
    decreases n,
{
    if n > 0 {
        if tables[n - 1].oid != oid {
            a_table_is_found_by_its_number(tables, n - 1, oid);
        }
    }
}

/// A table is recorded exactly where it is found by its number and was not
/// refused.
pub proof fn a_recorded_table_is_found(tables: Seq<RawTable>, refused: Seq<i64>, oid: i64)
    ensures
        introspect::referenced_table(tables, refused, Some(oid)) is Some <==> is_recorded(
            tables,
            refused,
            oid,
        ),
{
    a_table_is_found_by_its_number(tables, tables.len() as int, oid);
}

/// A foreign key is kept exactly where the model can hold it whole: the
/// uniqueness it rests on reached the pull, the table it points at is in it,
/// the columns on both sides are there, its action names no columns, it matches
/// the simple way, and the model has both of its actions. It is then the key
/// that the row describes, with the delete action for a delete and the update
/// action for an update.
pub proof fn a_foreign_key_is_read_as_its_row_says(
    raw: RawCatalog,
    refused: Seq<i64>,
    surviving: Seq<i64>,
    c: RawConstraint,
    table: Qualified,
)
    requires
        c.kind == 'f',
    ensures
        ({
            let kept = introspect::constraint_read(raw, refused, surviving, c, table).kept;
            &&& !(kept is Nothing) <==> {
                &&& is_plain_constraint(raw.indexes@, c)
                &&& c.index_oid is None || surviving.contains(c.index_oid->0)
                &&& c.ref_table is Some
                &&& is_recorded(raw.tables@, refused, c.ref_table->0)
                &&& c.delete_set_columns@.len() == 0
                &&& c.match_type == 's'
                &&& are_live(raw.columns@, c.table_oid, c.columns@)
                &&& are_live(raw.columns@, c.ref_table->0, c.ref_columns@)
                &&& has_action(c.on_delete)
                &&& has_action(c.on_update)
            }
            &&& !(kept is Nothing) ==> {
                &&& kept matches Kept::ForeignKey { name, key } && name == c.name@ && are_named(
                    raw.columns@,
                    c.table_oid,
                    c.columns@,
                    key.columns,
                ) && are_named(
                    raw.columns@,
                    c.ref_table->0,
                    c.ref_columns@,
                    key.references_columns,
                ) && is_action(c.on_delete, key.on_delete) && is_action(
                    c.on_update,
                    key.on_update,
                ) && exists|k: int|
                    0 <= k < raw.tables@.len() && (#[trigger] raw.tables@[k]).oid
                        == c.ref_table->0 && key.references_table == (
                        raw.tables@[k].schema@,
                        raw.tables@[k].name@,
                    )
            }
        }),
{
    what_disqualifies(raw.indexes@, c, model::dotted(table));
    numbers_are_named_by_their_columns(raw.columns@, c.table_oid, c.columns@);
    if let Some(oid) = c.ref_table {
        numbers_are_named_by_their_columns(raw.columns@, oid, c.ref_columns@);
        a_table_is_found_by_its_number(raw.tables@, raw.tables@.len() as int, oid);
        if refused.contains(oid) {
            assert(!is_recorded(raw.tables@, refused, oid));
        }
    }
}

/// A catalogued NOT NULL leaves nothing and says nothing, because its column
/// carries it; every other kind of constraint that the model has no place for
/// leaves nothing and is said.
pub proof fn a_constraint_without_a_place_is_said(
    raw: RawCatalog,
    refused: Seq<i64>,
    surviving: Seq<i64>,
    c: RawConstraint,
    table: Qualified,
)
    requires
        c.kind != 'p',
        c.kind != 'u',
        c.kind != 'c',
        c.kind != 'f',
    ensures
        ({
            let out = introspect::constraint_read(raw, refused, surviving, c, table);
            out.kept is Nothing && out.notes.len() == if c.kind == 'n' {
                0nat
            } else {
                1nat
            }
        }),
{
}

// ---------------------------------------------------------------------------
// Columns

/// A column is as nullable as its row says, has the row's default unless it is
/// generated, and counts from the row's seed in the row's steps.
pub proof fn a_column_is_read_as_its_row_says(read: ReadBack, c: RawColumn)
    ensures
        ({
            let column = introspect::column_read(read, c);
            &&& column.nullable == c.nullable
            &&& c.generated ==> column.default is None
            &&& !c.generated ==> column.default == text::text_in(c.default)
            &&& c.identity is None ==> column.identity is None
            &&& c.identity matches Some(id) ==> column.identity matches Some(kept) && kept.seed
                == id.seed && kept.increment == id.increment
        }),
{
}

/// A column's type is the one its spelling reads as, where the catalogue gives
/// that type back unchanged, and otherwise the spelling itself, whole and
/// without arguments.
pub proof fn a_type_is_kept_or_opaque(read: ReadBack, c: RawColumn)
    ensures
        ({
            let column = introspect::column_read(read, c);
            match introspect::answer(read.types@, c.ty@) {
                Some(t) => if t.normal is Some && t.normal->0@ == t.read@ {
                    column.ty == t.read@ && column.spelled == t.read.spelled@
                } else {
                    column.ty.base == c.ty@ && column.ty.args.len() == 0 && column.spelled
                        == c.ty@
                },
                None => column.ty.base == c.ty@ && column.ty.args.len() == 0 && column.spelled
                    == c.ty@,
            }
        }),
{
}

/// One where it holds.
pub open spec fn count(holds: bool) -> nat {
    if holds {
        1
    } else {
        0
    }
}

/// Everything about a column that the model has nowhere to put is said, each
/// once: a type it does not know, a generated value, a sequence of its own or
/// of others, a collation, and of an identity that it only fills in where
/// nothing is given, that it has bounds or a cycle of its own, and that it takes
/// more than one value at a time.
pub proof fn everything_about_a_column_is_said(read: ReadBack, c: RawColumn, table: Qualified)
    ensures
        introspect::column_notes(read, c, table).len() == count(
            introspect::read_whole(read, c.ty@) is None,
        ) + count(c.generated) + count(c.owned_sequence is Some) + count(
            c.default_sequences is Some,
        ) + count(c.collation is Some) + match c.identity {
            Some(id) => count(!id.always) + count(
                introspect::bounds_from(read.bounds@, c.ty@, id.increment, 0) != Some(
                    (id.min, id.max),
                ) || id.cycles,
            ) + count(id.cache != 1),
            None => 0,
        },
{
}

// ---------------------------------------------------------------------------
// Modules

/// What a row of a module is: a view by its name, a routine by its name and
/// its argument types, and a trigger by its table and its own name.
pub proof fn a_module_is_what_its_row_says(raw: RawCatalog, read: ReadBack, m: RawModule)
    ensures
        match introspect::module_read(raw, read, m) {
            ModuleRead::Kept { id, kind, definition } => definition.len() > 0 && if m.kind == 'v' {
                kind == ModuleKind::View && id == model::ModuleIdView::Named((m.schema@, m.name@))
            } else if m.kind == 'f' {
                kind == ModuleKind::Function && id is Routine && id->Routine_name == (
                    m.schema@,
                    m.name@,
                )
            } else if m.kind == 'p' {
                kind == ModuleKind::Procedure && id is Routine && id->Routine_name == (
                    m.schema@,
                    m.name@,
                )
            } else {
                m.kind == 't' && kind == ModuleKind::Trigger && id == (
                model::ModuleIdView::Trigger { on: (m.schema@, m.on_table@), name: m.name@ })
            },
            ModuleRead::LeftOut(_) => true,
        },
{
}

/// How many of the first `n` rows are arguments of a routine.
pub open spec fn arity(rows: Seq<introspect::RawModuleArg>, oid: i64, n: int) -> nat
    decreases n,
{
    if n <= 0 {
        0
    } else {
        arity(rows, oid, n - 1) + count(rows[n - 1].routine_oid == oid)
    }
}

proof fn arguments_are_the_routines_own(
    read: ReadBack,
    rows: Seq<introspect::RawModuleArg>,
    oid: i64,
    n: int,
    k: int,
)
    requires
        0 <= k < n <= rows.len(),
    ensures
        introspect::args_read(read, rows, oid, n) matches Ok(args) ==> args.len() == arity(
            rows,
            oid,
            n,
        ) && (rows[k].routine_oid == oid ==> arity(rows, oid, k) < args.len()
            && introspect::arg_read(read, rows[k].ty@) == Ok::<model::ArgView, Seq<char>>(
            args[arity(rows, oid, k) as int],
        )),
    decreases n,
{
    if k < n - 1 {
        arguments_are_the_routines_own(read, rows, oid, n - 1, k);
    } else if n > 1 {
        arguments_are_the_routines_own(read, rows, oid, n - 1, 0);
    } else {
        assert(introspect::args_read(read, rows, oid, 0) == Ok::<
            Seq<model::ArgView>,
            (i64, Seq<char>),
        >(Seq::empty()));
    }
}

/// A routine that is kept has every argument that the catalog has for it, in
/// order, each as its spelling reads.
pub proof fn a_routine_keeps_every_argument(
    raw: RawCatalog,
    read: ReadBack,
    m: RawModule,
    k: int,
)
    requires
        m.kind == 'f' || m.kind == 'p',
        0 <= k < raw.module_args@.len(),
    ensures
        introspect::module_read(raw, read, m) matches ModuleRead::Kept { id, .. } ==> id is Routine
            && id->Routine_args.len() == arity(
            raw.module_args@,
            m.oid,
            raw.module_args@.len() as int,
        ) && (raw.module_args@[k].routine_oid == m.oid ==> introspect::arg_read(
            read,
            raw.module_args@[k].ty@,
        ) == Ok::<model::ArgView, Seq<char>>(
            id->Routine_args[arity(raw.module_args@, m.oid, k) as int],
        )),
{
    arguments_are_the_routines_own(
        read,
        raw.module_args@,
        m.oid,
        raw.module_args@.len() as int,
        k,
    );
}

/// What the engine deparses for a routine or a trigger is cut behind its
/// prefix and its name, and what it deparses for a view is taken without the
/// terminator: a module of any kind is kept only with a text that stands in
/// what was deparsed.
pub proof fn a_definition_is_cut_behind_its_own_prefix(m: RawModule)
    ensures
        introspect::definition_read(m) == if m.kind == 'v' {
            Some(introspect::query_of(m.definition@))
        } else if m.kind == 'f' {
            introspect::behind_name(m.definition@, "CREATE OR REPLACE FUNCTION "@)
        } else if m.kind == 'p' {
            introspect::behind_name(m.definition@, "CREATE OR REPLACE PROCEDURE "@)
        } else {
            introspect::behind_name(m.definition@, "CREATE TRIGGER "@)
        },
{
}

} // verus!
