//! Laws of a pull: nothing is left out in silence, what is recorded can be
//! written and read back, and nothing recorded points at what is not.
use vstd::prelude::*;

use crate::entries;
use crate::entries::Entry;
use crate::granted;
use crate::introspect;
use crate::introspect::{
    Built, Kept, Log, Modules, RawCatalog, RawConstraint, RawGrant, RawIndex, RawModule, RawTable,
    ReadBack, TableView, Tables,
};
use crate::model;
use crate::order;
use crate::text;

verus! {

// ---------------------------------------------------------------------------
// Nothing is left out in silence

/// A constraint that leaves nothing in its table is named, whatever its kind.
/// The one exception is a catalogued NOT NULL, which its column carries.
pub proof fn no_constraint_is_left_out_in_silence(
    raw: RawCatalog,
    refused: Seq<i64>,
    surviving: Seq<i64>,
    c: RawConstraint,
    table: model::Qualified,
)
    requires
        c.kind != 'n',
        introspect::constraint_read(raw, refused, surviving, c, table).kept is Nothing,
    ensures
        introspect::constraint_read(raw, refused, surviving, c, table).notes.len() > 0,
{
}

/// An index is in its table, or exactly one note says why it is not.
pub proof fn no_index_is_left_out_in_silence(
    table: TableView,
    columns: Seq<introspect::RawColumn>,
    i: RawIndex,
    name: model::Qualified,
)
    requires
        entries::ordered(table.indexes),
    ensures
        ({
            let read = introspect::index_read(columns, i, name);
            let after = introspect::with_index(table, i.name@, read);
            entries::found(after.indexes, seq![i.name@]) is Some || introspect::index_notes(
                read,
            ).len() == 1
        }),
{
    match introspect::index_read(columns, i, name) {
        introspect::IndexRead::Kept { index, notes: _ } => entries::put_is_a_map_insert(
            table.indexes,
            seq![i.name@],
            index,
        ),
        _ => {},
    }
}

/// A module is in the pull under its own identity, or one warning and one
/// limitation say why it is not. Nothing else changes.
pub proof fn no_module_is_left_out_in_silence(
    raw: RawCatalog,
    read: ReadBack,
    m: RawModule,
    front: Modules,
)
    requires
        entries::ordered(front.modules),
    ensures
        ({
            let after = introspect::with_module(raw, read, m, front);
            match introspect::module_read(raw, read, m) {
                introspect::ModuleRead::Kept { id, kind, definition } => {
                    &&& entries::found(after.modules, model::module_rank(id)) == Some(
                        (kind, definition),
                    )
                    &&& after.log == front.log
                },
                introspect::ModuleRead::LeftOut(note) => {
                    &&& after.modules == front.modules
                    &&& after.log.warnings == front.log.warnings.push(note)
                    &&& after.log.limitations == front.log.limitations.push(
                        ((m.schema@, m.name@), note),
                    )
                },
            }
        }),
{
    match introspect::module_read(raw, read, m) {
        introspect::ModuleRead::Kept { id, kind, definition } => entries::put_is_a_map_insert(
            front.modules,
            model::module_rank(id),
            (kind, definition),
        ),
        introspect::ModuleRead::LeftOut(note) => {
            let after = introspect::with_module(raw, read, m, front);
            assert(after.log.warnings =~= front.log.warnings.push(note));
            assert(after.log.limitations =~= front.log.limitations.push(
                ((m.schema@, m.name@), note),
            ));
        },
    }
}

/// An entry of an access list is the zero point only where nobody granted it:
/// it is the engine's default, or the owner's own. Every other one is held by
/// a role or reported on its own.
pub proof fn only_what_nobody_granted_is_the_zero_point(
    raw: RawCatalog,
    read: ReadBack,
    tables: Seq<Entry<TableView>>,
    modules: Seq<Entry<(model::ModuleKind, Seq<char>)>>,
    roles: Seq<Entry<granted::RoleView>>,
    g: RawGrant,
)
    ensures
        granted::meaning(raw, read, tables, modules, roles, g) is ZeroPoint <==> g.grantee is Some
            && (g.defaulted || granted::grantee_of(g) == g.owner@),
{
}

// ---------------------------------------------------------------------------
// What is recorded can be written

/// A column, among the first `n`, whose type does not survive is listed.
proof fn an_unwritable_type_is_listed(
    raw: RawCatalog,
    read: ReadBack,
    table: i64,
    n: int,
    i: int,
)
    requires
        0 <= i < n <= raw.columns@.len(),
        raw.columns@[i].table_oid == table,
        introspect::unwritable_columns(raw, read, table, n).len() == 0,
    ensures
        introspect::survives(
            read,
            introspect::stored(read, raw.columns@[i].ty@),
            introspect::stored_text(read, raw.columns@[i].ty@),
        ),
    decreases n,
{
    if i < n - 1 {
        an_unwritable_type_is_listed(raw, read, table, n - 1, i);
    }
}

/// A column whose name does not read back is found.
proof fn a_lost_column_is_found(
    raw: RawCatalog,
    read: ReadBack,
    table: i64,
    name: model::Qualified,
    at: int,
    i: int,
)
    requires
        0 <= at <= i < raw.columns@.len(),
        raw.columns@[i].table_oid == table,
        introspect::lost_column(raw, read, table, name, at) is None,
    ensures
        introspect::column_reads_back(read, name, raw.columns@[i].name@),
    decreases i - at,
{
    if at < i {
        a_lost_column_is_found(raw, read, table, name, at + 1, i);
    }
}

/// A table that is recorded loads again: its name, the name of every column it
/// has and the type each is recorded with read back as what was written.
pub proof fn a_recorded_table_reads_back(raw: RawCatalog, read: ReadBack, t: RawTable)
    requires
        introspect::unwritable(raw, read, t) is None,
    ensures
        introspect::table_reads_back(read, introspect::name_of(t)),
        forall|i: int|
            0 <= i < raw.columns@.len() && (#[trigger] raw.columns@[i]).table_oid == t.oid ==> {
                &&& introspect::column_reads_back(
                    read,
                    introspect::name_of(t),
                    raw.columns@[i].name@,
                )
                &&& introspect::survives(
                    read,
                    introspect::column_read(read, raw.columns@[i]).ty,
                    introspect::column_read(read, raw.columns@[i]).spelled,
                )
            },
{
    let n = raw.columns@.len() as int;
    assert forall|i: int|
        0 <= i < n && (#[trigger] raw.columns@[i]).table_oid == t.oid implies {
        &&& introspect::column_reads_back(read, introspect::name_of(t), raw.columns@[i].name@)
        &&& introspect::survives(
            read,
            introspect::column_read(read, raw.columns@[i]).ty,
            introspect::column_read(read, raw.columns@[i]).spelled,
        )
    } by {
        an_unwritable_type_is_listed(raw, read, t.oid, n, i);
        a_lost_column_is_found(raw, read, t.oid, introspect::name_of(t), 0, i);
    }
}

/// A role holds a permission only on a target that the pull recorded, that
/// reads back as itself, and where the permission is plain: on the whole
/// object, without the grant option, and one that the model has a word for.
pub proof fn a_role_holds_only_what_a_declaration_can_say(
    raw: RawCatalog,
    read: ReadBack,
    tables: Seq<Entry<TableView>>,
    modules: Seq<Entry<(model::ModuleKind, Seq<char>)>>,
    roles: Seq<Entry<granted::RoleView>>,
    g: RawGrant,
)
    ensures
        granted::meaning(raw, read, tables, modules, roles, g) matches granted::Meaning::Held {
            target,
            permission,
        } ==> {
            &&& granted::target_reads_back(read, target)
            &&& granted::is_recorded(tables, modules, target)
            &&& granted::is_role(roles, granted::grantee_of(g))
            &&& g.column is None
            &&& !g.grantable
            &&& !g.defaulted
        },
{
}

// ---------------------------------------------------------------------------
// Nothing recorded points at what is not

/// A foreign key is kept only with everything it points at: the table it
/// references is in the pull, the columns on both sides have names, and the
/// uniqueness it is enforced against survived.
pub proof fn a_foreign_key_is_kept_with_what_it_points_at(
    raw: RawCatalog,
    refused: Seq<i64>,
    surviving: Seq<i64>,
    c: RawConstraint,
    table: model::Qualified,
)
    ensures
        introspect::constraint_read(raw, refused, surviving, c, table).kept matches Kept::ForeignKey {
            name: _,
            key,
        } ==> {
            &&& introspect::referenced_table(raw.tables@, refused, c.ref_table) == Some(
                key.references_table,
            )
            &&& introspect::referenced_columns(raw.columns@, refused, c) == Some(
                key.references_columns,
            )
            &&& introspect::names_behind(raw.columns@, c.table_oid, c.columns@) == Ok::<
                Seq<Seq<char>>,
                i32,
            >(key.columns)
            &&& c.index_oid matches Some(oid) ==> surviving.contains(oid)
            &&& c.enforced && !c.period && !c.deferrable && c.match_type == 's'
        },
{
}

/// Whether a table of this name is in the pull.
pub open spec fn has_table(tables: Seq<Entry<TableView>>, name: model::Qualified) -> bool {
    entries::found(tables, model::table_rank(name)) is Some
}

/// Whether every foreign key of a table points at a table in the pull.
pub open spec fn points_inside(tables: Seq<Entry<TableView>>, table: TableView) -> bool {
    forall|j: int|
        0 <= j < table.foreign_keys.len() ==> has_table(
            tables,
            (#[trigger] table.foreign_keys[j]).1.references_table,
        )
}

/// Whether every foreign key in the pull points at a table in the pull.
pub open spec fn all_point_inside(tables: Seq<Entry<TableView>>) -> bool {
    forall|i: int| 0 <= i < tables.len() ==> points_inside(tables, (#[trigger] tables[i]).1)
}

/// Whether every table that is not refused is in the pull, among the first
/// `n`.
spec fn all_recorded(raw: RawCatalog, refused: Seq<i64>, tables: Seq<Entry<TableView>>, n: int) -> bool {
    forall|i: int|
        0 <= i < n && !refused.contains((#[trigger] raw.tables@[i]).oid) ==> has_table(
            tables,
            introspect::name_of(raw.tables@[i]),
        )
}

proof fn columns_bring_no_keys(
    raw: RawCatalog,
    read: ReadBack,
    t: RawTable,
    surviving: Seq<i64>,
    n: int,
)
    ensures
        introspect::with_columns(raw, read, t, surviving, n).table.foreign_keys.len() == 0,
    decreases n,
{
    if n > 0 {
        columns_bring_no_keys(raw, read, t, surviving, n - 1);
    }
}

proof fn constraints_bring_no_keys(
    raw: RawCatalog,
    refused: Seq<i64>,
    t: RawTable,
    start: Built,
    n: int,
)
    requires
        start.table.foreign_keys.len() == 0,
    ensures
        introspect::with_constraints(raw, refused, t, start, n).table.foreign_keys.len() == 0,
    decreases n,
{
    if n > 0 {
        constraints_bring_no_keys(raw, refused, t, start, n - 1);
    }
}

proof fn indexes_bring_no_keys(raw: RawCatalog, t: RawTable, start: Built, n: int)
    requires
        start.table.foreign_keys.len() == 0,
    ensures
        introspect::with_indexes(raw, t, start, n).table.foreign_keys.len() == 0,
    decreases n,
{
    if n > 0 {
        indexes_bring_no_keys(raw, t, start, n - 1);
    }
}

proof fn a_built_table_has_no_keys(
    raw: RawCatalog,
    read: ReadBack,
    refused: Seq<i64>,
    t: RawTable,
    surviving: Seq<i64>,
)
    ensures
        introspect::built(raw, read, refused, t, surviving).table.foreign_keys.len() == 0,
{
    let n = raw.columns@.len() as int;
    let m = raw.constraints@.len() as int;
    columns_bring_no_keys(raw, read, t, surviving, n);
    let columns = introspect::with_columns(raw, read, t, surviving, n);
    constraints_bring_no_keys(raw, refused, t, columns, m);
    let constraints = introspect::with_constraints(raw, refused, t, columns, m);
    indexes_bring_no_keys(raw, t, constraints, raw.indexes@.len() as int);
}

/// What stands in a list after a put was there, or is what was put.
proof fn put_brings_one<A>(e: Seq<Entry<A>>, key: Seq<Seq<char>>, value: A, i: int)
    requires
        0 <= i < entries::put(e, key, value).len(),
    ensures
        entries::put(e, key, value)[i].1 == value || exists|j: int|
            0 <= j < e.len() && #[trigger] e[j].1 == entries::put(e, key, value)[i].1,
{
    entries::place_is_in_range(e, key);
    let p = entries::place_from(e, key, 0);
    let n = entries::put(e, key, value);
    if p < e.len() && e[p].0 == key {
        if i != p {
            assert(n[i] == e[i]);
        }
    } else if i < p {
        assert(n[i] == e[i]);
    } else if i > p {
        assert(n[i] == e[i - 1]);
    }
}

/// The tables of the first pass: in order, without foreign keys, and with
/// every table that is not refused.
proof fn tables_are_recorded(
    raw: RawCatalog,
    read: ReadBack,
    refused: Seq<i64>,
    start: Tables,
    n: int,
)
    requires
        0 <= n <= raw.tables@.len(),
        start.tables.len() == 0,
    ensures
        ({
            let after = introspect::with_tables(raw, read, refused, start, n).tables;
            &&& entries::ordered(after)
            &&& all_recorded(raw, refused, after, n)
            &&& forall|i: int| 0 <= i < after.len() ==> (#[trigger] after[i]).1.foreign_keys.len()
                == 0
        }),
    decreases n,
{
    if n > 0 {
        tables_are_recorded(raw, read, refused, start, n - 1);
        let front = introspect::with_tables(raw, read, refused, start, n - 1);
        let after = introspect::with_tables(raw, read, refused, start, n);
        let t = raw.tables@[n - 1];
        if !refused.contains(t.oid) {
            let b = introspect::built(raw, read, refused, t, front.surviving);
            let key = model::table_rank(introspect::name_of(t));
            entries::put_is_a_map_insert(front.tables, key, b.table);
            a_built_table_has_no_keys(raw, read, refused, t, front.surviving);
            assert forall|i: int| 0 <= i < n && !refused.contains(
                (#[trigger] raw.tables@[i]).oid,
            ) implies has_table(after.tables, introspect::name_of(raw.tables@[i])) by {
                let other = model::table_rank(introspect::name_of(raw.tables@[i]));
                if other != key {
                    assert(entries::found(after.tables, other) == entries::found(
                        front.tables,
                        other,
                    ));
                }
            }
            assert forall|i: int| 0 <= i < after.tables.len() implies (
            #[trigger] after.tables[i]).1.foreign_keys.len() == 0 by {
                put_brings_one(front.tables, key, b.table, i);
            }
        }
    }
}

/// Replacing what stands under a key keeps every key.
proof fn replacing_keeps_keys<A>(e: Seq<Entry<A>>, key: Seq<Seq<char>>, value: A)
    requires
        entries::found(e, key) is Some,
    ensures
        entries::put_behind(e, key, value).len() == e.len(),
        forall|i: int|
            0 <= i < e.len() ==> (#[trigger] entries::put_behind(e, key, value)[i]).0 == e[i].0,
        forall|k: Seq<Seq<char>>|
            entries::found(e, k) is Some <==> (#[trigger] entries::found(
                entries::put_behind(e, key, value),
                k,
            )) is Some,
        forall|i: int|
            0 <= i < e.len() ==> (#[trigger] entries::put_behind(e, key, value)[i]).1 == value
                || entries::put_behind(e, key, value)[i] == e[i],
{
    entries::position_has_key(e, key);
    let n = entries::put_behind(e, key, value);
    assert forall|k: Seq<Seq<char>>| entries::found(e, k) is Some <==> (#[trigger] entries::found(
        n,
        k,
    )) is Some by {
        entries::found_is_an_entry(e, k);
        entries::found_is_an_entry(n, k);
        if entries::found(e, k) is Some {
            let i = choose|i: int| 0 <= i < e.len() && #[trigger] e[i] == (
                k,
                entries::found(e, k)->0,
            );
            assert(n[i].0 == k);
        }
        if entries::found(n, k) is Some {
            let i = choose|i: int| 0 <= i < n.len() && #[trigger] n[i] == (
                k,
                entries::found(n, k)->0,
            );
            assert(e[i].0 == k);
        }
    }
}

/// The table a number names, where it is not refused, is one that was read.
proof fn a_named_table_was_read(tables: Seq<RawTable>, n: int, oid: i64)
    requires
        0 <= n <= tables.len(),
        introspect::table_named(tables, n, oid) is Some,
    ensures
        exists|i: int|
            0 <= i < n && (#[trigger] tables[i]).oid == oid && introspect::table_named(
                tables,
                n,
                oid,
            ) == Some(introspect::name_of(tables[i])),
    decreases n,
{
    if tables[n - 1].oid != oid {
        a_named_table_was_read(tables, n - 1, oid);
    }
}

/// What holds of the tables while foreign keys are added.
spec fn is_sound(raw: RawCatalog, refused: Seq<i64>, tables: Seq<Entry<TableView>>) -> bool {
    &&& entries::ordered(tables)
    &&& all_recorded(raw, refused, tables, raw.tables@.len() as int)
    &&& all_point_inside(tables)
}

proof fn a_foreign_key_keeps_soundness(
    raw: RawCatalog,
    refused: Seq<i64>,
    name: model::Qualified,
    c: RawConstraint,
    front: Tables,
)
    requires
        is_sound(raw, refused, front.tables),
    ensures
        is_sound(
            raw,
            refused,
            introspect::with_foreign_key(raw, refused, name, c, front).tables,
        ),
{
    let key = model::table_rank(name);
    let after = introspect::with_foreign_key(raw, refused, name, c, front).tables;
    if let Some(table) = entries::found(front.tables, key) {
        let out = introspect::constraint_read(raw, refused, front.surviving, c, name);
        let value = introspect::with_kept(table, out.kept);
        replacing_keeps_keys(front.tables, key, value);
        entries::found_is_an_entry(front.tables, key);
        let at = choose|i: int| 0 <= i < front.tables.len() && #[trigger] front.tables[i] == (
            key,
            table,
        );
        assert(points_inside(front.tables, front.tables[at].1));
        assert(points_inside(after, value)) by {
            assert forall|j: int| 0 <= j < value.foreign_keys.len() implies has_table(
                after,
                (#[trigger] value.foreign_keys[j]).1.references_table,
            ) by {
                match out.kept {
                    Kept::ForeignKey { name: own, key: fk } => {
                        a_foreign_key_is_kept_with_what_it_points_at(
                            raw,
                            refused,
                            front.surviving,
                            c,
                            name,
                        );
                        put_brings_one(table.foreign_keys, seq![own], fk, j);
                        if value.foreign_keys[j].1 == fk {
                            let oid = c.ref_table->0;
                            a_named_table_was_read(raw.tables@, raw.tables@.len() as int, oid);
                            let k = choose|k: int|
                                0 <= k < raw.tables@.len() && (#[trigger] raw.tables@[k]).oid
                                    == oid && introspect::table_named(
                                    raw.tables@,
                                    raw.tables@.len() as int,
                                    oid,
                                ) == Some(introspect::name_of(raw.tables@[k]));
                            assert(has_table(
                                front.tables,
                                introspect::name_of(raw.tables@[k]),
                            ));
                        } else {
                            let m = choose|m: int|
                                0 <= m < table.foreign_keys.len()
                                    && #[trigger] table.foreign_keys[m].1
                                    == value.foreign_keys[j].1;
                            assert(has_table(
                                front.tables,
                                table.foreign_keys[m].1.references_table,
                            ));
                        }
                    },
                    _ => {
                        assert(value.foreign_keys == table.foreign_keys);
                        assert(has_table(
                            front.tables,
                            table.foreign_keys[j].1.references_table,
                        ));
                    },
                }
            }
        }
        assert forall|i: int| 0 <= i < after.len() implies points_inside(
            after,
            (#[trigger] after[i]).1,
        ) by {
            if after[i].1 != value {
                assert(after[i] == front.tables[i]);
                assert(points_inside(front.tables, front.tables[i].1));
                assert forall|j: int| 0 <= j < after[i].1.foreign_keys.len() implies has_table(
                    after,
                    (#[trigger] after[i].1.foreign_keys[j]).1.references_table,
                ) by {
                    assert(has_table(
                        front.tables,
                        front.tables[i].1.foreign_keys[j].1.references_table,
                    ));
                }
            }
        }
        assert(entries::ordered(after)) by {
            assert forall|i: int, j: int| 0 <= i < j < after.len() implies entries::rank_before(
                (#[trigger] after[i]).0,
                (#[trigger] after[j]).0,
            ) by {
                assert(after[i].0 == front.tables[i].0 && after[j].0 == front.tables[j].0);
            }
        }
        assert(all_recorded(raw, refused, after, raw.tables@.len() as int)) by {
            assert forall|i: int|
                0 <= i < raw.tables@.len() && !refused.contains(
                    (#[trigger] raw.tables@[i]).oid,
                ) implies has_table(after, introspect::name_of(raw.tables@[i])) by {
                assert(has_table(front.tables, introspect::name_of(raw.tables@[i])));
            }
        }
    }
}

proof fn foreign_keys_keep_soundness(
    raw: RawCatalog,
    refused: Seq<i64>,
    t: RawTable,
    start: Tables,
    n: int,
)
    requires
        is_sound(raw, refused, start.tables),
    ensures
        is_sound(
            raw,
            refused,
            introspect::with_foreign_keys(raw, refused, t, start, n).tables,
        ),
    decreases n,
{
    if n > 0 {
        foreign_keys_keep_soundness(raw, refused, t, start, n - 1);
        a_foreign_key_keeps_soundness(
            raw,
            refused,
            introspect::name_of(t),
            raw.constraints@[n - 1],
            introspect::with_foreign_keys(raw, refused, t, start, n - 1),
        );
    }
}

proof fn all_foreign_keys_keep_soundness(
    raw: RawCatalog,
    refused: Seq<i64>,
    start: Tables,
    n: int,
)
    requires
        is_sound(raw, refused, start.tables),
    ensures
        is_sound(
            raw,
            refused,
            introspect::with_all_foreign_keys(raw, refused, start, n).tables,
        ),
    decreases n,
{
    if n > 0 {
        all_foreign_keys_keep_soundness(raw, refused, start, n - 1);
        foreign_keys_keep_soundness(
            raw,
            refused,
            raw.tables@[n - 1],
            introspect::with_all_foreign_keys(raw, refused, start, n - 1),
            raw.constraints@.len() as int,
        );
    }
}

/// The tables of a pull stand in the order of their names, every table that
/// can be written is one of them, and every foreign key of every one points at
/// one of them: the schema that was read can be built.
pub proof fn every_foreign_key_points_inside_the_pull(raw: RawCatalog, read: ReadBack)
    ensures
        ({
            let tables = introspect::assembled(raw, read).tables;
            let refused = introspect::refused_tables(raw, read, raw.tables@.len() as int);
            &&& entries::ordered(tables)
            &&& all_point_inside(tables)
            &&& forall|i: int|
                0 <= i < raw.tables@.len() && !refused.contains((#[trigger] raw.tables@[i]).oid)
                    ==> has_table(tables, introspect::name_of(raw.tables@[i]))
        }),
{
    let n = raw.tables@.len() as int;
    let refused = introspect::refused_tables(raw, read, n);
    let start = Tables {
        tables: Seq::empty(),
        log: introspect::refusals_log(raw, read, introspect::empty_log(), n),
        surviving: Seq::empty(),
    };
    tables_are_recorded(raw, read, refused, start, n);
    let first = introspect::with_tables(raw, read, refused, start, n);
    assert(all_point_inside(first.tables)) by {
        assert forall|i: int| 0 <= i < first.tables.len() implies points_inside(
            first.tables,
            (#[trigger] first.tables[i]).1,
        ) by {
            assert(first.tables[i].1.foreign_keys.len() == 0);
        }
    }
    all_foreign_keys_keep_soundness(raw, refused, first, n);
}

/// A table is refused exactly where one of the rows that have its number
/// cannot be written.
pub proof fn a_table_is_refused_where_it_cannot_be_written(
    raw: RawCatalog,
    read: ReadBack,
    n: int,
    oid: i64,
)
    requires
        0 <= n <= raw.tables@.len(),
    ensures
        introspect::refused_tables(raw, read, n).contains(oid) <==> exists|i: int|
            0 <= i < n && (#[trigger] raw.tables@[i]).oid == oid && introspect::unwritable(
                raw,
                read,
                raw.tables@[i],
            ) is Some,
    decreases n,
{
    if n > 0 {
        a_table_is_refused_where_it_cannot_be_written(raw, read, n - 1, oid);
        let t = raw.tables@[n - 1];
        let front = introspect::refused_tables(raw, read, n - 1);
        let all = introspect::refused_tables(raw, read, n);
        if introspect::unwritable(raw, read, t) is Some {
            if all.contains(oid) {
                let k = choose|k: int| 0 <= k < all.len() && all[k] == oid;
                if k < front.len() {
                    assert(front[k] == oid);
                }
            }
            if front.contains(oid) {
                let k = choose|k: int| 0 <= k < front.len() && front[k] == oid;
                assert(all[k] == oid);
            }
            if t.oid == oid {
                assert(all[front.len() as int] == oid);
                assert(raw.tables@[n - 1].oid == oid);
            }
        }
    }
}

// ---------------------------------------------------------------------------
// Every limitation is said

/// Whether everything a log limits is also among its warnings.
pub open spec fn is_said(log: Log) -> bool {
    forall|i: int|
        0 <= i < log.limitations.len() ==> log.warnings.contains(
            (#[trigger] log.limitations[i]).1,
        )
}

proof fn noting_says(log: Log, table: model::Qualified, notes: Seq<Seq<char>>)
    requires
        is_said(log),
    ensures
        is_said(introspect::noted(log, table, notes)),
{
    let after = introspect::noted(log, table, notes);
    assert forall|i: int| 0 <= i < after.limitations.len() implies after.warnings.contains(
        (#[trigger] after.limitations[i]).1,
    ) by {
        if i < log.limitations.len() {
            assert(after.limitations[i] == log.limitations[i]);
            let said = log.limitations[i].1;
            let k = choose|k: int| 0 <= k < log.warnings.len() && log.warnings[k] == said;
            assert(after.warnings[k] == said);
        } else {
            let k = i - log.limitations.len();
            assert(after.warnings[log.warnings.len() + k] == notes[k]);
        }
    }
}

proof fn refusals_are_said(raw: RawCatalog, read: ReadBack, start: Log, n: int)
    requires
        is_said(start),
    ensures
        is_said(introspect::refusals_log(raw, read, start, n)),
    decreases n,
{
    if n > 0 {
        refusals_are_said(raw, read, start, n - 1);
        let t = raw.tables@[n - 1];
        if let Some(detail) = introspect::unwritable(raw, read, t) {
            noting_says(
                introspect::refusals_log(raw, read, start, n - 1),
                introspect::name_of(t),
                seq![detail],
            );
        }
    }
}

proof fn tables_are_said(
    raw: RawCatalog,
    read: ReadBack,
    refused: Seq<i64>,
    start: Tables,
    n: int,
)
    requires
        is_said(start.log),
    ensures
        is_said(introspect::with_tables(raw, read, refused, start, n).log),
    decreases n,
{
    if n > 0 {
        tables_are_said(raw, read, refused, start, n - 1);
        let front = introspect::with_tables(raw, read, refused, start, n - 1);
        let t = raw.tables@[n - 1];
        let b = introspect::built(raw, read, refused, t, front.surviving);
        noting_says(front.log, introspect::name_of(t), b.notes);
    }
}

proof fn foreign_keys_are_said(
    raw: RawCatalog,
    refused: Seq<i64>,
    t: RawTable,
    start: Tables,
    n: int,
)
    requires
        is_said(start.log),
    ensures
        is_said(introspect::with_foreign_keys(raw, refused, t, start, n).log),
    decreases n,
{
    if n > 0 {
        foreign_keys_are_said(raw, refused, t, start, n - 1);
        let front = introspect::with_foreign_keys(raw, refused, t, start, n - 1);
        let c = raw.constraints@[n - 1];
        let name = introspect::name_of(t);
        let out = introspect::constraint_read(raw, refused, front.surviving, c, name);
        noting_says(front.log, name, out.notes);
    }
}

proof fn all_foreign_keys_are_said(raw: RawCatalog, refused: Seq<i64>, start: Tables, n: int)
    requires
        is_said(start.log),
    ensures
        is_said(introspect::with_all_foreign_keys(raw, refused, start, n).log),
    decreases n,
{
    if n > 0 {
        all_foreign_keys_are_said(raw, refused, start, n - 1);
        foreign_keys_are_said(
            raw,
            refused,
            raw.tables@[n - 1],
            introspect::with_all_foreign_keys(raw, refused, start, n - 1),
            raw.constraints@.len() as int,
        );
    }
}

proof fn modules_are_said(raw: RawCatalog, read: ReadBack, start: Modules, n: int)
    requires
        is_said(start.log),
    ensures
        is_said(introspect::with_modules(raw, read, start, n).log),
    decreases n,
{
    if n > 0 {
        modules_are_said(raw, read, start, n - 1);
        let front = introspect::with_modules(raw, read, start, n - 1);
        let m = raw.modules@[n - 1];
        if let introspect::ModuleRead::LeftOut(note) = introspect::module_read(raw, read, m) {
            noting_says(front.log, (m.schema@, m.name@), seq![note]);
        }
    }
}

/// Everything that a pull could not hold is among its warnings: no limitation
/// is carried without being said.
pub proof fn every_limitation_is_a_warning(raw: RawCatalog, read: ReadBack)
    ensures
        is_said(introspect::assembled(raw, read).log),
{
    let n = raw.tables@.len() as int;
    let refused = introspect::refused_tables(raw, read, n);
    refusals_are_said(raw, read, introspect::empty_log(), n);
    let start = Tables {
        tables: Seq::empty(),
        log: introspect::refusals_log(raw, read, introspect::empty_log(), n),
        surviving: Seq::empty(),
    };
    tables_are_said(raw, read, refused, start, n);
    all_foreign_keys_are_said(
        raw,
        refused,
        introspect::with_tables(raw, read, refused, start, n),
        n,
    );
    let tables = introspect::tables_read(raw, read);
    modules_are_said(
        raw,
        read,
        Modules { modules: Seq::empty(), ids: Seq::empty(), log: tables.log },
        raw.modules@.len() as int,
    );
    let said = introspect::modules_read(raw, read).log;
    let log = introspect::assembled(raw, read).log;
    assert forall|i: int| 0 <= i < log.limitations.len() implies log.warnings.contains(
        (#[trigger] log.limitations[i]).1,
    ) by {
        let what = said.limitations[i].1;
        let k = choose|k: int| 0 <= k < said.warnings.len() && said.warnings[k] == what;
        assert(log.warnings[k] == what);
    }
}

// ---------------------------------------------------------------------------
// Nothing in silence

/// Whether every one of some notes about a table is a limitation.
pub open spec fn all_limited(log: Log, table: model::Qualified, notes: Seq<Seq<char>>) -> bool {
    forall|j: int|
        0 <= j < notes.len() ==> log.limitations.contains((table, #[trigger] notes[j]))
}

/// Whether one log goes on from another.
spec fn goes_on(a: Log, b: Log) -> bool {
    &&& a.limitations.len() <= b.limitations.len()
    &&& forall|i: int|
        0 <= i < a.limitations.len() ==> #[trigger] b.limitations[i] == a.limitations[i]
}

proof fn going_on_chains(a: Log, b: Log, c: Log)
    requires
        goes_on(a, b),
        goes_on(b, c),
    ensures
        goes_on(a, c),
{
    assert forall|i: int| 0 <= i < a.limitations.len() implies #[trigger] c.limitations[i]
        == a.limitations[i] by {
        assert(b.limitations[i] == a.limitations[i]);
    }
}

proof fn a_limitation_stays(a: Log, b: Log, x: (model::Qualified, Seq<char>))
    requires
        goes_on(a, b),
        a.limitations.contains(x),
    ensures
        b.limitations.contains(x),
{
    let k = choose|k: int| 0 <= k < a.limitations.len() && a.limitations[k] == x;
    assert(b.limitations[k] == x);
}

proof fn limitations_stay(a: Log, b: Log, table: model::Qualified, notes: Seq<Seq<char>>)
    requires
        goes_on(a, b),
        all_limited(a, table, notes),
    ensures
        all_limited(b, table, notes),
{
    assert forall|j: int| 0 <= j < notes.len() implies b.limitations.contains(
        (table, #[trigger] notes[j]),
    ) by {
        a_limitation_stays(a, b, (table, notes[j]));
    }
}

proof fn noting_limits(log: Log, table: model::Qualified, notes: Seq<Seq<char>>)
    ensures
        goes_on(log, introspect::noted(log, table, notes)),
        all_limited(introspect::noted(log, table, notes), table, notes),
{
    let after = introspect::noted(log, table, notes);
    assert forall|j: int| 0 <= j < notes.len() implies after.limitations.contains(
        (table, #[trigger] notes[j]),
    ) by {
        assert(after.limitations[log.limitations.len() + j] == (table, notes[j]));
    }
}

/// Whether every one of some notes is among others.
spec fn holds_all(notes: Seq<Seq<char>>, part: Seq<Seq<char>>) -> bool {
    forall|j: int| 0 <= j < part.len() ==> notes.contains(#[trigger] part[j])
}

proof fn a_part_of_limited_notes_is_limited(
    log: Log,
    table: model::Qualified,
    notes: Seq<Seq<char>>,
    part: Seq<Seq<char>>,
)
    requires
        all_limited(log, table, notes),
        holds_all(notes, part),
    ensures
        all_limited(log, table, part),
{
    assert forall|j: int| 0 <= j < part.len() implies log.limitations.contains(
        (table, #[trigger] part[j]),
    ) by {
        let k = choose|k: int| 0 <= k < notes.len() && notes[k] == part[j];
        assert(log.limitations.contains((table, notes[k])));
    }
}

proof fn more_notes_hold_all(notes: Seq<Seq<char>>, more: Seq<Seq<char>>, part: Seq<Seq<char>>)
    ensures
        holds_all(notes, part) ==> holds_all(notes + more, part),
        holds_all(notes + more, more),
{
    let all = notes + more;
    if holds_all(notes, part) {
        assert forall|j: int| 0 <= j < part.len() implies all.contains(#[trigger] part[j]) by {
            let k = choose|k: int| 0 <= k < notes.len() && notes[k] == part[j];
            assert(all[k] == part[j]);
        }
    }
    assert forall|j: int| 0 <= j < more.len() implies all.contains(#[trigger] more[j]) by {
        assert(all[notes.len() + j] == more[j]);
    }
}

proof fn a_column_is_noted(
    raw: RawCatalog,
    read: ReadBack,
    t: RawTable,
    surviving: Seq<i64>,
    n: int,
    k: int,
)
    requires
        0 <= k < n <= raw.columns@.len(),
        raw.columns@[k].table_oid == t.oid,
    ensures
        holds_all(
            introspect::with_columns(raw, read, t, surviving, n).notes,
            introspect::column_notes(read, raw.columns@[k], introspect::name_of(t)),
        ),
    decreases n,
{
    let front = introspect::with_columns(raw, read, t, surviving, n - 1);
    let more = introspect::column_notes(read, raw.columns@[n - 1], introspect::name_of(t));
    let part = introspect::column_notes(read, raw.columns@[k], introspect::name_of(t));
    more_notes_hold_all(front.notes, more, part);
    if k < n - 1 {
        a_column_is_noted(raw, read, t, surviving, n - 1, k);
    }
}

proof fn a_constraint_is_noted(
    raw: RawCatalog,
    refused: Seq<i64>,
    t: RawTable,
    start: Built,
    n: int,
    k: int,
    part: Seq<Seq<char>>,
)
    requires
        n <= raw.constraints@.len(),
        holds_all(start.notes, part) || 0 <= k < n && raw.constraints@[k].table_oid == t.oid
            && raw.constraints@[k].kind != 'f' && part == introspect::constraint_read(
            raw,
            refused,
            Seq::empty(),
            raw.constraints@[k],
            introspect::name_of(t),
        ).notes,
    ensures
        holds_all(introspect::with_constraints(raw, refused, t, start, n).notes, part),
    decreases n,
{
    if n > 0 {
        let front = introspect::with_constraints(raw, refused, t, start, n - 1);
        let c = raw.constraints@[n - 1];
        let more = introspect::constraint_read(
            raw,
            refused,
            Seq::empty(),
            c,
            introspect::name_of(t),
        ).notes;
        more_notes_hold_all(front.notes, more, part);
        if holds_all(start.notes, part) || k < n - 1 {
            a_constraint_is_noted(raw, refused, t, start, n - 1, k, part);
        }
    }
}

proof fn an_index_is_noted(
    raw: RawCatalog,
    t: RawTable,
    start: Built,
    n: int,
    k: int,
    part: Seq<Seq<char>>,
)
    requires
        n <= raw.indexes@.len(),
        holds_all(start.notes, part) || 0 <= k < n && raw.indexes@[k].table_oid == t.oid
            && !introspect::is_a_constraint(raw.constraints@, raw.indexes@[k].oid) && part
            == introspect::index_notes(
            introspect::index_read(raw.columns@, raw.indexes@[k], introspect::name_of(t)),
        ),
    ensures
        holds_all(introspect::with_indexes(raw, t, start, n).notes, part),
    decreases n,
{
    if n > 0 {
        let front = introspect::with_indexes(raw, t, start, n - 1);
        let i = raw.indexes@[n - 1];
        let more = introspect::index_notes(
            introspect::index_read(raw.columns@, i, introspect::name_of(t)),
        );
        more_notes_hold_all(front.notes, more, part);
        if holds_all(start.notes, part) || k < n - 1 {
            an_index_is_noted(raw, t, start, n - 1, k, part);
        }
    }
}

/// Whether everything that was noted of a table's columns, of its constraints
/// other than its foreign keys and of its own indexes is a limitation.
spec fn parts_are_limited(
    raw: RawCatalog,
    read: ReadBack,
    refused: Seq<i64>,
    t: RawTable,
    log: Log,
) -> bool {
    let name = introspect::name_of(t);
    &&& forall|k: int|
        0 <= k < raw.columns@.len() && (#[trigger] raw.columns@[k]).table_oid == t.oid
            ==> all_limited(log, name, introspect::column_notes(read, raw.columns@[k], name))
    &&& forall|k: int|
        0 <= k < raw.constraints@.len() && (#[trigger] raw.constraints@[k]).table_oid == t.oid
            && raw.constraints@[k].kind != 'f' ==> all_limited(
            log,
            name,
            introspect::constraint_read(
                raw,
                refused,
                Seq::empty(),
                raw.constraints@[k],
                name,
            ).notes,
        )
    &&& forall|k: int|
        0 <= k < raw.indexes@.len() && (#[trigger] raw.indexes@[k]).table_oid == t.oid
            && !introspect::is_a_constraint(raw.constraints@, raw.indexes@[k].oid)
            ==> all_limited(
            log,
            name,
            introspect::index_notes(introspect::index_read(raw.columns@, raw.indexes@[k], name)),
        )
}

proof fn a_built_table_limits_its_parts(
    raw: RawCatalog,
    read: ReadBack,
    refused: Seq<i64>,
    t: RawTable,
    surviving: Seq<i64>,
    log: Log,
)
    requires
        all_limited(
            log,
            introspect::name_of(t),
            introspect::built(raw, read, refused, t, surviving).notes,
        ),
    ensures
        parts_are_limited(raw, read, refused, t, log),
{
    let name = introspect::name_of(t);
    let n = raw.columns@.len() as int;
    let m = raw.constraints@.len() as int;
    let p = raw.indexes@.len() as int;
    let columns = introspect::with_columns(raw, read, t, surviving, n);
    let constraints = introspect::with_constraints(raw, refused, t, columns, m);
    let notes = introspect::built(raw, read, refused, t, surviving).notes;
    assert forall|k: int|
        0 <= k < raw.columns@.len() && (#[trigger] raw.columns@[k]).table_oid
            == t.oid implies all_limited(
        log,
        name,
        introspect::column_notes(read, raw.columns@[k], name),
    ) by {
        let part = introspect::column_notes(read, raw.columns@[k], name);
        a_column_is_noted(raw, read, t, surviving, n, k);
        a_constraint_is_noted(raw, refused, t, columns, m, 0, part);
        an_index_is_noted(raw, t, constraints, p, 0, part);
        a_part_of_limited_notes_is_limited(log, name, notes, part);
    }
    assert forall|k: int|
        0 <= k < raw.constraints@.len() && (#[trigger] raw.constraints@[k]).table_oid == t.oid
            && raw.constraints@[k].kind != 'f' implies all_limited(
        log,
        name,
        introspect::constraint_read(raw, refused, Seq::empty(), raw.constraints@[k], name).notes,
    ) by {
        let part = introspect::constraint_read(
            raw,
            refused,
            Seq::empty(),
            raw.constraints@[k],
            name,
        ).notes;
        a_constraint_is_noted(raw, refused, t, columns, m, k, part);
        an_index_is_noted(raw, t, constraints, p, 0, part);
        a_part_of_limited_notes_is_limited(log, name, notes, part);
    }
    assert forall|k: int|
        0 <= k < raw.indexes@.len() && (#[trigger] raw.indexes@[k]).table_oid == t.oid
            && !introspect::is_a_constraint(
            raw.constraints@,
            raw.indexes@[k].oid,
        ) implies all_limited(
        log,
        name,
        introspect::index_notes(introspect::index_read(raw.columns@, raw.indexes@[k], name)),
    ) by {
        let part = introspect::index_notes(
            introspect::index_read(raw.columns@, raw.indexes@[k], name),
        );
        an_index_is_noted(raw, t, constraints, p, k, part);
        a_part_of_limited_notes_is_limited(log, name, notes, part);
    }
}

proof fn parts_stay_limited(
    raw: RawCatalog,
    read: ReadBack,
    refused: Seq<i64>,
    t: RawTable,
    a: Log,
    b: Log,
)
    requires
        goes_on(a, b),
        parts_are_limited(raw, read, refused, t, a),
    ensures
        parts_are_limited(raw, read, refused, t, b),
{
    let name = introspect::name_of(t);
    assert forall|k: int|
        0 <= k < raw.columns@.len() && (#[trigger] raw.columns@[k]).table_oid
            == t.oid implies all_limited(
        b,
        name,
        introspect::column_notes(read, raw.columns@[k], name),
    ) by {
        limitations_stay(a, b, name, introspect::column_notes(read, raw.columns@[k], name));
    }
    assert forall|k: int|
        0 <= k < raw.constraints@.len() && (#[trigger] raw.constraints@[k]).table_oid == t.oid
            && raw.constraints@[k].kind != 'f' implies all_limited(
        b,
        name,
        introspect::constraint_read(raw, refused, Seq::empty(), raw.constraints@[k], name).notes,
    ) by {
        limitations_stay(
            a,
            b,
            name,
            introspect::constraint_read(
                raw,
                refused,
                Seq::empty(),
                raw.constraints@[k],
                name,
            ).notes,
        );
    }
    assert forall|k: int|
        0 <= k < raw.indexes@.len() && (#[trigger] raw.indexes@[k]).table_oid == t.oid
            && !introspect::is_a_constraint(
            raw.constraints@,
            raw.indexes@[k].oid,
        ) implies all_limited(
        b,
        name,
        introspect::index_notes(introspect::index_read(raw.columns@, raw.indexes@[k], name)),
    ) by {
        limitations_stay(
            a,
            b,
            name,
            introspect::index_notes(introspect::index_read(raw.columns@, raw.indexes@[k], name)),
        );
    }
}

proof fn a_refusal_is_noted(raw: RawCatalog, read: ReadBack, start: Log, n: int, i: int)
    requires
        n <= raw.tables@.len(),
    ensures
        goes_on(start, introspect::refusals_log(raw, read, start, n)),
        0 <= i < n ==> (introspect::unwritable(raw, read, raw.tables@[i]) matches Some(detail)
            ==> introspect::refusals_log(raw, read, start, n).limitations.contains(
            (introspect::name_of(raw.tables@[i]), detail),
        )),
    decreases n,
{
    if n > 0 {
        a_refusal_is_noted(raw, read, start, n - 1, i);
        let front = introspect::refusals_log(raw, read, start, n - 1);
        let after = introspect::refusals_log(raw, read, start, n);
        let t = raw.tables@[n - 1];
        if let Some(detail) = introspect::unwritable(raw, read, t) {
            noting_limits(front, introspect::name_of(t), seq![detail]);
            going_on_chains(start, front, after);
            assert(seq![detail][0] == detail);
        }
        if 0 <= i < n - 1 {
            if let Some(detail) = introspect::unwritable(raw, read, raw.tables@[i]) {
                a_limitation_stays(front, after, (introspect::name_of(raw.tables@[i]), detail));
            }
        }
    }
}

proof fn a_table_is_noted(
    raw: RawCatalog,
    read: ReadBack,
    refused: Seq<i64>,
    start: Tables,
    n: int,
    i: int,
)
    requires
        n <= raw.tables@.len(),
    ensures
        goes_on(start.log, introspect::with_tables(raw, read, refused, start, n).log),
        0 <= i < n && !refused.contains(raw.tables@[i].oid) ==> parts_are_limited(
            raw,
            read,
            refused,
            raw.tables@[i],
            introspect::with_tables(raw, read, refused, start, n).log,
        ),
    decreases n,
{
    if n > 0 {
        a_table_is_noted(raw, read, refused, start, n - 1, i);
        let front = introspect::with_tables(raw, read, refused, start, n - 1);
        let after = introspect::with_tables(raw, read, refused, start, n);
        let t = raw.tables@[n - 1];
        if !refused.contains(t.oid) {
            let b = introspect::built(raw, read, refused, t, front.surviving);
            noting_limits(front.log, introspect::name_of(t), b.notes);
            going_on_chains(start.log, front.log, after.log);
            a_built_table_limits_its_parts(raw, read, refused, t, front.surviving, after.log);
        }
        if 0 <= i < n - 1 && !refused.contains(raw.tables@[i].oid) {
            parts_stay_limited(raw, read, refused, raw.tables@[i], front.log, after.log);
        }
    }
}

/// What one foreign key's turn leaves alone.
proof fn a_foreign_keys_turn(
    raw: RawCatalog,
    refused: Seq<i64>,
    name: model::Qualified,
    c: RawConstraint,
    front: Tables,
    other: model::Qualified,
)
    ensures
        ({
            let after = introspect::with_foreign_key(raw, refused, name, c, front);
            &&& goes_on(front.log, after.log)
            &&& after.surviving == front.surviving
            &&& has_table(front.tables, other) ==> has_table(after.tables, other)
            &&& has_table(front.tables, name) ==> all_limited(
                after.log,
                name,
                introspect::constraint_read(raw, refused, front.surviving, c, name).notes,
            )
        }),
{
    let key = model::table_rank(name);
    if let Some(table) = entries::found(front.tables, key) {
        let out = introspect::constraint_read(raw, refused, front.surviving, c, name);
        noting_limits(front.log, name, out.notes);
        replacing_keeps_keys(front.tables, key, introspect::with_kept(table, out.kept));
    }
}

proof fn a_foreign_key_is_noted(
    raw: RawCatalog,
    refused: Seq<i64>,
    t: RawTable,
    start: Tables,
    n: int,
    k: int,
    other: model::Qualified,
)
    requires
        n <= raw.constraints@.len(),
    ensures
        ({
            let after = introspect::with_foreign_keys(raw, refused, t, start, n);
            let name = introspect::name_of(t);
            &&& goes_on(start.log, after.log)
            &&& after.surviving == start.surviving
            &&& has_table(start.tables, other) ==> has_table(after.tables, other)
            &&& 0 <= k < n && raw.constraints@[k].table_oid == t.oid && raw.constraints@[k].kind
                == 'f' && has_table(start.tables, name) ==> all_limited(
                after.log,
                name,
                introspect::constraint_read(
                    raw,
                    refused,
                    start.surviving,
                    raw.constraints@[k],
                    name,
                ).notes,
            )
        }),
    decreases n,
{
    if n > 0 {
        let name = introspect::name_of(t);
        a_foreign_key_is_noted(raw, refused, t, start, n - 1, k, other);
        a_foreign_key_is_noted(raw, refused, t, start, n - 1, k, name);
        let front = introspect::with_foreign_keys(raw, refused, t, start, n - 1);
        let after = introspect::with_foreign_keys(raw, refused, t, start, n);
        let c = raw.constraints@[n - 1];
        a_foreign_keys_turn(raw, refused, name, c, front, other);
        if c.table_oid == t.oid && c.kind == 'f' {
            going_on_chains(start.log, front.log, after.log);
        }
        if 0 <= k < n - 1 && raw.constraints@[k].table_oid == t.oid && raw.constraints@[k].kind
            == 'f' && has_table(start.tables, name) {
            limitations_stay(
                front.log,
                after.log,
                name,
                introspect::constraint_read(
                    raw,
                    refused,
                    start.surviving,
                    raw.constraints@[k],
                    name,
                ).notes,
            );
        }
    }
}

proof fn every_foreign_key_is_noted(
    raw: RawCatalog,
    refused: Seq<i64>,
    start: Tables,
    n: int,
    i: int,
    k: int,
    other: model::Qualified,
)
    requires
        n <= raw.tables@.len(),
        0 <= i < raw.tables@.len(),
        0 <= k < raw.constraints@.len(),
    ensures
        ({
            let after = introspect::with_all_foreign_keys(raw, refused, start, n);
            let t = raw.tables@[i];
            let name = introspect::name_of(t);
            &&& goes_on(start.log, after.log)
            &&& after.surviving == start.surviving
            &&& has_table(start.tables, other) ==> has_table(after.tables, other)
            &&& i < n && !refused.contains(t.oid) && raw.constraints@[k].table_oid == t.oid
                && raw.constraints@[k].kind == 'f' && has_table(start.tables, name)
                ==> all_limited(
                after.log,
                name,
                introspect::constraint_read(
                    raw,
                    refused,
                    start.surviving,
                    raw.constraints@[k],
                    name,
                ).notes,
            )
        }),
    decreases n,
{
    if n > 0 {
        let name = introspect::name_of(raw.tables@[i]);
        every_foreign_key_is_noted(raw, refused, start, n - 1, i, k, other);
        every_foreign_key_is_noted(raw, refused, start, n - 1, i, k, name);
        let front = introspect::with_all_foreign_keys(raw, refused, start, n - 1);
        let after = introspect::with_all_foreign_keys(raw, refused, start, n);
        let t = raw.tables@[n - 1];
        if !refused.contains(t.oid) {
            let m = raw.constraints@.len() as int;
            a_foreign_key_is_noted(raw, refused, t, front, m, k, other);
            going_on_chains(start.log, front.log, after.log);
        }
        if i < n - 1 && !refused.contains(raw.tables@[i].oid) && raw.constraints@[k].table_oid
            == raw.tables@[i].oid && raw.constraints@[k].kind == 'f' && has_table(
            start.tables,
            name,
        ) {
            limitations_stay(
                front.log,
                after.log,
                name,
                introspect::constraint_read(
                    raw,
                    refused,
                    start.surviving,
                    raw.constraints@[k],
                    name,
                ).notes,
            );
        }
    }
}

proof fn a_module_is_noted(raw: RawCatalog, read: ReadBack, start: Modules, n: int, i: int)
    requires
        n <= raw.modules@.len(),
    ensures
        goes_on(start.log, introspect::with_modules(raw, read, start, n).log),
        0 <= i < n ==> (introspect::module_read(raw, read, raw.modules@[i]) matches
            introspect::ModuleRead::LeftOut(note) ==> introspect::with_modules(
            raw,
            read,
            start,
            n,
        ).log.limitations.contains(((raw.modules@[i].schema@, raw.modules@[i].name@), note))),
    decreases n,
{
    if n > 0 {
        a_module_is_noted(raw, read, start, n - 1, i);
        let front = introspect::with_modules(raw, read, start, n - 1);
        let after = introspect::with_modules(raw, read, start, n);
        let m = raw.modules@[n - 1];
        if let introspect::ModuleRead::LeftOut(note) = introspect::module_read(raw, read, m) {
            noting_limits(front.log, (m.schema@, m.name@), seq![note]);
            going_on_chains(start.log, front.log, after.log);
            assert(seq![note][0] == note);
        }
        if 0 <= i < n - 1 {
            let other = raw.modules@[i];
            if let introspect::ModuleRead::LeftOut(note) = introspect::module_read(
                raw,
                read,
                other,
            ) {
                a_limitation_stays(
                    front.log,
                    after.log,
                    ((other.schema@, other.name@), note),
                );
            }
        }
    }
}

/// A table that cannot be recorded, and everything that a recorded table's
/// rows say and the pull could not hold, is a limitation of the pull under the
/// table's name: whatever is said of a column, of a constraint of any kind or
/// of an index on its own.
pub proof fn nothing_of_a_table_is_left_out_in_silence(raw: RawCatalog, read: ReadBack, i: int)
    requires
        0 <= i < raw.tables@.len(),
    ensures
        ({
            let t = raw.tables@[i];
            let name = introspect::name_of(t);
            let refused = introspect::refused_tables(raw, read, raw.tables@.len() as int);
            let surviving = introspect::tables_read(raw, read).surviving;
            let log = introspect::assembled(raw, read).log;
            &&& introspect::unwritable(raw, read, t) matches Some(detail)
                ==> log.limitations.contains((name, detail))
            &&& !refused.contains(t.oid) ==> {
                &&& forall|k: int|
                    0 <= k < raw.columns@.len() && (#[trigger] raw.columns@[k]).table_oid == t.oid
                        ==> all_limited(
                        log,
                        name,
                        introspect::column_notes(read, raw.columns@[k], name),
                    )
                &&& forall|k: int|
                    0 <= k < raw.constraints@.len() && (
                    #[trigger] raw.constraints@[k]).table_oid == t.oid ==> all_limited(
                        log,
                        name,
                        introspect::constraint_read(
                            raw,
                            refused,
                            surviving,
                            raw.constraints@[k],
                            name,
                        ).notes,
                    )
                &&& forall|k: int|
                    0 <= k < raw.indexes@.len() && (#[trigger] raw.indexes@[k]).table_oid == t.oid
                        && !introspect::is_a_constraint(raw.constraints@, raw.indexes@[k].oid)
                        ==> all_limited(
                        log,
                        name,
                        introspect::index_notes(
                            introspect::index_read(raw.columns@, raw.indexes@[k], name),
                        ),
                    )
            }
        }),
{
    let n = raw.tables@.len() as int;
    let t = raw.tables@[i];
    let name = introspect::name_of(t);
    let refused = introspect::refused_tables(raw, read, n);
    let start = Tables {
        tables: Seq::empty(),
        log: introspect::refusals_log(raw, read, introspect::empty_log(), n),
        surviving: Seq::empty(),
    };
    let first = introspect::with_tables(raw, read, refused, start, n);
    let tables = introspect::tables_read(raw, read);
    let log = introspect::assembled(raw, read).log;
    a_refusal_is_noted(raw, read, introspect::empty_log(), n, i);
    a_table_is_noted(raw, read, refused, start, n, i);
    tables_are_recorded(raw, read, refused, start, n);
    foreign_keys_go_on(raw, refused, first, n);
    a_module_is_noted(
        raw,
        read,
        Modules { modules: Seq::empty(), ids: Seq::empty(), log: tables.log },
        raw.modules@.len() as int,
        0,
    );
    assert(goes_on(tables.log, log));
    going_on_chains(first.log, tables.log, log);
    going_on_chains(start.log, first.log, log);
    if let Some(detail) = introspect::unwritable(raw, read, t) {
        a_limitation_stays(start.log, log, (name, detail));
    }
    if !refused.contains(t.oid) {
        parts_stay_limited(raw, read, refused, t, first.log, log);
        assert forall|k: int|
            0 <= k < raw.constraints@.len() && (#[trigger] raw.constraints@[k]).table_oid
                == t.oid implies all_limited(
            log,
            name,
            introspect::constraint_read(
                raw,
                refused,
                tables.surviving,
                raw.constraints@[k],
                name,
            ).notes,
        ) by {
            if raw.constraints@[k].kind == 'f' {
                assert(has_table(first.tables, name));
                every_foreign_key_is_noted(raw, refused, first, n, i, k, name);
                limitations_stay(
                    tables.log,
                    log,
                    name,
                    introspect::constraint_read(
                        raw,
                        refused,
                        tables.surviving,
                        raw.constraints@[k],
                        name,
                    ).notes,
                );
            }
        }
    }
}

proof fn foreign_keys_go_on(raw: RawCatalog, refused: Seq<i64>, start: Tables, n: int)
    requires
        n <= raw.tables@.len(),
    ensures
        goes_on(start.log, introspect::with_all_foreign_keys(raw, refused, start, n).log),
        introspect::with_all_foreign_keys(raw, refused, start, n).surviving == start.surviving,
    decreases n,
{
    if n > 0 {
        foreign_keys_go_on(raw, refused, start, n - 1);
        let front = introspect::with_all_foreign_keys(raw, refused, start, n - 1);
        let t = raw.tables@[n - 1];
        if !refused.contains(t.oid) {
            let m = raw.constraints@.len() as int;
            a_foreign_key_is_noted(raw, refused, t, front, m, 0, introspect::name_of(t));
            going_on_chains(
                start.log,
                front.log,
                introspect::with_all_foreign_keys(raw, refused, start, n).log,
            );
        }
    }
}

/// A module that could not be recorded is a limitation of the pull under its
/// own name.
pub proof fn no_module_of_a_pull_is_left_out_in_silence(raw: RawCatalog, read: ReadBack, i: int)
    requires
        0 <= i < raw.modules@.len(),
    ensures
        introspect::module_read(raw, read, raw.modules@[i]) matches
            introspect::ModuleRead::LeftOut(note) ==> introspect::assembled(
            raw,
            read,
        ).log.limitations.contains(((raw.modules@[i].schema@, raw.modules@[i].name@), note)),
{
    a_module_is_noted(
        raw,
        read,
        Modules {
            modules: Seq::empty(),
            ids: Seq::empty(),
            log: introspect::tables_read(raw, read).log,
        },
        raw.modules@.len() as int,
        i,
    );
}

// ---------------------------------------------------------------------------
// Roles

/// What holds of the roles while they are read.
spec fn has_roles(roles: Seq<introspect::RawRole>, n: int, e: Seq<Entry<granted::RoleView>>) -> bool {
    &&& entries::ordered(e)
    &&& forall|i: int|
        0 <= i < n ==> entries::found(e, seq![(#[trigger] roles[i]).name@]) is Some
}

proof fn roles_are_read(roles: Seq<introspect::RawRole>, start: granted::Granted, n: int)
    requires
        0 <= n <= roles.len(),
        start.roles.len() == 0,
    ensures
        has_roles(roles, n, granted::with_roles(roles, start, n).roles),
    decreases n,
{
    if n > 0 {
        roles_are_read(roles, start, n - 1);
        let front = granted::with_roles(roles, start, n - 1);
        let after = granted::with_roles(roles, start, n);
        let key = seq![roles[n - 1].name@];
        entries::put_is_a_map_insert(front.roles, key, granted::bare_role());
        assert forall|i: int| 0 <= i < n implies entries::found(
            after.roles,
            seq![(#[trigger] roles[i]).name@],
        ) is Some by {
            let other = seq![roles[i].name@];
            if other != key {
                assert(entries::found(after.roles, other) == entries::found(front.roles, other));
            }
        }
    }
}

proof fn grants_keep_roles(
    raw: RawCatalog,
    read: ReadBack,
    tables: Seq<Entry<TableView>>,
    modules: Seq<Entry<(model::ModuleKind, Seq<char>)>>,
    start: granted::Granted,
    n: int,
)
    requires
        has_roles(raw.roles@, raw.roles@.len() as int, start.roles),
    ensures
        has_roles(
            raw.roles@,
            raw.roles@.len() as int,
            granted::with_grants(raw, read, tables, modules, start, n).roles,
        ),
    decreases n,
{
    if n > 0 {
        grants_keep_roles(raw, read, tables, modules, start, n - 1);
        let front = granted::with_grants(raw, read, tables, modules, start, n - 1);
        let after = granted::with_grants(raw, read, tables, modules, start, n);
        let g = raw.grants@[n - 1];
        let key = seq![granted::grantee_of(g)];
        if let granted::Meaning::Held { target, permission } = granted::meaning(
            raw,
            read,
            tables,
            modules,
            start.roles,
            g,
        ) {
            if let Some(role) = entries::found(front.roles, key) {
                let value = granted::with_permission(role, target, permission);
                replacing_keeps_keys(front.roles, key, value);
                assert forall|i: int, j: int|
                    0 <= i < j < after.roles.len() implies entries::rank_before(
                    (#[trigger] after.roles[i]).0,
                    (#[trigger] after.roles[j]).0,
                ) by {
                    assert(after.roles[i].0 == front.roles[i].0);
                    assert(after.roles[j].0 == front.roles[j].0);
                }
                assert forall|i: int| 0 <= i < raw.roles@.len() implies entries::found(
                    after.roles,
                    seq![(#[trigger] raw.roles@[i]).name@],
                ) is Some by {
                    let name = seq![raw.roles@[i].name@];
                    assert(entries::found(front.roles, name) is Some);
                }
            }
        }
    }
}

/// Every role that was read is in the pull, grants or none, and the roles
/// stand in the order of their names: a role that has had its last grant
/// revoked is a role with nothing and not a missing one.
pub proof fn every_role_is_in_the_pull(raw: RawCatalog, read: ReadBack)
    ensures
        ({
            let roles = introspect::assembled(raw, read).roles;
            &&& entries::ordered(roles)
            &&& forall|i: int|
                0 <= i < raw.roles@.len() ==> entries::found(
                    roles,
                    seq![(#[trigger] raw.roles@[i]).name@],
                ) is Some
        }),
{
    let tables = introspect::tables_read(raw, read).tables;
    let modules = introspect::modules_read(raw, read).modules;
    let n = raw.roles@.len() as int;
    roles_are_read(raw.roles@, granted::nothing_granted(), n);
    grants_keep_roles(
        raw,
        read,
        tables,
        modules,
        granted::with_roles(raw.roles@, granted::nothing_granted(), n),
        raw.grants@.len() as int,
    );
}

/// Whether a role holds a permission on a target.
pub open spec fn role_holds(
    roles: Seq<Entry<granted::RoleView>>,
    role: Seq<char>,
    target: model::TargetView,
    permission: Seq<char>,
) -> bool {
    match entries::found(roles, seq![role]) {
        Some(held) => granted::held_on(held, target).contains(permission),
        None => false,
    }
}

/// Whether what every role holds stands in order.
spec fn roles_are_ordered(roles: Seq<Entry<granted::RoleView>>) -> bool {
    forall|role: Seq<Seq<char>>|
        (#[trigger] entries::found(roles, role)) matches Some(held) ==> entries::ordered(
            held.grants,
        )
}

proof fn a_text_is_added(list: Seq<Seq<char>>, s: Seq<char>, other: Seq<char>)
    ensures
        order::with_text(list, s).contains(s),
        list.contains(other) ==> order::with_text(list, s).contains(other),
{
    let p = order::place_from(list, s, 0);
    let n = order::with_text(list, s);
    order::place_is_in_range(list, s);
    if p < list.len() && list[p] == s {
        assert(n[p] == s);
    } else {
        assert(n[p] == s);
        if list.contains(other) {
            let k = choose|k: int| 0 <= k < list.len() && list[k] == other;
            if k < p {
                assert(n[k] == other);
            } else {
                assert(n[k + 1] == other);
            }
        }
    }
}

/// One more permission is held, and none is lost.
proof fn a_permission_is_added(
    roles: Seq<Entry<granted::RoleView>>,
    grantee: Seq<char>,
    target: model::TargetView,
    permission: Seq<char>,
)
    requires
        roles_are_ordered(roles),
        entries::found(roles, seq![grantee]) is Some,
    ensures
        ({
            let after = granted::with_held(roles, grantee, target, permission);
            &&& roles_are_ordered(after)
            &&& role_holds(after, grantee, target, permission)
            &&& forall|r: Seq<char>, t: model::TargetView, p: Seq<char>| #[trigger]
                role_holds(roles, r, t, p) ==> role_holds(after, r, t, p)
        }),
{
    let after = granted::with_held(roles, grantee, target, permission);
    let role = entries::found(roles, seq![grantee])->0;
    let key = model::target_rank(target);
    let list = granted::held_on(role, target);
    let value = granted::with_permission(role, target, permission);
    entries::put_behind_is_a_map_insert(roles, seq![grantee], value);
    entries::put_is_a_map_insert(role.grants, key, order::with_text(list, permission));
    a_text_is_added(list, permission, permission);
    assert forall|r: Seq<char>, t: model::TargetView, p: Seq<char>| #[trigger]
        role_holds(roles, r, t, p) implies role_holds(after, r, t, p) by {
        if seq![r] == seq![grantee] {
            assert(seq![r][0] == r && seq![grantee][0] == grantee);
            if model::target_rank(t) == key {
                a_text_is_added(list, permission, p);
            }
        }
    }
    assert forall|r: Seq<Seq<char>>| (#[trigger] entries::found(after, r)) matches Some(
        held,
    ) implies entries::ordered(entries::found(after, r)->0.grants) by {
        if r != seq![grantee] {
            assert(entries::found(after, r) == entries::found(roles, r));
        }
    }
}

/// Whether an entry of an access list was carried out: what it means is held
/// or said.
spec fn is_carried_out(known: granted::Granted, grantee: Seq<char>, m: granted::Meaning) -> bool {
    match m {
        granted::Meaning::ZeroPoint { shape, on } => granted::names_under(
            known.standing,
            shape,
        ).contains(on),
        granted::Meaning::Warned(warning) => known.warnings.contains(warning),
        granted::Meaning::Executable(on) => known.executable.contains(on),
        granted::Meaning::Unexpressible { target, what } => known.unexpressible.contains(
            (grantee, target, what),
        ),
        granted::Meaning::Held { target, permission } => role_holds(
            known.roles,
            grantee,
            target,
            permission,
        ),
    }
}

proof fn an_entry_is_carried_out(
    front: granted::Granted,
    grantee: Seq<char>,
    m: granted::Meaning,
    other: Seq<char>,
    meant: granted::Meaning,
)
    requires
        roles_are_ordered(front.roles),
        entries::ordered(front.standing),
        m is Held ==> entries::found(front.roles, seq![grantee]) is Some,
    ensures
        ({
            let after = granted::with_meaning(front, grantee, m);
            &&& entries::ordered(after.standing)
            &&& roles_are_ordered(after.roles)
            &&& is_carried_out(after, grantee, m)
            &&& is_carried_out(front, other, meant) ==> is_carried_out(after, other, meant)
        }),
{
    let after = granted::with_meaning(front, grantee, m);
    match m {
        granted::Meaning::ZeroPoint { shape, on } => {
            let names = granted::names_under(front.standing, shape);
            entries::put_is_a_map_insert(front.standing, shape, names.push(on));
            assert(names.push(on)[names.len() as int] == on);
        },
        granted::Meaning::Warned(warning) => {
            assert(after.warnings[front.warnings.len() as int] == warning);
        },
        granted::Meaning::Executable(on) => {
            assert(after.executable[front.executable.len() as int] == on);
        },
        granted::Meaning::Unexpressible { target, what } => {
            assert(after.unexpressible[front.unexpressible.len() as int] == (
                grantee,
                target,
                what,
            ));
        },
        granted::Meaning::Held { target, permission } => {
            a_permission_is_added(front.roles, grantee, target, permission);
        },
    }
    if is_carried_out(front, other, meant) {
        match meant {
            granted::Meaning::ZeroPoint { shape, on } => {
                let names = granted::names_under(front.standing, shape);
                let k = choose|k: int| 0 <= k < names.len() && names[k] == on;
                if let granted::Meaning::ZeroPoint { shape: same, on: added } = m {
                    if same == shape {
                        assert(names.push(added)[k] == on);
                    }
                }
            },
            granted::Meaning::Warned(warning) => {
                let k = choose|k: int|
                    0 <= k < front.warnings.len() && front.warnings[k] == warning;
                assert(after.warnings[k] == warning);
            },
            granted::Meaning::Executable(on) => {
                let k = choose|k: int| 0 <= k < front.executable.len() && front.executable[k] == on;
                assert(after.executable[k] == on);
            },
            granted::Meaning::Unexpressible { target, what } => {
                let x = (other, target, what);
                let k = choose|k: int|
                    0 <= k < front.unexpressible.len() && front.unexpressible[k] == x;
                assert(after.unexpressible[k] == x);
            },
            granted::Meaning::Held { target, permission } => {
                assert(role_holds(front.roles, other, target, permission));
            },
        }
    }
}

proof fn roles_start_ordered(roles: Seq<introspect::RawRole>, start: granted::Granted, n: int)
    requires
        0 <= n <= roles.len(),
        start.roles.len() == 0,
    ensures
        granted::with_roles(roles, start, n).standing == start.standing,
        entries::ordered(granted::with_roles(roles, start, n).roles),
        roles_are_ordered(granted::with_roles(roles, start, n).roles),
    decreases n,
{
    if n > 0 {
        roles_start_ordered(roles, start, n - 1);
        let front = granted::with_roles(roles, start, n - 1);
        let after = granted::with_roles(roles, start, n);
        let key = seq![roles[n - 1].name@];
        entries::put_is_a_map_insert(front.roles, key, granted::bare_role());
        assert forall|r: Seq<Seq<char>>| (#[trigger] entries::found(after.roles, r)) matches Some(
            held,
        ) implies entries::ordered(entries::found(after.roles, r)->0.grants) by {
            if r != key {
                assert(entries::found(after.roles, r) == entries::found(front.roles, r));
            }
        }
    } else {
        assert forall|r: Seq<Seq<char>>| (#[trigger] entries::found(start.roles, r)) matches Some(
            held,
        ) implies entries::ordered(entries::found(start.roles, r)->0.grants) by {
            entries::found_is_an_entry(start.roles, r);
        }
    }
}

proof fn entries_are_carried_out(
    raw: RawCatalog,
    read: ReadBack,
    tables: Seq<Entry<TableView>>,
    modules: Seq<Entry<(model::ModuleKind, Seq<char>)>>,
    start: granted::Granted,
    n: int,
    i: int,
)
    requires
        n <= raw.grants@.len(),
        has_roles(raw.roles@, raw.roles@.len() as int, start.roles),
        roles_are_ordered(start.roles),
        entries::ordered(start.standing),
    ensures
        ({
            let known = granted::with_grants(raw, read, tables, modules, start, n);
            &&& roles_are_ordered(known.roles)
            &&& entries::ordered(known.standing)
            &&& 0 <= i < n ==> is_carried_out(
                known,
                granted::grantee_of(raw.grants@[i]),
                granted::meaning(raw, read, tables, modules, start.roles, raw.grants@[i]),
            )
        }),
    decreases n,
{
    if n > 0 {
        entries_are_carried_out(raw, read, tables, modules, start, n - 1, i);
        grants_keep_roles(raw, read, tables, modules, start, n - 1);
        let front = granted::with_grants(raw, read, tables, modules, start, n - 1);
        let g = raw.grants@[n - 1];
        let m = granted::meaning(raw, read, tables, modules, start.roles, g);
        granted::grants_keep_the_names(raw, read, tables, modules, start, n - 1);
        assert(granted::is_role(front.roles, granted::grantee_of(g)) == granted::is_role(
            start.roles,
            granted::grantee_of(g),
        ));
        let other = raw.grants@[if 0 <= i < n {
            i
        } else {
            n - 1
        }];
        an_entry_is_carried_out(
            front,
            granted::grantee_of(g),
            m,
            granted::grantee_of(other),
            granted::meaning(raw, read, tables, modules, start.roles, other),
        );
    }
}

/// Every entry of an access list is in the pull: a role holds it, or it is
/// reported as what a declaration cannot say, or a warning is about it. What
/// PUBLIC can execute is counted in one warning, and what nobody granted in one
/// warning to a shape.
pub proof fn every_grant_is_held_or_reported(raw: RawCatalog, read: ReadBack, i: int)
    requires
        0 <= i < raw.grants@.len(),
    ensures
        ({
            let pulled = introspect::assembled(raw, read);
            let g = raw.grants@[i];
            match granted::meaning(raw, read, pulled.tables, pulled.modules, pulled.roles, g) {
                granted::Meaning::ZeroPoint { shape, on } => exists|names: Seq<Seq<char>>|
                    names.contains(on) && pulled.log.warnings.contains(
                        #[trigger] granted::standing_note((shape, names)),
                    ),
                granted::Meaning::Warned(warning) => pulled.log.warnings.contains(warning),
                granted::Meaning::Executable(on) => exists|open: Seq<Seq<char>>|
                    open.contains(on) && pulled.log.warnings.contains(
                        #[trigger] text::filled(
                            granted::PUBLIC_EXECUTES@,
                            granted::counted_list(open),
                        ),
                    ),
                granted::Meaning::Unexpressible { target, what } => pulled.unexpressible.contains(
                    (granted::grantee_of(g), target, what),
                ),
                granted::Meaning::Held { target, permission } => role_holds(
                    pulled.roles,
                    granted::grantee_of(g),
                    target,
                    permission,
                ),
            }
        }),
{
    let pulled = introspect::assembled(raw, read);
    let tables = pulled.tables;
    let modules = pulled.modules;
    let n = raw.roles@.len() as int;
    let start = granted::with_roles(raw.roles@, granted::nothing_granted(), n);
    roles_are_read(raw.roles@, granted::nothing_granted(), n);
    roles_start_ordered(raw.roles@, granted::nothing_granted(), n);
    let m = raw.grants@.len() as int;
    entries_are_carried_out(raw, read, tables, modules, start, m, i);
    let known = granted::with_grants(raw, read, tables, modules, start, m);
    let said = introspect::modules_read(raw, read).log.warnings;
    let g = raw.grants@[i];
    let all = granted::roles_read(raw, read, tables, modules, granted::nothing_granted());
    granted::grants_keep_the_names(raw, read, tables, modules, start, m);
    granted::meaning_goes_by_names(
        raw,
        read,
        tables,
        modules,
        pulled.roles,
        start.roles,
        g,
    );
    match granted::meaning(raw, read, tables, modules, pulled.roles, g) {
        granted::Meaning::ZeroPoint { shape, on } => {
            let names = granted::names_under(known.standing, shape);
            entries::found_is_an_entry(known.standing, shape);
            let k = entries::position_from(known.standing, shape, 0)->0;
            entries::position_has_key(known.standing, shape);
            let note = granted::standing_note((shape, names));
            assert(known.standing[k] == (shape, names));
            assert(granted::standing_notes(known.standing)[k] == note);
            let before = known.warnings + granted::routines_note(
                granted::PUBLIC_EXECUTES@,
                known.executable,
            ) + granted::routines_note(
                granted::CLOSED_TO_PUBLIC@,
                granted::closed(raw, known.executable, m),
            );
            assert(all.warnings[before.len() + k] == note);
            assert(pulled.log.warnings[said.len() + before.len() + k] == note);
        },
        granted::Meaning::Warned(warning) => {
            let k = choose|k: int| 0 <= k < known.warnings.len() && known.warnings[k] == warning;
            assert(all.warnings[k] == warning);
            assert(pulled.log.warnings[said.len() + k] == warning);
        },
        granted::Meaning::Executable(on) => {
            let open = known.executable;
            let note = text::filled(granted::PUBLIC_EXECUTES@, granted::counted_list(open));
            assert(open.len() > 0);
            assert(all.warnings[known.warnings.len() as int] == note);
            assert(pulled.log.warnings[said.len() + known.warnings.len() as int] == note);
        },
        granted::Meaning::Unexpressible { target, what } => {
            let x = (granted::grantee_of(g), target, what);
            let k = choose|k: int|
                0 <= k < known.unexpressible.len() && known.unexpressible[k] == x;
            assert(all.unexpressible[k] == x);
        },
        granted::Meaning::Held { target, permission } => {},
    }
}

proof fn closed_is_sorted(raw: RawCatalog, executable: Seq<Seq<char>>, n: int)
    ensures
        order::sorted(granted::closed(raw, executable, n)),
    decreases n,
{
    if n > 0 {
        closed_is_sorted(raw, executable, n - 1);
        order::with_text_is_sorted(
            granted::closed(raw, executable, n - 1),
            granted::label(raw.grants@[n - 1], raw.routine_args@),
        );
    }
}

/// A routine whose access list somebody made is open to PUBLIC or reported as
/// closed to it, and never both: a revocation leaves no row, and is said all
/// the same.
pub proof fn a_routine_is_open_or_closed(
    raw: RawCatalog,
    executable: Seq<Seq<char>>,
    n: int,
    i: int,
)
    requires
        0 <= i < n <= raw.grants@.len(),
        granted::is_routine(raw.grants@[i].kind),
        !raw.grants@[i].defaulted,
    ensures
        granted::closed(raw, executable, n).contains(
            granted::label(raw.grants@[i], raw.routine_args@),
        ) <==> !executable.contains(granted::label(raw.grants@[i], raw.routine_args@)),
    decreases n,
{
    let on = granted::label(raw.grants@[n - 1], raw.routine_args@);
    let front = granted::closed(raw, executable, n - 1);
    closed_is_sorted(raw, executable, n - 1);
    order::with_text_is_sorted(front, on);
    closed_is_never_open(raw, executable, n);
    if i < n - 1 {
        a_routine_is_open_or_closed(raw, executable, n - 1, i);
    }
}

proof fn closed_is_never_open(raw: RawCatalog, executable: Seq<Seq<char>>, n: int)
    ensures
        forall|on: Seq<char>|
            #[trigger] granted::closed(raw, executable, n).contains(on) ==> !executable.contains(
                on,
            ),
    decreases n,
{
    if n > 0 {
        closed_is_never_open(raw, executable, n - 1);
        closed_is_sorted(raw, executable, n - 1);
        order::with_text_is_sorted(
            granted::closed(raw, executable, n - 1),
            granted::label(raw.grants@[n - 1], raw.routine_args@),
        );
    }
}

} // verus!
