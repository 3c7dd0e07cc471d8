//! What is said of what a pull leaves out and of what a declaration gets wrong.
use vstd::prelude::*;

use crate::definition;
use crate::emit;
use crate::error;
use crate::error::Refusal;
use crate::introspect;
use crate::introspect::{IndexRead, RawCatalog, RawColumn, RawConstraint, RawIndex, ReadBack};
use crate::lexer;
use crate::model;
use crate::model::{Column, ColumnType, Module, ModuleId, Qualified, RoutineArg};
use crate::readings;
use crate::statements;
use crate::text;
use crate::validate;

verus! {

// ---------------------------------------------------------------------------
// Columns

/// What is said of an identity names its column and says what is unusual about
/// it: that it only fills in, its bounds, how many values it takes at a time.
pub proof fn what_is_said_of_an_identity(
    read: ReadBack,
    c: RawColumn,
    table: Qualified,
    id: introspect::RawIdentity,
)
    requires
        c.identity == Some(id),
    ensures
        ({
            let said = introspect::column_notes(read, c, table);
            let t = table.0 + "."@ + table.1;
            &&& !id.always ==> said.contains(
                text::filled(introspect::BY_DEFAULT@, seq![t, c.name@]),
            )
            &&& id.cycles ==> said.contains(
                text::filled(
                    introspect::OTHER_BOUNDS@,
                    seq![
                        t,
                        c.name@,
                        text::decimal_int(id.min as int),
                        text::decimal_int(id.max as int),
                        " and cycles"@,
                    ],
                ),
            )
            &&& !id.cycles && introspect::bounds_from(read.bounds@, c.ty@, id.increment, 0) != Some(
                (id.min, id.max),
            ) ==> said.contains(
                text::filled(
                    introspect::OTHER_BOUNDS@,
                    seq![
                        t,
                        c.name@,
                        text::decimal_int(id.min as int),
                        text::decimal_int(id.max as int),
                        ""@,
                    ],
                ),
            )
            &&& id.cache != 1 ==> said.contains(
                text::filled(
                    introspect::OTHER_CACHE@,
                    seq![t, c.name@, text::decimal_int(id.cache as int), text::decimal_int(1)],
                ),
            )
        }),
{
    reveal_strlit(".");
    assert(seq!['.'] =~= "."@);
    let t = model::dotted(table);
    let said = introspect::column_notes(read, c, table);
    let all = introspect::identity_notes(read, t, c);
    let before = said.len() - all.len();
    assert forall|k: int| 0 <= k < all.len() implies said.contains(#[trigger] all[k]) by {
        assert(said[before + k] == all[k]);
    }
    let a = introspect::only_if(!id.always, text::filled(introspect::BY_DEFAULT@, seq![t, c.name@]));
    let unusual = !introspect::has_usual_bounds(read, c.ty@, id) || id.cycles;
    let b = introspect::only_if(unusual, introspect::bounds_note(t, c.name@, id));
    if !id.always {
        assert(all[0] == a[0]);
    }
    if unusual {
        assert(all[a.len() as int] == b[0]);
    }
    if id.cache != 1 {
        assert(all.contains(all[(a.len() + b.len()) as int]));
    }
}

/// What is said of a column names it and says what there is no place for: a
/// type that is not known, a value that is generated, a sequence, a collation.
pub proof fn what_is_said_of_a_column(read: ReadBack, c: RawColumn, table: Qualified)
    ensures
        ({
            let said = introspect::column_notes(read, c, table);
            let t = table.0 + "."@ + table.1;
            &&& introspect::read_whole(read, c.ty@) is None ==> said.contains(
                text::filled(introspect::OPAQUE_TYPE@, seq![t, c.name@, c.ty@]),
            )
            &&& c.generated ==> said.contains(
                text::filled(
                    introspect::GENERATED_COLUMN@,
                    seq![
                        t,
                        c.name@,
                        match c.default {
                            Some(expression) => expression@,
                            None => "not readable"@,
                        },
                    ],
                ),
            )
            &&& c.owned_sequence matches Some(s) ==> said.contains(
                text::filled(introspect::OWNED_SEQUENCE@, seq![t, c.name@, s@]),
            )
            &&& c.default_sequences matches Some(s) ==> said.contains(
                text::filled(introspect::FOREIGN_SEQUENCE@, seq![t, c.name@, s@]),
            )
            &&& c.collation matches Some(s) ==> said.contains(
                text::filled(introspect::COLLATED@, seq![t, c.name@, s@]),
            )
        }),
{
    reveal_strlit(".");
    assert(seq!['.'] =~= "."@);
    let t = model::dotted(table);
    let said = introspect::column_notes(read, c, table);
    let a = introspect::only_if(
        introspect::read_whole(read, c.ty@) is None,
        text::filled(introspect::OPAQUE_TYPE@, seq![t, c.name@, c.ty@]),
    );
    let b = introspect::only_if(
        c.generated,
        text::filled(
            introspect::GENERATED_COLUMN@,
            seq![t, c.name@, introspect::generated_text(c.default)],
        ),
    );
    let d = introspect::named_note(introspect::OWNED_SEQUENCE@, t, c.name@, c.owned_sequence);
    let e = introspect::named_note(introspect::FOREIGN_SEQUENCE@, t, c.name@, c.default_sequences);
    let f = introspect::named_note(introspect::COLLATED@, t, c.name@, c.collation);
    let g = introspect::identity_notes(read, t, c);
    assert(said == a + b + d + e + f + g);
    if introspect::read_whole(read, c.ty@) is None {
        assert(said[0] == a[0]);
    }
    if c.generated {
        assert(said[a.len() as int] == b[0]);
        assert(seq![t, c.name@, introspect::generated_text(c.default)] =~= seq![
            t,
            c.name@,
            match c.default {
                Some(expression) => expression@,
                None => "not readable"@,
            },
        ]);
    }
    if c.owned_sequence is Some {
        assert(said[(a.len() + b.len()) as int] == d[0]);
    }
    if c.default_sequences is Some {
        assert(said[(a.len() + b.len() + d.len()) as int] == e[0]);
    }
    if c.collation is Some {
        assert(said[(a.len() + b.len() + d.len() + e.len()) as int] == f[0]);
    }
}

// ---------------------------------------------------------------------------
// Constraints

/// A constraint that is left out is left out for the first of these that holds
/// of it, and that is what is said: it is not enforced; it is a check that is
/// not inherited; its triggers are not ordinary; it is about ranges; its index
/// carries more, or admits one null; it is checked later.
pub proof fn why_a_constraint_is_left_out(
    raw: RawCatalog,
    refused: Seq<i64>,
    surviving: Seq<i64>,
    c: RawConstraint,
    table: Qualified,
)
    requires
        c.kind == 'p' || c.kind == 'u' || c.kind == 'f' || c.kind == 'c' || c.kind == 'x',
    ensures
        ({
            let out = introspect::constraint_read(raw, refused, surviving, c, table);
            let t = table.0 + "."@ + table.1;
            let whole = seq![c.name@, t, c.definition@];
            let key = c.kind == 'p' || c.kind == 'u';
            let ordinary = c.enforced && !(c.kind == 'c' && c.no_inherit);
            let plain = ordinary && !c.triggers_not_ordinary && !c.period;
            let more = key && readings::carries_more(raw.indexes@, c.index_oid);
            let one = key && readings::admits_one_null(raw.indexes@, c.index_oid);
            &&& !c.enforced ==> out.notes == seq![
                text::filled(introspect::NOT_ENFORCED@, whole),
            ]
            &&& c.enforced && c.kind == 'c' && c.no_inherit ==> out.notes == seq![
                text::filled(introspect::NO_INHERIT@, whole),
            ]
            &&& ordinary && c.triggers_not_ordinary ==> out.notes == seq![
                text::filled(introspect::TRIGGERS_NOT_ORDINARY@, whole),
            ]
            &&& ordinary && !c.triggers_not_ordinary && c.period ==> out.notes == seq![
                text::filled(introspect::TEMPORAL@, whole),
            ]
            &&& plain && more ==> out.notes == seq![
                text::filled(introspect::COVERING@, seq![c.name@, t]),
            ]
            &&& plain && !more && one ==> out.notes == seq![
                text::filled(introspect::ONE_NULL@, seq![c.name@, t]),
            ]
            &&& plain && !more && !one && (key || c.kind == 'f') && c.deferrable ==> out.notes
                == seq![
                text::filled(
                    introspect::DEFERRABLE@,
                    seq![
                        c.name@,
                        t,
                        if c.deferred {
                            " INITIALLY DEFERRED"@
                        } else {
                            ""@
                        },
                        c.definition@,
                    ],
                ),
            ]
            &&& plain && c.kind == 'x' ==> out.notes == seq![
                text::filled(introspect::EXCLUSION@, seq![c.name@, t]),
            ]
        }),
{
    reveal_strlit(".");
    assert(seq!['.'] =~= "."@);
    readings::a_key_carries_more(raw.indexes@, c.index_oid);
}

/// A check is said to be unread where its expression is, and never checked
/// where it was not.
pub proof fn what_is_said_of_a_check(
    raw: RawCatalog,
    refused: Seq<i64>,
    surviving: Seq<i64>,
    c: RawConstraint,
    table: Qualified,
)
    requires
        c.kind == 'c',
        readings::is_plain_constraint(raw.indexes@, c),
    ensures
        ({
            let said = introspect::constraint_read(raw, refused, surviving, c, table).notes;
            let t = table.0 + "."@ + table.1;
            &&& !c.validated ==> said.contains(
                text::filled(introspect::CHECK_NOT_VALID@, seq![c.name@, t]),
            )
            &&& c.expression is None ==> said.contains(
                text::filled(introspect::CHECK_UNREADABLE@, seq![c.name@, t, c.definition@]),
            )
        }),
{
    reveal_strlit(".");
    assert(seq!['.'] =~= "."@);
    let t = model::dotted(table);
    readings::a_key_carries_more(raw.indexes@, c.index_oid);
    let a = introspect::only_if(
        !c.validated,
        text::filled(introspect::CHECK_NOT_VALID@, seq![c.name@, t]),
    );
    let said = introspect::constraint_read(raw, refused, surviving, c, table).notes;
    assert(introspect::disqualified(raw.indexes@, c, t) is None);
    if !c.validated {
        assert(said[0] == a[0]);
    }
    if c.expression is None {
        assert(said[a.len() as int] == text::filled(
            introspect::CHECK_UNREADABLE@,
            seq![c.name@, t, c.definition@],
        ));
    }
}

/// A foreign key that is left out is left out for the first of these that holds
/// of it, and that is what is said last: what it rests on did not reach the
/// pull; its table did not; its action names columns; it matches another way.
pub proof fn why_a_foreign_key_is_left_out(
    raw: RawCatalog,
    refused: Seq<i64>,
    surviving: Seq<i64>,
    c: RawConstraint,
    table: Qualified,
)
    requires
        c.kind == 'f',
        readings::is_plain_constraint(raw.indexes@, c),
    ensures
        ({
            let said = introspect::constraint_read(raw, refused, surviving, c, table).notes;
            let t = table.0 + "."@ + table.1;
            let whole = seq![c.name@, t, c.definition@];
            let rests = c.index_oid is None || surviving.contains(c.index_oid->0);
            let there = c.ref_table is Some && readings::is_recorded(
                raw.tables@,
                refused,
                c.ref_table->0,
            );
            &&& !rests ==> said == seq![text::filled(introspect::NO_UNIQUENESS@, whole)]
            &&& rests && !c.validated ==> said.len() > 0 && said[0] == text::filled(
                introspect::KEY_NOT_VALID@,
                seq![c.name@, t],
            )
            &&& rests && !there ==> said.len() > 0 && said.last() == text::filled(
                introspect::UNREAD_TABLE@,
                whole,
            )
            &&& rests && there && c.delete_set_columns@.len() > 0 ==> said.len() > 0 && said.last()
                == text::filled(introspect::SET_COLUMNS@, whole)
            &&& rests && there && c.delete_set_columns@.len() == 0 && c.match_type == 'f'
                ==> said.len() > 0 && said.last() == text::filled(
                introspect::OTHER_MATCH@,
                seq![c.name@, t, "FULL"@],
            )
            &&& rests && there && c.delete_set_columns@.len() == 0 && c.match_type == 'p'
                ==> said.len() > 0 && said.last() == text::filled(
                introspect::OTHER_MATCH@,
                seq![c.name@, t, "PARTIAL"@],
            )
        }),
{
    reveal_strlit(".");
    assert(seq!['.'] =~= "."@);
    readings::a_key_carries_more(raw.indexes@, c.index_oid);
    if let Some(oid) = c.ref_table {
        readings::a_recorded_table_is_found(raw.tables@, refused, oid);
    }
    assert(introspect::disqualified(raw.indexes@, c, model::dotted(table)) is None);
}

/// A constraint whose column the pull did not read is said to name that column
/// by its number, as what it is and under its own name.
pub proof fn an_unread_column_is_named_by_its_number(
    raw: RawCatalog,
    refused: Seq<i64>,
    surviving: Seq<i64>,
    c: RawConstraint,
    table: Qualified,
    number: i32,
)
    requires
        readings::is_plain_constraint(raw.indexes@, c),
        introspect::names_behind(raw.columns@, c.table_oid, c.columns@) == Err::<
            Seq<Seq<char>>,
            i32,
        >(number),
    ensures
        ({
            let said = introspect::constraint_read(raw, refused, surviving, c, table).notes;
            let t = table.0 + "."@ + table.1;
            &&& c.kind == 'p' ==> said == seq![
                text::filled(
                    introspect::UNRESOLVED@,
                    seq!["primary key"@, c.name@, t, text::decimal_int(number as int)],
                ),
            ]
            &&& c.kind == 'u' ==> said == seq![
                text::filled(
                    introspect::UNRESOLVED@,
                    seq!["unique constraint"@, c.name@, t, text::decimal_int(number as int)],
                ),
            ]
        }),
{
    reveal_strlit(".");
    assert(seq!['.'] =~= "."@);
    readings::a_key_carries_more(raw.indexes@, c.index_oid);
}

/// How the actions of a foreign key are named where the model has no word for
/// one of them.
pub proof fn an_action_is_named_in_full(c: char)
    ensures
        c == 'a' ==> introspect::action_text(c) == "NO ACTION"@,
        c == 'r' ==> introspect::action_text(c) == "RESTRICT"@,
        c == 'c' ==> introspect::action_text(c) == "CASCADE"@,
        c == 'n' ==> introspect::action_text(c) == "SET NULL"@,
        c == 'd' ==> introspect::action_text(c) == "SET DEFAULT"@,
{
}

// ---------------------------------------------------------------------------
// Indexes

/// An index that is left out is left out for the first of these that holds of
/// it, and that is what is said: another method; an expression; it is not
/// valid; options of its columns; it admits one null; it excludes.
pub proof fn why_an_index_is_left_out(columns: Seq<RawColumn>, i: RawIndex, table: Qualified)
    ensures
        ({
            let out = introspect::index_read(columns, i, table);
            let t = table.0 + "."@ + table.1;
            let named = seq![i.name@, t];
            let tree = i.method@ == "btree"@;
            let bare = tree && !i.has_expressions && !i.columns@.contains(0);
            &&& !tree ==> out == IndexRead::LeftOut(
                text::filled(introspect::OTHER_METHOD@, seq![i.name@, t, i.method@]),
            )
            &&& tree && !bare ==> out == IndexRead::LeftOut(
                text::filled(introspect::OVER_EXPRESSION@, named),
            )
            &&& bare && !i.valid ==> out == IndexRead::LeftOut(
                text::filled(introspect::INVALID_INDEX@, named),
            )
            &&& bare && i.valid && i.nondefault_column_options ==> out == IndexRead::LeftOut(
                text::filled(introspect::OTHER_OPTIONS@, named),
            )
            &&& bare && i.valid && !i.nondefault_column_options && i.nulls_not_distinct ==> out
                == IndexRead::LeftOut(text::filled(introspect::INDEX_ONE_NULL@, named))
            &&& bare && i.valid && !i.nondefault_column_options && !i.nulls_not_distinct
                && i.exclusion ==> out == IndexRead::LeftOut(
                text::filled(introspect::INDEX_EXCLUSION@, named),
            )
        }),
{
    reveal_strlit(".");
    assert(seq!['.'] =~= "."@);
}

// ---------------------------------------------------------------------------
// Refusals

/// A refusal of a table's place says which place it is: a name that cannot be
/// written by that name, a schema and a name of this tool by the table.
pub proof fn what_is_refused_of_a_place(name: Qualified)
    ensures
        ({
            let said = validate::place_refusals(name);
            let shown = name.0 + "."@ + name.1;
            &&& !statements::is_name(name.0) ==> said.contains(Refusal::UnquotableIdent(name.0))
            &&& !statements::is_name(name.1) ==> said.contains(Refusal::UnquotableIdent(name.1))
            &&& name.0 == "$user"@ ==> said.contains(
                error::refused(text::filled(validate::ROLE_SCHEMA@, seq![shown, name.0])),
            )
            &&& name.0 == "information_schema"@ || text::begins(name.0, "pg_"@) ==> said.contains(
                error::refused(text::filled(validate::NEVER_READ@, seq![shown, name.0])),
            )
            &&& name.1 == "__pbps_state"@ || name.1 == "__pbps_lock"@ ==> said.contains(
                error::refused(text::filled(validate::OWNED_NAME@, seq![shown, name.1, name.1])),
            )
        }),
{
    reveal_strlit(".");
    assert(seq!['.'] =~= "."@);
    statements::a_name_is_quoted(name.0);
    statements::a_name_is_quoted(name.1);
    let said = validate::place_refusals(name);
    let shown = model::dotted(name);
    let a = validate::ident_refusals(name.0);
    let b = validate::ident_refusals(name.1);
    let c = validate::when(
        name.0 == "$user"@,
        text::filled(validate::ROLE_SCHEMA@, seq![shown, name.0]),
    );
    let d = validate::when(
        name.0 == "information_schema"@ || text::begins(name.0, "pg_"@),
        text::filled(validate::NEVER_READ@, seq![shown, name.0]),
    );
    let e = validate::when(
        name.1 == "__pbps_state"@ || name.1 == "__pbps_lock"@,
        text::filled(validate::OWNED_NAME@, seq![shown, name.1, name.1]),
    );
    assert(said == a + b + c + d + e);
    if a.len() > 0 {
        assert(said[0] == a[0]);
    }
    if b.len() > 0 {
        assert(said[a.len() as int] == b[0]);
    }
    if c.len() > 0 {
        assert(said[(a.len() + b.len()) as int] == c[0]);
    }
    if d.len() > 0 {
        assert(said[(a.len() + b.len() + c.len()) as int] == d[0]);
    }
    if e.len() > 0 {
        assert(said[(a.len() + b.len() + c.len() + d.len()) as int] == e[0]);
    }
}

/// A refusal of an identity names its column and says what is wrong with it.
pub proof fn what_is_refused_of_an_identity(
    name: Seq<char>,
    column: Column,
    id: model::DeclaredIdentity,
)
    requires
        column.identity == Some(id),
    ensures
        ({
            let said = validate::identity_refusals(name, column);
            &&& id.accepted is None ==> said.contains(
                error::refused(
                    text::filled(
                        validate::IDENTITY_TYPE@,
                        seq![name, column.ty.written.spelled@],
                    ),
                ),
            )
            &&& id.accepted matches Some((low, high)) ==> (id.seed < low || high < id.seed
                ==> said.contains(
                error::refused(
                    text::filled(
                        validate::IDENTITY_SEED@,
                        seq![
                            name,
                            text::decimal_int(id.seed as int),
                            column.ty.written.spelled@,
                            text::decimal_int(id.increment as int),
                            text::decimal_int(low as int),
                            text::decimal_int(high as int),
                            text::decimal_int(id.seed as int),
                        ],
                    ),
                ),
            ))
            &&& column.nullable ==> said.contains(
                error::refused(text::filled(validate::IDENTITY_NULLABLE@, seq![name])),
            )
            &&& id.increment == 0 ==> said.contains(
                error::refused(text::filled(validate::IDENTITY_STILL@, seq![name])),
            )
            &&& column.default is Some ==> said.contains(
                error::refused(text::filled(validate::IDENTITY_DEFAULT@, seq![name])),
            )
        }),
{
    let said = validate::identity_refusals(name, column);
    let a = validate::seed_problems(name, column);
    let b = validate::when(
        column.nullable,
        text::filled(validate::IDENTITY_NULLABLE@, seq![name]),
    );
    let c = validate::when(
        id.increment == 0,
        text::filled(validate::IDENTITY_STILL@, seq![name]),
    );
    let d = validate::when(
        column.default is Some,
        text::filled(validate::IDENTITY_DEFAULT@, seq![name]),
    );
    assert(said == a + b + c + d);
    if a.len() > 0 {
        assert(said[0] == a[0]);
    }
    if b.len() > 0 {
        assert(said[a.len() as int] == b[0]);
    }
    if c.len() > 0 {
        assert(said[(a.len() + b.len()) as int] == c[0]);
    }
    if d.len() > 0 {
        assert(said[(a.len() + b.len() + c.len()) as int] == d[0]);
    }
}

/// A refusal of a default names its column and the default.
pub proof fn what_is_refused_of_a_default(name: Seq<char>, column: Column, normal: ColumnType)
    ensures
        column.default matches Some(default) ==> {
            let said = validate::default_refusals(name, column, normal);
            &&& crate::acceptance::is_no_default(default, column.ty.written, normal)
                ==> said.contains(
                error::refused(
                    text::filled(validate::ERASED_DEFAULT@, seq![name, default.text@]),
                ),
            )
            &&& emit::unresolved(name, normal, default.text@) matches Some(e) ==> said.contains(e)
        },
{
    if let Some(default) = column.default {
        reveal_strlit("null");
        assert(text::lower("null"@) =~= "null"@);
        let said = validate::default_refusals(name, column, normal);
        let a = match emit::unresolved(name, normal, default.text@) {
            Some(e) => seq![e],
            None => Seq::empty(),
        };
        let b = validate::when(
            validate::is_erased(default, column.ty.written, normal),
            text::filled(validate::ERASED_DEFAULT@, seq![name, default.text@]),
        );
        assert(said == a + b);
        if a.len() > 0 {
            assert(said[0] == a[0]);
        }
        if b.len() > 0 {
            assert(said[a.len() as int] == b[0]);
        }
    }
}

/// A refusal of a module says which module it is and what is wrong with it: a
/// blank definition, a name, an argument list or a table that is missing.
pub proof fn what_is_refused_of_a_module(
    id: ModuleId,
    module: Module,
    readings: definition::Readings,
)
    ensures
        ({
            let said = definition::module_problems(id, module, readings);
            let shown = model::module_text(id@);
            &&& lexer::trimmed(module.definition@).len() == 0 ==> said.contains(
                error::refused(text::filled(definition::EMPTY_DEFINITION@, seq![shown])),
            )
            &&& (module.kind is Function || module.kind is Procedure) && !(id is Routine)
                ==> said.contains(
                error::refused(text::filled(definition::NO_ARGUMENTS@, seq![shown])),
            )
            &&& module.kind is Trigger && !(id is Trigger) ==> said.contains(
                error::refused(text::filled(definition::NO_TABLE@, seq![shown])),
            )
        }),
{
    let said = definition::module_problems(id, module, readings);
    let a = definition::blank_problems(id@, module.definition@);
    let b = definition::name_problems(model::module_schema(id@), model::module_name(id@));
    if a.len() > 0 {
        assert(said[0] == a[0]);
    }
    if (module.kind is Function || module.kind is Procedure) && !(id is Routine) {
        let c = definition::routine_problems(id, module.definition@, readings);
        assert(said == a + b + c);
        assert(said[(a.len() + b.len()) as int] == c[0]);
    }
    if module.kind is Trigger && !(id is Trigger) {
        let c = definition::trigger_problems(id@, module.definition@, readings);
        assert(said == a + b + c);
        assert(said[(a.len() + b.len()) as int] == c[0]);
    }
}

proof fn a_type_is_named_in_its_place(
    id: model::ModuleIdView,
    found: Seq<Seq<char>>,
    args: Seq<RoutineArg>,
    spellings: Seq<definition::Spelling>,
    n: int,
    i: int,
)
    requires
        0 <= i < n <= args.len(),
        definition::disagrees(found[i], args[i], spellings),
    ensures
        definition::type_problems(id, found, args, spellings, n).contains(
            error::refused(
                text::filled(
                    definition::OTHER_TYPE@,
                    seq![
                        model::module_text(id),
                        args[i].text@,
                        text::decimal((i + 1) as nat),
                        found[i],
                    ],
                ),
            ),
        ),
    decreases n,
{
    let rest = definition::type_problems(id, found, args, spellings, n - 1);
    let all = definition::type_problems(id, found, args, spellings, n);
    let x = error::refused(
        text::filled(
            definition::OTHER_TYPE@,
            seq![
                model::module_text(id),
                args[i].text@,
                text::decimal((i + 1) as nat),
                found[i],
            ],
        ),
    );
    if i == n - 1 {
        assert(all.last() == x);
    } else {
        a_type_is_named_in_its_place(id, found, args, spellings, n - 1, i);
        let k = rest.index_of(x);
        assert(all[k] == x);
    }
}

/// A body is refused for its list where it has none, for the number of its
/// parameters where that is another, and otherwise for every parameter of
/// another type, by its place, as it is declared and as the identity names it.
pub proof fn what_is_refused_of_a_body(
    id: model::ModuleIdView,
    body: Seq<char>,
    args: Seq<RoutineArg>,
    spellings: Seq<definition::Spelling>,
)
    ensures
        ({
            let said = definition::body_problems(id, body, args, spellings);
            let shown = model::module_text(id);
            match definition::list_text(body) {
                None => said == seq![
                    error::refused(
                        text::filled(
                            definition::NO_LIST@,
                            seq![
                                shown,
                                model::module_schema(id) + "."@ + model::module_name(id),
                            ],
                        ),
                    ),
                ],
                Some(list) => {
                    let found = definition::carried(definition::parameters_of(list));
                    &&& found.len() != args.len() ==> said == seq![
                        error::refused(
                            text::filled(
                                definition::OTHER_COUNT@,
                                seq![
                                    shown,
                                    text::decimal(args.len()),
                                    text::decimal(found.len()),
                                ],
                            ),
                        ),
                    ]
                    &&& found.len() == args.len() ==> forall|i: int|
                        0 <= i < args.len() && definition::disagrees(
                            found[i],
                            #[trigger] args[i],
                            spellings,
                        ) ==> said.contains(
                            error::refused(
                                text::filled(
                                    definition::OTHER_TYPE@,
                                    seq![
                                        shown,
                                        args[i].text@,
                                        text::decimal((i + 1) as nat),
                                        found[i],
                                    ],
                                ),
                            ),
                        )
                },
            }
        }),
{
    reveal_strlit(".");
    assert(seq!['.'] =~= "."@);
    let said = definition::body_problems(id, body, args, spellings);
    if let Some(list) = definition::list_text(body) {
        let found = definition::carried(definition::parameters_of(list));
        if found.len() == args.len() {
            assert forall|i: int|
                0 <= i < args.len() && definition::disagrees(
                    found[i],
                    #[trigger] args[i],
                    spellings,
                ) implies said.contains(
                error::refused(
                    text::filled(
                        definition::OTHER_TYPE@,
                        seq![
                            model::module_text(id),
                            args[i].text@,
                            text::decimal((i + 1) as nat),
                            found[i],
                        ],
                    ),
                ),
            ) by {
                a_type_is_named_in_its_place(id, found, args, spellings, found.len() as int, i);
            }
        }
    }
}

/// A primary key is refused for every column of it that may be null, by the
/// column's name.
pub proof fn what_is_refused_of_a_key(
    columns: Seq<(String, Column)>,
    key: Seq<Seq<char>>,
    n: int,
    i: int,
)
    requires
        0 <= i < n <= key.len(),
        validate::is_nullable(columns, key[i]),
    ensures
        validate::key_refusals(columns, key, n).contains(
            error::refused(text::filled(validate::NULLABLE_KEY@, seq![key[i]])),
        ),
    decreases n,
{
    let rest = validate::key_refusals(columns, key, n - 1);
    let all = validate::key_refusals(columns, key, n);
    let x = error::refused(text::filled(validate::NULLABLE_KEY@, seq![key[i]]));
    if i == n - 1 {
        assert(all.last() == x);
    } else {
        what_is_refused_of_a_key(columns, key, n - 1, i);
        let k = rest.index_of(x);
        assert(all[k] == x);
    }
}

} // verus!
