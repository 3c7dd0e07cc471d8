//! What the statements of a change say, word for word.
//!
//! Each law gives the whole text of a statement from the change alone: the
//! words, the names in quotes, and where each stands. A change whose names can
//! be written is never refused for them.
use vstd::prelude::*;

use crate::definition;
use crate::emit;
use crate::error;
use crate::lexer;
use crate::model;
use crate::model::{
    Change, Column, ForeignKey, Index, IndexColumn, Module, ModuleKind, PrimaryKey, Reading,
    ReferentialAction, Strategy, Table, UniqueConstraint,
};
use crate::sql;
use crate::templates;
use crate::text;

verus! {

// ---------------------------------------------------------------------------
// Names

/// A name between double quotes, with the quotes inside it doubled.
pub open spec fn in_quotes(name: Seq<char>) -> Seq<char> {
    seq!['"'] + text::doubled(name, '"') + seq!['"']
}

/// A table's schema and name, each in quotes, with a dot between them.
pub open spec fn table_in_quotes(table: model::Qualified) -> Seq<char> {
    in_quotes(table.0) + "."@ + in_quotes(table.1)
}

/// What this engine takes as a name: some text without a NUL, of at most 63
/// bytes.
pub open spec fn is_name(s: Seq<char>) -> bool {
    s.len() > 0 && !s.contains('\0') && vstd::utf8::encode_utf8(s).len() <= 63
}

/// Whether a table's schema and name are names.
pub open spec fn is_table_name(table: model::Qualified) -> bool {
    is_name(table.0) && is_name(table.1)
}

/// Whether every text of a list is a name.
pub open spec fn are_names(names: Seq<Seq<char>>) -> bool {
    forall|i: int| 0 <= i < names.len() ==> is_name(#[trigger] names[i])
}

/// Names in quotes, with a comma between two.
pub open spec fn listed(names: Seq<Seq<char>>) -> Seq<char> {
    text::joined(Seq::new(names.len(), |i: int| in_quotes(names[i])), ", "@)
}

/// Whether a schema and the extras behind it can be a write path.
pub open spec fn is_path(schema: Seq<char>, extras: Seq<Seq<char>>) -> bool {
    forall|i: int|
        0 <= i < (seq![schema] + extras).len() ==> is_name(
            #[trigger] (seq![schema] + extras)[i],
        ) && (seq![schema] + extras)[i] != "pg_catalog"@ && (seq![schema] + extras)[i]
            != "$user"@
}

/// A statement between the two that set its path and give it back.
pub open spec fn under_path(schema: Seq<char>, extras: Seq<Seq<char>>, body: Seq<char>) -> Seq<
    char,
> {
    "SET search_path = "@ + listed(seq![schema] + extras) + ";\n"@ + body
        + "\nRESET search_path;"@
}

/// One statement under a write path, inside the transaction, that brings
/// nothing into being and moves no table.
pub open spec fn ordinary(schema: Seq<char>, extras: Seq<Seq<char>>, body: Seq<char>) -> emit::StatementView {
    emit::StatementView {
        sql: under_path(schema, extras, body),
        own_batch: false,
        transactional: true,
        creates: Seq::empty(),
        renames: None,
    }
}

/// What is emitted for a change is this one statement.
pub open spec fn is_emitted(
    extras: Seq<Seq<char>>,
    change: Change,
    strategy: Strategy,
    schema: Seq<char>,
    body: Seq<char>,
) -> bool {
    emit::emitted(extras, change, strategy) == Ok::<Seq<emit::StatementView>, error::Refusal>(
        seq![ordinary(schema, extras, body)],
    )
}

/// A text is quoted exactly where it is a name, and what is not is refused by
/// itself.
pub proof fn a_name_is_quoted(s: Seq<char>)
    ensures
        is_name(s) ==> sql::quoted(s) == Ok::<Seq<char>, error::Refusal>(in_quotes(s)),
        !is_name(s) ==> sql::quoted(s) == Err::<Seq<char>, error::Refusal>(
            error::Refusal::UnquotableIdent(s),
        ),
{
}

proof fn nothing_refused_here<T>(parts: Seq<Result<T, error::Refusal>>)
    requires
        forall|i: int| 0 <= i < parts.len() ==> (#[trigger] parts[i]) is Ok,
    ensures
        error::first_refusal(parts) is None,
    decreases parts.len(),
{
    if parts.len() > 0 {
        assert(parts[0] is Ok);
        let rest = parts.drop_first();
        assert forall|i: int| 0 <= i < rest.len() implies (#[trigger] rest[i]) is Ok by {
            assert(rest[i] == parts[i + 1]);
        }
        nothing_refused_here(rest);
    }
}

proof fn composes(
    template: Seq<char>,
    parts: Seq<Result<Seq<char>, error::Refusal>>,
    pieces: Seq<Seq<char>>,
)
    requires
        parts.len() == pieces.len(),
        forall|i: int|
            0 <= i < parts.len() ==> (#[trigger] parts[i]) == Ok::<Seq<char>, error::Refusal>(
                pieces[i],
            ),
    ensures
        error::composed(template, parts) == Ok::<Seq<char>, error::Refusal>(
            text::filled(template, pieces),
        ),
{
    nothing_refused_here(parts);
    assert(Seq::new(parts.len(), |i: int| parts[i]->Ok_0) =~= pieces);
}

proof fn collects<T>(parts: Seq<Result<T, error::Refusal>>, pieces: Seq<T>)
    requires
        parts.len() == pieces.len(),
        forall|i: int|
            0 <= i < parts.len() ==> (#[trigger] parts[i]) == Ok::<T, error::Refusal>(pieces[i]),
    ensures
        error::collected(parts) == Ok::<Seq<T>, error::Refusal>(pieces),
{
    nothing_refused_here(parts);
    assert(Seq::new(parts.len(), |i: int| parts[i]->Ok_0) =~= pieces);
}

/// A table's name is quoted on both halves.
pub proof fn a_table_is_quoted(table: model::Qualified)
    requires
        is_table_name(table),
    ensures
        sql::qualified_text(table) == Ok::<Seq<char>, error::Refusal>(table_in_quotes(table)),
{
    composes(
        sql::DOTTED@,
        seq![sql::quoted(table.0), sql::quoted(table.1)],
        seq![in_quotes(table.0), in_quotes(table.1)],
    );
    templates::a_qualified_name_reads(in_quotes(table.0), in_quotes(table.1));
}

/// A list of columns names them all, in order.
pub proof fn a_column_list_names_its_columns(columns: Seq<Seq<char>>)
    requires
        are_names(columns),
    ensures
        sql::column_list_text(columns) == Ok::<Seq<char>, error::Refusal>(listed(columns)),
{
    reveal_strlit(", ");
    let parts = sql::quoted_each(columns);
    let pieces = Seq::new(columns.len(), |i: int| in_quotes(columns[i]));
    assert forall|i: int| 0 <= i < parts.len() implies (#[trigger] parts[i]) == Ok::<
        Seq<char>,
        error::Refusal,
    >(pieces[i]) by {
        assert(is_name(columns[i]));
    }
    collects(parts, pieces);
}

/// A write path is the object's own schema and then the extras, in order.
pub proof fn a_write_path_begins_with_its_own_schema(schema: Seq<char>, extras: Seq<Seq<char>>)
    requires
        is_path(schema, extras),
    ensures
        sql::write_path_text(schema, extras) == Ok::<Seq<char>, error::Refusal>(
            listed(seq![schema] + extras),
        ),
{
    reveal_strlit(", ");
    reveal_strlit("pg_catalog");
    reveal_strlit("$user");
    let all = seq![schema] + extras;
    let schemas = sql::path_schemas(schema, extras);
    assert(schemas =~= all);
    let parts = Seq::new(schemas.len(), |i: int| sql::path_entry(schemas[i]));
    let pieces = Seq::new(all.len(), |i: int| in_quotes(all[i]));
    assert forall|i: int| 0 <= i < parts.len() implies (#[trigger] parts[i]) == Ok::<
        Seq<char>,
        error::Refusal,
    >(pieces[i]) by {
        assert(is_name((seq![schema] + extras)[i]));
    }
    collects(parts, pieces);
}

/// A schema that a path cannot name, or may not list, is refused wherever it
/// stands on the path.
pub proof fn a_path_is_refused_where_a_schema_cannot_stand_on_it(
    schema: Seq<char>,
    extras: Seq<Seq<char>>,
)
    ensures
        sql::write_path_text(schema, extras) is Ok ==> is_path(schema, extras),
{
    reveal_strlit("pg_catalog");
    reveal_strlit("$user");
    if sql::write_path_text(schema, extras) is Ok {
        let all = seq![schema] + extras;
        let schemas = sql::path_schemas(schema, extras);
        let parts = Seq::new(schemas.len(), |i: int| sql::path_entry(schemas[i]));
        error::nothing_refused(parts);
        assert(schemas =~= all);
        assert forall|i: int| 0 <= i < all.len() implies is_name(#[trigger] all[i]) && all[i]
            != "pg_catalog"@ && all[i] != "$user"@ by {
            assert(parts[i] is Ok);
        }
    }
}

proof fn scope_reads(schema: Seq<char>, extras: Seq<Seq<char>>, body: Seq<char>)
    requires
        is_path(schema, extras),
    ensures
        sql::scoped_text(schema, extras, Ok::<Seq<char>, error::Refusal>(body)) == Ok::<
            Seq<char>,
            error::Refusal,
        >(under_path(schema, extras, body)),
{
    a_write_path_begins_with_its_own_schema(schema, extras);
    let path = listed(seq![schema] + extras);
    composes(
        sql::SCOPED@,
        seq![
            sql::write_path_text(schema, extras),
            Ok::<Seq<char>, error::Refusal>(body),
        ],
        seq![path, body],
    );
    templates::a_scope_reads(path, body);
}

proof fn single_reads(schema: Seq<char>, extras: Seq<Seq<char>>, body: Seq<char>)
    requires
        is_path(schema, extras),
    ensures
        emit::single(extras, schema, Ok::<Seq<char>, error::Refusal>(body)) == Ok::<
            Seq<emit::StatementView>,
            error::Refusal,
        >(seq![ordinary(schema, extras, body)]),
{
    scope_reads(schema, extras, body);
    assert(emit::plain(under_path(schema, extras, body)) =~= ordinary(schema, extras, body));
}

// ---------------------------------------------------------------------------
// Tables and columns

/// Dropping a table drops that table.
pub proof fn dropping_a_table(extras: Seq<Seq<char>>, name: model::TableName, strategy: Strategy)
    requires
        is_table_name(name@),
        is_path(name@.0, extras),
    ensures
        is_emitted(
            extras,
            Change::DropTable { name },
            strategy,
            name@.0,
            "DROP TABLE "@ + table_in_quotes(name@) + ";"@,
        ),
{
    let t = table_in_quotes(name@);
    a_table_is_quoted(name@);
    composes(emit::DROP_TABLE@, seq![sql::qualified_text(name@)], seq![t]);
    templates::a_dropped_table_reads(t);
    single_reads(name@.0, extras, "DROP TABLE "@ + t + ";"@);
}

/// Dropping a column drops that column of that table.
pub proof fn dropping_a_column(
    extras: Seq<Seq<char>>,
    column: model::ColumnRef,
    strategy: Strategy,
)
    requires
        is_table_name(column@.0),
        is_name(column@.1),
        is_path(column@.0.0, extras),
    ensures
        is_emitted(
            extras,
            Change::DropColumn { column },
            strategy,
            column@.0.0,
            "ALTER TABLE "@ + table_in_quotes(column@.0) + " DROP COLUMN "@ + in_quotes(column@.1)
                + ";"@,
        ),
{
    let t = table_in_quotes(column@.0);
    let c = in_quotes(column@.1);
    a_table_is_quoted(column@.0);
    composes(
        emit::DROP_COLUMN@,
        seq![sql::qualified_text(column@.0), sql::quoted(column@.1)],
        seq![t, c],
    );
    templates::a_dropped_column_reads(t, c);
    single_reads(
        column@.0.0,
        extras,
        "ALTER TABLE "@ + t + " DROP COLUMN "@ + c + ";"@,
    );
}

/// Renaming a column leads from its old name to its new one.
pub proof fn renaming_a_column(
    extras: Seq<Seq<char>>,
    table: model::TableName,
    from: String,
    to: String,
    strategy: Strategy,
)
    requires
        is_table_name(table@),
        is_name(from@),
        is_name(to@),
        is_path(table@.0, extras),
    ensures
        is_emitted(
            extras,
            Change::RenameColumn { table, from, to },
            strategy,
            table@.0,
            "ALTER TABLE "@ + table_in_quotes(table@) + " RENAME COLUMN "@ + in_quotes(from@)
                + " TO "@ + in_quotes(to@) + ";"@,
        ),
{
    let t = table_in_quotes(table@);
    let a = in_quotes(from@);
    let b = in_quotes(to@);
    a_table_is_quoted(table@);
    composes(
        emit::RENAME_COLUMN@,
        seq![sql::qualified_text(table@), sql::quoted(from@), sql::quoted(to@)],
        seq![t, a, b],
    );
    templates::a_renamed_column_reads(t, a, b);
    single_reads(
        table@.0,
        extras,
        "ALTER TABLE "@ + t + " RENAME COLUMN "@ + a + " TO "@ + b + ";"@,
    );
}

/// A column that may hold nulls from now on drops its `NOT NULL`, and one that
/// may not sets it.
pub proof fn changing_nullability(
    extras: Seq<Seq<char>>,
    column: model::ColumnRef,
    to_nullable: bool,
    strategy: Strategy,
)
    requires
        is_table_name(column@.0),
        is_name(column@.1),
        is_path(column@.0.0, extras),
    ensures
        is_emitted(
            extras,
            Change::AlterColumnNullability { column, to_nullable },
            strategy,
            column@.0.0,
            "ALTER TABLE "@ + table_in_quotes(column@.0) + " ALTER COLUMN "@ + in_quotes(column@.1)
                + " "@ + (if to_nullable {
                "DROP NOT NULL"@
            } else {
                "SET NOT NULL"@
            }) + ";"@,
        ),
{
    let t = table_in_quotes(column@.0);
    let c = in_quotes(column@.1);
    let n = if to_nullable {
        "DROP NOT NULL"@
    } else {
        "SET NOT NULL"@
    };
    a_table_is_quoted(column@.0);
    composes(
        emit::ALTER_NULLABILITY@,
        seq![
            sql::qualified_text(column@.0),
            sql::quoted(column@.1),
            Ok::<Seq<char>, error::Refusal>(emit::nullability_text(to_nullable)),
        ],
        seq![t, c, n],
    );
    templates::a_nullability_reads(t, c, n);
    single_reads(
        column@.0.0,
        extras,
        "ALTER TABLE "@ + t + " ALTER COLUMN "@ + c + " "@ + n + ";"@,
    );
}

/// The two nullability changes of a column are two different statements.
pub proof fn nullability_changes_differ(
    extras: Seq<Seq<char>>,
    column: model::ColumnRef,
    strategy: Strategy,
)
    requires
        is_table_name(column@.0),
        is_name(column@.1),
        is_path(column@.0.0, extras),
    ensures
        emit::emitted(
            extras,
            Change::AlterColumnNullability { column, to_nullable: true },
            strategy,
        ) != emit::emitted(
            extras,
            Change::AlterColumnNullability { column, to_nullable: false },
            strategy,
        ),
{
    reveal_strlit("DROP NOT NULL");
    reveal_strlit("SET NOT NULL");
    changing_nullability(extras, column, true, strategy);
    changing_nullability(extras, column, false, strategy);
    let schema = column@.0.0;
    let head = "ALTER TABLE "@ + table_in_quotes(column@.0) + " ALTER COLUMN "@ + in_quotes(
        column@.1,
    ) + " "@;
    let a = under_path(schema, extras, head + "DROP NOT NULL"@ + ";"@);
    let b = under_path(schema, extras, head + "SET NOT NULL"@ + ";"@);
    assert("DROP NOT NULL"@.len() == 13 && "SET NOT NULL"@.len() == 12);
    assert(a.len() == b.len() + 1);
    let x = seq![ordinary(schema, extras, head + "DROP NOT NULL"@ + ";"@)];
    let y = seq![ordinary(schema, extras, head + "SET NOT NULL"@ + ";"@)];
    assert(x[0].sql == a && y[0].sql == b);
}

/// The text that changes a default: the declared expression and the line end
/// that closes a comment in it, or nothing.
pub open spec fn default_change(
    table: model::Qualified,
    column: Seq<char>,
    to: Option<String>,
) -> Seq<char> {
    match to {
        Some(expression) => "ALTER TABLE "@ + table_in_quotes(table) + " ALTER COLUMN "@
            + in_quotes(column) + " SET DEFAULT "@ + (expression@ + seq!['\n']) + ";"@,
        None => "ALTER TABLE "@ + table_in_quotes(table) + " ALTER COLUMN "@ + in_quotes(column)
            + " DROP DEFAULT;"@,
    }
}

proof fn default_reads(table: model::Qualified, column: Seq<char>, to: Option<String>)
    requires
        is_table_name(table),
        is_name(column),
    ensures
        emit::alter_default_text((table, column), to) == Ok::<Seq<char>, error::Refusal>(
            default_change(table, column, to),
        ),
{
    let t = table_in_quotes(table);
    let c = in_quotes(column);
    a_table_is_quoted(table);
    match to {
        Some(expression) => {
            let d = expression@ + seq!['\n'];
            composes(
                emit::SET_DEFAULT@,
                seq![
                    sql::qualified_text(table),
                    sql::quoted(column),
                    Ok::<Seq<char>, error::Refusal>(emit::verbatim_text(expression@)),
                ],
                seq![t, c, d],
            );
            templates::a_set_default_reads(t, c, d);
        },
        None => {
            composes(
                emit::DROP_DEFAULT@,
                seq![sql::qualified_text(table), sql::quoted(column)],
                seq![t, c],
            );
            templates::a_dropped_default_reads(t, c);
        },
    }
}

/// A default that is set is the declared expression, and one that is taken
/// away is dropped.
pub proof fn changing_a_default(
    extras: Seq<Seq<char>>,
    column: model::ColumnRef,
    from: Option<String>,
    to: Option<String>,
    strategy: Strategy,
)
    requires
        is_table_name(column@.0),
        is_name(column@.1),
        is_path(column@.0.0, extras),
    ensures
        is_emitted(
            extras,
            Change::AlterColumnDefault { column, from, to },
            strategy,
            column@.0.0,
            default_change(column@.0, column@.1, to),
        ),
{
    default_reads(column@.0, column@.1, to);
    single_reads(column@.0.0, extras, default_change(column@.0, column@.1, to));
}

/// Whether a default is one that the session running it would decide: a bare
/// literal on a type whose text a setting changes the meaning of.
pub open spec fn is_session_decided(base: Seq<char>, default: Seq<char>) -> bool {
    (base == "date"@ || base == "time without time zone"@ || base == "time with time zone"@ || base
        == "timestamp without time zone"@ || base == "timestamp with time zone"@ || base
        == "interval"@ || base == "real"@ || base == "double precision"@)
        && lexer::is_bare_literal(default)
}

/// How a column stands in a table's definition: its name, its type, its
/// identity, whether it may be null, and its default.
pub open spec fn column_line(name: Seq<char>, ty: Seq<char>, column: Column) -> Seq<char> {
    in_quotes(name) + " "@ + ty + (match column.identity {
        Some(id) => " GENERATED ALWAYS AS IDENTITY (START WITH "@ + text::decimal_int(
            id.seed as int,
        ) + " INCREMENT BY "@ + text::decimal_int(id.increment as int) + ")"@,
        None => Seq::empty(),
    }) + seq![' '] + (if column.nullable {
        "NULL"@
    } else {
        "NOT NULL"@
    }) + (match column.default {
        Some(default) => " DEFAULT "@ + (default.text@ + seq!['\n']),
        None => Seq::empty(),
    })
}

/// Whether a column's name can be written, its type read, and its default
/// decided by the declaration.
pub open spec fn is_writable(name: Seq<char>, column: Column) -> bool {
    is_name(name) && match column.ty.normal {
        Reading::As(ty) => match column.default {
            Some(default) => !is_session_decided(ty.base@, default.text@),
            None => true,
        },
        Reading::Refused(_) => false,
    }
}

/// The type a column was read with.
pub open spec fn type_spelled(column: Column) -> Seq<char> {
    match column.ty.normal {
        Reading::As(ty) => ty.spelled@,
        Reading::Refused(_) => Seq::empty(),
    }
}

/// A column that can be written is defined as it was declared.
pub proof fn a_column_is_defined_as_declared(name: Seq<char>, column: Column)
    requires
        is_writable(name, column),
    ensures
        emit::column_definition_text(name, column) == Ok::<Seq<char>, error::Refusal>(
            column_line(name, type_spelled(column), column),
        ),
{
    reveal_strlit("date");
    let ty = type_spelled(column);
    let n = in_quotes(name);
    composes(
        emit::NAMED_TYPE@,
        seq![sql::quoted(name), emit::read_type(column.ty.normal)],
        seq![n, ty],
    );
    templates::a_named_type_reads(n, ty);
    let head = n + " "@ + ty;
    if let Some(id) = column.identity {
        templates::an_identity_reads(
            text::decimal_int(id.seed as int),
            text::decimal_int(id.increment as int),
        );
    }
    let line = head + emit::identity_text(column.identity) + seq![' '] + emit::null_text(
        column.nullable,
    );
    match column.default {
        Some(default) => {
            templates::a_default_reads(emit::verbatim_text(default.text@));
        },
        None => {
            assert(line + Seq::<char>::empty() =~= line);
        },
    }
}

/// A column whose default the session would decide, whose type was not read or
/// whose name is none is not defined at all.
pub proof fn a_column_that_cannot_be_written_is_refused(name: Seq<char>, column: Column)
    requires
        !is_writable(name, column),
    ensures
        emit::column_definition_text(name, column) is Err,
{
    let parts = seq![sql::quoted(name), emit::read_type(column.ty.normal)];
    if error::first_refusal(parts) is None {
        error::nothing_refused(parts);
        assert(parts[0] is Ok && parts[1] is Ok);
    }
}

proof fn added_column_reads(
    extras: Seq<Seq<char>>,
    table: model::Qualified,
    name: Seq<char>,
    column: Column,
)
    requires
        is_table_name(table),
        is_writable(name, column),
        is_path(table.0, extras),
    ensures
        emit::add_column_statement(extras, table, name, column) == Ok::<
            Seq<emit::StatementView>,
            error::Refusal,
        >(
            seq![
                emit::StatementView {
                    creates: seq![emit::CreatedView::Column(table, name)],
                    ..ordinary(
                        table.0,
                        extras,
                        "ALTER TABLE "@ + table_in_quotes(table) + " ADD COLUMN "@ + column_line(
                            name,
                            type_spelled(column),
                            column,
                        ) + ";"@,
                    )
                },
            ],
        ),
{
    let t = table_in_quotes(table);
    let line = column_line(name, type_spelled(column), column);
    a_table_is_quoted(table);
    a_column_is_defined_as_declared(name, column);
    composes(
        emit::ADD_COLUMN@,
        seq![sql::qualified_text(table), emit::column_definition_text(name, column)],
        seq![t, line],
    );
    templates::an_added_column_reads(t, line);
    scope_reads(table.0, extras, "ALTER TABLE "@ + t + " ADD COLUMN "@ + line + ";"@);
}

/// Adding a column adds it as it is declared, and the statement says that it
/// brings the column into being.
pub proof fn adding_a_column(
    extras: Seq<Seq<char>>,
    table: model::TableName,
    name: String,
    column: Column,
    strategy: Strategy,
)
    requires
        is_table_name(table@),
        is_writable(name@, column),
        is_path(table@.0, extras),
    ensures
        emit::emitted(extras, Change::AddColumn { table, name, column }, strategy) == Ok::<
            Seq<emit::StatementView>,
            error::Refusal,
        >(
            seq![
                emit::StatementView {
                    creates: seq![emit::CreatedView::Column(table@, name@)],
                    ..ordinary(
                        table@.0,
                        extras,
                        "ALTER TABLE "@ + table_in_quotes(table@) + " ADD COLUMN "@ + column_line(
                            name@,
                            type_spelled(column),
                            column,
                        ) + ";"@,
                    )
                },
            ],
        ),
{
    added_column_reads(extras, table@, name@, column);
}

/// The text that changes a column's type, and its nullability where that moves
/// too.
pub open spec fn type_change(
    table: model::Qualified,
    column: Seq<char>,
    ty: Seq<char>,
    from_nullable: bool,
    to_nullable: bool,
) -> Seq<char> {
    "ALTER TABLE "@ + table_in_quotes(table) + " "@ + ("ALTER COLUMN "@ + in_quotes(column)
        + " TYPE "@ + ty + (if from_nullable == to_nullable {
        Seq::<char>::empty()
    } else if to_nullable {
        ", "@ + ("ALTER COLUMN "@ + in_quotes(column) + " "@ + "DROP NOT NULL"@)
    } else {
        ", "@ + ("ALTER COLUMN "@ + in_quotes(column) + " "@ + "SET NOT NULL"@)
    })) + ";"@
}

proof fn type_parts_read(column: Seq<char>, ty: Seq<char>, moves: bool, to_nullable: bool)
    requires
        is_name(column),
    ensures
        ({
            let first = "ALTER COLUMN "@ + in_quotes(column) + " TYPE "@ + ty;
            error::joined_all(emit::type_parts(column, ty, moves, to_nullable), sql::COMMA@)
                == Ok::<Seq<char>, error::Refusal>(
                first + (if !moves {
                    Seq::<char>::empty()
                } else if to_nullable {
                    ", "@ + ("ALTER COLUMN "@ + in_quotes(column) + " "@ + "DROP NOT NULL"@)
                } else {
                    ", "@ + ("ALTER COLUMN "@ + in_quotes(column) + " "@ + "SET NOT NULL"@)
                }),
            )
        }),
{
    reveal_strlit(", ");
    let c = in_quotes(column);
    composes(
        emit::TYPE_PART@,
        seq![sql::quoted(column), Ok::<Seq<char>, error::Refusal>(ty)],
        seq![c, ty],
    );
    templates::a_type_part_reads(c, ty);
    let first = "ALTER COLUMN "@ + c + " TYPE "@ + ty;
    let n = if to_nullable {
        "DROP NOT NULL"@
    } else {
        "SET NOT NULL"@
    };
    composes(
        emit::NULL_PART@,
        seq![
            sql::quoted(column),
            Ok::<Seq<char>, error::Refusal>(emit::nullability_text(to_nullable)),
        ],
        seq![c, n],
    );
    templates::a_null_part_reads(c, n);
    let second = "ALTER COLUMN "@ + c + " "@ + n;
    let parts = emit::type_parts(column, ty, moves, to_nullable);
    if moves {
        let pieces = seq![first, second];
        collects(parts, pieces);
        assert(pieces.drop_last() =~= seq![first]);
        assert(text::joined(seq![first], ", "@) == first);
        assert(text::joined(pieces, ", "@) =~= first + (", "@ + second));
    } else {
        collects(parts, seq![first]);
        assert(text::joined(seq![first], ", "@) =~= first + Seq::<char>::empty());
    }
}

proof fn type_change_reads(
    table: model::Qualified,
    column: Seq<char>,
    from: Reading,
    to: Reading,
    from_nullable: bool,
    to_nullable: bool,
)
    requires
        is_table_name(table),
        is_name(column),
        from is As,
        to is As,
    ensures
        emit::alter_type_text(
            (table, column),
            from,
            to,
            (from_nullable, to_nullable),
            false,
            false,
        ) == Ok::<Seq<char>, error::Refusal>(
            type_change(table, column, to->As_0.spelled@, from_nullable, to_nullable),
        ),
{
    let t = table_in_quotes(table);
    let ty = to->As_0.spelled@;
    a_table_is_quoted(table);
    type_parts_read(column, ty, from_nullable != to_nullable, to_nullable);
    let body = error::joined_all(
        emit::type_parts(column, ty, from_nullable != to_nullable, to_nullable),
        sql::COMMA@,
    )->Ok_0;
    composes(
        emit::ALTER_TABLE@,
        seq![sql::qualified_text(table), Ok::<Seq<char>, error::Refusal>(body)],
        seq![t, body],
    );
    templates::an_altered_table_reads(t, body);
}

/// A type is changed in one statement, which moves the nullability with it
/// exactly where that moves.
pub proof fn changing_a_type(
    extras: Seq<Seq<char>>,
    column: model::ColumnRef,
    from: model::DeclaredType,
    to: model::DeclaredType,
    from_nullable: bool,
    to_nullable: bool,
    strategy: Strategy,
)
    requires
        is_table_name(column@.0),
        is_name(column@.1),
        is_path(column@.0.0, extras),
        from.normal is As,
        to.normal is As,
    ensures
        is_emitted(
            extras,
            Change::AlterColumnType {
                column,
                from,
                to,
                from_nullable,
                to_nullable,
                incompatible: false,
                zone_decided: false,
            },
            strategy,
            column@.0.0,
            type_change(
                column@.0,
                column@.1,
                to.normal->As_0.spelled@,
                from_nullable,
                to_nullable,
            ),
        ),
{
    type_change_reads(column@.0, column@.1, from.normal, to.normal, from_nullable, to_nullable);
    single_reads(
        column@.0.0,
        extras,
        type_change(column@.0, column@.1, to.normal->As_0.spelled@, from_nullable, to_nullable),
    );
}

/// A type change that the engine refuses, or that the session's zone would
/// decide, is never emitted, and neither is one of a type that was not read.
pub proof fn a_type_change_nobody_declared_is_refused(
    extras: Seq<Seq<char>>,
    column: model::ColumnRef,
    from: model::DeclaredType,
    to: model::DeclaredType,
    from_nullable: bool,
    to_nullable: bool,
    incompatible: bool,
    zone_decided: bool,
    strategy: Strategy,
)
    requires
        incompatible || zone_decided || from.normal is Refused || to.normal is Refused,
    ensures
        emit::emitted(
            extras,
            Change::AlterColumnType {
                column,
                from,
                to,
                from_nullable,
                to_nullable,
                incompatible,
                zone_decided,
            },
            strategy,
        ) is Err,
{
}

// ---------------------------------------------------------------------------
// Constraints

/// A unique constraint over columns, under its name.
pub open spec fn unique_clause(name: Seq<char>, columns: Seq<Seq<char>>) -> Seq<char> {
    "CONSTRAINT "@ + in_quotes(name) + " UNIQUE ("@ + listed(columns) + ")"@
}

proof fn unique_reads(name: Seq<char>, u: UniqueConstraint)
    requires
        is_name(name),
        are_names(text::texts(u.columns@)),
    ensures
        emit::unique_text(name, u) == Ok::<Seq<char>, error::Refusal>(
            unique_clause(name, text::texts(u.columns@)),
        ),
{
    let columns = text::texts(u.columns@);
    a_column_list_names_its_columns(columns);
    composes(
        emit::UNIQUE@,
        seq![sql::quoted(name), sql::column_list_text(columns)],
        seq![in_quotes(name), listed(columns)],
    );
    templates::a_unique_constraint_reads(in_quotes(name), listed(columns));
}

/// A primary key over columns, under its name where it has one.
pub open spec fn primary_key_clause(name: Option<Seq<char>>, columns: Seq<Seq<char>>) -> Seq<
    char,
> {
    match name {
        Some(name) => "CONSTRAINT "@ + in_quotes(name) + " PRIMARY KEY ("@ + listed(columns)
            + ")"@,
        None => "PRIMARY KEY ("@ + listed(columns) + ")"@,
    }
}

/// Whether a primary key's names can be written.
pub open spec fn is_key(pk: PrimaryKey) -> bool {
    are_names(text::texts(pk.columns@)) && match pk.name {
        Some(name) => is_name(name@),
        None => true,
    }
}

proof fn primary_key_reads(pk: PrimaryKey)
    requires
        is_key(pk),
    ensures
        emit::primary_key_text(pk) == Ok::<Seq<char>, error::Refusal>(
            primary_key_clause(text::text_in(pk.name), text::texts(pk.columns@)),
        ),
{
    let columns = text::texts(pk.columns@);
    a_column_list_names_its_columns(columns);
    match pk.name {
        Some(name) => {
            composes(
                emit::NAMED_PRIMARY_KEY@,
                seq![
                    sql::quoted(name@),
                    Ok::<Seq<char>, error::Refusal>(listed(columns)),
                ],
                seq![in_quotes(name@), listed(columns)],
            );
            templates::a_named_primary_key_reads(in_quotes(name@), listed(columns));
        },
        None => {
            templates::a_primary_key_reads(listed(columns));
        },
    }
}

/// What a key does when the row it points at changes. Doing nothing is the
/// default, and is not said.
pub open spec fn action_clause(when: Seq<char>, action: ReferentialAction) -> Seq<char> {
    match action {
        ReferentialAction::NoAction => Seq::empty(),
        ReferentialAction::Cascade => when + "CASCADE"@,
        ReferentialAction::SetNull => when + "SET NULL"@,
        ReferentialAction::SetDefault => when + "SET DEFAULT"@,
    }
}

/// A foreign key: its own columns, the table and the columns it points at, and
/// what it does on a delete and on an update.
pub open spec fn foreign_key_clause(name: Seq<char>, fk: ForeignKey) -> Seq<char> {
    "CONSTRAINT "@ + in_quotes(name) + " FOREIGN KEY ("@ + listed(text::texts(fk.columns@))
        + ") REFERENCES "@ + table_in_quotes(fk.references_table@) + " ("@ + listed(
        text::texts(fk.references_columns@),
    ) + ")"@ + action_clause(" ON DELETE "@, fk.on_delete) + action_clause(
        " ON UPDATE "@,
        fk.on_update,
    )
}

/// Whether a foreign key's names can be written.
pub open spec fn is_reference(fk: ForeignKey) -> bool {
    are_names(text::texts(fk.columns@)) && is_table_name(fk.references_table@) && are_names(
        text::texts(fk.references_columns@),
    )
}

proof fn actions_read(action: ReferentialAction)
    ensures
        emit::action_part(emit::ON_DELETE@, action) == action_clause(" ON DELETE "@, action),
        emit::action_part(emit::ON_UPDATE@, action) == action_clause(" ON UPDATE "@, action),
{
    templates::a_delete_action_reads(emit::action_text(action));
    templates::an_update_action_reads(emit::action_text(action));
}

proof fn foreign_key_reads(name: Seq<char>, fk: ForeignKey)
    requires
        is_name(name),
        is_reference(fk),
    ensures
        emit::foreign_key_text(name, fk) == Ok::<Seq<char>, error::Refusal>(
            foreign_key_clause(name, fk),
        ),
{
    let columns = text::texts(fk.columns@);
    let there = text::texts(fk.references_columns@);
    a_column_list_names_its_columns(columns);
    a_column_list_names_its_columns(there);
    a_table_is_quoted(fk.references_table@);
    let t = table_in_quotes(fk.references_table@);
    composes(
        emit::FOREIGN_KEY@,
        seq![
            sql::quoted(name),
            sql::column_list_text(columns),
            sql::qualified_text(fk.references_table@),
            sql::column_list_text(there),
        ],
        seq![in_quotes(name), listed(columns), t, listed(there)],
    );
    templates::a_foreign_key_reads(in_quotes(name), listed(columns), t, listed(there));
    actions_read(fk.on_delete);
    actions_read(fk.on_update);
}

proof fn addition_reads(table: model::Qualified, what: Result<Seq<char>, error::Refusal>, clause: Seq<char>)
    requires
        is_table_name(table),
        what == Ok::<Seq<char>, error::Refusal>(clause),
    ensures
        error::composed(emit::ADD@, seq![sql::qualified_text(table), what]) == Ok::<
            Seq<char>,
            error::Refusal,
        >("ALTER TABLE "@ + table_in_quotes(table) + " ADD "@ + clause + ";"@),
{
    a_table_is_quoted(table);
    composes(
        emit::ADD@,
        seq![sql::qualified_text(table), what],
        seq![table_in_quotes(table), clause],
    );
    templates::an_addition_reads(table_in_quotes(table), clause);
}

/// Adding a unique constraint adds it over the columns it names.
pub proof fn adding_a_unique_constraint(
    extras: Seq<Seq<char>>,
    table: model::TableName,
    name: String,
    constraint: UniqueConstraint,
    strategy: Strategy,
)
    requires
        is_table_name(table@),
        is_name(name@),
        are_names(text::texts(constraint.columns@)),
        is_path(table@.0, extras),
    ensures
        is_emitted(
            extras,
            Change::AddUnique { table, name, constraint },
            strategy,
            table@.0,
            "ALTER TABLE "@ + table_in_quotes(table@) + " ADD "@ + unique_clause(
                name@,
                text::texts(constraint.columns@),
            ) + ";"@,
        ),
{
    let clause = unique_clause(name@, text::texts(constraint.columns@));
    unique_reads(name@, constraint);
    addition_reads(table@, emit::unique_text(name@, constraint), clause);
    single_reads(
        table@.0,
        extras,
        "ALTER TABLE "@ + table_in_quotes(table@) + " ADD "@ + clause + ";"@,
    );
}

/// Adding a foreign key adds it from its own columns to the ones it names.
pub proof fn adding_a_foreign_key(
    extras: Seq<Seq<char>>,
    table: model::TableName,
    name: String,
    constraint: ForeignKey,
    strategy: Strategy,
)
    requires
        is_table_name(table@),
        is_name(name@),
        is_reference(constraint),
        is_path(table@.0, extras),
    ensures
        is_emitted(
            extras,
            Change::AddForeignKey { table, name, constraint },
            strategy,
            table@.0,
            "ALTER TABLE "@ + table_in_quotes(table@) + " ADD "@ + foreign_key_clause(
                name@,
                constraint,
            ) + ";"@,
        ),
{
    let clause = foreign_key_clause(name@, constraint);
    foreign_key_reads(name@, constraint);
    addition_reads(table@, emit::foreign_key_text(name@, constraint), clause);
    single_reads(
        table@.0,
        extras,
        "ALTER TABLE "@ + table_in_quotes(table@) + " ADD "@ + clause + ";"@,
    );
}

/// A check that is added to a table.
pub open spec fn check_addition(table: model::Qualified, name: Seq<char>, expression: Seq<char>) -> Seq<
    char,
> {
    "ALTER TABLE "@ + table_in_quotes(table) + " ADD CONSTRAINT "@ + in_quotes(name) + " CHECK ("@
        + (expression + seq!['\n']) + ");"@
}

proof fn check_reads(table: model::Qualified, name: Seq<char>, expression: Seq<char>)
    requires
        is_table_name(table),
        is_name(name),
    ensures
        emit::add_check_text(sql::qualified_text(table), name, expression) == Ok::<
            Seq<char>,
            error::Refusal,
        >(check_addition(table, name, expression)),
{
    let e = expression + seq!['\n'];
    a_table_is_quoted(table);
    composes(
        emit::ADD_CHECK@,
        seq![
            sql::qualified_text(table),
            sql::quoted(name),
            Ok::<Seq<char>, error::Refusal>(emit::verbatim_text(expression)),
        ],
        seq![table_in_quotes(table), in_quotes(name), e],
    );
    templates::an_added_check_reads(table_in_quotes(table), in_quotes(name), e);
}

/// Adding a check adds the declared expression, with the line end that closes
/// a comment in it.
pub proof fn adding_a_check(
    extras: Seq<Seq<char>>,
    table: model::TableName,
    name: String,
    constraint: model::CheckConstraint,
    strategy: Strategy,
)
    requires
        is_table_name(table@),
        is_name(name@),
        is_path(table@.0, extras),
    ensures
        is_emitted(
            extras,
            Change::AddCheck { table, name, constraint },
            strategy,
            table@.0,
            check_addition(table@, name@, constraint.expression@),
        ),
{
    check_reads(table@, name@, constraint.expression@);
    single_reads(table@.0, extras, check_addition(table@, name@, constraint.expression@));
}

/// Dropping a constraint of any kind drops the one of that name.
pub proof fn dropping_a_constraint(
    extras: Seq<Seq<char>>,
    table: model::TableName,
    name: String,
    strategy: Strategy,
)
    requires
        is_table_name(table@),
        is_name(name@),
        is_path(table@.0, extras),
    ensures
        ({
            let body = "ALTER TABLE "@ + table_in_quotes(table@) + " DROP CONSTRAINT "@
                + in_quotes(name@) + ";"@;
            &&& is_emitted(extras, Change::DropUnique { table, name }, strategy, table@.0, body)
            &&& is_emitted(
                extras,
                Change::DropForeignKey { table, name },
                strategy,
                table@.0,
                body,
            )
            &&& is_emitted(extras, Change::DropCheck { table, name }, strategy, table@.0, body)
        }),
{
    dropped_constraint_reads(table@, name@);
    single_reads(
        table@.0,
        extras,
        "ALTER TABLE "@ + table_in_quotes(table@) + " DROP CONSTRAINT "@ + in_quotes(name@) + ";"@,
    );
}

proof fn dropped_constraint_reads(table: model::Qualified, name: Seq<char>)
    requires
        is_table_name(table),
        is_name(name),
    ensures
        emit::drop_constraint_text(table, name) == Ok::<Seq<char>, error::Refusal>(
            "ALTER TABLE "@ + table_in_quotes(table) + " DROP CONSTRAINT "@ + in_quotes(name)
                + ";"@,
        ),
{
    a_table_is_quoted(table);
    composes(
        emit::DROP_CONSTRAINT@,
        seq![sql::qualified_text(table), sql::quoted(name)],
        seq![table_in_quotes(table), in_quotes(name)],
    );
    templates::a_dropped_constraint_reads(table_in_quotes(table), in_quotes(name));
}

// ---------------------------------------------------------------------------
// The primary key

proof fn added_key_reads(table: model::Qualified, pk: PrimaryKey)
    requires
        is_table_name(table),
        is_key(pk),
    ensures
        error::composed(
            emit::ADD@,
            seq![sql::qualified_text(table), emit::primary_key_text(pk)],
        ) == Ok::<Seq<char>, error::Refusal>(
            "ALTER TABLE "@ + table_in_quotes(table) + " ADD "@ + primary_key_clause(
                text::text_in(pk.name),
                text::texts(pk.columns@),
            ) + ";"@,
        ),
{
    primary_key_reads(pk);
    addition_reads(
        table,
        emit::primary_key_text(pk),
        primary_key_clause(text::text_in(pk.name), text::texts(pk.columns@)),
    );
}

/// A named primary key that is replaced is dropped by its name, and then the
/// new one is added.
pub proof fn replacing_a_named_primary_key(
    extras: Seq<Seq<char>>,
    table: model::TableName,
    from: PrimaryKey,
    to: PrimaryKey,
    strategy: Strategy,
)
    requires
        is_table_name(table@),
        from.name is Some,
        is_name(from.name->0@),
        is_key(to),
        is_path(table@.0, extras),
    ensures
        ({
            let t = table_in_quotes(table@);
            let dropped = ordinary(
                table@.0,
                extras,
                "ALTER TABLE "@ + t + " DROP CONSTRAINT "@ + in_quotes(from.name->0@) + ";"@,
            );
            let added = ordinary(
                table@.0,
                extras,
                "ALTER TABLE "@ + t + " ADD "@ + primary_key_clause(
                    text::text_in(to.name),
                    text::texts(to.columns@),
                ) + ";"@,
            );
            &&& emit::emitted(
                extras,
                Change::SetPrimaryKey { table, from: Some(from), to: Some(to) },
                strategy,
            ) == Ok::<Seq<emit::StatementView>, error::Refusal>(seq![dropped, added])
            &&& emit::emitted(
                extras,
                Change::SetPrimaryKey { table, from: Some(from), to: None },
                strategy,
            ) == Ok::<Seq<emit::StatementView>, error::Refusal>(seq![dropped])
            &&& emit::emitted(
                extras,
                Change::SetPrimaryKey { table, from: None, to: Some(to) },
                strategy,
            ) == Ok::<Seq<emit::StatementView>, error::Refusal>(seq![added])
        }),
{
    keys_are_replaced(extras, table@, from, to);
}

proof fn keys_are_replaced(
    extras: Seq<Seq<char>>,
    table: model::Qualified,
    from: PrimaryKey,
    to: PrimaryKey,
)
    requires
        is_table_name(table),
        from.name is Some,
        is_name(from.name->0@),
        is_key(to),
        is_path(table.0, extras),
    ensures
        ({
            let t = table_in_quotes(table);
            let dropped = ordinary(
                table.0,
                extras,
                "ALTER TABLE "@ + t + " DROP CONSTRAINT "@ + in_quotes(from.name->0@) + ";"@,
            );
            let added = ordinary(
                table.0,
                extras,
                "ALTER TABLE "@ + t + " ADD "@ + primary_key_clause(
                    text::text_in(to.name),
                    text::texts(to.columns@),
                ) + ";"@,
            );
            &&& emit::set_primary_key_statements(extras, table, Some(from), Some(to)) == Ok::<
                Seq<emit::StatementView>,
                error::Refusal,
            >(seq![dropped, added])
            &&& emit::set_primary_key_statements(extras, table, Some(from), None) == Ok::<
                Seq<emit::StatementView>,
                error::Refusal,
            >(seq![dropped])
            &&& emit::set_primary_key_statements(extras, table, None, Some(to)) == Ok::<
                Seq<emit::StatementView>,
                error::Refusal,
            >(seq![added])
        }),
{
    let t = table_in_quotes(table);
    let name = from.name->0@;
    let drop_body = "ALTER TABLE "@ + t + " DROP CONSTRAINT "@ + in_quotes(name) + ";"@;
    let add_body = "ALTER TABLE "@ + t + " ADD "@ + primary_key_clause(
        text::text_in(to.name),
        text::texts(to.columns@),
    ) + ";"@;
    a_table_is_quoted(table);
    composes(
        emit::DROP_CONSTRAINT@,
        seq![Ok::<Seq<char>, error::Refusal>(t), sql::quoted(name)],
        seq![t, in_quotes(name)],
    );
    templates::a_dropped_constraint_reads(t, in_quotes(name));
    added_key_reads(table, to);
    scope_reads(table.0, extras, drop_body);
    scope_reads(table.0, extras, add_body);
    let dropped = ordinary(table.0, extras, drop_body);
    let added = ordinary(table.0, extras, add_body);
    let d = emit::scoped(extras, table.0, emit::drop_primary_key_text(table, from));
    let a = emit::scoped(
        extras,
        table.0,
        error::composed(emit::ADD@, seq![sql::qualified_text(table), emit::primary_key_text(to)]),
    );
    assert(d == Ok::<emit::StatementView, error::Refusal>(dropped));
    assert(a == Ok::<emit::StatementView, error::Refusal>(added));
    collects(seq![d], seq![dropped]);
    collects(seq![a], seq![added]);
    collects(seq![d, a], seq![dropped, added]);
    assert(seq![d] + seq![a] =~= seq![d, a]);
    assert(seq![d] + Seq::empty() =~= seq![d]);
    assert(Seq::empty() + seq![a] =~= seq![a]);
}

// ---------------------------------------------------------------------------
// Indexes

/// A key of an index, with its direction.
pub open spec fn key_in_order(key: IndexColumn) -> Seq<char> {
    in_quotes(key.name@) + " "@ + (if key.descending {
        "DESC"@
    } else {
        "ASC"@
    })
}

/// Whether every column an index names can be written.
pub open spec fn is_indexable(index: Index) -> bool {
    &&& forall|i: int|
        0 <= i < index.columns@.len() ==> is_name((#[trigger] index.columns@[i]).name@)
    &&& are_names(text::texts(index.include_columns@))
}

/// The text that builds an index.
pub open spec fn index_build(
    table: model::Qualified,
    name: Seq<char>,
    index: Index,
    concurrently: bool,
) -> Seq<char> {
    "CREATE "@ + (if index.unique {
        "UNIQUE "@
    } else {
        ""@
    }) + "INDEX "@ + (if concurrently {
        "CONCURRENTLY "@
    } else {
        ""@
    }) + in_quotes(name) + " ON "@ + table_in_quotes(table) + " ("@ + text::joined(
        Seq::new(index.columns@.len(), |i: int| key_in_order(index.columns@[i])),
        ", "@,
    ) + ")"@ + (if index.include_columns@.len() == 0 {
        Seq::empty()
    } else {
        " INCLUDE ("@ + listed(text::texts(index.include_columns@)) + ")"@
    }) + (match index.filter {
        Some(filter) => " WHERE ("@ + (filter@ + seq!['\n']) + ")"@,
        None => Seq::empty(),
    }) + seq![';']
}

proof fn keys_read(keys: Seq<IndexColumn>)
    requires
        forall|i: int| 0 <= i < keys.len() ==> is_name((#[trigger] keys[i]).name@),
    ensures
        emit::index_keys_text(keys) == Ok::<Seq<char>, error::Refusal>(
            text::joined(Seq::new(keys.len(), |i: int| key_in_order(keys[i])), ", "@),
        ),
{
    reveal_strlit(", ");
    let parts = Seq::new(keys.len(), |i: int| emit::index_key_text(keys[i]));
    let pieces = Seq::new(keys.len(), |i: int| key_in_order(keys[i]));
    assert forall|i: int| 0 <= i < parts.len() implies (#[trigger] parts[i]) == Ok::<
        Seq<char>,
        error::Refusal,
    >(pieces[i]) by {
        let key = keys[i];
        let d = if key.descending {
            "DESC"@
        } else {
            "ASC"@
        };
        composes(
            emit::INDEX_KEY@,
            seq![sql::quoted(key.name@), Ok::<Seq<char>, error::Refusal>(d)],
            seq![in_quotes(key.name@), d],
        );
        templates::an_index_key_reads(in_quotes(key.name@), d);
    }
    collects(parts, pieces);
}

proof fn index_reads(table: model::Qualified, name: Seq<char>, index: Index, strategy: Strategy)
    requires
        is_table_name(table),
        is_name(name),
        is_indexable(index),
    ensures
        emit::create_index_text(table, name, index, strategy) == Ok::<Seq<char>, error::Refusal>(
            index_build(table, name, index, strategy.online && index.filter is None),
        ),
{
    let keys = text::joined(
        Seq::new(index.columns@.len(), |i: int| key_in_order(index.columns@[i])),
        ", "@,
    );
    let concurrently = strategy.online && index.filter is None;
    let u = if index.unique {
        "UNIQUE "@
    } else {
        ""@
    };
    let c = if concurrently {
        "CONCURRENTLY "@
    } else {
        ""@
    };
    let n = in_quotes(name);
    let t = table_in_quotes(table);
    keys_read(index.columns@);
    a_table_is_quoted(table);
    composes(
        emit::INDEX@,
        seq![
            Ok::<Seq<char>, error::Refusal>(u),
            Ok::<Seq<char>, error::Refusal>(c),
            sql::quoted(name),
            sql::qualified_text(table),
            Ok::<Seq<char>, error::Refusal>(keys),
        ],
        seq![u, c, n, t, keys],
    );
    templates::an_index_reads(u, c, n, t, keys);
    let included = text::texts(index.include_columns@);
    if included.len() > 0 {
        a_column_list_names_its_columns(included);
        composes(
            emit::INCLUDED@,
            seq![sql::column_list_text(included)],
            seq![listed(included)],
        );
        templates::a_payload_reads(listed(included));
    }
    if let Some(filter) = index.filter {
        templates::a_filter_reads(emit::verbatim_text(filter@));
    }
}

/// An index is built as it is declared: unique where it says so, over its keys
/// in their directions, with its payload and its filter. It is built beside the
/// writers, alone and outside the transaction, exactly where that was asked for
/// and no filter needs the path.
pub proof fn adding_an_index(
    extras: Seq<Seq<char>>,
    table: model::TableName,
    name: String,
    index: Index,
    strategy: Strategy,
)
    requires
        is_table_name(table@),
        is_name(name@),
        is_indexable(index),
        is_path(table@.0, extras),
    ensures
        strategy.online && index.filter is None ==> emit::emitted(
            extras,
            Change::AddIndex { table, name, index },
            strategy,
        ) == Ok::<Seq<emit::StatementView>, error::Refusal>(
            seq![
                emit::StatementView {
                    sql: index_build(table@, name@, index, true),
                    own_batch: true,
                    transactional: false,
                    creates: Seq::empty(),
                    renames: None,
                },
            ],
        ),
        !(strategy.online && index.filter is None) ==> is_emitted(
            extras,
            Change::AddIndex { table, name, index },
            strategy,
            table@.0,
            index_build(table@, name@, index, false),
        ),
{
    index_reads(table@, name@, index, strategy);
    single_reads(table@.0, extras, index_build(table@, name@, index, false));
}

/// Dropping an index drops the one of that name in the table's schema.
pub proof fn dropping_an_index(
    extras: Seq<Seq<char>>,
    table: model::TableName,
    name: String,
    strategy: Strategy,
)
    requires
        is_name(table@.0),
        is_name(name@),
        is_path(table@.0, extras),
    ensures
        is_emitted(
            extras,
            Change::DropIndex { table, name },
            strategy,
            table@.0,
            "DROP INDEX "@ + in_quotes(table@.0) + "."@ + in_quotes(name@) + ";"@,
        ),
{
    let a = in_quotes(table@.0);
    let b = in_quotes(name@);
    composes(
        emit::DROP_INDEX@,
        seq![sql::quoted(table@.0), sql::quoted(name@)],
        seq![a, b],
    );
    templates::a_dropped_index_reads(a, b);
    single_reads(table@.0, extras, "DROP INDEX "@ + a + "."@ + b + ";"@);
}

// ---------------------------------------------------------------------------
// Whole tables

/// A table that moves keeps its name in the new schema, and a table that is
/// renamed gets the new one where it then is: each statement says so.
pub proof fn renaming_a_table(
    extras: Seq<Seq<char>>,
    from: model::TableName,
    to: model::TableName,
    strategy: Strategy,
)
    requires
        is_table_name(from@),
        is_table_name(to@),
        is_path(from@.0, extras),
        is_path(to@.0, extras),
    ensures
        ({
            let between = (to@.0, from@.1);
            let moved = emit::StatementView {
                renames: Some((from@, between)),
                ..ordinary(
                    from@.0,
                    extras,
                    "ALTER TABLE "@ + table_in_quotes(from@) + " SET SCHEMA "@ + in_quotes(to@.0)
                        + ";"@,
                )
            };
            let renamed = emit::StatementView {
                renames: Some((between, to@)),
                ..ordinary(
                    to@.0,
                    extras,
                    "ALTER TABLE "@ + table_in_quotes(between) + " RENAME TO "@ + in_quotes(to@.1)
                        + ";"@,
                )
            };
            emit::emitted(extras, Change::RenameTable { from, to }, strategy) == Ok::<
                Seq<emit::StatementView>,
                error::Refusal,
            >(
                if from@.0 != to@.0 && from@.1 != to@.1 {
                    seq![moved, renamed]
                } else if from@.0 != to@.0 {
                    seq![moved]
                } else if from@.1 != to@.1 {
                    seq![renamed]
                } else {
                    Seq::empty()
                },
            )
        }),
{
    rename_reads(extras, from@, to@);
}

proof fn rename_step_reads(
    extras: Seq<Seq<char>>,
    from: model::Qualified,
    to: model::Qualified,
)
    requires
        is_table_name(from),
        is_table_name(to),
        is_path(from.0, extras),
    ensures
        emit::rename_statement(extras, emit::SET_SCHEMA@, from, to.0, to) == Ok::<
            emit::StatementView,
            error::Refusal,
        >(
            emit::StatementView {
                renames: Some((from, to)),
                ..ordinary(
                    from.0,
                    extras,
                    "ALTER TABLE "@ + table_in_quotes(from) + " SET SCHEMA "@ + in_quotes(to.0)
                        + ";"@,
                )
            },
        ),
        emit::rename_statement(extras, emit::RENAME_TO@, from, to.1, to) == Ok::<
            emit::StatementView,
            error::Refusal,
        >(
            emit::StatementView {
                renames: Some((from, to)),
                ..ordinary(
                    from.0,
                    extras,
                    "ALTER TABLE "@ + table_in_quotes(from) + " RENAME TO "@ + in_quotes(to.1)
                        + ";"@,
                )
            },
        ),
{
    let t = table_in_quotes(from);
    a_table_is_quoted(from);
    composes(
        emit::SET_SCHEMA@,
        seq![sql::qualified_text(from), sql::quoted(to.0)],
        seq![t, in_quotes(to.0)],
    );
    templates::a_moved_table_reads(t, in_quotes(to.0));
    scope_reads(
        from.0,
        extras,
        "ALTER TABLE "@ + t + " SET SCHEMA "@ + in_quotes(to.0) + ";"@,
    );
    composes(
        emit::RENAME_TO@,
        seq![sql::qualified_text(from), sql::quoted(to.1)],
        seq![t, in_quotes(to.1)],
    );
    templates::a_renamed_table_reads(t, in_quotes(to.1));
    scope_reads(
        from.0,
        extras,
        "ALTER TABLE "@ + t + " RENAME TO "@ + in_quotes(to.1) + ";"@,
    );
}

proof fn rename_reads(extras: Seq<Seq<char>>, from: model::Qualified, to: model::Qualified)
    requires
        is_table_name(from),
        is_table_name(to),
        is_path(from.0, extras),
        is_path(to.0, extras),
    ensures
        ({
            let between = (to.0, from.1);
            let moved = emit::StatementView {
                renames: Some((from, between)),
                ..ordinary(
                    from.0,
                    extras,
                    "ALTER TABLE "@ + table_in_quotes(from) + " SET SCHEMA "@ + in_quotes(to.0)
                        + ";"@,
                )
            };
            let renamed = emit::StatementView {
                renames: Some((between, to)),
                ..ordinary(
                    to.0,
                    extras,
                    "ALTER TABLE "@ + table_in_quotes(between) + " RENAME TO "@ + in_quotes(to.1)
                        + ";"@,
                )
            };
            emit::rename_table_statements(extras, from, to) == Ok::<
                Seq<emit::StatementView>,
                error::Refusal,
            >(
                if from.0 != to.0 && from.1 != to.1 {
                    seq![moved, renamed]
                } else if from.0 != to.0 {
                    seq![moved]
                } else if from.1 != to.1 {
                    seq![renamed]
                } else {
                    Seq::empty()
                },
            )
        }),
{
    let between = (to.0, from.1);
    rename_step_reads(extras, from, between);
    rename_step_reads(extras, between, to);
    let a = emit::rename_statement(extras, emit::SET_SCHEMA@, from, to.0, between);
    let b = emit::rename_statement(extras, emit::RENAME_TO@, between, to.1, to);
    collects(seq![a, b], seq![a->Ok_0, b->Ok_0]);
    collects(seq![a], seq![a->Ok_0]);
    collects(seq![b], seq![b->Ok_0]);
    let none = Seq::<Result<emit::StatementView, error::Refusal>>::empty();
    collects(none, Seq::<emit::StatementView>::empty());
    assert(seq![a] + seq![b] =~= seq![a, b]);
    assert(seq![a] + none =~= seq![a]);
    assert(none + seq![b] =~= seq![b]);
    assert(none + none =~= none);
    if from.0 == to.0 {
        assert(between == from);
    }
}

/// A primary key that was never named is looked up and dropped by the block
/// that finds its name, between two tags that the block does not hold.
pub proof fn dropping_an_unnamed_primary_key(
    extras: Seq<Seq<char>>,
    table: model::TableName,
    from: PrimaryKey,
    strategy: Strategy,
)
    requires
        is_table_name(table@),
        from.name is None,
        is_path(table@.0, extras),
    ensures
        ({
            let t = table_in_quotes(table@);
            let found = "DECLARE pk name := (SELECT conname FROM pg_catalog.pg_constraint\n                     WHERE conrelid = "@
                + in_apostrophes(t) + "::pg_catalog.regclass AND contype = 'p');\nBEGIN\n    IF pk IS NOT NULL THEN\n        EXECUTE pg_catalog.format("@
                + in_apostrophes(
                "ALTER TABLE "@ + text::doubled(t, '%') + " DROP CONSTRAINT %I"@,
            ) + ", pk);\n    END IF;\nEND"@;
            &&& is_emitted(
                extras,
                Change::SetPrimaryKey { table, from: Some(from), to: None },
                strategy,
                table@.0,
                "DO "@ + sql::free_tag(found) + "\n"@ + found + "\n"@ + sql::free_tag(found)
                    + ";"@,
            )
            &&& !text::holds(found, sql::free_tag(found))
        }),
{
    looked_up_key_reads(extras, table@, from);
}

/// A text between apostrophes, with the apostrophes inside it doubled.
pub open spec fn in_apostrophes(s: Seq<char>) -> Seq<char> {
    seq!['\''] + text::doubled(s, '\'') + seq!['\'']
}

proof fn looked_up_key_reads(extras: Seq<Seq<char>>, table: model::Qualified, from: PrimaryKey)
    requires
        is_table_name(table),
        from.name is None,
        is_path(table.0, extras),
    ensures
        ({
            let t = table_in_quotes(table);
            let found = "DECLARE pk name := (SELECT conname FROM pg_catalog.pg_constraint\n                     WHERE conrelid = "@
                + in_apostrophes(t) + "::pg_catalog.regclass AND contype = 'p');\nBEGIN\n    IF pk IS NOT NULL THEN\n        EXECUTE pg_catalog.format("@
                + in_apostrophes(
                "ALTER TABLE "@ + text::doubled(t, '%') + " DROP CONSTRAINT %I"@,
            ) + ", pk);\n    END IF;\nEND"@;
            &&& emit::set_primary_key_statements(extras, table, Some(from), None) == Ok::<
                Seq<emit::StatementView>,
                error::Refusal,
            >(
                seq![
                    ordinary(
                        table.0,
                        extras,
                        "DO "@ + sql::free_tag(found) + "\n"@ + found + "\n"@ + sql::free_tag(found)
                            + ";"@,
                    ),
                ],
            )
            &&& !text::holds(found, sql::free_tag(found))
        }),
{
    let t = table_in_quotes(table);
    let again = "ALTER TABLE "@ + text::doubled(t, '%') + " DROP CONSTRAINT %I"@;
    a_table_is_quoted(table);
    templates::a_looked_up_drop_reads(text::doubled(t, '%'));
    templates::a_look_up_reads(in_apostrophes(t), in_apostrophes(again));
    let found = emit::look_up_text(t);
    let tag = sql::free_tag(found);
    templates::a_block_reads(tag, found, tag);
    sql::the_tag_is_never_in_the_body(found);
    let body = "DO "@ + tag + "\n"@ + found + "\n"@ + tag + ";"@;
    scope_reads(table.0, extras, body);
    let d = emit::scoped(extras, table.0, emit::drop_primary_key_text(table, from));
    assert(d == Ok::<emit::StatementView, error::Refusal>(ordinary(table.0, extras, body)));
    collects(seq![d], seq![ordinary(table.0, extras, body)]);
    assert(seq![d] + Seq::empty() =~= seq![d]);
}

/// Whether everything a table declares can be written.
pub open spec fn is_declared_well(table: Table) -> bool {
    &&& table.columns@.len() > 0
    &&& forall|i: int|
        0 <= i < table.columns@.len() ==> is_writable(
            (#[trigger] table.columns@[i]).0@,
            table.columns@[i].1,
        )
    &&& table.primary_key matches Some(pk) ==> is_key(pk)
    &&& forall|i: int|
        0 <= i < table.unique@.len() ==> is_name((#[trigger] table.unique@[i]).0@) && are_names(
            text::texts(table.unique@[i].1.columns@),
        )
    &&& forall|i: int| 0 <= i < table.checks@.len() ==> is_name((#[trigger] table.checks@[i]).0@)
    &&& forall|i: int|
        0 <= i < table.foreign_keys@.len() ==> is_name((#[trigger] table.foreign_keys@[i]).0@)
            && is_reference(table.foreign_keys@[i].1)
    &&& forall|i: int|
        0 <= i < table.indexes@.len() ==> is_name((#[trigger] table.indexes@[i]).0@)
            && is_indexable(table.indexes@[i].1)
}

/// The lines of a table's definition: its columns in order, and its primary
/// key behind them.
pub open spec fn definition_lines(table: Table) -> Seq<Seq<char>> {
    Seq::new(
        table.columns@.len(),
        |i: int|
            column_line(
                table.columns@[i].0@,
                type_spelled(table.columns@[i].1),
                table.columns@[i].1,
            ),
    ) + match table.primary_key {
        Some(pk) => seq![
            primary_key_clause(text::text_in(pk.name), text::texts(pk.columns@)),
        ],
        None => Seq::empty(),
    }
}

/// The statement that creates a table.
pub open spec fn table_creation(extras: Seq<Seq<char>>, name: model::Qualified, table: Table) -> emit::StatementView {
    emit::StatementView {
        creates: seq![emit::CreatedView::Table(name)],
        ..ordinary(
            name.0,
            extras,
            "CREATE TABLE "@ + table_in_quotes(name) + " (\n    "@ + text::joined(
                definition_lines(table),
                ",\n    "@,
            ) + "\n) USING heap;"@,
        )
    }
}

/// The statements that follow the one that creates a table: its unique
/// constraints, its checks, its foreign keys and its indexes.
pub open spec fn table_completion(extras: Seq<Seq<char>>, name: model::Qualified, table: Table) -> Seq<
    emit::StatementView,
> {
    Seq::new(
        table.unique@.len(),
        |i: int|
            ordinary(
                name.0,
                extras,
                "ALTER TABLE "@ + table_in_quotes(name) + " ADD "@ + unique_clause(
                    table.unique@[i].0@,
                    text::texts(table.unique@[i].1.columns@),
                ) + ";"@,
            ),
    ) + Seq::new(
        table.checks@.len(),
        |i: int|
            ordinary(
                name.0,
                extras,
                check_addition(name, table.checks@[i].0@, table.checks@[i].1.expression@),
            ),
    ) + Seq::new(
        table.foreign_keys@.len(),
        |i: int|
            ordinary(
                name.0,
                extras,
                "ALTER TABLE "@ + table_in_quotes(name) + " ADD "@ + foreign_key_clause(
                    table.foreign_keys@[i].0@,
                    table.foreign_keys@[i].1,
                ) + ";"@,
            ),
    ) + Seq::new(
        table.indexes@.len(),
        |i: int|
            ordinary(
                name.0,
                extras,
                index_build(name, table.indexes@[i].0@, table.indexes@[i].1, false),
            ),
    )
}

proof fn lines_read(table: Table)
    requires
        is_declared_well(table),
    ensures
        error::joined_all(emit::table_lines(table), emit::NEXT_LINE@) == Ok::<
            Seq<char>,
            error::Refusal,
        >(text::joined(definition_lines(table), ",\n    "@)),
{
    reveal_strlit(",\n    ");
    let parts = emit::table_lines(table);
    let pieces = definition_lines(table);
    let n = table.columns@.len() as int;
    assert forall|i: int| 0 <= i < parts.len() implies (#[trigger] parts[i]) == Ok::<
        Seq<char>,
        error::Refusal,
    >(pieces[i]) by {
        if i < n {
            a_column_is_defined_as_declared(table.columns@[i].0@, table.columns@[i].1);
        } else {
            primary_key_reads(table.primary_key->0);
        }
    }
    collects(parts, pieces);
}

proof fn creation_reads(extras: Seq<Seq<char>>, name: model::Qualified, table: Table)
    requires
        is_declared_well(table),
        is_table_name(name),
        is_path(name.0, extras),
    ensures
        emit::table_statement(extras, name, table) == Ok::<emit::StatementView, error::Refusal>(
            table_creation(extras, name, table),
        ),
{
    lines_read(table);
    a_table_is_quoted(name);
    let t = table_in_quotes(name);
    let lines = text::joined(definition_lines(table), ",\n    "@);
    composes(
        emit::CREATE_TABLE@,
        seq![
            sql::qualified_text(name),
            error::joined_all(emit::table_lines(table), emit::NEXT_LINE@),
        ],
        seq![t, lines],
    );
    templates::a_created_table_reads(t, lines);
    scope_reads(
        name.0,
        extras,
        "CREATE TABLE "@ + t + " (\n    "@ + lines + "\n) USING heap;"@,
    );
}

proof fn completion_reads(extras: Seq<Seq<char>>, name: model::Qualified, table: Table)
    requires
        is_declared_well(table),
        is_table_name(name),
        is_path(name.0, extras),
    ensures
        ({
            let parts = emit::unique_statements(extras, name, table) + emit::check_statements(
                extras,
                name,
                table,
            ) + emit::foreign_key_statements(extras, name, table) + emit::index_statements(
                extras,
                name,
                table,
            );
            let pieces = table_completion(extras, name, table);
            &&& parts.len() == pieces.len()
            &&& forall|i: int|
                0 <= i < parts.len() ==> (#[trigger] parts[i]) == Ok::<
                    emit::StatementView,
                    error::Refusal,
                >(pieces[i])
        }),
{
    let us = emit::unique_statements(extras, name, table);
    let cs = emit::check_statements(extras, name, table);
    let fs = emit::foreign_key_statements(extras, name, table);
    let is = emit::index_statements(extras, name, table);
    let parts = us + cs + fs + is;
    let pieces = table_completion(extras, name, table);
    let t = table_in_quotes(name);
    assert forall|i: int| 0 <= i < parts.len() implies (#[trigger] parts[i]) == Ok::<
        emit::StatementView,
        error::Refusal,
    >(pieces[i]) by {
        if i < us.len() {
            let (n, u) = table.unique@[i];
            unique_reads(n@, u);
            addition_reads(
                name,
                emit::unique_text(n@, u),
                unique_clause(n@, text::texts(u.columns@)),
            );
            scope_reads(
                name.0,
                extras,
                "ALTER TABLE "@ + t + " ADD "@ + unique_clause(n@, text::texts(u.columns@)) + ";"@,
            );
            assert(parts[i] == us[i]);
        } else if i < us.len() + cs.len() {
            let j = i - us.len();
            let (n, c) = table.checks@[j];
            check_reads(name, n@, c.expression@);
            scope_reads(name.0, extras, check_addition(name, n@, c.expression@));
            assert(parts[i] == cs[j]);
        } else if i < us.len() + cs.len() + fs.len() {
            let j = i - us.len() - cs.len();
            let (n, fk) = table.foreign_keys@[j];
            foreign_key_reads(n@, fk);
            addition_reads(name, emit::foreign_key_text(n@, fk), foreign_key_clause(n@, fk));
            scope_reads(
                name.0,
                extras,
                "ALTER TABLE "@ + t + " ADD "@ + foreign_key_clause(n@, fk) + ";"@,
            );
            assert(parts[i] == fs[j]);
        } else {
            let j = i - us.len() - cs.len() - fs.len();
            let (n, index) = table.indexes@[j];
            index_reads(name, n@, index, Strategy { online: false });
            scope_reads(name.0, extras, index_build(name, n@, index, false));
            assert(parts[i] == is[j]);
        }
    }
}

/// A table that can be written is created with its columns and its primary key
/// in one statement, and everything else it declares is added behind it, none
/// of it left out and none of it twice.
pub proof fn creating_a_table(
    extras: Seq<Seq<char>>,
    name: model::TableName,
    table: Table,
    strategy: Strategy,
)
    requires
        is_declared_well(table),
        is_table_name(name@),
        is_path(name@.0, extras),
    ensures
        emit::emitted(extras, Change::CreateTable { name, table }, strategy) == Ok::<
            Seq<emit::StatementView>,
            error::Refusal,
        >(
            seq![table_creation(extras, name@, table)] + table_completion(extras, name@, table),
        ),
{
    whole_table_reads(extras, name@, table);
}

proof fn whole_table_reads(extras: Seq<Seq<char>>, name: model::Qualified, table: Table)
    requires
        is_declared_well(table),
        is_table_name(name),
        is_path(name.0, extras),
    ensures
        emit::create_table_statements(extras, name, table) == Ok::<
            Seq<emit::StatementView>,
            error::Refusal,
        >(seq![table_creation(extras, name, table)] + table_completion(extras, name, table)),
{
    creation_reads(extras, name, table);
    completion_reads(extras, name, table);
    let first = emit::table_statement(extras, name, table);
    let rest = emit::unique_statements(extras, name, table) + emit::check_statements(
        extras,
        name,
        table,
    ) + emit::foreign_key_statements(extras, name, table) + emit::index_statements(
        extras,
        name,
        table,
    );
    let parts = seq![first] + rest;
    let pieces = seq![table_creation(extras, name, table)] + table_completion(extras, name, table);
    assert forall|i: int| 0 <= i < parts.len() implies (#[trigger] parts[i]) == Ok::<
        emit::StatementView,
        error::Refusal,
    >(pieces[i]) by {
        if i > 0 {
            assert(parts[i] == rest[i - 1]);
        }
    }
    collects(parts, pieces);
    assert(seq![first] + emit::unique_statements(extras, name, table) + emit::check_statements(
        extras,
        name,
        table,
    ) + emit::foreign_key_statements(extras, name, table) + emit::index_statements(
        extras,
        name,
        table,
    ) =~= parts);
}

/// A table without columns is never created.
pub proof fn a_table_without_columns_is_refused(
    extras: Seq<Seq<char>>,
    name: model::TableName,
    table: Table,
    strategy: Strategy,
)
    requires
        table.columns@.len() == 0,
    ensures
        emit::emitted(extras, Change::CreateTable { name, table }, strategy) is Err,
{
}

// ---------------------------------------------------------------------------
// Modules

/// The statement that creates a module: the engine's words in front, the
/// declared definition behind, and the terminator on a line of its own.
pub open spec fn module_creation(id: model::ModuleIdView, kind: ModuleKind, body: Seq<char>) -> Seq<
    char,
> {
    let object = table_in_quotes((model::module_schema(id), model::module_name(id)));
    (match kind {
        ModuleKind::View => "CREATE VIEW "@ + object + " AS\n"@ + body,
        ModuleKind::Function => "CREATE "@ + "FUNCTION"@ + " "@ + object + "\n"@ + body,
        ModuleKind::Procedure => "CREATE "@ + "PROCEDURE"@ + " "@ + object + "\n"@ + body,
        ModuleKind::Trigger => "CREATE TRIGGER "@ + in_quotes(model::module_name(id)) + "\n"@
            + body,
    }) + "\n;"@
}

/// The schema and the bare name of an identity: a view's and a routine's own,
/// and for a trigger its table's schema and its own name.
pub proof fn an_identity_names_its_parts(id: model::ModuleIdView)
    ensures
        match id {
            model::ModuleIdView::Named(name) => model::module_schema(id) == name.0
                && model::module_name(id) == name.1,
            model::ModuleIdView::Routine { name, args: _ } => model::module_schema(id) == name.0
                && model::module_name(id) == name.1,
            model::ModuleIdView::Trigger { on, name } => model::module_schema(id) == on.0
                && model::module_name(id) == name,
        },
{
}

proof fn module_creation_reads(
    extras: Seq<Seq<char>>,
    id: model::ModuleIdView,
    module: Module,
)
    requires
        is_name(model::module_schema(id)),
        is_name(model::module_name(id)),
        is_path(model::module_schema(id), extras),
        lexer::trimmed(module.definition@).len() > 0,
    ensures
        definition::create_module_text(extras, id, module) == Ok::<Seq<char>, error::Refusal>(
            under_path(
                model::module_schema(id),
                extras,
                module_creation(id, module.kind, lexer::trimmed(module.definition@)),
            ),
        ),
{
    let body = lexer::trimmed(module.definition@);
    let name = model::module_name(id);
    let q = (model::module_schema(id), name);
    let object = table_in_quotes(q);
    let told = Ok::<Seq<char>, error::Refusal>(body);
    a_table_is_quoted(q);
    match module.kind {
        ModuleKind::View => {
            composes(
                definition::CREATE_VIEW@,
                seq![definition::object_text(id), told],
                seq![object, body],
            );
            templates::a_created_view_reads(object, body);
        },
        ModuleKind::Function => {
            composes(
                definition::CREATE_ROUTINE@,
                seq![
                    Ok::<Seq<char>, error::Refusal>(definition::keyword_text(module.kind)),
                    definition::object_text(id),
                    told,
                ],
                seq!["FUNCTION"@, object, body],
            );
            templates::a_created_routine_reads("FUNCTION"@, object, body);
        },
        ModuleKind::Procedure => {
            composes(
                definition::CREATE_ROUTINE@,
                seq![
                    Ok::<Seq<char>, error::Refusal>(definition::keyword_text(module.kind)),
                    definition::object_text(id),
                    told,
                ],
                seq!["PROCEDURE"@, object, body],
            );
            templates::a_created_routine_reads("PROCEDURE"@, object, body);
        },
        ModuleKind::Trigger => {
            composes(
                definition::CREATE_TRIGGER@,
                seq![sql::quoted(name), told],
                seq![in_quotes(name), body],
            );
            templates::a_created_trigger_reads(in_quotes(name), body);
        },
    }
    let made = definition::create_body_text(id, module)->Ok_0;
    composes(
        definition::TERMINATED@,
        seq![definition::create_body_text(id, module)],
        seq![made],
    );
    templates::a_terminated_statement_reads(made);
    scope_reads(
        model::module_schema(id),
        extras,
        module_creation(id, module.kind, body),
    );
}

/// Creating a module writes the engine's prefix for its kind and the declared
/// definition, without the white space around it, and nothing else.
pub proof fn creating_a_module(
    extras: Seq<Seq<char>>,
    id: model::ModuleId,
    module: Module,
    strategy: Strategy,
)
    requires
        is_name(model::module_schema(id@)),
        is_name(model::module_name(id@)),
        is_path(model::module_schema(id@), extras),
        lexer::trimmed(module.definition@).len() > 0,
    ensures
        is_emitted(
            extras,
            Change::CreateModule { id, module },
            strategy,
            model::module_schema(id@),
            module_creation(id@, module.kind, lexer::trimmed(module.definition@)),
        ),
{
    module_creation_reads(extras, id@, module);
    one_module_statement(
        definition::create_module_text(extras, id@, module),
        model::module_schema(id@),
        extras,
        module_creation(id@, module.kind, lexer::trimmed(module.definition@)),
    );
}

proof fn one_module_statement(
    sql: Result<Seq<char>, error::Refusal>,
    schema: Seq<char>,
    extras: Seq<Seq<char>>,
    body: Seq<char>,
)
    requires
        sql == Ok::<Seq<char>, error::Refusal>(under_path(schema, extras, body)),
    ensures
        emit::module_statements(seq![sql]) == Ok::<Seq<emit::StatementView>, error::Refusal>(
            seq![ordinary(schema, extras, body)],
        ),
{
    let parts = seq![sql];
    let told = Seq::new(parts.len(), |i: int| emit::module_statement(parts[i]));
    collects(told, seq![ordinary(schema, extras, body)]);
}

/// A blank definition is never created.
pub proof fn a_blank_module_is_refused(
    extras: Seq<Seq<char>>,
    id: model::ModuleId,
    module: Module,
    strategy: Strategy,
)
    requires
        lexer::trimmed(module.definition@).len() == 0,
    ensures
        emit::emitted(extras, Change::CreateModule { id, module }, strategy) is Err,
{
    let made = definition::create_body_text(id@, module);
    let parts = seq![definition::create_module_text(extras, id@, module)];
    let told = Seq::new(parts.len(), |i: int| emit::module_statement(parts[i]));
    if error::first_refusal(seq![made]) is None {
        error::nothing_refused(seq![made]);
        assert(seq![made][0] is Ok);
    }
    if error::first_refusal(told) is None {
        error::nothing_refused(told);
        assert(told[0] is Ok);
    }
}

/// The statement that drops a module: a routine by its name and its argument
/// types, a trigger by its name and its table.
pub open spec fn module_removal(id: model::ModuleId, kind: ModuleKind) -> Seq<char> {
    let object = table_in_quotes((model::module_schema(id@), model::module_name(id@)));
    match kind {
        ModuleKind::View => "DROP VIEW "@ + object + ";"@,
        ModuleKind::Function => "DROP "@ + "FUNCTION"@ + " "@ + object + "("@ + signature_of(id)
            + ");"@,
        ModuleKind::Procedure => "DROP "@ + "PROCEDURE"@ + " "@ + object + "("@ + signature_of(id)
            + ");"@,
        ModuleKind::Trigger => "DROP TRIGGER "@ + in_quotes(model::module_name(id@)) + " ON "@
            + table_of(id) + ";"@,
    }
}

/// The argument types of a routine, as they are written.
pub open spec fn signature_of(id: model::ModuleId) -> Seq<char> {
    match id {
        model::ModuleId::Routine { name: _, args } => text::joined(
            Seq::new(args@.len(), |i: int| args@[i].text@),
            ", "@,
        ),
        _ => Seq::empty(),
    }
}

/// The table a trigger is on, in quotes.
pub open spec fn table_of(id: model::ModuleId) -> Seq<char> {
    match id {
        model::ModuleId::Trigger { on, name: _ } => table_in_quotes(on@),
        _ => Seq::empty(),
    }
}

/// Whether an identity is one that a module of this kind can have.
pub open spec fn fits(id: model::ModuleId, kind: ModuleKind) -> bool {
    match kind {
        ModuleKind::View => true,
        ModuleKind::Function => id is Routine,
        ModuleKind::Procedure => id is Routine,
        ModuleKind::Trigger => id matches model::ModuleId::Trigger { on, name: _ }
            && is_table_name(on@),
    }
}

proof fn module_removal_reads(extras: Seq<Seq<char>>, id: model::ModuleId, kind: ModuleKind)
    requires
        is_name(model::module_schema(id@)),
        is_name(model::module_name(id@)),
        is_path(model::module_schema(id@), extras),
        fits(id, kind),
    ensures
        definition::drop_module_text(extras, id@, kind) == Ok::<Seq<char>, error::Refusal>(
            under_path(model::module_schema(id@), extras, module_removal(id, kind)),
        ),
{
    reveal_strlit(", ");
    let name = model::module_name(id@);
    let q = (model::module_schema(id@), name);
    let object = table_in_quotes(q);
    a_table_is_quoted(q);
    match kind {
        ModuleKind::View => {
            composes(definition::DROP_VIEW@, seq![definition::object_text(id@)], seq![object]);
            templates::a_dropped_view_reads(object);
        },
        ModuleKind::Function | ModuleKind::Procedure => {
            let args = id->Routine_args;
            assert(model::written(model::all_args(args@)) =~= Seq::new(
                args@.len(),
                |i: int| args@[i].text@,
            ));
            let word = if kind == ModuleKind::Function {
                "FUNCTION"@
            } else {
                "PROCEDURE"@
            };
            composes(
                definition::DROP_ROUTINE@,
                seq![
                    Ok::<Seq<char>, error::Refusal>(definition::keyword_text(kind)),
                    definition::object_text(id@),
                    definition::signature_text(id@),
                ],
                seq![word, object, signature_of(id)],
            );
            templates::a_dropped_routine_reads(word, object, signature_of(id));
        },
        ModuleKind::Trigger => {
            let on = id->Trigger_on;
            a_table_is_quoted(on@);
            composes(
                definition::DROP_TRIGGER@,
                seq![sql::quoted(name), definition::attached_name(id@)],
                seq![in_quotes(name), table_in_quotes(on@)],
            );
            templates::a_dropped_trigger_reads(in_quotes(name), table_in_quotes(on@));
        },
    }
    scope_reads(model::module_schema(id@), extras, module_removal(id, kind));
}

/// Dropping a module drops the one of that identity and nothing that hangs on
/// it.
pub proof fn dropping_a_module(
    extras: Seq<Seq<char>>,
    id: model::ModuleId,
    kind: ModuleKind,
    strategy: Strategy,
)
    requires
        is_name(model::module_schema(id@)),
        is_name(model::module_name(id@)),
        is_path(model::module_schema(id@), extras),
        fits(id, kind),
    ensures
        is_emitted(
            extras,
            Change::DropModule { id, kind },
            strategy,
            model::module_schema(id@),
            module_removal(id, kind),
        ),
{
    module_removal_reads(extras, id, kind);
    one_module_statement(
        definition::drop_module_text(extras, id@, kind),
        model::module_schema(id@),
        extras,
        module_removal(id, kind),
    );
}

} // verus!
