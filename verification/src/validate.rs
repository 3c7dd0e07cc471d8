//! What a table declaration must satisfy before anything connects.
//!
//! Every problem is reported and not only the first: a schema with three
//! unspellable columns should need one pass.
use vstd::prelude::*;

use crate::emit;
use crate::error;
use crate::error::{invalid, DialectError};
use crate::model;
use crate::model::{Cast, Column, ColumnType, DeclaredDefault, Reading, Table, TableName};
use crate::sql;
use crate::text;

verus! {

/// The two tables this tool owns, hidden from every pull by name.
pub open spec fn is_ours(name: Seq<char>) -> bool {
    name == "__pbps_state"@ || name == "__pbps_lock"@
}

/// Whether a table is one of the two this tool owns.
pub fn ours(name: &str) -> (r: bool)
    ensures
        r == is_ours(name@),
{
    text::same(name, "__pbps_state") || text::same(name, "__pbps_lock")
}

/// A schema whose name this prefixes is never pulled.
pub const SYSTEM_PREFIX: &'static str = "pg_";

/// The other schema that is never pulled.
pub const INFORMATION_SCHEMA: &'static str = "information_schema";

/// Why a schema that a path cannot name is refused.
pub const ROLE_SCHEMA: &'static str =
    "table `{}` is declared in a schema named `{}`, which this engine \
                     reads as the current role's own schema wherever a `search_path` names it — \
                     quoting does not make it literal. The table would be created and then \
                     every unqualified name in its checks, filters and defaults would resolve \
                     through whatever schema the deploying role owns. Declare it under a name \
                     the path can carry.";

/// Why a schema that is never pulled is refused.
pub const NEVER_READ: &'static str =
    "table `{}` is declared in `{}`, which this dialect's pull \
                     never reads: `pg_catalog`, `information_schema` and every schema whose \
                     name begins with `pg_` are excluded from the managed set. The engine \
                     would create the table and no plan could ever see it again — and \
                     `pg_temp` is worse than invisible, because it is this engine's alias for \
                     the session's temporary schema: measured, `CREATE TABLE \"pg_temp\".\"t\"` \
                     leaves a `pg_temp_58.t` that disappears with the connection. Declare the \
                     table in a schema of the project's own.";

/// Why a name this tool owns is refused.
pub const OWNED_NAME: &'static str =
    "table `{}` uses the name `{}`, which is one of the two this tool owns \
                     (SPEC §8.1) and which this dialect's pull hides in every schema. The engine \
                     would create the table and no plan could ever see it again. Only these two \
                     names are taken: a table of your own called `{}_customers`, or anything \
                     else beginning with the same letters, is read back normally.";

/// Why a nullable column in a primary key is refused.
pub const NULLABLE_KEY: &'static str =
    "primary key column `{}` is nullable; a primary key column must \
                             be NOT NULL. This engine does not refuse the table — it sets \
                             `NOT NULL` for you — and then no plan can ever make the column match \
                             the declaration again.";

/// Why a default that the engine does not keep is refused.
pub const ERASED_DEFAULT: &'static str =
    "column `{}` declares `default: {}`, which this engine \
                             does not keep: a NULL of the column's own type, bare, cast or in \
                             parentheses, leaves no default in the catalog at all, and the \
                             column reads back with none. Every plan would set it again and the \
                             check of what the apply left behind would refuse the column. A \
                             column with no default already defaults to NULL here: declare no \
                             default.";

/// Why an identity on another type is refused.
pub const IDENTITY_TYPE: &'static str =
    "column `{}` has an `identity:` on `{}`. This engine says it in so many words: \
             identity column type must be smallint, integer, or bigint. A `numeric` is refused \
             here even with a scale of zero, where SQL Server admits one.";

/// Why a seed outside the sequence's bounds is refused.
pub const IDENTITY_SEED: &'static str =
    "column `{}` has an `identity:` with a seed of {}, and an `identity:` on `{}` \
             counting by {} starts somewhere in {}..={}: the engine refuses the table with START \
             value ({}) out of the sequence's own bounds.";

/// Why a nullable identity is refused.
pub const IDENTITY_NULLABLE: &'static str =
    "column `{}` has an `identity:`, so it cannot be nullable: the engine refuses \
             the pair as conflicting NULL/NOT NULL declarations.";

/// Why an identity that never advances is refused.
pub const IDENTITY_STILL: &'static str =
    "column `{}` has an `identity:` with an increment of 0, which never advances: \
             the engine refuses it as INCREMENT must not be zero.";

/// Why an identity with a default is refused.
pub const IDENTITY_DEFAULT: &'static str =
    "column `{}` has an `identity:` and a `default:`. The engine refuses both on \
             one column, and the identity is the one that supplies the value.";

// ---------------------------------------------------------------------------
// Identities

/// A refusal, where something holds.
pub open spec fn when(holds: bool, message: Seq<char>) -> Seq<error::Refusal> {
    if holds {
        seq![error::refused(message)]
    } else {
        Seq::empty()
    }
}

/// The refusal of an identity's type or of its seed.
pub open spec fn seed_problems(column: Seq<char>, declared: Column) -> Seq<error::Refusal> {
    match declared.identity {
        None => Seq::empty(),
        Some(identity) => match identity.accepted {
            None => seq![
                error::refused(
                    text::filled(IDENTITY_TYPE@, seq![column, declared.ty.written.spelled@]),
                ),
            ],
            Some((low, high)) => when(
                !(low <= identity.seed <= high),
                text::filled(
                    IDENTITY_SEED@,
                    seq![
                        column,
                        text::decimal_int(identity.seed as int),
                        declared.ty.written.spelled@,
                        text::decimal_int(identity.increment as int),
                        text::decimal_int(low as int),
                        text::decimal_int(high as int),
                        text::decimal_int(identity.seed as int),
                    ],
                ),
            ),
        },
    }
}

/// What this engine refuses about an identity.
pub open spec fn identity_refusals(column: Seq<char>, declared: Column) -> Seq<error::Refusal> {
    match declared.identity {
        None => Seq::empty(),
        Some(identity) => seed_problems(column, declared) + when(
            declared.nullable,
            text::filled(IDENTITY_NULLABLE@, seq![column]),
        ) + when(identity.increment == 0, text::filled(IDENTITY_STILL@, seq![column])) + when(
            declared.default is Some,
            text::filled(IDENTITY_DEFAULT@, seq![column]),
        ),
    }
}

/// What this engine refuses about an `identity:`.
pub fn identity_problems(column: &str, declared: &Column) -> (r: Vec<DialectError>)
    ensures
        error::refusals(r@) == identity_refusals(column@, *declared),
{
    let mut found: Vec<DialectError> = Vec::new();
    assert(error::refusals(found@) =~= Seq::empty());
    let identity = match &declared.identity {
        Some(identity) => identity,
        None => {
            return found;
        },
    };
    match identity.accepted {
        None => {
            error::add_one(
                &mut found,
                invalid(
                    text::fill2(IDENTITY_TYPE, column, declared.ty.written.spelled.as_str()),
                ),
            );
        },
        Some((low, high)) => {
            if !(low <= identity.seed && identity.seed <= high) {
                let seed = text::show_int(identity.seed);
                let args: Vec<String> = vec![
                    column.to_owned(),
                    seed.clone(),
                    declared.ty.written.spelled.clone(),
                    text::show_int(identity.increment),
                    text::show_int(low),
                    text::show_int(high),
                    seed,
                ];
                assert(text::texts(args@) =~= seq![
                    column@,
                    text::decimal_int(identity.seed as int),
                    declared.ty.written.spelled@,
                    text::decimal_int(identity.increment as int),
                    text::decimal_int(low as int),
                    text::decimal_int(high as int),
                    text::decimal_int(identity.seed as int),
                ]);
                error::add_one(&mut found, invalid(text::fill(IDENTITY_SEED, &args)));
            }
        },
    }
    let ghost first = error::refusals(found@);
    assert(first =~= seed_problems(column@, *declared));
    if declared.nullable {
        error::add_one(&mut found, invalid(text::fill1(IDENTITY_NULLABLE, column)));
    }
    let ghost second = error::refusals(found@);
    assert(second =~= first + when(
        declared.nullable,
        text::filled(IDENTITY_NULLABLE@, seq![column@]),
    ));
    if identity.increment == 0 {
        error::add_one(&mut found, invalid(text::fill1(IDENTITY_STILL, column)));
    }
    let ghost third = error::refusals(found@);
    assert(third =~= second + when(
        identity.increment == 0,
        text::filled(IDENTITY_STILL@, seq![column@]),
    ));
    if declared.default.is_some() {
        error::add_one(&mut found, invalid(text::fill1(IDENTITY_DEFAULT, column)));
    }
    assert(error::refusals(found@) =~= third + when(
        declared.default is Some,
        text::filled(IDENTITY_DEFAULT@, seq![column@]),
    ));
    found
}

// ---------------------------------------------------------------------------
// Columns

/// Whether a default is a NULL of the column's own type, which the engine does
/// not keep: bare, or cast to the type where the column carries no argument.
pub open spec fn is_erased(default: DeclaredDefault, declared: ColumnType, normal: ColumnType) -> bool {
    text::lower(default.core@) == text::lower("null"@) && match default.cast {
        Cast::Absent => true,
        Cast::Unread => false,
        Cast::To(ty) => declared.args@.len() == 0 && ty@ == normal@,
    }
}

fn erased(default: &DeclaredDefault, declared: &ColumnType, normal: &ColumnType) -> (r: bool)
    ensures
        r == is_erased(*default, *declared, *normal),
{
    let core = text::chars_of(default.core.as_str());
    if !text::spells(core.as_slice(), "null") {
        return false;
    }
    match &default.cast {
        Cast::Absent => true,
        Cast::Unread => false,
        Cast::To(ty) => declared.args.len() == 0 && ty.is(normal),
    }
}

/// The refusals of a column's default.
pub open spec fn default_refusals(name: Seq<char>, column: Column, normal: ColumnType) -> Seq<
    error::Refusal,
> {
    match column.default {
        None => Seq::empty(),
        Some(default) => (match emit::unresolved(name, normal, default.text@) {
            Some(e) => seq![e],
            None => Seq::empty(),
        }) + when(
            is_erased(default, column.ty.written, normal),
            text::filled(ERASED_DEFAULT@, seq![name, default.text@]),
        ),
    }
}

fn default_problems(name: &str, column: &Column, normal: &ColumnType) -> (r: Vec<DialectError>)
    ensures
        error::refusals(r@) == default_refusals(name@, *column, *normal),
{
    let mut found: Vec<DialectError> = Vec::new();
    assert(error::refusals(found@) =~= Seq::empty());
    if let Some(default) = &column.default {
        if let Some(e) = emit::refuse_an_unresolved_default(name, normal, default.text.as_str()) {
            error::add_one(&mut found, e);
        }
        let ghost first = error::refusals(found@);
        assert(first =~= match emit::unresolved(name@, *normal, default.text@) {
            Some(e) => seq![e],
            None => Seq::empty(),
        });
        if erased(default, &column.ty.written, normal) {
            error::add_one(
                &mut found,
                invalid(text::fill2(ERASED_DEFAULT, name, default.text.as_str())),
            );
        }
        assert(error::refusals(found@) =~= first + when(
            is_erased(*default, column.ty.written, *normal),
            text::filled(ERASED_DEFAULT@, seq![name@, default.text@]),
        ));
    }
    found
}

/// The refusal of a name that cannot be an identifier.
pub open spec fn ident_refusals(name: Seq<char>) -> Seq<error::Refusal> {
    match sql::quoted(name) {
        Err(e) => seq![e],
        Ok(_) => Seq::empty(),
    }
}

/// The refusals of one column. What is said of a type stops at the first
/// refusal of the type itself.
pub open spec fn column_refusals(name: Seq<char>, column: Column) -> Seq<error::Refusal> {
    ident_refusals(name) + match (column.serial, column.ty.normal) {
        (Some(e), _) => seq![e@],
        (None, Reading::Refused(e)) => seq![e@],
        (None, Reading::As(normal)) => default_refusals(name, column, normal) + identity_refusals(
            name,
            column,
        ),
    }
}

fn add_ident(found: &mut Vec<DialectError>, name: &str)
    ensures
        error::refusals(final(found)@) == error::refusals(old(found)@) + ident_refusals(name@),
{
    match sql::quote(name) {
        Err(e) => error::add_one(found, e),
        Ok(_) => {
            assert(error::refusals(found@) + Seq::<error::Refusal>::empty() =~= error::refusals(
                found@,
            ));
        },
    }
}

/// The problems of one column.
pub fn column_problems(name: &str, column: &Column) -> (r: Vec<DialectError>)
    ensures
        error::refusals(r@) == column_refusals(name@, *column),
{
    let mut found: Vec<DialectError> = Vec::new();
    add_ident(&mut found, name);
    let ghost first = error::refusals(found@);
    assert(first =~= ident_refusals(name@));
    if let Some(e) = &column.serial {
        error::add_one(&mut found, e.again());
        return found;
    }
    match &column.ty.normal {
        Reading::Refused(e) => {
            error::add_one(&mut found, e.again());
        },
        Reading::As(normal) => {
            error::extend(&mut found, default_problems(name, column, normal));
            error::extend(&mut found, identity_problems(name, column));
            assert(error::refusals(found@) =~= first + (default_refusals(name@, *column, *normal)
                + identity_refusals(name@, *column)));
        },
    }
    found
}

// ---------------------------------------------------------------------------
// Tables

/// The position of the first column of this name.
pub open spec fn column_at(columns: Seq<(String, Column)>, name: Seq<char>, at: int) -> Option<int>
    decreases columns.len() - at,
{
    if at < 0 || at >= columns.len() {
        None
    } else if columns[at].0@ == name {
        Some(at)
    } else {
        column_at(columns, name, at + 1)
    }
}

/// Whether a column of this name is there and takes nulls.
pub open spec fn is_nullable(columns: Seq<(String, Column)>, name: Seq<char>) -> bool {
    match column_at(columns, name, 0) {
        Some(at) => columns[at].1.nullable,
        None => false,
    }
}

fn nullable(columns: &Vec<(String, Column)>, name: &str) -> (r: bool)
    ensures
        r == is_nullable(columns@, name@),
{
    let mut i: usize = 0;
    while i < columns.len()
        invariant
            i <= columns@.len(),
            column_at(columns@, name@, 0) == column_at(columns@, name@, i as int),
        decreases columns@.len() - i,
    {
        if text::same(columns[i].0.as_str(), name) {
            return columns[i].1.nullable;
        }
        i += 1;
    }
    false
}

/// The refusals of the first `n` key columns.
pub open spec fn key_refusals(columns: Seq<(String, Column)>, key: Seq<Seq<char>>, n: int) -> Seq<
    error::Refusal,
>
    decreases n,
{
    if n <= 0 {
        Seq::empty()
    } else {
        key_refusals(columns, key, n - 1) + when(
            is_nullable(columns, key[n - 1]),
            text::filled(NULLABLE_KEY@, seq![key[n - 1]]),
        )
    }
}

/// The refusals of the first `n` names.
pub open spec fn names_refusals(names: Seq<Seq<char>>, n: int) -> Seq<error::Refusal>
    decreases n,
{
    if n <= 0 {
        Seq::empty()
    } else {
        names_refusals(names, n - 1) + ident_refusals(names[n - 1])
    }
}

/// The refusals of the first `n` columns.
pub open spec fn columns_refusals(columns: Seq<(String, Column)>, n: int) -> Seq<error::Refusal>
    decreases n,
{
    if n <= 0 {
        Seq::empty()
    } else {
        columns_refusals(columns, n - 1) + column_refusals(columns[n - 1].0@, columns[n - 1].1)
    }
}

/// The keys of a list of entries.
pub open spec fn keys<T>(entries: Seq<(String, T)>) -> Seq<Seq<char>> {
    Seq::new(entries.len(), |i: int| entries[i].0@)
}

/// Every other name a table owns: its primary key's, and those of its
/// constraints and indexes.
pub open spec fn owned_names(table: Table) -> Seq<Seq<char>> {
    (match table.primary_key {
        Some(pk) => match pk.name {
            Some(name) => seq![name@],
            None => Seq::empty(),
        },
        None => Seq::empty(),
    }) + keys(table.unique@) + keys(table.foreign_keys@) + keys(table.checks@) + keys(
        table.indexes@,
    )
}

/// The refusals of the schema and the name a table is declared under.
pub open spec fn place_refusals(name: model::Qualified) -> Seq<error::Refusal> {
    ident_refusals(name.0) + ident_refusals(name.1) + when(
        name.0 == sql::NOT_A_SCHEMA_A_PATH_CAN_NAME@,
        text::filled(ROLE_SCHEMA@, seq![model::dotted(name), name.0]),
    ) + when(
        name.0 == INFORMATION_SCHEMA@ || text::begins(name.0, SYSTEM_PREFIX@),
        text::filled(NEVER_READ@, seq![model::dotted(name), name.0]),
    ) + when(
        is_ours(name.1),
        text::filled(OWNED_NAME@, seq![model::dotted(name), name.1, name.1]),
    )
}

/// The refusals of a table's primary key.
pub open spec fn primary_key_refusals(table: Table) -> Seq<error::Refusal> {
    match table.primary_key {
        Some(pk) => key_refusals(
            table.columns@,
            text::texts(pk.columns@),
            pk.columns@.len() as int,
        ),
        None => Seq::empty(),
    }
}

/// Everything a table declaration is refused for, in order: its place, its
/// names, its key, its columns, and what its reference data is refused for.
pub open spec fn table_refusals(name: model::Qualified, table: Table, data: Seq<error::Refusal>) -> Seq<
    error::Refusal,
> {
    place_refusals(name) + names_refusals(owned_names(table), owned_names(table).len() as int)
        + primary_key_refusals(table) + columns_refusals(
        table.columns@,
        table.columns@.len() as int,
    ) + data
}

fn place_problems(name: &TableName) -> (r: Vec<DialectError>)
    ensures
        error::refusals(r@) == place_refusals(name@),
{
    let mut found: Vec<DialectError> = Vec::new();
    assert(error::refusals(found@) =~= Seq::empty());
    let schema = name.schema.as_str();
    let own = name.name.as_str();
    let shown = name.show();
    add_ident(&mut found, schema);
    add_ident(&mut found, own);
    let ghost first = error::refusals(found@);
    assert(first =~= ident_refusals(name@.0) + ident_refusals(name@.1));
    if text::same(schema, sql::NOT_A_SCHEMA_A_PATH_CAN_NAME) {
        error::add_one(&mut found, invalid(text::fill2(ROLE_SCHEMA, shown.as_str(), schema)));
    }
    let ghost second = error::refusals(found@);
    assert(second =~= first + when(
        name@.0 == sql::NOT_A_SCHEMA_A_PATH_CAN_NAME@,
        text::filled(ROLE_SCHEMA@, seq![model::dotted(name@), name@.0]),
    ));
    if text::same(schema, INFORMATION_SCHEMA) || text::starts(schema, SYSTEM_PREFIX) {
        error::add_one(&mut found, invalid(text::fill2(NEVER_READ, shown.as_str(), schema)));
    }
    let ghost third = error::refusals(found@);
    assert(third =~= second + when(
        name@.0 == INFORMATION_SCHEMA@ || text::begins(name@.0, SYSTEM_PREFIX@),
        text::filled(NEVER_READ@, seq![model::dotted(name@), name@.0]),
    ));
    if ours(own) {
        error::add_one(&mut found, invalid(text::fill3(OWNED_NAME, shown.as_str(), own, own)));
    }
    assert(error::refusals(found@) =~= third + when(
        is_ours(name@.1),
        text::filled(OWNED_NAME@, seq![model::dotted(name@), name@.1, name@.1]),
    ));
    found
}

/// The keys of a list of entries.
pub fn entry_keys<T>(entries: &Vec<(String, T)>) -> (r: Vec<String>)
    ensures
        text::texts(r@) == keys(entries@),
{
    let mut out: Vec<String> = Vec::new();
    let mut i: usize = 0;
    while i < entries.len()
        invariant
            i <= entries@.len(),
            out@.len() == i,
            forall|k: int| 0 <= k < i ==> out@[k]@ == entries@[k].0@,
        decreases entries@.len() - i,
    {
        out.push(entries[i].0.clone());
        i += 1;
    }
    assert(text::texts(out@) =~= keys(entries@));
    out
}

fn owned(table: &Table) -> (r: Vec<String>)
    ensures
        text::texts(r@) == owned_names(*table),
{
    let mut out: Vec<String> = Vec::new();
    if let Some(pk) = &table.primary_key {
        if let Some(name) = &pk.name {
            out.push(name.clone());
        }
    }
    let ghost first = out@;
    assert(text::texts(first) =~= match table.primary_key {
        Some(pk) => match pk.name {
            Some(name) => seq![name@],
            None => Seq::empty(),
        },
        None => Seq::empty(),
    });
    let mut u = entry_keys(&table.unique);
    let mut f = entry_keys(&table.foreign_keys);
    let mut c = entry_keys(&table.checks);
    let mut x = entry_keys(&table.indexes);
    let ghost us = u@;
    let ghost fs = f@;
    let ghost cs = c@;
    let ghost xs = x@;
    out.append(&mut u);
    out.append(&mut f);
    out.append(&mut c);
    out.append(&mut x);
    assert(out@ =~= first + us + fs + cs + xs);
    assert(text::texts(out@) =~= text::texts(first) + text::texts(us) + text::texts(fs)
        + text::texts(cs) + text::texts(xs));
    out
}

fn names_problems(names: &Vec<String>) -> (r: Vec<DialectError>)
    ensures
        error::refusals(r@) == names_refusals(text::texts(names@), names@.len() as int),
{
    let mut found: Vec<DialectError> = Vec::new();
    let mut i: usize = 0;
    assert(error::refusals(found@) =~= Seq::empty());
    while i < names.len()
        invariant
            i <= names@.len(),
            error::refusals(found@) == names_refusals(text::texts(names@), i as int),
        decreases names@.len() - i,
    {
        add_ident(&mut found, names[i].as_str());
        i += 1;
    }
    found
}

fn key_problems(table: &Table) -> (r: Vec<DialectError>)
    ensures
        error::refusals(r@) == primary_key_refusals(*table),
{
    let mut found: Vec<DialectError> = Vec::new();
    assert(error::refusals(found@) =~= Seq::empty());
    if let Some(pk) = &table.primary_key {
        let mut i: usize = 0;
        let ghost key = text::texts(pk.columns@);
        while i < pk.columns.len()
            invariant
                i <= pk.columns@.len(),
                key == text::texts(pk.columns@),
                error::refusals(found@) == key_refusals(table.columns@, key, i as int),
            decreases pk.columns@.len() - i,
        {
            let ghost before = error::refusals(found@);
            if nullable(&table.columns, pk.columns[i].as_str()) {
                error::add_one(
                    &mut found,
                    invalid(text::fill1(NULLABLE_KEY, pk.columns[i].as_str())),
                );
            }
            assert(error::refusals(found@) =~= before + when(
                is_nullable(table.columns@, key[i as int]),
                text::filled(NULLABLE_KEY@, seq![key[i as int]]),
            ));
            i += 1;
        }
    }
    found
}

fn all_column_problems(table: &Table) -> (r: Vec<DialectError>)
    ensures
        error::refusals(r@) == columns_refusals(table.columns@, table.columns@.len() as int),
{
    let mut found: Vec<DialectError> = Vec::new();
    let mut i: usize = 0;
    assert(error::refusals(found@) =~= Seq::empty());
    while i < table.columns.len()
        invariant
            i <= table.columns@.len(),
            error::refusals(found@) == columns_refusals(table.columns@, i as int),
        decreases table.columns@.len() - i,
    {
        error::extend(
            &mut found,
            column_problems(table.columns[i].0.as_str(), &table.columns[i].1),
        );
        i += 1;
    }
    found
}

/// What a table declaration must satisfy before anything connects. `data` is
/// what its reference data is refused for.
pub fn validate_table(name: &TableName, table: &Table, data: Vec<DialectError>) -> (r: Vec<
    DialectError,
>)
    ensures
        error::refusals(r@) == table_refusals(name@, *table, error::refusals(data@)),
{
    let mut found = place_problems(name);
    let names = owned(table);
    error::extend(&mut found, names_problems(&names));
    error::extend(&mut found, key_problems(table));
    error::extend(&mut found, all_column_problems(table));
    error::extend(&mut found, data);
    found
}

} // verus!
