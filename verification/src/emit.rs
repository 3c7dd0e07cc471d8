//! What one change looks like on PostgreSQL.
//!
//! Every statement is wrapped in a `search_path` of its own, the object's own
//! schema first and then the project's extras, because an unqualified name in
//! a verbatim expression binds when the object is created. The one exception
//! is a concurrent index build, which cannot share a batch with anything.
use vstd::prelude::*;

use crate::definition;
use crate::error;
use crate::error::{invalid, DialectError};
use crate::lexer;
use crate::model;
use crate::model::{
    Change, Column, ColumnType, DeclaredIdentity, ForeignKey, Index, IndexColumn,
    PrimaryKey, Reading, ReferentialAction, Strategy, Table, TableName, UniqueConstraint,
};
use crate::sql;
use crate::text;
use crate::Postgres;
use crate::Unbuilt;

verus! {

// ---------------------------------------------------------------------------
// Statements

/// What a statement brings into being.
#[derive(Debug, Clone, PartialEq, Eq)]
pub enum Created {
    Table(TableName),
    Column(TableName, String),
}

/// What a statement brings into being.
pub enum CreatedView {
    Table(model::Qualified),
    Column(model::Qualified, Seq<char>),
}

impl View for Created {
    type V = CreatedView;

    open spec fn view(&self) -> CreatedView {
        match *self {
            Created::Table(name) => CreatedView::Table(name@),
            Created::Column(table, name) => CreatedView::Column(table@, name@),
        }
    }
}

/// One statement of a plan.
#[derive(Debug, Clone, PartialEq, Eq)]
pub struct Statement {
    pub sql: String,
    /// It cannot share a batch with another statement.
    pub own_batch: bool,
    /// It can run inside a transaction.
    pub transactional: bool,
    /// What it brings into being.
    pub creates: Vec<Created>,
    /// What it does to the name of a table.
    pub renames: Option<(TableName, TableName)>,
}

/// What a statement is.
#[verifier::ext_equal]
pub struct StatementView {
    pub sql: Seq<char>,
    pub own_batch: bool,
    pub transactional: bool,
    pub creates: Seq<CreatedView>,
    pub renames: Option<(model::Qualified, model::Qualified)>,
}

impl View for Statement {
    type V = StatementView;

    open spec fn view(&self) -> StatementView {
        StatementView {
            sql: self.sql@,
            own_batch: self.own_batch,
            transactional: self.transactional,
            creates: Seq::new(self.creates@.len(), |i: int| self.creates@[i]@),
            renames: match self.renames {
                Some((from, to)) => Some((from@, to@)),
                None => None,
            },
        }
    }
}

/// An ordinary statement.
pub open spec fn plain(sql: Seq<char>) -> StatementView {
    StatementView {
        sql,
        own_batch: false,
        transactional: true,
        creates: Seq::empty(),
        renames: None,
    }
}

/// An ordinary statement that brings something into being.
pub open spec fn creating(sql: Seq<char>, created: CreatedView) -> StatementView {
    StatementView { creates: seq![created], ..plain(sql) }
}

/// An ordinary statement that moves a table from one name to another.
pub open spec fn renaming(sql: Seq<char>, from: model::Qualified, to: model::Qualified) -> StatementView {
    StatementView { renames: Some((from, to)), ..plain(sql) }
}

/// A statement alone in its batch and outside any transaction.
pub open spec fn alone(sql: Seq<char>) -> StatementView {
    StatementView { own_batch: true, transactional: false, ..plain(sql) }
}

impl Statement {
    /// An ordinary statement.
    pub fn new(sql: String) -> (r: Statement)
        ensures
            r@ == plain(sql@),
    {
        let r = Statement {
            sql,
            own_batch: false,
            transactional: true,
            creates: Vec::new(),
            renames: None,
        };
        assert(r@.creates =~= Seq::empty());
        r
    }

    /// The statement, bringing `created` into being.
    pub fn creating(sql: String, created: Created) -> (r: Statement)
        ensures
            r@ == creating(sql@, created@),
    {
        let r = Statement {
            sql,
            own_batch: false,
            transactional: true,
            creates: vec![created],
            renames: None,
        };
        assert(r@.creates =~= seq![created@]);
        r
    }

    /// The statement, moving a table from one name to another.
    pub fn renaming(sql: String, from: TableName, to: TableName) -> (r: Statement)
        ensures
            r@ == renaming(sql@, from@, to@),
    {
        let r = Statement {
            sql,
            own_batch: false,
            transactional: true,
            creates: Vec::new(),
            renames: Some((from, to)),
        };
        assert(r@.creates =~= Seq::empty());
        r
    }

    /// The statement, alone in its batch and outside any transaction.
    pub fn alone(sql: String) -> (r: Statement)
        ensures
            r@ == alone(sql@),
    {
        let r = Statement {
            sql,
            own_batch: true,
            transactional: false,
            creates: Vec::new(),
            renames: None,
        };
        assert(r@.creates =~= Seq::empty());
        r
    }
}

/// What some statements are.
pub open spec fn statements(v: Seq<Statement>) -> Seq<StatementView> {
    Seq::new(v.len(), |i: int| v[i]@)
}

/// The statements of a change, or its refusal.
pub open spec fn outcome(r: Result<Vec<Statement>, DialectError>) -> Result<
    Seq<StatementView>,
    error::Refusal,
> {
    match r {
        Ok(v) => Ok(statements(v@)),
        Err(e) => Err(e@),
    }
}

/// One statement, or its refusal.
pub open spec fn told(r: Result<Statement, DialectError>) -> Result<StatementView, error::Refusal> {
    match r {
        Ok(s) => Ok(s@),
        Err(e) => Err(e@),
    }
}

/// Some statements-or-refusals.
pub open spec fn all_told(v: Seq<Result<Statement, DialectError>>) -> Seq<
    Result<StatementView, error::Refusal>,
> {
    Seq::new(v.len(), |i: int| told(v[i]))
}

/// Every statement of a list, or the first refusal in it.
fn gather(parts: Vec<Result<Statement, DialectError>>) -> (r: Result<Vec<Statement>, DialectError>)
    ensures
        outcome(r) == error::collected(all_told(parts@)),
{
    let ghost all = all_told(parts@);
    let ghost given = parts@;
    let mut left = parts;
    let mut out: Vec<Statement> = Vec::new();
    let total: usize = left.len();
    let mut i: usize = 0;
    while i < total
        invariant
            i <= total,
            total == given.len(),
            given == parts@,
            all == all_told(given),
            left@ == given.skip(i as int),
            out@.len() == i,
            error::first_refusal(all.take(i as int)) is None,
            forall|k: int| 0 <= k < i ==> all[k] == Ok::<StatementView, error::Refusal>(out@[k]@),
        decreases total - i,
    {
        let next = left.remove(0);
        proof {
            assert(next == given[i as int]);
            assert(left@ =~= given.skip(i as int + 1));
            assert(all.take(i as int + 1) =~= all.take(i as int).push(all[i as int]));
            error::first_refusal_pushes(all.take(i as int), all[i as int]);
        }
        match next {
            Ok(s) => {
                out.push(s);
            },
            Err(e) => {
                proof {
                    error::first_refusal_of_prefix(all, i as int + 1);
                }
                return Err(e);
            },
        }
        i += 1;
    }
    assert(all.take(i as int) =~= all);
    assert(Seq::new(all.len(), |k: int| all[k]->Ok_0) =~= statements(out@));
    Ok(out)
}

// ---------------------------------------------------------------------------
// Columns

/// The types whose text is read through a session-sensitive input function,
/// spelled as the catalogue leaves them: the same characters mean different
/// values under different settings.
pub open spec fn setting_sensitive(base: Seq<char>) -> bool {
    ||| base == "date"@
    ||| base == "time without time zone"@
    ||| base == "time with time zone"@
    ||| base == "timestamp without time zone"@
    ||| base == "timestamp with time zone"@
    ||| base == "interval"@
    ||| base == "real"@
    ||| base == "double precision"@
}

fn reads_a_setting(base: &str) -> (r: bool)
    ensures
        r == setting_sensitive(base@),
{
    text::same(base, "date") || text::same(base, "time without time zone") || text::same(
        base,
        "time with time zone",
    ) || text::same(base, "timestamp without time zone") || text::same(
        base,
        "timestamp with time zone",
    ) || text::same(base, "interval") || text::same(base, "real") || text::same(
        base,
        "double precision",
    )
}

/// Why a bare literal is refused as the default of such a type.
pub const UNRESOLVED: &'static str =
    "column `{}` is `{}` and its default is the bare literal {}. What that \
         text means is decided by the session that runs the `CREATE`: measured, `'01/02/2026'` on \
         a `date` stores 2026-01-02 under `DateStyle` MDY and 2026-02-01 under DMY, with no error \
         either way — so this column would default to February in one environment and January in \
         another. Write it the way the engine renders it, with the cast it welds on and a \
         spelling that cannot be read two ways: `'2026-01-02'::date` (ADR-0013 §3, §4).";

/// The refusal of a default whose value would be decided by whoever applies
/// it: a bare literal on a setting-sensitive type.
pub open spec fn unresolved(column: Seq<char>, ty: ColumnType, default: Seq<char>) -> Option<
    error::Refusal,
> {
    if setting_sensitive(ty.base@) && lexer::is_bare_literal(default) {
        Some(error::refused(text::filled(UNRESOLVED@, seq![column, ty.spelled@, default])))
    } else {
        None
    }
}

/// What an optional error says.
pub open spec fn maybe(e: Option<DialectError>) -> Option<error::Refusal> {
    match e {
        Some(e) => Some(e@),
        None => None,
    }
}

/// Refuses a default whose value would be decided by whoever applies it.
///
/// The line is between provably unresolved and possibly resolved: the engine
/// reads every string default back with a cast welded on, so a bare literal is
/// certainly not its own rendering, and a cast form may be.
pub fn refuse_an_unresolved_default(column: &str, ty: &ColumnType, default: &str) -> (r: Option<
    DialectError,
>)
    ensures
        maybe(r) == unresolved(column@, *ty, default@),
{
    if !reads_a_setting(ty.base.as_str()) || !lexer::is_a_bare_literal(default) {
        return None;
    }
    Some(invalid(text::fill3(UNRESOLVED, column, ty.spelled.as_str(), default)))
}

/// A declared expression and the newline that closes any comment in it.
pub open spec fn verbatim_text(expression: Seq<char>) -> Seq<char> {
    expression + seq!['\n']
}

/// A declared expression, followed by the newline that closes any comment in
/// it: what follows on the same line is the emitter's own syntax.
pub fn verbatim(expression: &str) -> (r: String)
    ensures
        r@ == verbatim_text(expression@),
{
    let mut out = expression.to_owned();
    out.push('\n');
    assert(expression@.push('\n') =~= verbatim_text(expression@));
    out
}

/// How nullability is spelled in a column definition.
pub open spec fn null_text(nullable: bool) -> Seq<char> {
    if nullable {
        "NULL"@
    } else {
        "NOT NULL"@
    }
}

/// How nullability is spelled in a column definition.
pub fn null_clause(nullable: bool) -> (r: &'static str)
    ensures
        r@ == null_text(nullable),
{
    if nullable {
        "NULL"
    } else {
        "NOT NULL"
    }
}

/// A column's name and type.
pub const NAMED_TYPE: &'static str = "{} {}";

/// An identity: always generated, with the sequence's bounds and cache left to
/// the engine.
pub const IDENTITY: &'static str =
    " GENERATED ALWAYS AS IDENTITY (START WITH {} INCREMENT BY {})";

/// What a type's reading is: the type as the engine writes it, or the refusal.
pub open spec fn read_type(reading: Reading) -> Result<Seq<char>, error::Refusal> {
    match reading {
        Reading::As(ty) => Ok(ty.spelled@),
        Reading::Refused(e) => Err(e@),
    }
}

fn spelled(reading: &Reading) -> (r: Result<String, DialectError>)
    ensures
        error::told(r) == read_type(*reading),
{
    match reading {
        Reading::As(ty) => Ok(ty.spelled.clone()),
        Reading::Refused(e) => Err(e.again()),
    }
}

/// The identity clause of a column.
pub open spec fn identity_text(identity: Option<DeclaredIdentity>) -> Seq<char> {
    match identity {
        Some(id) => text::filled(
            IDENTITY@,
            seq![text::decimal_int(id.seed as int), text::decimal_int(id.increment as int)],
        ),
        None => Seq::empty(),
    }
}

/// What leads to a default.
pub const DEFAULT: &'static str = " DEFAULT {}";

/// A column definition with its default, or the refusal of the default.
pub open spec fn with_default(
    head: Seq<char>,
    name: Seq<char>,
    column: Column,
) -> Result<Seq<char>, error::Refusal> {
    match (column.default, column.ty.normal) {
        (Some(default), Reading::As(ty)) => match unresolved(name, ty, default.text@) {
            Some(e) => Err(e),
            None => Ok(
                head + text::filled(DEFAULT@, seq![verbatim_text(default.text@)]),
            ),
        },
        _ => Ok(head),
    }
}

/// One line of a `CREATE TABLE` column list, or the body of an
/// `ALTER TABLE ADD`.
pub open spec fn column_definition_text(name: Seq<char>, column: Column) -> Result<
    Seq<char>,
    error::Refusal,
> {
    match error::composed(NAMED_TYPE@, seq![sql::quoted(name), read_type(column.ty.normal)]) {
        Err(e) => Err(e),
        Ok(head) => with_default(
            head + identity_text(column.identity) + seq![' '] + null_text(column.nullable),
            name,
            column,
        ),
    }
}

/// One line of a `CREATE TABLE` column list, or the body of an
/// `ALTER TABLE ADD`.
pub fn column_definition(name: &str, column: &Column) -> (r: Result<String, DialectError>)
    ensures
        error::told(r) == column_definition_text(name@, *column),
{
    proof {
        reveal_with_fuel(error::first_refusal, 3);
    }
    let mut s = error::compose2(NAMED_TYPE, sql::quote(name), spelled(&column.ty.normal))?;
    let ghost head = s@;
    match &column.identity {
        Some(id) => {
            let seed = text::show_int(id.seed);
            let increment = text::show_int(id.increment);
            let clause = text::fill2(IDENTITY, seed.as_str(), increment.as_str());
            s.append(clause.as_str());
        },
        None => {
            assert(head + identity_text(column.identity) =~= head);
        },
    }
    assert(s@ == head + identity_text(column.identity));
    s.push(' ');
    s.append(null_clause(column.nullable));
    assert(s@ =~= head + identity_text(column.identity) + seq![' '] + null_text(column.nullable));
    if let Some(default) = &column.default {
        if let Reading::As(ty) = &column.ty.normal {
            if let Some(e) = refuse_an_unresolved_default(name, ty, default.text.as_str()) {
                return Err(e);
            }
            let expression = verbatim(default.text.as_str());
            let clause = text::fill1(DEFAULT, expression.as_str());
            s.append(clause.as_str());
        }
    }
    Ok(s)
}

// ---------------------------------------------------------------------------
// Constraints and indexes

/// A named primary key.
pub const NAMED_PRIMARY_KEY: &'static str = "CONSTRAINT {} PRIMARY KEY ({})";

/// A primary key whose name is left to the server.
pub const PRIMARY_KEY: &'static str = "PRIMARY KEY ({})";

/// A unique constraint.
pub const UNIQUE: &'static str = "CONSTRAINT {} UNIQUE ({})";

/// A foreign key.
pub const FOREIGN_KEY: &'static str = "CONSTRAINT {} FOREIGN KEY ({}) REFERENCES {} ({})";

/// What a foreign key does when the row it points at goes.
pub const ON_DELETE: &'static str = " ON DELETE {}";

/// What a foreign key does when the row it points at moves.
pub const ON_UPDATE: &'static str = " ON UPDATE {}";

/// A primary key, as a clause.
pub open spec fn primary_key_text(pk: PrimaryKey) -> Result<Seq<char>, error::Refusal> {
    match sql::column_list_text(text::texts(pk.columns@)) {
        Err(e) => Err(e),
        Ok(columns) => match pk.name {
            Some(name) => error::composed(
                NAMED_PRIMARY_KEY@,
                seq![sql::quoted(name@), Ok::<Seq<char>, error::Refusal>(columns)],
            ),
            None => Ok(text::filled(PRIMARY_KEY@, seq![columns])),
        },
    }
}

/// A primary key, as a clause. An unnamed one is emitted faithfully rather
/// than named on the user's behalf.
pub fn primary_key_clause(pk: &PrimaryKey) -> (r: Result<String, DialectError>)
    ensures
        error::told(r) == primary_key_text(*pk),
{
    let columns = sql::column_list(&pk.columns)?;
    match &pk.name {
        Some(name) => error::compose2(
            NAMED_PRIMARY_KEY,
            sql::quote(name.as_str()),
            Ok(columns),
        ),
        None => Ok(text::fill1(PRIMARY_KEY, columns.as_str())),
    }
}

/// A unique constraint, as a clause.
pub open spec fn unique_text(name: Seq<char>, u: UniqueConstraint) -> Result<
    Seq<char>,
    error::Refusal,
> {
    error::composed(
        UNIQUE@,
        seq![sql::quoted(name), sql::column_list_text(text::texts(u.columns@))],
    )
}

/// A unique constraint, as a clause.
pub fn unique_clause(name: &str, u: &UniqueConstraint) -> (r: Result<String, DialectError>)
    ensures
        error::told(r) == unique_text(name@, *u),
{
    error::compose2(UNIQUE, sql::quote(name), sql::column_list(&u.columns))
}

/// How a referential action is spelled.
pub open spec fn action_text(a: ReferentialAction) -> Seq<char> {
    match a {
        ReferentialAction::NoAction => "NO ACTION"@,
        ReferentialAction::Cascade => "CASCADE"@,
        ReferentialAction::SetNull => "SET NULL"@,
        ReferentialAction::SetDefault => "SET DEFAULT"@,
    }
}

/// How a referential action is spelled.
pub fn referential_action(a: ReferentialAction) -> (r: &'static str)
    ensures
        r@ == action_text(a),
{
    match a {
        ReferentialAction::NoAction => "NO ACTION",
        ReferentialAction::Cascade => "CASCADE",
        ReferentialAction::SetNull => "SET NULL",
        ReferentialAction::SetDefault => "SET DEFAULT",
    }
}

/// An action, spelled only where it is not the engine's default.
pub open spec fn action_part(template: Seq<char>, a: ReferentialAction) -> Seq<char> {
    if a == ReferentialAction::NoAction {
        Seq::empty()
    } else {
        text::filled(template, seq![action_text(a)])
    }
}

/// A foreign key, as a clause.
pub open spec fn foreign_key_text(name: Seq<char>, fk: ForeignKey) -> Result<
    Seq<char>,
    error::Refusal,
> {
    match error::composed(
        FOREIGN_KEY@,
        seq![
            sql::quoted(name),
            sql::column_list_text(text::texts(fk.columns@)),
            sql::qualified_text(fk.references_table@),
            sql::column_list_text(text::texts(fk.references_columns@)),
        ],
    ) {
        Err(e) => Err(e),
        Ok(head) => Ok(
            head + action_part(ON_DELETE@, fk.on_delete) + action_part(ON_UPDATE@, fk.on_update),
        ),
    }
}

/// A foreign key, as a clause.
pub fn foreign_key_clause(name: &str, fk: &ForeignKey) -> (r: Result<String, DialectError>)
    ensures
        error::told(r) == foreign_key_text(name@, *fk),
{
    let mut s = error::compose4(
        FOREIGN_KEY,
        sql::quote(name),
        sql::column_list(&fk.columns),
        sql::qualified(&fk.references_table),
        sql::column_list(&fk.references_columns),
    )?;
    let ghost head = s@;
    if fk.on_delete != ReferentialAction::NoAction {
        let clause = text::fill1(ON_DELETE, referential_action(fk.on_delete));
        s.append(clause.as_str());
    }
    assert(s@ =~= head + action_part(ON_DELETE@, fk.on_delete));
    let ghost deleted = s@;
    if fk.on_update != ReferentialAction::NoAction {
        let clause = text::fill1(ON_UPDATE, referential_action(fk.on_update));
        s.append(clause.as_str());
    }
    assert(s@ =~= deleted + action_part(ON_UPDATE@, fk.on_update));
    Ok(s)
}

/// Whether an index is built concurrently: asked for, and with no filter. A
/// concurrent build cannot share a batch with the path a filter binds under.
pub open spec fn is_concurrent(index: Index, strategy: Strategy) -> bool {
    strategy.online && index.filter is None
}

/// Whether this index is built with `CONCURRENTLY`.
pub fn built_concurrently(index: &Index, strategy: Strategy) -> (r: bool)
    ensures
        r == is_concurrent(*index, strategy),
{
    strategy.online && index.filter.is_none()
}

/// One key of an index.
pub const INDEX_KEY: &'static str = "{} {}";

/// An index and its keys.
pub const INDEX: &'static str = "CREATE {}INDEX {}{} ON {} ({})";

/// The payload of an index.
pub const INCLUDED: &'static str = " INCLUDE ({})";

/// The filter of an index.
pub const FILTERED: &'static str = " WHERE ({})";

/// One key of an index: its column and its direction.
pub open spec fn index_key_text(key: IndexColumn) -> Result<Seq<char>, error::Refusal> {
    error::composed(
        INDEX_KEY@,
        seq![
            sql::quoted(key.name@),
            Ok::<Seq<char>, error::Refusal>(
                if key.descending {
                    "DESC"@
                } else {
                    "ASC"@
                },
            ),
        ],
    )
}

/// The keys of an index.
pub open spec fn index_keys_text(keys: Seq<IndexColumn>) -> Result<Seq<char>, error::Refusal> {
    error::joined_all(Seq::new(keys.len(), |i: int| index_key_text(keys[i])), sql::COMMA@)
}

fn index_keys(keys: &Vec<IndexColumn>) -> (r: Result<String, DialectError>)
    ensures
        error::told(r) == index_keys_text(keys@),
{
    let mut parts: Vec<Result<String, DialectError>> = Vec::new();
    let mut i: usize = 0;
    while i < keys.len()
        invariant
            i <= keys@.len(),
            parts@.len() == i,
            forall|k: int|
                0 <= k < i ==> error::told(#[trigger] parts@[k]) == index_key_text(keys@[k]),
        decreases keys@.len() - i,
    {
        let direction = if keys[i].descending {
            "DESC"
        } else {
            "ASC"
        };
        parts.push(
            error::compose2(
                INDEX_KEY,
                sql::quote(keys[i].name.as_str()),
                Ok(direction.to_owned()),
            ),
        );
        i += 1;
    }
    assert(error::all_told(parts@) =~= Seq::new(keys@.len(), |k: int| index_key_text(keys@[k])));
    error::join_all(parts, sql::COMMA)
}

/// The payload clause of an index.
pub open spec fn included_text(columns: Seq<Seq<char>>) -> Result<Seq<char>, error::Refusal> {
    if columns.len() == 0 {
        Ok(Seq::empty())
    } else {
        error::composed(INCLUDED@, seq![sql::column_list_text(columns)])
    }
}

/// The filter clause of an index.
pub open spec fn filter_text(filter: Option<String>) -> Seq<char> {
    match filter {
        Some(filter) => text::filled(FILTERED@, seq![verbatim_text(filter@)]),
        None => Seq::empty(),
    }
}

/// The statement that builds an index.
pub open spec fn create_index_text(
    table: model::Qualified,
    name: Seq<char>,
    index: Index,
    strategy: Strategy,
) -> Result<Seq<char>, error::Refusal> {
    match index_keys_text(index.columns@) {
        Err(e) => Err(e),
        Ok(keys) => match error::composed(
            INDEX@,
            seq![
                Ok::<Seq<char>, error::Refusal>(
                    if index.unique {
                        "UNIQUE "@
                    } else {
                        ""@
                    },
                ),
                Ok::<Seq<char>, error::Refusal>(
                    if is_concurrent(index, strategy) {
                        "CONCURRENTLY "@
                    } else {
                        ""@
                    },
                ),
                sql::quoted(name),
                sql::qualified_text(table),
                Ok::<Seq<char>, error::Refusal>(keys),
            ],
        ) {
            Err(e) => Err(e),
            Ok(head) => match included_text(text::texts(index.include_columns@)) {
                Err(e) => Err(e),
                Ok(payload) => Ok(head + payload + filter_text(index.filter) + seq![';']),
            },
        },
    }
}

/// The statement that builds an index.
pub fn create_index(table: &TableName, name: &str, index: &Index, strategy: Strategy) -> (r: Result<
    String,
    DialectError,
>)
    ensures
        error::told(r) == create_index_text(table@, name@, *index, strategy),
{
    let keys = index_keys(&index.columns)?;
    let unique = if index.unique {
        "UNIQUE "
    } else {
        ""
    };
    let concurrently = if built_concurrently(index, strategy) {
        "CONCURRENTLY "
    } else {
        ""
    };
    let mut s = error::compose5(
        INDEX,
        Ok(unique.to_owned()),
        Ok(concurrently.to_owned()),
        sql::quote(name),
        sql::qualified(table),
        Ok(keys),
    )?;
    let ghost head = s@;
    if index.include_columns.len() > 0 {
        let clause = error::compose1(INCLUDED, sql::column_list(&index.include_columns))?;
        s.append(clause.as_str());
    } else {
        assert(s@ =~= head + Seq::<char>::empty());
    }
    let ghost payload = s@;
    if let Some(filter) = &index.filter {
        let expression = verbatim(filter.as_str());
        let clause = text::fill1(FILTERED, expression.as_str());
        s.append(clause.as_str());
    } else {
        assert(s@ =~= payload + Seq::<char>::empty());
    }
    s.push(';');
    assert(s@ =~= payload + filter_text(index.filter) + seq![';']);
    Ok(s)
}

/// Drops a named primary key.
pub const DROP_CONSTRAINT: &'static str = "ALTER TABLE {} DROP CONSTRAINT {};";

/// The statement that a `DO` block builds for a key whose name it looks up.
pub const DROP_LOOKED_UP: &'static str = "ALTER TABLE {} DROP CONSTRAINT %I";

/// The body of the `DO` block that drops whatever primary key a table has.
pub const LOOK_UP: &'static str =
    "DECLARE pk name := (SELECT conname FROM pg_catalog.pg_constraint\n\
                 \x20                    WHERE conrelid = {}::pg_catalog.regclass AND contype = 'p');\n\
                 BEGIN\n\
                 \x20   IF pk IS NOT NULL THEN\n\
                 \x20       EXECUTE pg_catalog.format({}, pk);\n\
                 \x20   END IF;\n\
                 END";

/// A `DO` block between two tags.
pub const DO_BLOCK: &'static str = "DO {}\n{}\n{};";

/// The body of the `DO` block for a quoted, qualified table: the name is in
/// literal position twice, and in the second one a `%` is doubled because
/// `format` reads it.
pub open spec fn look_up_text(table: Seq<char>) -> Seq<char> {
    text::filled(
        LOOK_UP@,
        seq![
            sql::literal_text(table),
            sql::literal_text(text::filled(DROP_LOOKED_UP@, seq![text::doubled(table, '%')])),
        ],
    )
}

/// The statement that drops the primary key of a table.
pub open spec fn drop_primary_key_text(table: model::Qualified, pk: PrimaryKey) -> Result<
    Seq<char>,
    error::Refusal,
> {
    match sql::qualified_text(table) {
        Err(e) => Err(e),
        Ok(q) => match pk.name {
            Some(name) => error::composed(
                DROP_CONSTRAINT@,
                seq![Ok::<Seq<char>, error::Refusal>(q), sql::quoted(name@)],
            ),
            None => {
                let body = look_up_text(q);
                let tag = sql::free_tag(body);
                Ok(text::filled(DO_BLOCK@, seq![tag, body, tag]))
            },
        },
    }
}

/// Drops whatever primary key the table has: by name where the declaration
/// names it, and through a `DO` block that looks the name up where it does
/// not.
pub fn drop_primary_key(table: &TableName, pk: &PrimaryKey) -> (r: Result<String, DialectError>)
    ensures
        error::told(r) == drop_primary_key_text(table@, *pk),
{
    let q = sql::qualified(table)?;
    match &pk.name {
        Some(name) => error::compose2(DROP_CONSTRAINT, Ok(q), sql::quote(name.as_str())),
        None => {
            let doubled = text::double(q.as_str(), '%');
            let statement = text::fill1(DROP_LOOKED_UP, doubled.as_str());
            let on = sql::literal(q.as_str());
            let built = sql::literal(statement.as_str());
            let body = text::fill2(LOOK_UP, on.as_str(), built.as_str());
            let tag = sql::dollar_tag(body.as_str());
            Ok(text::fill3(DO_BLOCK, tag.as_str(), body.as_str(), tag.as_str()))
        },
    }
}

// ---------------------------------------------------------------------------
// Scoped statements

/// One statement under the write path of `schema`.
pub open spec fn scoped(
    extras: Seq<Seq<char>>,
    schema: Seq<char>,
    body: Result<Seq<char>, error::Refusal>,
) -> Result<StatementView, error::Refusal> {
    match sql::scoped_text(schema, extras, body) {
        Ok(sql) => Ok(plain(sql)),
        Err(e) => Err(e),
    }
}

/// A change that is one statement under the write path of `schema`.
pub open spec fn single(
    extras: Seq<Seq<char>>,
    schema: Seq<char>,
    body: Result<Seq<char>, error::Refusal>,
) -> Result<Seq<StatementView>, error::Refusal> {
    match scoped(extras, schema, body) {
        Ok(statement) => Ok(seq![statement]),
        Err(e) => Err(e),
    }
}

/// One statement under the write path of `schema`.
fn scope(pg: &Postgres, schema: &str, body: Result<String, DialectError>) -> (r: Result<
    Statement,
    DialectError,
>)
    ensures
        told(r) == scoped(pg.extras(), schema@, error::told(body)),
{
    let sql = sql::scoped_sql(pg, schema, body)?;
    Ok(Statement::new(sql))
}

/// A change that is one statement.
fn just(statement: Statement) -> (r: Vec<Statement>)
    ensures
        statements(r@) == seq![statement@],
{
    let out: Vec<Statement> = vec![statement];
    assert(statements(out@) =~= seq![statement@]);
    out
}

/// A change that is one statement under the write path of a table's schema.
fn one(pg: &Postgres, table: &TableName, body: Result<String, DialectError>) -> (r: Result<
    Vec<Statement>,
    DialectError,
>)
    ensures
        outcome(r) == single(pg.extras(), table@.0, error::told(body)),
{
    let statement = scope(pg, table.schema.as_str(), body)?;
    Ok(just(statement))
}

/// A change that is no statement at all.
fn nothing() -> (r: Vec<Statement>)
    ensures
        statements(r@) == Seq::<StatementView>::empty(),
{
    let out: Vec<Statement> = Vec::new();
    assert(statements(out@) =~= Seq::<StatementView>::empty());
    out
}

// ---------------------------------------------------------------------------
// Tables

/// Why a table without columns is refused.
pub const NO_COLUMNS: &'static str = "table `{}` has no columns";

/// A table, with its access method in the statement: the reader accepts no
/// other, and a session setting could name one.
pub const CREATE_TABLE: &'static str = "CREATE TABLE {} (\n    {}\n) USING heap;";

/// Between two lines of a table.
pub const NEXT_LINE: &'static str = ",\n    ";

/// Adds a constraint.
pub const ADD: &'static str = "ALTER TABLE {} ADD {};";

/// Adds a check.
pub const ADD_CHECK: &'static str = "ALTER TABLE {} ADD CONSTRAINT {} CHECK ({});";

/// The lines of a `CREATE TABLE`: its columns, then its primary key.
pub open spec fn table_lines(table: Table) -> Seq<Result<Seq<char>, error::Refusal>> {
    Seq::new(
        table.columns@.len(),
        |i: int| column_definition_text(table.columns@[i].0@, table.columns@[i].1),
    ) + match table.primary_key {
        Some(pk) => seq![primary_key_text(pk)],
        None => Seq::empty(),
    }
}

/// The statement that adds a unique constraint to a quoted table.
pub open spec fn add_unique_text(
    table: Result<Seq<char>, error::Refusal>,
    name: Seq<char>,
    u: UniqueConstraint,
) -> Result<Seq<char>, error::Refusal> {
    error::composed(ADD@, seq![table, unique_text(name, u)])
}

/// The statement that adds a check to a quoted table.
pub open spec fn add_check_text(
    table: Result<Seq<char>, error::Refusal>,
    name: Seq<char>,
    expression: Seq<char>,
) -> Result<Seq<char>, error::Refusal> {
    error::composed(
        ADD_CHECK@,
        seq![
            table,
            sql::quoted(name),
            Ok::<Seq<char>, error::Refusal>(verbatim_text(expression)),
        ],
    )
}

/// The statement that adds a foreign key to a quoted table.
pub open spec fn add_foreign_key_text(
    table: Result<Seq<char>, error::Refusal>,
    name: Seq<char>,
    fk: ForeignKey,
) -> Result<Seq<char>, error::Refusal> {
    error::composed(ADD@, seq![table, foreign_key_text(name, fk)])
}

/// The unique constraints of a new table.
pub open spec fn unique_statements(extras: Seq<Seq<char>>, name: model::Qualified, table: Table) -> Seq<
    Result<StatementView, error::Refusal>,
> {
    Seq::new(
        table.unique@.len(),
        |i: int|
            scoped(
                extras,
                name.0,
                add_unique_text(
                    sql::qualified_text(name),
                    table.unique@[i].0@,
                    table.unique@[i].1,
                ),
            ),
    )
}

/// The checks of a new table.
pub open spec fn check_statements(extras: Seq<Seq<char>>, name: model::Qualified, table: Table) -> Seq<
    Result<StatementView, error::Refusal>,
> {
    Seq::new(
        table.checks@.len(),
        |i: int|
            scoped(
                extras,
                name.0,
                add_check_text(
                    sql::qualified_text(name),
                    table.checks@[i].0@,
                    table.checks@[i].1.expression@,
                ),
            ),
    )
}

/// The foreign keys of a new table.
pub open spec fn foreign_key_statements(
    extras: Seq<Seq<char>>,
    name: model::Qualified,
    table: Table,
) -> Seq<Result<StatementView, error::Refusal>> {
    Seq::new(
        table.foreign_keys@.len(),
        |i: int|
            scoped(
                extras,
                name.0,
                add_foreign_key_text(
                    sql::qualified_text(name),
                    table.foreign_keys@[i].0@,
                    table.foreign_keys@[i].1,
                ),
            ),
    )
}

/// The indexes of a new table, none of them built online: the table holds no
/// rows.
pub open spec fn index_statements(extras: Seq<Seq<char>>, name: model::Qualified, table: Table) -> Seq<
    Result<StatementView, error::Refusal>,
> {
    Seq::new(
        table.indexes@.len(),
        |i: int|
            scoped(
                extras,
                name.0,
                create_index_text(
                    name,
                    table.indexes@[i].0@,
                    table.indexes@[i].1,
                    Strategy { online: false },
                ),
            ),
    )
}

/// The `CREATE TABLE` of a table, naming what it brings into being.
pub open spec fn table_statement(
    extras: Seq<Seq<char>>,
    name: model::Qualified,
    table: Table,
) -> Result<StatementView, error::Refusal> {
    let lines = error::joined_all(table_lines(table), NEXT_LINE@);
    match sql::scoped_text(
        name.0,
        extras,
        error::composed(CREATE_TABLE@, seq![sql::qualified_text(name), lines]),
    ) {
        Ok(sql) => Ok(creating(sql, CreatedView::Table(name))),
        Err(e) => Err(e),
    }
}

/// The statements that create a table: the table with its primary key, then
/// every other constraint, so that creating a table and altering one take the
/// same path.
pub open spec fn create_table_statements(
    extras: Seq<Seq<char>>,
    name: model::Qualified,
    table: Table,
) -> Result<Seq<StatementView>, error::Refusal> {
    if table.columns@.len() == 0 {
        Err(error::refused(text::filled(NO_COLUMNS@, seq![model::dotted(name)])))
    } else {
        error::collected(
            seq![table_statement(extras, name, table)] + unique_statements(extras, name, table)
                + check_statements(extras, name, table) + foreign_key_statements(
                extras,
                name,
                table,
            ) + index_statements(extras, name, table),
        )
    }
}

fn table_body(table: &Table) -> (r: Result<String, DialectError>)
    ensures
        error::told(r) == error::joined_all(table_lines(*table), NEXT_LINE@),
{
    let mut lines: Vec<Result<String, DialectError>> = Vec::new();
    let mut i: usize = 0;
    while i < table.columns.len()
        invariant
            i <= table.columns@.len(),
            lines@.len() == i,
            forall|k: int|
                0 <= k < i ==> error::told(#[trigger] lines@[k]) == column_definition_text(
                    table.columns@[k].0@,
                    table.columns@[k].1,
                ),
        decreases table.columns@.len() - i,
    {
        lines.push(column_definition(table.columns[i].0.as_str(), &table.columns[i].1));
        i += 1;
    }
    if let Some(pk) = &table.primary_key {
        lines.push(primary_key_clause(pk));
    }
    assert(error::all_told(lines@) =~= table_lines(*table));
    error::join_all(lines, NEXT_LINE)
}

fn uniques(pg: &Postgres, name: &TableName, table: &Table) -> (r: Vec<
    Result<Statement, DialectError>,
>)
    ensures
        all_told(r@) == unique_statements(pg.extras(), name@, *table),
{
    let mut out: Vec<Result<Statement, DialectError>> = Vec::new();
    let mut i: usize = 0;
    while i < table.unique.len()
        invariant
            i <= table.unique@.len(),
            out@.len() == i,
            forall|k: int|
                0 <= k < i ==> told(#[trigger] out@[k]) == unique_statements(
                    pg.extras(),
                    name@,
                    *table,
                )[k],
        decreases table.unique@.len() - i,
    {
        let clause = unique_clause(table.unique[i].0.as_str(), &table.unique[i].1);
        let body = error::compose2(ADD, sql::qualified(name), clause);
        out.push(scope(pg, name.schema.as_str(), body));
        i += 1;
    }
    assert(all_told(out@) =~= unique_statements(pg.extras(), name@, *table));
    out
}

fn checks(pg: &Postgres, name: &TableName, table: &Table) -> (r: Vec<
    Result<Statement, DialectError>,
>)
    ensures
        all_told(r@) == check_statements(pg.extras(), name@, *table),
{
    let mut out: Vec<Result<Statement, DialectError>> = Vec::new();
    let mut i: usize = 0;
    while i < table.checks.len()
        invariant
            i <= table.checks@.len(),
            out@.len() == i,
            forall|k: int|
                0 <= k < i ==> told(#[trigger] out@[k]) == check_statements(
                    pg.extras(),
                    name@,
                    *table,
                )[k],
        decreases table.checks@.len() - i,
    {
        let body = error::compose3(
            ADD_CHECK,
            sql::qualified(name),
            sql::quote(table.checks[i].0.as_str()),
            Ok(verbatim(table.checks[i].1.expression.as_str())),
        );
        out.push(scope(pg, name.schema.as_str(), body));
        i += 1;
    }
    assert(all_told(out@) =~= check_statements(pg.extras(), name@, *table));
    out
}

fn foreign_keys(pg: &Postgres, name: &TableName, table: &Table) -> (r: Vec<
    Result<Statement, DialectError>,
>)
    ensures
        all_told(r@) == foreign_key_statements(pg.extras(), name@, *table),
{
    let mut out: Vec<Result<Statement, DialectError>> = Vec::new();
    let mut i: usize = 0;
    while i < table.foreign_keys.len()
        invariant
            i <= table.foreign_keys@.len(),
            out@.len() == i,
            forall|k: int|
                0 <= k < i ==> told(#[trigger] out@[k]) == foreign_key_statements(
                    pg.extras(),
                    name@,
                    *table,
                )[k],
        decreases table.foreign_keys@.len() - i,
    {
        let clause = foreign_key_clause(
            table.foreign_keys[i].0.as_str(),
            &table.foreign_keys[i].1,
        );
        let body = error::compose2(ADD, sql::qualified(name), clause);
        out.push(scope(pg, name.schema.as_str(), body));
        i += 1;
    }
    assert(all_told(out@) =~= foreign_key_statements(pg.extras(), name@, *table));
    out
}

fn indexes(pg: &Postgres, name: &TableName, table: &Table) -> (r: Vec<
    Result<Statement, DialectError>,
>)
    ensures
        all_told(r@) == index_statements(pg.extras(), name@, *table),
{
    let mut out: Vec<Result<Statement, DialectError>> = Vec::new();
    let mut i: usize = 0;
    while i < table.indexes.len()
        invariant
            i <= table.indexes@.len(),
            out@.len() == i,
            forall|k: int|
                0 <= k < i ==> told(#[trigger] out@[k]) == index_statements(
                    pg.extras(),
                    name@,
                    *table,
                )[k],
        decreases table.indexes@.len() - i,
    {
        let body = create_index(
            name,
            table.indexes[i].0.as_str(),
            &table.indexes[i].1,
            Strategy { online: false },
        );
        out.push(scope(pg, name.schema.as_str(), body));
        i += 1;
    }
    assert(all_told(out@) =~= index_statements(pg.extras(), name@, *table));
    out
}

fn table_itself(pg: &Postgres, name: &TableName, table: &Table) -> (r: Result<
    Statement,
    DialectError,
>)
    ensures
        told(r) == table_statement(pg.extras(), name@, *table),
{
    let body = error::compose2(CREATE_TABLE, sql::qualified(name), table_body(table));
    let sql = sql::scoped_sql(pg, name.schema.as_str(), body)?;
    Ok(Statement::creating(sql, Created::Table(name.again())))
}

/// The statements that create a table.
pub fn create_table(pg: &Postgres, name: &TableName, table: &Table) -> (r: Result<
    Vec<Statement>,
    DialectError,
>)
    ensures
        outcome(r) == create_table_statements(pg.extras(), name@, *table),
{
    if table.columns.len() == 0 {
        let shown = name.show();
        return Err(invalid(text::fill1(NO_COLUMNS, shown.as_str())));
    }
    let mut parts: Vec<Result<Statement, DialectError>> = vec![table_itself(pg, name, table)];
    let ghost first = parts@;
    let mut u = uniques(pg, name, table);
    let mut c = checks(pg, name, table);
    let mut f = foreign_keys(pg, name, table);
    let mut x = indexes(pg, name, table);
    let ghost us = u@;
    let ghost cs = c@;
    let ghost fs = f@;
    let ghost xs = x@;
    parts.append(&mut u);
    parts.append(&mut c);
    parts.append(&mut f);
    parts.append(&mut x);
    assert(parts@ =~= first + us + cs + fs + xs);
    assert(all_told(parts@) =~= seq![table_statement(pg.extras(), name@, *table)] + all_told(us)
        + all_told(cs) + all_told(fs) + all_told(xs));
    gather(parts)
}

/// Moves a table to another schema.
pub const SET_SCHEMA: &'static str = "ALTER TABLE {} SET SCHEMA {};";

/// Renames a table within its schema.
pub const RENAME_TO: &'static str = "ALTER TABLE {} RENAME TO {};";

/// One half of a table's rename.
pub open spec fn rename_statement(
    extras: Seq<Seq<char>>,
    template: Seq<char>,
    at: model::Qualified,
    target: Seq<char>,
    to: model::Qualified,
) -> Result<StatementView, error::Refusal> {
    match sql::scoped_text(
        at.0,
        extras,
        error::composed(template, seq![sql::qualified_text(at), sql::quoted(target)]),
    ) {
        Ok(sql) => Ok(renaming(sql, at, to)),
        Err(e) => Err(e),
    }
}

/// The statements that rename a table: the transfer first and then the name,
/// because no one statement does both, and each says what it does to the name.
pub open spec fn rename_table_statements(
    extras: Seq<Seq<char>>,
    from: model::Qualified,
    to: model::Qualified,
) -> Result<Seq<StatementView>, error::Refusal> {
    let moved = (to.0, from.1);
    let transfer = if from.0 != to.0 {
        seq![rename_statement(extras, SET_SCHEMA@, from, to.0, moved)]
    } else {
        Seq::empty()
    };
    let at = if from.0 != to.0 {
        moved
    } else {
        from
    };
    let rename = if at.1 != to.1 {
        seq![rename_statement(extras, RENAME_TO@, at, to.1, to)]
    } else {
        Seq::empty()
    };
    error::collected(transfer + rename)
}

fn rename_step(pg: &Postgres, template: &str, at: &TableName, target: &str, to: &TableName) -> (r:
    Result<Statement, DialectError>)
    ensures
        told(r) == rename_statement(pg.extras(), template@, at@, target@, to@),
{
    let body = error::compose2(template, sql::qualified(at), sql::quote(target));
    let sql = sql::scoped_sql(pg, at.schema.as_str(), body)?;
    Ok(Statement::renaming(sql, at.again(), to.again()))
}

/// The statements that rename a table.
pub fn rename_table(pg: &Postgres, from: &TableName, to: &TableName) -> (r: Result<
    Vec<Statement>,
    DialectError,
>)
    ensures
        outcome(r) == rename_table_statements(pg.extras(), from@, to@),
{
    let mut parts: Vec<Result<Statement, DialectError>> = Vec::new();
    let mut at = from.again();
    assert(all_told(parts@) =~= Seq::empty());
    if !text::same(from.schema.as_str(), to.schema.as_str()) {
        let moved = TableName::new(to.schema.as_str(), from.name.as_str());
        parts.push(rename_step(pg, SET_SCHEMA, from, to.schema.as_str(), &moved));
        at = moved;
    }
    let ghost transfer = all_told(parts@);
    assert(transfer =~= if from@.0 != to@.0 {
        seq![rename_statement(pg.extras(), SET_SCHEMA@, from@, to@.0, (to@.0, from@.1))]
    } else {
        Seq::empty()
    });
    if !text::same(at.name.as_str(), to.name.as_str()) {
        parts.push(rename_step(pg, RENAME_TO, &at, to.name.as_str(), to));
    }
    assert(all_told(parts@) =~= transfer + if at@.1 != to@.1 {
        seq![rename_statement(pg.extras(), RENAME_TO@, at@, to@.1, to@)]
    } else {
        Seq::empty()
    });
    gather(parts)
}

// ---------------------------------------------------------------------------
// Columns of a table that is there

/// Adds a column.
pub const ADD_COLUMN: &'static str = "ALTER TABLE {} ADD COLUMN {};";

/// Drops a column.
pub const DROP_COLUMN: &'static str = "ALTER TABLE {} DROP COLUMN {};";

/// Renames a column.
pub const RENAME_COLUMN: &'static str = "ALTER TABLE {} RENAME COLUMN {} TO {};";

/// Changes whether a column takes nulls.
pub const ALTER_NULLABILITY: &'static str = "ALTER TABLE {} ALTER COLUMN {} {};";

/// Gives a column a default.
pub const SET_DEFAULT: &'static str = "ALTER TABLE {} ALTER COLUMN {} SET DEFAULT {};";

/// Takes a column's default away.
pub const DROP_DEFAULT: &'static str = "ALTER TABLE {} ALTER COLUMN {} DROP DEFAULT;";

/// One subcommand that changes a type.
pub const TYPE_PART: &'static str = "ALTER COLUMN {} TYPE {}";

/// One subcommand that changes nullability.
pub const NULL_PART: &'static str = "ALTER COLUMN {} {}";

/// One table and its subcommands.
pub const ALTER_TABLE: &'static str = "ALTER TABLE {} {};";

/// Why a change of type that would need a `USING` clause is refused.
pub const NEEDS_USING: &'static str =
    "column `{}` cannot be changed from `{}` to `{}`: this engine \
                     refuses the conversion outright — `column \"{}\" cannot be cast \
                     automatically` — and its remedy is a `USING` clause, which pbps does not \
                     emit. A `USING` expression says what the data becomes, and that is a \
                     transformation to declare and review, not one for a tool to choose \
                     (ADR-0012 §5). Add the new column, fill it in a declared step, and drop the \
                     old one.";

/// Why a change of type that the session's time zone decides is refused.
pub const NEEDS_ZONE: &'static str =
    "column `{}` cannot be changed from `{}` to `{}`: the \
                     conversion gains or loses the time zone, and what each stored value \
                     becomes is then read from a session setting rather than from anything \
                     declared — the same value converts to a different instant depending on \
                     the zone the applying session happens to hold. Say what the values mean \
                     instead: add the new column, fill it in a declared step with the zone \
                     written out (`AT TIME ZONE \'…\'`), and drop the old one.";

/// How a change of nullability is spelled.
pub open spec fn nullability_text(to_nullable: bool) -> Seq<char> {
    if to_nullable {
        "DROP NOT NULL"@
    } else {
        "SET NOT NULL"@
    }
}

fn nullability(to_nullable: bool) -> (r: &'static str)
    ensures
        r@ == nullability_text(to_nullable),
{
    if to_nullable {
        "DROP NOT NULL"
    } else {
        "SET NOT NULL"
    }
}

/// The subcommands of a type change: nullability is restated only where it
/// moves.
pub open spec fn type_parts(name: Seq<char>, to: Seq<char>, moves: bool, to_nullable: bool) -> Seq<
    Result<Seq<char>, error::Refusal>,
> {
    seq![
        error::composed(
            TYPE_PART@,
            seq![sql::quoted(name), Ok::<Seq<char>, error::Refusal>(to)],
        ),
    ] + if moves {
        seq![
            error::composed(
                NULL_PART@,
                seq![
                    sql::quoted(name),
                    Ok::<Seq<char>, error::Refusal>(nullability_text(to_nullable)),
                ],
            ),
        ]
    } else {
        Seq::empty()
    }
}

/// The body of a type change, or the refusal of one that the engine or the
/// session would decide.
pub open spec fn alter_type_text(
    column: (model::Qualified, Seq<char>),
    from: Reading,
    to: Reading,
    nulls: (bool, bool),
    incompatible: bool,
    zone_decided: bool,
) -> Result<Seq<char>, error::Refusal> {
    match (to, from) {
        (Reading::Refused(e), _) => Err(e@),
        (Reading::As(_), Reading::Refused(e)) => Err(e@),
        (Reading::As(normalized), Reading::As(was)) => if incompatible {
            Err(
                error::refused(
                    text::filled(
                        NEEDS_USING@,
                        seq![column.1, was.spelled@, normalized.spelled@, column.1],
                    ),
                ),
            )
        } else if zone_decided {
            Err(
                error::refused(
                    text::filled(
                        NEEDS_ZONE@,
                        seq![column.1, was.spelled@, normalized.spelled@],
                    ),
                ),
            )
        } else {
            match error::joined_all(
                type_parts(column.1, normalized.spelled@, nulls.0 != nulls.1, nulls.1),
                sql::COMMA@,
            ) {
                Err(e) => Err(e),
                Ok(parts) => error::composed(
                    ALTER_TABLE@,
                    seq![
                        sql::qualified_text(column.0),
                        Ok::<Seq<char>, error::Refusal>(parts),
                    ],
                ),
            }
        },
    }
}

fn alter_type(
    column: &model::ColumnRef,
    from: &Reading,
    to: &Reading,
    from_nullable: bool,
    to_nullable: bool,
    incompatible: bool,
    zone_decided: bool,
) -> (r: Result<String, DialectError>)
    ensures
        error::told(r) == alter_type_text(
            column@,
            *from,
            *to,
            (from_nullable, to_nullable),
            incompatible,
            zone_decided,
        ),
{
    let normalized = match to {
        Reading::As(ty) => ty,
        Reading::Refused(e) => {
            return Err(e.again());
        },
    };
    let was = match from {
        Reading::As(ty) => ty,
        Reading::Refused(e) => {
            return Err(e.again());
        },
    };
    let name = column.name.as_str();
    if incompatible {
        return Err(
            invalid(
                text::fill4(
                    NEEDS_USING,
                    name,
                    was.spelled.as_str(),
                    normalized.spelled.as_str(),
                    name,
                ),
            ),
        );
    }
    if zone_decided {
        return Err(
            invalid(
                text::fill3(NEEDS_ZONE, name, was.spelled.as_str(), normalized.spelled.as_str()),
            ),
        );
    }
    let mut parts: Vec<Result<String, DialectError>> = vec![
        error::compose2(TYPE_PART, sql::quote(name), Ok(normalized.spelled.clone())),
    ];
    if from_nullable != to_nullable {
        parts.push(
            error::compose2(
                NULL_PART,
                sql::quote(name),
                Ok(nullability(to_nullable).to_owned()),
            ),
        );
    }
    assert(error::all_told(parts@) =~= type_parts(
        column@.1,
        normalized.spelled@,
        from_nullable != to_nullable,
        to_nullable,
    ));
    let joined = error::join_all(parts, sql::COMMA)?;
    error::compose2(ALTER_TABLE, sql::qualified(&column.table), Ok(joined))
}

/// The body of a change of default.
pub open spec fn alter_default_text(
    column: (model::Qualified, Seq<char>),
    to: Option<String>,
) -> Result<Seq<char>, error::Refusal> {
    match to {
        Some(expression) => error::composed(
            SET_DEFAULT@,
            seq![
                sql::qualified_text(column.0),
                sql::quoted(column.1),
                Ok::<Seq<char>, error::Refusal>(verbatim_text(expression@)),
            ],
        ),
        None => error::composed(
            DROP_DEFAULT@,
            seq![sql::qualified_text(column.0), sql::quoted(column.1)],
        ),
    }
}

fn alter_default(column: &model::ColumnRef, to: &Option<String>) -> (r: Result<
    String,
    DialectError,
>)
    ensures
        error::told(r) == alter_default_text(column@, *to),
{
    match to {
        Some(expression) => error::compose3(
            SET_DEFAULT,
            sql::qualified(&column.table),
            sql::quote(column.name.as_str()),
            Ok(verbatim(expression.as_str())),
        ),
        None => error::compose2(
            DROP_DEFAULT,
            sql::qualified(&column.table),
            sql::quote(column.name.as_str()),
        ),
    }
}

/// The statement that adds a column.
pub open spec fn add_column_statement(
    extras: Seq<Seq<char>>,
    table: model::Qualified,
    name: Seq<char>,
    column: Column,
) -> Result<Seq<StatementView>, error::Refusal> {
    match sql::scoped_text(
        table.0,
        extras,
        error::composed(
            ADD_COLUMN@,
            seq![sql::qualified_text(table), column_definition_text(name, column)],
        ),
    ) {
        Ok(sql) => Ok(seq![creating(sql, CreatedView::Column(table, name))]),
        Err(e) => Err(e),
    }
}

fn add_column(pg: &Postgres, table: &TableName, name: &String, column: &Column) -> (r: Result<
    Vec<Statement>,
    DialectError,
>)
    ensures
        outcome(r) == add_column_statement(pg.extras(), table@, name@, *column),
{
    let body = error::compose2(
        ADD_COLUMN,
        sql::qualified(table),
        column_definition(name.as_str(), column),
    );
    let sql = sql::scoped_sql(pg, table.schema.as_str(), body)?;
    Ok(just(Statement::creating(sql, Created::Column(table.again(), name.clone()))))
}

// ---------------------------------------------------------------------------
// Constraints and indexes of a table that is there

/// The statements that replace a primary key.
pub open spec fn set_primary_key_statements(
    extras: Seq<Seq<char>>,
    table: model::Qualified,
    from: Option<PrimaryKey>,
    to: Option<PrimaryKey>,
) -> Result<Seq<StatementView>, error::Refusal> {
    error::collected(
        (match from {
            Some(pk) => seq![scoped(extras, table.0, drop_primary_key_text(table, pk))],
            None => Seq::empty(),
        }) + match to {
            Some(pk) => seq![
                scoped(
                    extras,
                    table.0,
                    error::composed(ADD@, seq![sql::qualified_text(table), primary_key_text(pk)]),
                ),
            ],
            None => Seq::empty(),
        },
    )
}

fn set_primary_key(
    pg: &Postgres,
    table: &TableName,
    from: &Option<PrimaryKey>,
    to: &Option<PrimaryKey>,
) -> (r: Result<Vec<Statement>, DialectError>)
    ensures
        outcome(r) == set_primary_key_statements(pg.extras(), table@, *from, *to),
{
    let mut parts: Vec<Result<Statement, DialectError>> = Vec::new();
    if let Some(pk) = from {
        parts.push(scope(pg, table.schema.as_str(), drop_primary_key(table, pk)));
    }
    let ghost dropped = all_told(parts@);
    assert(dropped =~= match *from {
        Some(pk) => seq![scoped(pg.extras(), table@.0, drop_primary_key_text(table@, pk))],
        None => Seq::empty(),
    });
    if let Some(pk) = to {
        let body = error::compose2(ADD, sql::qualified(table), primary_key_clause(pk));
        parts.push(scope(pg, table.schema.as_str(), body));
    }
    assert(all_told(parts@) =~= dropped + match *to {
        Some(pk) => seq![
            scoped(
                pg.extras(),
                table@.0,
                error::composed(ADD@, seq![sql::qualified_text(table@), primary_key_text(pk)]),
            ),
        ],
        None => Seq::empty(),
    });
    gather(parts)
}

/// Drops an index.
pub const DROP_INDEX: &'static str = "DROP INDEX {}.{};";

/// Drops a table.
pub const DROP_TABLE: &'static str = "DROP TABLE {};";

/// The statement that builds an index on a table that is there: alone and
/// outside the transaction where it is built concurrently, and scoped where it
/// is not.
pub open spec fn add_index_statement(
    extras: Seq<Seq<char>>,
    table: model::Qualified,
    name: Seq<char>,
    index: Index,
    strategy: Strategy,
) -> Result<Seq<StatementView>, error::Refusal> {
    let body = create_index_text(table, name, index, strategy);
    if is_concurrent(index, strategy) {
        match body {
            Ok(sql) => Ok(seq![alone(sql)]),
            Err(e) => Err(e),
        }
    } else {
        single(extras, table.0, body)
    }
}

fn add_index(pg: &Postgres, table: &TableName, name: &str, index: &Index, strategy: Strategy) -> (r:
    Result<Vec<Statement>, DialectError>)
    ensures
        outcome(r) == add_index_statement(pg.extras(), table@, name@, *index, strategy),
{
    let body = create_index(table, name, index, strategy);
    if built_concurrently(index, strategy) {
        let sql = body?;
        Ok(just(Statement::alone(sql)))
    } else {
        one(pg, table, body)
    }
}

/// The body that drops a named constraint.
pub open spec fn drop_constraint_text(table: model::Qualified, name: Seq<char>) -> Result<
    Seq<char>,
    error::Refusal,
> {
    error::composed(DROP_CONSTRAINT@, seq![sql::qualified_text(table), sql::quoted(name)])
}

fn drop_constraint(table: &TableName, name: &str) -> (r: Result<String, DialectError>)
    ensures
        error::told(r) == drop_constraint_text(table@, name@),
{
    error::compose2(DROP_CONSTRAINT, sql::qualified(table), sql::quote(name))
}

// ---------------------------------------------------------------------------
// Modules

/// One module statement.
pub open spec fn module_statement(sql: Result<Seq<char>, error::Refusal>) -> Result<
    StatementView,
    error::Refusal,
> {
    match sql {
        Ok(sql) => Ok(plain(sql)),
        Err(e) => Err(e),
    }
}

fn module_part(sql: Result<String, DialectError>) -> (r: Result<Statement, DialectError>)
    ensures
        told(r) == module_statement(error::told(sql)),
{
    let sql = sql?;
    Ok(Statement::new(sql))
}

/// The statements of a list, each of which is one text or a refusal.
pub open spec fn module_statements(parts: Seq<Result<Seq<char>, error::Refusal>>) -> Result<
    Seq<StatementView>,
    error::Refusal,
> {
    error::collected(Seq::new(parts.len(), |i: int| module_statement(parts[i])))
}

fn one_module(a: Result<String, DialectError>) -> (r: Result<Vec<Statement>, DialectError>)
    ensures
        outcome(r) == module_statements(seq![error::told(a)]),
{
    let ghost parts = seq![error::told(a)];
    let all: Vec<Result<Statement, DialectError>> = vec![module_part(a)];
    assert(all_told(all@) =~= Seq::new(parts.len(), |i: int| module_statement(parts[i])));
    gather(all)
}

fn two_modules(a: Result<String, DialectError>, b: Result<String, DialectError>) -> (r: Result<
    Vec<Statement>,
    DialectError,
>)
    ensures
        outcome(r) == module_statements(seq![error::told(a), error::told(b)]),
{
    let ghost parts = seq![error::told(a), error::told(b)];
    let all: Vec<Result<Statement, DialectError>> = vec![module_part(a), module_part(b)];
    assert(all_told(all@) =~= Seq::new(parts.len(), |i: int| module_statement(parts[i])));
    gather(all)
}

// ---------------------------------------------------------------------------
// One change

/// What one change is on this engine: its statements in order, or why it is
/// refused. A change that is a fact about the declarations alone is no
/// statement, and one that needs a part that is not built is a refusal.
pub open spec fn emitted(extras: Seq<Seq<char>>, change: Change, strategy: Strategy) -> Result<
    Seq<StatementView>,
    error::Refusal,
> {
    match change {
        Change::CreateTable { name, table } => create_table_statements(extras, name@, table),
        Change::DropTable { name } => single(
            extras,
            name@.0,
            error::composed(DROP_TABLE@, seq![sql::qualified_text(name@)]),
        ),
        Change::RenameTable { from, to } => rename_table_statements(extras, from@, to@),
        Change::AddColumn { table, name, column } => add_column_statement(
            extras,
            table@,
            name@,
            column,
        ),
        Change::DropColumn { column } => single(
            extras,
            column@.0.0,
            error::composed(
                DROP_COLUMN@,
                seq![sql::qualified_text(column@.0), sql::quoted(column@.1)],
            ),
        ),
        Change::RenameColumn { table, from, to } => single(
            extras,
            table@.0,
            error::composed(
                RENAME_COLUMN@,
                seq![sql::qualified_text(table@), sql::quoted(from@), sql::quoted(to@)],
            ),
        ),
        Change::AlterColumnType {
            column,
            from,
            to,
            from_nullable,
            to_nullable,
            incompatible,
            zone_decided,
        } => single(
            extras,
            column@.0.0,
            alter_type_text(
                column@,
                from.normal,
                to.normal,
                (from_nullable, to_nullable),
                incompatible,
                zone_decided,
            ),
        ),
        Change::AlterColumnNullability { column, to_nullable } => single(
            extras,
            column@.0.0,
            error::composed(
                ALTER_NULLABILITY@,
                seq![
                    sql::qualified_text(column@.0),
                    sql::quoted(column@.1),
                    Ok::<Seq<char>, error::Refusal>(nullability_text(to_nullable)),
                ],
            ),
        ),
        Change::AlterColumnDefault { column, from: _, to } => single(
            extras,
            column@.0.0,
            alter_default_text(column@, to),
        ),
        Change::SetPrimaryKey { table, from, to } => set_primary_key_statements(
            extras,
            table@,
            from,
            to,
        ),
        Change::AddUnique { table, name, constraint } => single(
            extras,
            table@.0,
            add_unique_text(sql::qualified_text(table@), name@, constraint),
        ),
        Change::AddForeignKey { table, name, constraint } => single(
            extras,
            table@.0,
            add_foreign_key_text(sql::qualified_text(table@), name@, constraint),
        ),
        Change::AddCheck { table, name, constraint } => single(
            extras,
            table@.0,
            add_check_text(sql::qualified_text(table@), name@, constraint.expression@),
        ),
        Change::DropUnique { table, name } => single(
            extras,
            table@.0,
            drop_constraint_text(table@, name@),
        ),
        Change::DropForeignKey { table, name } => single(
            extras,
            table@.0,
            drop_constraint_text(table@, name@),
        ),
        Change::DropCheck { table, name } => single(
            extras,
            table@.0,
            drop_constraint_text(table@, name@),
        ),
        Change::AddIndex { table, name, index } => add_index_statement(
            extras,
            table@,
            name@,
            index,
            strategy,
        ),
        Change::DropIndex { table, name } => single(
            extras,
            table@.0,
            error::composed(DROP_INDEX@, seq![sql::quoted(table@.0), sql::quoted(name@)]),
        ),
        Change::SetColumnDeprecated { .. } => Ok(Seq::empty()),
        Change::SetDataMode { .. } => Ok(Seq::empty()),
        Change::CreateModule { id, module } => module_statements(
            seq![definition::create_module_text(extras, id@, module)],
        ),
        Change::AlterModule { id, module } => module_statements(
            seq![
                definition::drop_module_text(extras, id@, module.kind),
                definition::create_module_text(extras, id@, module),
            ],
        ),
        Change::DropModule { id, kind } => module_statements(
            seq![definition::drop_module_text(extras, id@, kind)],
        ),
        Change::CreateRole { .. } => Err(Unbuilt::Roles.refusal()),
        Change::DropRole { .. } => Err(Unbuilt::Roles.refusal()),
        Change::RenameRole { .. } => Err(Unbuilt::Roles.refusal()),
        Change::Grant { .. } => Err(Unbuilt::Roles.refusal()),
        Change::Revoke { .. } => Err(Unbuilt::Roles.refusal()),
        Change::PublicExecution { .. } => Err(Unbuilt::Roles.refusal()),
        Change::InsertRow { .. } => Err(Unbuilt::ReferenceData.refusal()),
        Change::UpdateRow { .. } => Err(Unbuilt::ReferenceData.refusal()),
        Change::DeleteRow { .. } => Err(Unbuilt::ReferenceData.refusal()),
    }
}

/// The statements of one change.
///
/// A module is created and never replaced, so a changed one is a drop and a
/// create: the plan a person approves says `DROP` where a `DROP` will run.
pub fn emit(pg: &Postgres, change: &Change, strategy: Strategy) -> (r: Result<
    Vec<Statement>,
    DialectError,
>)
    ensures
        outcome(r) == emitted(pg.extras(), *change, strategy),
{
    match change {
        Change::CreateTable { name, table } => create_table(pg, name, table),
        Change::DropTable { name } => one(
            pg,
            name,
            error::compose1(DROP_TABLE, sql::qualified(name)),
        ),
        Change::RenameTable { from, to } => rename_table(pg, from, to),
        Change::AddColumn { table, name, column } => add_column(pg, table, name, column),
        Change::DropColumn { column } => one(
            pg,
            &column.table,
            error::compose2(
                DROP_COLUMN,
                sql::qualified(&column.table),
                sql::quote(column.name.as_str()),
            ),
        ),
        Change::RenameColumn { table, from, to } => one(
            pg,
            table,
            error::compose3(
                RENAME_COLUMN,
                sql::qualified(table),
                sql::quote(from.as_str()),
                sql::quote(to.as_str()),
            ),
        ),
        Change::AlterColumnType {
            column,
            from,
            to,
            from_nullable,
            to_nullable,
            incompatible,
            zone_decided,
        } => one(
            pg,
            &column.table,
            alter_type(
                column,
                &from.normal,
                &to.normal,
                *from_nullable,
                *to_nullable,
                *incompatible,
                *zone_decided,
            ),
        ),
        Change::AlterColumnNullability { column, to_nullable } => one(
            pg,
            &column.table,
            error::compose3(
                ALTER_NULLABILITY,
                sql::qualified(&column.table),
                sql::quote(column.name.as_str()),
                Ok(nullability(*to_nullable).to_owned()),
            ),
        ),
        Change::AlterColumnDefault { column, from: _, to } => one(
            pg,
            &column.table,
            alter_default(column, to),
        ),
        Change::SetPrimaryKey { table, from, to } => set_primary_key(pg, table, from, to),
        Change::AddUnique { table, name, constraint } => one(
            pg,
            table,
            error::compose2(
                ADD,
                sql::qualified(table),
                unique_clause(name.as_str(), constraint),
            ),
        ),
        Change::AddForeignKey { table, name, constraint } => one(
            pg,
            table,
            error::compose2(
                ADD,
                sql::qualified(table),
                foreign_key_clause(name.as_str(), constraint),
            ),
        ),
        Change::AddCheck { table, name, constraint } => one(
            pg,
            table,
            error::compose3(
                ADD_CHECK,
                sql::qualified(table),
                sql::quote(name.as_str()),
                Ok(verbatim(constraint.expression.as_str())),
            ),
        ),
        Change::DropUnique { table, name } => one(
            pg,
            table,
            drop_constraint(table, name.as_str()),
        ),
        Change::DropForeignKey { table, name } => one(
            pg,
            table,
            drop_constraint(table, name.as_str()),
        ),
        Change::DropCheck { table, name } => one(pg, table, drop_constraint(table, name.as_str())),
        Change::AddIndex { table, name, index } => add_index(
            pg,
            table,
            name.as_str(),
            index,
            strategy,
        ),
        Change::DropIndex { table, name } => one(
            pg,
            table,
            error::compose2(
                DROP_INDEX,
                sql::quote(table.schema.as_str()),
                sql::quote(name.as_str()),
            ),
        ),
        Change::SetColumnDeprecated { .. } => Ok(nothing()),
        Change::SetDataMode { .. } => Ok(nothing()),
        Change::CreateModule { id, module } => one_module(
            definition::create_module(pg, id, module),
        ),
        Change::AlterModule { id, module } => two_modules(
            definition::drop_module(pg, id, module.kind),
            definition::create_module(pg, id, module),
        ),
        Change::DropModule { id, kind } => one_module(definition::drop_module(pg, id, *kind)),
        Change::CreateRole { .. } => Err(Unbuilt::Roles.refuse()),
        Change::DropRole { .. } => Err(Unbuilt::Roles.refuse()),
        Change::RenameRole { .. } => Err(Unbuilt::Roles.refuse()),
        Change::Grant { .. } => Err(Unbuilt::Roles.refuse()),
        Change::Revoke { .. } => Err(Unbuilt::Roles.refuse()),
        Change::PublicExecution { .. } => Err(Unbuilt::Roles.refuse()),
        Change::InsertRow { .. } => Err(Unbuilt::ReferenceData.refuse()),
        Change::UpdateRow { .. } => Err(Unbuilt::ReferenceData.refuse()),
        Change::DeleteRow { .. } => Err(Unbuilt::ReferenceData.refuse()),
    }
}

} // verus!
