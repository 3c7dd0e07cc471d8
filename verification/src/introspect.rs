//! Reading a database back into declarations: the half that talks to no
//! server.
//!
//! The rows of the catalog arrive as the `Raw*` types, and [`assemble`] makes
//! of them the schema they describe and the list of what the schema cannot
//! say. Absent, empty and unreadable are three different things: a row that
//! cannot be expressed neither vanishes nor becomes a plausible guess, it is
//! named. A property of an object that the model has no word for leaves the
//! object out, because carried it would compare equal to one that behaves
//! differently; a fact about the rows already there leaves it in.
//!
//! A declaration is stored as text and read back by parsing it, and a name
//! that does not survive that takes its object out. What each text reads back
//! as is the format's to say, so its answers come as a [`ReadBack`], by the
//! text they are about; comparing them with what was written is done here.
//!
//! Expressions are carried as the engine spells them.
use vstd::prelude::*;
use vstd::slice::slice_subrange;

use crate::entries;
use crate::entries::Entry;
use crate::granted;
use crate::granted::{Role, RoleView};
use crate::lexer;
use crate::model;
use crate::model::{
    CheckConstraint, ColumnRef, ColumnType, ForeignKey, GrantTarget, Index, IndexColumn, Module,
    ModuleId, ModuleKind, ObjectName, PrimaryKey, Qualified, ReferentialAction, RoutineArg,
    TableName, UniqueConstraint,
};
use crate::text;

verus! {

// ---------------------------------------------------------------------------
// Rows

/// One ordinary table, as `pg_class` has it.
#[derive(Debug, Clone, PartialEq, Eq)]
pub struct RawTable {
    pub oid: i64,
    pub schema: String,
    pub name: String,
}

/// One module, with the whole statement this engine deparses for it.
#[derive(Debug, Clone, PartialEq, Eq)]
pub struct RawModule {
    pub oid: i64,
    /// `v`, `f`, `p` or `t`: `relkind` for a view, `prokind` for a routine.
    pub kind: char,
    pub schema: String,
    pub name: String,
    /// The table a trigger is on, empty for every other kind.
    pub on_table: String,
    pub definition: String,
}

/// One argument of one routine's identity, as `format_type` prints it under
/// the empty `search_path`.
#[derive(Debug, Clone, PartialEq, Eq)]
pub struct RawModuleArg {
    pub routine_oid: i64,
    pub position: i64,
    pub ty: String,
}

/// One live column of one table. A dropped column leaves a hole in `attnum`,
/// so it is an identifier and never a position.
#[derive(Debug, Clone, PartialEq, Eq)]
pub struct RawColumn {
    pub table_oid: i64,
    pub attnum: i32,
    pub name: String,
    /// The engine's own spelling of the type.
    pub ty: String,
    pub nullable: bool,
    /// The default, verbatim; a generated column's expression is here too.
    pub default: Option<String>,
    pub identity: Option<RawIdentity>,
    pub generated: bool,
    /// The sequence the column defaults from and owns.
    pub owned_sequence: Option<String>,
    /// The sequences the default uses and the column does not own, as one
    /// list.
    pub default_sequences: Option<String>,
    /// The column's collation, where it is not the one its type carries.
    pub collation: Option<String>,
}

/// The sequence behind an identity.
#[derive(Debug, Clone, Copy, PartialEq, Eq)]
pub struct RawIdentity {
    /// `true` for `GENERATED ALWAYS`, `false` for `GENERATED BY DEFAULT`.
    pub always: bool,
    pub seed: i64,
    pub increment: i64,
    pub min: i64,
    pub max: i64,
    pub cycles: bool,
    /// How many values a session takes at once.
    pub cache: i64,
}

/// One row of `pg_constraint`, whatever its kind: the set of kinds is the
/// engine's to add to.
#[derive(Debug, Clone, PartialEq, Eq)]
pub struct RawConstraint {
    pub table_oid: i64,
    pub name: String,
    /// `p` primary key, `u` unique, `f` foreign key, `c` check, `n` not null,
    /// `x` exclusion, `t` constraint trigger.
    pub kind: char,
    /// The constrained columns, by number.
    pub columns: Vec<i32>,
    /// The referenced columns, by their number on the referenced table.
    pub ref_columns: Vec<i32>,
    pub ref_table: Option<i64>,
    /// `a` NO ACTION, `r` RESTRICT, `c` CASCADE, `n` SET NULL, `d` SET
    /// DEFAULT.
    pub on_delete: char,
    pub on_update: char,
    pub validated: bool,
    pub deferrable: bool,
    pub deferred: bool,
    /// The whole clause, verbatim.
    pub definition: String,
    /// A check's expression, without the clause around it.
    pub expression: Option<String>,
    /// `s` MATCH SIMPLE, `f` MATCH FULL, `p` MATCH PARTIAL.
    pub match_type: char,
    /// The columns that an `ON DELETE SET` action names.
    pub delete_set_columns: Vec<i32>,
    /// The index the constraint is enforced by. For a foreign key it is the
    /// unique index of the referenced table that the key points at.
    pub index_oid: Option<i64>,
    pub enforced: bool,
    /// `WITHOUT OVERLAPS` on a key, `PERIOD` on a foreign key.
    pub period: bool,
    pub no_inherit: bool,
    /// A trigger that implements the constraint is not in the ordinary enable
    /// mode.
    pub triggers_not_ordinary: bool,
}

/// One row of `pg_index`.
#[derive(Debug, Clone, PartialEq, Eq)]
pub struct RawIndex {
    pub oid: i64,
    pub table_oid: i64,
    pub name: String,
    pub unique: bool,
    pub primary: bool,
    pub exclusion: bool,
    /// Whether the planner uses it.
    pub valid: bool,
    pub nulls_not_distinct: bool,
    /// How many of `columns` are key columns; the rest are the `INCLUDE`
    /// payload.
    pub key_count: usize,
    /// The columns by number. A `0` is an expression.
    pub columns: Vec<i32>,
    /// Bit 0 is DESC, bit 1 is NULLS FIRST.
    pub options: Vec<i32>,
    pub filter: Option<String>,
    pub has_expressions: bool,
    /// `btree`, `hash`, `gin`, ...
    pub method: String,
    /// A key column has an operator class or a collation of its own.
    pub nondefault_column_options: bool,
}

/// Everything one pull read.
#[derive(Debug, Clone, Default, PartialEq, Eq)]
pub struct RawCatalog {
    pub tables: Vec<RawTable>,
    pub columns: Vec<RawColumn>,
    pub constraints: Vec<RawConstraint>,
    pub indexes: Vec<RawIndex>,
    pub modules: Vec<RawModule>,
    pub module_args: Vec<RawModuleArg>,
    pub roles: Vec<RawRole>,
    pub grants: Vec<RawGrant>,
    /// One row for each argument of every routine a grant can name, in order.
    pub routine_args: Vec<RawModuleArg>,
    pub default_acls: Vec<RawDefaultAcl>,
    pub other_grants: Vec<RawOtherGrant>,
    pub held_elsewhere: Vec<RawSharedDependency>,
}

/// A role held by something outside this database.
#[derive(Debug, Clone, Default, PartialEq, Eq)]
pub struct RawSharedDependency {
    pub role: String,
    /// Absent for a shared object, which belongs to no one database.
    pub database: Option<String>,
    /// `o` owns, `a` is granted, `r` is named by a policy.
    pub deptype: char,
    pub objects: i64,
    /// The line that reports it as what stands in the way of dropping the
    /// role.
    pub rendered: String,
}

/// One principal that could hold a grant here.
#[derive(Debug, Clone, Default, PartialEq, Eq)]
pub struct RawRole {
    pub name: String,
    pub superuser: bool,
}

/// One permission of one grantee on one object.
#[derive(Debug, Clone, Default, PartialEq, Eq)]
pub struct RawGrant {
    /// Absent for PUBLIC.
    pub grantee: Option<String>,
    pub schema: String,
    /// Absent where the target is the schema itself.
    pub object: Option<String>,
    /// The routine, where the object is one.
    pub routine_oid: Option<i64>,
    pub kind: GrantedKind,
    /// The engine's own word.
    pub permission: String,
    /// `WITH GRANT OPTION`.
    pub grantable: bool,
    /// The column, for a grant on one column.
    pub column: Option<String>,
    /// The entry is the engine's default and nobody's grant.
    pub defaulted: bool,
    pub owner: String,
}

/// What a grant's target is, by the catalog its row came from: the two
/// alphabets overlap.
#[derive(Debug, Clone, Copy, PartialEq, Eq, Default)]
pub enum GrantedKind {
    /// `r` table, `v` view, `S` sequence, `m` materialized view, `p`
    /// partitioned table, `f` foreign table.
    Relation(char),
    /// `f` function, `p` procedure, `a` aggregate, `w` window function.
    Routine(char),
    #[default]
    Schema,
}

/// One grant in a catalog whose target the model cannot name at all.
#[derive(Debug, Clone, Default, PartialEq, Eq)]
pub struct RawOtherGrant {
    /// Absent for PUBLIC.
    pub grantee: Option<String>,
    /// The kind of object, in the words a message uses.
    pub class: String,
    pub name: String,
    pub permission: String,
    pub grantable: bool,
    /// The object's owner, where its catalog has one.
    pub owner: Option<String>,
}

/// One `ALTER DEFAULT PRIVILEGES` entry: a standing instruction on what one
/// role creates from now on.
#[derive(Debug, Clone, Default, PartialEq, Eq)]
pub struct RawDefaultAcl {
    pub grantor: String,
    /// Absent for every schema.
    pub in_schema: Option<String>,
    /// `r` tables and views, `S` sequences, `f` routines, `T` types, `n`
    /// schemas.
    pub objtype: char,
    pub acl: String,
}

// ---------------------------------------------------------------------------
// What the declaration format reads

/// A spelling of a type, read.
#[derive(Debug, Clone, PartialEq, Eq)]
pub struct ReadType {
    /// The type the text is.
    pub read: ColumnType,
    /// What the type catalogue normalizes it to, where it knows it.
    pub normal: Option<ColumnType>,
}

/// A spelling of a routine's argument type, read.
#[derive(Debug, Clone, PartialEq, Eq)]
pub enum ReadArg {
    As(RoutineArg),
    /// It cannot be one, and why.
    Refused(String),
}

/// The bounds a sequence has on a type where nothing asks for others.
#[derive(Debug, Clone, PartialEq, Eq)]
pub struct SequenceBounds {
    pub ty: String,
    pub increment: i64,
    pub min: i64,
    pub max: i64,
}

/// What the declaration format makes of the texts a pull would write. Each
/// answer stands under the text it is about, and a text without one does not
/// read.
#[derive(Debug, Clone, Default, PartialEq, Eq)]
pub struct ReadBack {
    pub tables: Vec<(String, TableName)>,
    pub columns: Vec<(String, ColumnRef)>,
    pub types: Vec<(String, ReadType)>,
    pub modules: Vec<(String, ModuleId)>,
    pub args: Vec<(String, ReadArg)>,
    pub targets: Vec<(String, GrantTarget)>,
    /// The model's word for the engine's.
    pub permissions: Vec<(String, String)>,
    pub bounds: Vec<SequenceBounds>,
}

/// The first answer for `key`, from `at` on.
pub open spec fn answer_from<T>(list: Seq<(String, T)>, key: Seq<char>, at: int) -> Option<T>
    decreases list.len() - at,
{
    if at < 0 || at >= list.len() {
        None
    } else if list[at].0@ == key {
        Some(list[at].1)
    } else {
        answer_from(list, key, at + 1)
    }
}

/// What a text reads as.
pub open spec fn answer<T>(list: Seq<(String, T)>, key: Seq<char>) -> Option<T> {
    answer_from(list, key, 0)
}

/// What a text reads as.
pub fn ask<'a, T>(list: &'a Vec<(String, T)>, key: &str) -> (r: Option<&'a T>)
    ensures
        match r {
            Some(v) => answer(list@, key@) == Some(*v),
            None => answer(list@, key@) is None,
        },
{
    let mut i: usize = 0;
    while i < list.len()
        invariant
            i <= list@.len(),
            answer(list@, key@) == answer_from(list@, key@, i as int),
        decreases list@.len() - i,
    {
        if text::same(list[i].0.as_str(), key) {
            return Some(&list[i].1);
        }
        i += 1;
    }
    None
}

/// The first answer on the bounds of a sequence, from `at` on.
pub open spec fn bounds_from(list: Seq<SequenceBounds>, ty: Seq<char>, increment: i64, at: int) ->
    Option<(i64, i64)>
    decreases list.len() - at,
{
    if at < 0 || at >= list.len() {
        None
    } else if list[at].ty@ == ty && list[at].increment == increment {
        Some((list[at].min, list[at].max))
    } else {
        bounds_from(list, ty, increment, at + 1)
    }
}

/// The bounds of a sequence of this increment on this type.
pub fn bounds(list: &Vec<SequenceBounds>, ty: &str, increment: i64) -> (r: Option<(i64, i64)>)
    ensures
        r == bounds_from(list@, ty@, increment, 0),
{
    let mut i: usize = 0;
    while i < list.len()
        invariant
            i <= list@.len(),
            bounds_from(list@, ty@, increment, 0) == bounds_from(list@, ty@, increment, i as int),
        decreases list@.len() - i,
    {
        if text::same(list[i].ty.as_str(), ty) && list[i].increment == increment {
            return Some((list[i].min, list[i].max));
        }
        i += 1;
    }
    None
}

// ---------------------------------------------------------------------------
// The schema that was read

/// The seed and the increment of an identity.
#[derive(Debug, Clone, Copy, PartialEq, Eq)]
pub struct Identity {
    pub seed: i64,
    pub increment: i64,
}

/// A column that was read.
#[derive(Debug, Clone, PartialEq, Eq)]
pub struct PulledColumn {
    pub ty: ColumnType,
    pub nullable: bool,
    pub default: Option<String>,
    pub identity: Option<Identity>,
}

/// What a column was read as.
#[verifier::ext_equal]
pub struct ColumnView {
    pub ty: model::TypeView,
    /// The type, as it is written.
    pub spelled: Seq<char>,
    pub nullable: bool,
    pub default: Option<Seq<char>>,
    pub identity: Option<Identity>,
}

impl View for PulledColumn {
    type V = ColumnView;

    open spec fn view(&self) -> ColumnView {
        ColumnView {
            ty: self.ty@,
            spelled: self.ty.spelled@,
            nullable: self.nullable,
            default: text::text_in(self.default),
            identity: self.identity,
        }
    }
}

/// A table that was read. Its columns stand in the catalog's order, and the
/// rest of it in the order of its names.
#[derive(Debug, Clone, Default, PartialEq, Eq)]
pub struct PulledTable {
    pub columns: Vec<(String, PulledColumn)>,
    pub primary_key: Option<PrimaryKey>,
    pub unique: Vec<(String, UniqueConstraint)>,
    pub checks: Vec<(String, CheckConstraint)>,
    pub foreign_keys: Vec<(String, ForeignKey)>,
    pub indexes: Vec<(String, Index)>,
}

/// What a table was read as.
#[verifier::ext_equal]
pub struct TableView {
    pub columns: Seq<Entry<ColumnView>>,
    pub primary_key: Option<(Option<Seq<char>>, Seq<Seq<char>>)>,
    pub unique: Seq<Entry<Seq<Seq<char>>>>,
    pub checks: Seq<Entry<Seq<char>>>,
    pub foreign_keys: Seq<Entry<model::ForeignKeyView>>,
    pub indexes: Seq<Entry<model::IndexView>>,
}

/// The columns and the name of an optional key.
pub open spec fn key_in(key: Option<PrimaryKey>) -> Option<(Option<Seq<char>>, Seq<Seq<char>>)> {
    match key {
        Some(key) => Some(key@),
        None => None,
    }
}

impl View for PulledTable {
    type V = TableView;

    open spec fn view(&self) -> TableView {
        TableView {
            columns: entries::entries(self.columns@),
            primary_key: key_in(self.primary_key),
            unique: entries::entries(self.unique@),
            checks: entries::entries(self.checks@),
            foreign_keys: entries::entries(self.foreign_keys@),
            indexes: entries::entries(self.indexes@),
        }
    }
}

/// A table with nothing in it.
pub open spec fn bare_table() -> TableView {
    TableView {
        columns: Seq::empty(),
        primary_key: None,
        unique: Seq::empty(),
        checks: Seq::empty(),
        foreign_keys: Seq::empty(),
        indexes: Seq::empty(),
    }
}

impl PulledTable {
    /// A table with nothing in it.
    pub fn new() -> (r: PulledTable)
        ensures
            r@ == bare_table(),
    {
        let r = PulledTable {
            columns: Vec::new(),
            primary_key: None,
            unique: Vec::new(),
            checks: Vec::new(),
            foreign_keys: Vec::new(),
            indexes: Vec::new(),
        };
        assert(r@ =~= bare_table());
        r
    }
}

/// The schema that was read, each part in the order of its names.
#[derive(Debug, Clone, Default, PartialEq, Eq)]
pub struct Schema {
    pub tables: Vec<(TableName, PulledTable)>,
    pub modules: Vec<(ModuleId, Module)>,
    pub roles: Vec<(String, Role)>,
}

/// One fact about the database that the model cannot hold, with the table it
/// belongs to.
#[derive(Debug, Clone, PartialEq, Eq, PartialOrd, Ord)]
pub struct Limitation {
    pub table: TableName,
    pub detail: String,
}

/// One permission the model cannot hold.
#[derive(Debug, Clone, PartialEq, Eq)]
pub struct Unexpressible {
    pub role: String,
    /// What the permission is on, where a declaration could name it.
    pub target: Option<GrantTarget>,
    /// The difference, in words.
    pub what: String,
}

/// What a pull found: the schema, and everything that could not be said.
#[derive(Debug, Clone, Default, PartialEq, Eq)]
pub struct Pulled {
    pub schema: Schema,
    /// Every limitation, in the order a reader should see them.
    pub warnings: Vec<String>,
    pub limitations: Vec<Limitation>,
    /// The permissions that are left out of the roles and that a comparison
    /// must not call clean.
    pub unexpressible: Vec<Unexpressible>,
}

/// What could not be said.
#[verifier::ext_equal]
pub struct Log {
    pub warnings: Seq<Seq<char>>,
    pub limitations: Seq<(Qualified, Seq<char>)>,
}

/// The limitations of a pull.
pub open spec fn limits(v: Seq<Limitation>) -> Seq<(Qualified, Seq<char>)> {
    Seq::new(v.len(), |i: int| (v[i].table@, v[i].detail@))
}

/// The log with these notes about a table at its end.
pub open spec fn noted(log: Log, table: Qualified, notes: Seq<Seq<char>>) -> Log {
    Log {
        warnings: log.warnings + notes,
        limitations: log.limitations + Seq::new(notes.len(), |i: int| (table, notes[i])),
    }
}

impl Pulled {
    /// What the pull could not say.
    pub open spec fn log(&self) -> Log {
        Log { warnings: text::texts(self.warnings@), limitations: limits(self.limitations@) }
    }
}

/// Notes facts about a table: each is a warning and a limitation.
fn note(pulled: &mut Pulled, table: &TableName, notes: Vec<String>)
    ensures
        final(pulled).log() == noted(old(pulled).log(), table@, text::texts(notes@)),
        final(pulled).schema == old(pulled).schema,
        final(pulled).unexpressible == old(pulled).unexpressible,
{
    let ghost start = pulled.log();
    let ghost said = text::texts(notes@);
    let ghost schema = pulled.schema;
    let ghost unexpressible = pulled.unexpressible;
    let mut i: usize = 0;
    assert(noted(start, table@, said.take(0)) =~= start);
    while i < notes.len()
        invariant
            i <= notes@.len(),
            said == text::texts(notes@),
            pulled.log() == noted(start, table@, said.take(i as int)),
            pulled.schema == schema,
            pulled.unexpressible == unexpressible,
        decreases notes@.len() - i,
    {
        let ghost warned = pulled.warnings@;
        let ghost limited = pulled.limitations@;
        let warning = notes[i].clone();
        pulled.warnings.push(warning);
        let limitation = Limitation { table: table.again(), detail: notes[i].clone() };
        pulled.limitations.push(limitation);
        proof {
            text::texts_push(warned, warning);
            assert(limits(pulled.limitations@) =~= limits(limited).push(
                (table@, notes@[i as int]@),
            ));
            assert(said.take(i + 1) =~= said.take(i as int).push(said[i as int]));
            assert(pulled.log() =~= noted(start, table@, said.take(i + 1)));
        }
        i += 1;
    }
    assert(said.take(i as int) =~= said);
}

/// Notes add up in any grouping.
proof fn regroup(a: Seq<Seq<char>>, b: Seq<Seq<char>>, c: Seq<Seq<char>>)
    ensures
        (a + b) + c == a + (b + c),
{
    assert((a + b) + c =~= a + (b + c));
}

/// A note, where it is called for.
pub open spec fn only_if(called_for: bool, note: Seq<char>) -> Seq<Seq<char>> {
    if called_for {
        seq![note]
    } else {
        Seq::empty()
    }
}

/// Adds a note.
pub(crate) fn say(notes: &mut Vec<String>, note: String)
    ensures
        text::texts(final(notes)@) == text::texts(old(notes)@) + seq![note@],
{
    let ghost before = notes@;
    notes.push(note);
    proof {
        text::texts_push(before, note);
        assert(text::texts(before).push(note@) =~= text::texts(before) + seq![note@]);
    }
}

// ---------------------------------------------------------------------------
// Types

/// The type a spelling is, where the catalogue normalizes it to itself.
pub open spec fn read_whole(read: ReadBack, ty: Seq<char>) -> Option<ColumnType> {
    match answer(read.types@, ty) {
        Some(t) => match t.normal {
            Some(normal) => if normal@ == t.read@ {
                Some(t.read)
            } else {
                None
            },
            None => None,
        },
        None => None,
    }
}

/// The engine's spelling kept whole, with no arguments.
pub open spec fn opaque(ty: Seq<char>) -> model::TypeView {
    model::TypeView { base: ty, args: Seq::empty() }
}

/// The type a column is recorded with.
pub open spec fn stored(read: ReadBack, ty: Seq<char>) -> model::TypeView {
    match read_whole(read, ty) {
        Some(t) => t@,
        None => opaque(ty),
    }
}

/// The type a column is recorded with, as a declaration writes it.
pub open spec fn stored_text(read: ReadBack, ty: Seq<char>) -> Seq<char> {
    match read_whole(read, ty) {
        Some(t) => t.spelled@,
        None => ty,
    }
}

/// The type a column is recorded with. The catalogue reads it, or it is kept
/// as the engine spells it.
pub fn stored_type(read: &ReadBack, ty: &str) -> (r: Result<ColumnType, ColumnType>)
    ensures
        match r {
            Ok(t) => read_whole(*read, ty@) is Some && t@ == stored(*read, ty@) && t.spelled@
                == stored_text(*read, ty@),
            Err(t) => read_whole(*read, ty@) is None && t@ == stored(*read, ty@) && t.spelled@
                == stored_text(*read, ty@),
        },
{
    if let Some(t) = ask(&read.types, ty) {
        if let Some(normal) = &t.normal {
            if normal.is(&t.read) {
                return Ok(t.read.again());
            }
        }
    }
    let kept = ColumnType { base: ty.to_owned(), args: Vec::new(), spelled: ty.to_owned() };
    assert(kept@.args =~= opaque(ty@).args);
    Err(kept)
}

/// Whether a type, written as `spelled`, reads back as the same type.
pub open spec fn survives(read: ReadBack, ty: model::TypeView, spelled: Seq<char>) -> bool {
    match answer(read.types@, spelled) {
        Some(t) => t.read@ == ty,
        None => false,
    }
}

/// Whether a type survives being written to a declaration and read back as
/// the same value. That it parses is not the question.
pub fn survives_the_declaration(read: &ReadBack, ty: &ColumnType) -> (r: bool)
    ensures
        r == survives(*read, ty@, ty.spelled@),
{
    match ask(&read.types, ty.spelled.as_str()) {
        Some(t) => t.read.is(ty),
        None => false,
    }
}

// ---------------------------------------------------------------------------
// Names a declaration cannot write

/// A column whose type cannot be written, as it is named.
pub const UNWRITABLE: &'static str = "`{}` (`{}`)";

/// The columns of a table, among the first `n`, whose types do not survive
/// the declaration.
pub open spec fn unwritable_columns(raw: RawCatalog, read: ReadBack, table: i64, n: int) -> Seq<
    Seq<char>,
>
    decreases n,
{
    if n <= 0 {
        Seq::empty()
    } else {
        let c = raw.columns@[n - 1];
        let front = unwritable_columns(raw, read, table, n - 1);
        if c.table_oid == table && !survives(
            read,
            stored(read, c.ty@),
            stored_text(read, c.ty@),
        ) {
            front.push(text::filled(UNWRITABLE@, seq![c.name@, c.ty@]))
        } else {
            front
        }
    }
}

/// Whether a column's name reads back as itself.
pub open spec fn column_reads_back(read: ReadBack, table: Qualified, column: Seq<char>) -> bool {
    match answer(read.columns@, model::column_text((table, column))) {
        Some(c) => c@ == (table, column),
        None => false,
    }
}

/// The first column of a table, from `at` on, whose name does not read back.
pub open spec fn lost_column(
    raw: RawCatalog,
    read: ReadBack,
    table: i64,
    name: Qualified,
    at: int,
) -> Option<Seq<char>>
    decreases raw.columns@.len() - at,
{
    if at < 0 || at >= raw.columns@.len() {
        None
    } else if raw.columns@[at].table_oid == table && !column_reads_back(
        read,
        name,
        raw.columns@[at].name@,
    ) {
        Some(raw.columns@[at].name@)
    } else {
        lost_column(raw, read, table, name, at + 1)
    }
}

/// Whether a table's name reads back as itself.
pub open spec fn table_reads_back(read: ReadBack, name: Qualified) -> bool {
    match answer(read.tables@, model::dotted(name)) {
        Some(t) => t@ == name,
        None => false,
    }
}

/// Columns whose types cannot be written.
pub const UNWRITABLE_TYPES: &'static str =
    "`{}` has {} whose type this dialect's catalogue cannot spell and the \
             declaration format cannot write back either — a type is stored as its own spelling \
             and read by parsing it, and these do not survive that: {}. The whole table is left \
             out of the pull, because a schema that can be written and not loaded is worse than \
             one that says a table is missing (issue #130).";

/// A table whose name cannot be written.
pub const UNWRITABLE_TABLE: &'static str =
    "`{}` is a table whose name the declaration format cannot write back: it is \
             stored as `schema.table` and read by splitting on every `.`, and this one does not \
             survive that. It is left out of the pull entirely rather than pulled into a schema \
             that will not load.";

/// A column whose name cannot be written.
pub const UNWRITABLE_COLUMN: &'static str =
    "`{}` has the column `{}`, whose name the declaration format cannot write \
                 back: a column is addressed as `schema.table.column` and read by splitting on \
                 every `.`. The whole table is left out of the pull, because a table missing one \
                 column is a table a plan would add it to.";

/// One column or several.
pub open spec fn a_column(n: int) -> Seq<char> {
    if n == 1 {
        "a column"@
    } else {
        "columns"@
    }
}

/// Between two items of a list.
pub const COMMA: &'static str = ", ";

/// The name of a table row.
pub open spec fn name_of(t: RawTable) -> Qualified {
    (t.schema@, t.name@)
}

/// Why a table cannot be recorded at all, if it cannot.
pub open spec fn unwritable(raw: RawCatalog, read: ReadBack, t: RawTable) -> Option<Seq<char>> {
    let name = name_of(t);
    let types = unwritable_columns(raw, read, t.oid, raw.columns@.len() as int);
    if types.len() > 0 {
        Some(
            text::filled(
                UNWRITABLE_TYPES@,
                seq![
                    model::dotted(name),
                    a_column(types.len() as int),
                    text::joined(types, COMMA@),
                ],
            ),
        )
    } else if !table_reads_back(read, name) {
        Some(text::filled(UNWRITABLE_TABLE@, seq![model::dotted(name)]))
    } else {
        match lost_column(raw, read, t.oid, name, 0) {
            Some(column) => Some(
                text::filled(UNWRITABLE_COLUMN@, seq![model::dotted(name), column]),
            ),
            None => None,
        }
    }
}

/// The columns of a table whose types do not survive the declaration.
fn columns_that_do_not_survive(raw: &RawCatalog, read: &ReadBack, table: i64) -> (r: Vec<String>)
    ensures
        text::texts(r@) == unwritable_columns(*raw, *read, table, raw.columns@.len() as int),
{
    let mut out: Vec<String> = Vec::new();
    let mut i: usize = 0;
    assert(text::texts(out@) =~= Seq::<Seq<char>>::empty());
    while i < raw.columns.len()
        invariant
            i <= raw.columns@.len(),
            text::texts(out@) == unwritable_columns(*raw, *read, table, i as int),
        decreases raw.columns@.len() - i,
    {
        let c = &raw.columns[i];
        if c.table_oid == table {
            let ty = match stored_type(read, c.ty.as_str()) {
                Ok(ty) => ty,
                Err(ty) => ty,
            };
            if !survives_the_declaration(read, &ty) {
                let ghost before = out@;
                let named = text::fill2(UNWRITABLE, c.name.as_str(), c.ty.as_str());
                out.push(named);
                proof {
                    text::texts_push(before, named);
                }
            }
        }
        i += 1;
    }
    out
}

/// Why a table cannot be recorded at all, if it cannot. The round trip is
/// performed on every name it has and on every type.
pub fn a_name_the_declaration_cannot_write(raw: &RawCatalog, read: &ReadBack, t: &RawTable) -> (r:
    Option<String>)
    ensures
        text::text_in(r) == unwritable(*raw, *read, *t),
{
    let name = TableName::new(t.schema.as_str(), t.name.as_str());
    let shown = name.show();
    let types = columns_that_do_not_survive(raw, read, t.oid);
    assert(types@.len() == text::texts(types@).len());
    if types.len() > 0 {
        let count = if types.len() == 1 {
            "a column"
        } else {
            "columns"
        };
        let list = text::join(&types, COMMA);
        return Some(text::fill3(UNWRITABLE_TYPES, shown.as_str(), count, list.as_str()));
    }
    let reads = match ask(&read.tables, shown.as_str()) {
        Some(back) => back.is(&name),
        None => false,
    };
    if !reads {
        return Some(text::fill1(UNWRITABLE_TABLE, shown.as_str()));
    }
    let mut i: usize = 0;
    while i < raw.columns.len()
        invariant
            i <= raw.columns@.len(),
            name@ == name_of(*t),
            shown@ == model::dotted(name@),
            lost_column(*raw, *read, t.oid, name@, 0) == lost_column(
                *raw,
                *read,
                t.oid,
                name@,
                i as int,
            ),
            unwritable(*raw, *read, *t) == (match lost_column(*raw, *read, t.oid, name@, 0) {
                Some(column) => Some(
                    text::filled(UNWRITABLE_COLUMN@, seq![model::dotted(name@), column]),
                ),
                None => None,
            }),
        decreases raw.columns@.len() - i,
    {
        let c = &raw.columns[i];
        if c.table_oid == t.oid {
            let reference = name.column(c.name.as_str());
            let written = reference.show();
            let reads = match ask(&read.columns, written.as_str()) {
                Some(back) => back.is(&reference),
                None => false,
            };
            if !reads {
                return Some(
                    text::fill2(UNWRITABLE_COLUMN, shown.as_str(), c.name.as_str()),
                );
            }
        }
        i += 1;
    }
    None
}

// ---------------------------------------------------------------------------
// Columns

/// The `CACHE` a sequence has when nothing asks for one.
pub const DEFAULT_SEQUENCE_CACHE: i64 = 1;

pub const OPAQUE_TYPE: &'static str =
    "column `{}`.`{}` has the type `{}`, which this dialect's catalogue cannot \
                     spell. It is read back as an opaque type, so a plan will not try to change \
                     it and drift on it cannot be seen (issue #130).";

pub const GENERATED_COLUMN: &'static str =
    "column `{}`.`{}` is a generated column, which this model does not hold. Its \
                 expression is `{}`, and it is **not** read back as a `default:` — a default is \
                 computed once when a row is inserted, and this is recomputed on every write.";

pub const OWNED_SEQUENCE: &'static str =
    "column `{}`.`{}` defaults from the sequence `{}`, which it owns — the \
                 shape `serial` creates. This model holds the default and has nowhere to put the \
                 sequence, so a declaration pulled from here does not create it, and a rebuild \
                 of this table can drop it before the default is applied again.";

pub const FOREIGN_SEQUENCE: &'static str =
    "column `{}`.`{}` defaults from the sequence {}, which it does not own. \
                 This model holds the default and has nowhere to put the sequence, so a \
                 declaration pulled from here creates a table whose default names an object that \
                 is not there — and `nextval` resolves that name when the table is created, not \
                 when a row is inserted.";

pub const COLLATED: &'static str =
    "column `{}`.`{}` is `COLLATE \"{}\"`, and this model holds only the \
                 type. Read back it is a column with the type's own collation, which orders and \
                 compares differently — so a unique key over it accepts a different set of \
                 values.";

pub const BY_DEFAULT: &'static str =
    "column `{}`.`{}` is `GENERATED BY DEFAULT AS IDENTITY`, and this model holds \
                     only the seed and the increment. Read back it is indistinguishable from \
                     `GENERATED ALWAYS`, which is the one a plan would emit.";

pub const OTHER_BOUNDS: &'static str =
    "column `{}`.`{}` has an `identity:` whose sequence runs {}..={}{}, and this \
                     model holds only the seed and the increment. Read back it is an identity \
                     with this engine's default bounds, which runs out — or wraps — somewhere \
                     else.";

pub const OTHER_CACHE: &'static str =
    "column `{}`.`{}` has an `identity:` whose sequence is `CACHE {}`, and this \
                     model holds only the seed and the increment. Read back it is an identity \
                     with this engine's default `CACHE {}`: recreating it \
                     changes how many values a session takes at once, and so how many are \
                     skipped when one ends.";

/// The expression of a generated column.
pub open spec fn generated_text(default: Option<String>) -> Seq<char> {
    match default {
        Some(expression) => expression@,
        None => "not readable"@,
    }
}

/// A note that names something the column has, where it has it.
pub open spec fn named_note(
    template: Seq<char>,
    table: Seq<char>,
    column: Seq<char>,
    what: Option<String>,
) -> Seq<Seq<char>> {
    match what {
        Some(what) => seq![text::filled(template, seq![table, column, what@])],
        None => Seq::empty(),
    }
}

/// Whether a sequence has the bounds it would be recreated with.
pub open spec fn has_usual_bounds(read: ReadBack, ty: Seq<char>, id: RawIdentity) -> bool {
    bounds_from(read.bounds@, ty, id.increment, 0) == Some((id.min, id.max))
}

/// What is said of a sequence that wraps.
pub open spec fn cycling(cycles: bool) -> Seq<char> {
    if cycles {
        " and cycles"@
    } else {
        ""@
    }
}

/// The note on a sequence's bounds.
pub open spec fn bounds_note(table: Seq<char>, column: Seq<char>, id: RawIdentity) -> Seq<char> {
    text::filled(
        OTHER_BOUNDS@,
        seq![
            table,
            column,
            text::decimal_int(id.min as int),
            text::decimal_int(id.max as int),
            cycling(id.cycles),
        ],
    )
}

/// What an identity has that the model has nowhere to put.
pub open spec fn identity_notes(
    read: ReadBack,
    table: Seq<char>,
    c: RawColumn,
) -> Seq<Seq<char>> {
    match c.identity {
        Some(id) => only_if(!id.always, text::filled(BY_DEFAULT@, seq![table, c.name@])) + only_if(
            !has_usual_bounds(read, c.ty@, id) || id.cycles,
            bounds_note(table, c.name@, id),
        ) + only_if(
            id.cache != DEFAULT_SEQUENCE_CACHE,
            text::filled(
                OTHER_CACHE@,
                seq![
                    table,
                    c.name@,
                    text::decimal_int(id.cache as int),
                    text::decimal_int(DEFAULT_SEQUENCE_CACHE as int),
                ],
            ),
        ),
        None => Seq::empty(),
    }
}

/// Everything about a column that the model has nowhere to put.
pub open spec fn column_notes(read: ReadBack, c: RawColumn, table: Qualified) -> Seq<Seq<char>> {
    let t = model::dotted(table);
    only_if(
        read_whole(read, c.ty@) is None,
        text::filled(OPAQUE_TYPE@, seq![t, c.name@, c.ty@]),
    ) + only_if(
        c.generated,
        text::filled(GENERATED_COLUMN@, seq![t, c.name@, generated_text(c.default)]),
    ) + named_note(OWNED_SEQUENCE@, t, c.name@, c.owned_sequence) + named_note(
        FOREIGN_SEQUENCE@,
        t,
        c.name@,
        c.default_sequences,
    ) + named_note(COLLATED@, t, c.name@, c.collation) + identity_notes(read, t, c)
}

/// The identity of a column.
pub open spec fn identity_of(c: RawColumn) -> Option<Identity> {
    match c.identity {
        Some(id) => Some(Identity { seed: id.seed, increment: id.increment }),
        None => None,
    }
}

/// What a column is read as. The expression of a generated column is not its
/// default.
pub open spec fn column_read(read: ReadBack, c: RawColumn) -> ColumnView {
    ColumnView {
        ty: stored(read, c.ty@),
        spelled: stored_text(read, c.ty@),
        nullable: c.nullable,
        default: if c.generated {
            None
        } else {
            text::text_in(c.default)
        },
        identity: identity_of(c),
    }
}

/// Says a note that names something the column has, where it has it.
fn say_named(
    notes: &mut Vec<String>,
    template: &str,
    table: &str,
    column: &str,
    what: &Option<String>,
)
    ensures
        text::texts(final(notes)@) == text::texts(old(notes)@) + named_note(
            template@,
            table@,
            column@,
            *what,
        ),
{
    match what {
        Some(what) => say(notes, text::fill3(template, table, column, what.as_str())),
        None => {
            assert(text::texts(notes@) + Seq::<Seq<char>>::empty() =~= text::texts(notes@));
        },
    }
}

/// Says what an identity has that the model has nowhere to put.
fn say_identity(notes: &mut Vec<String>, read: &ReadBack, table: &str, c: &RawColumn)
    ensures
        text::texts(final(notes)@) == text::texts(old(notes)@) + identity_notes(*read, table@, *c),
{
    let ghost start = text::texts(notes@);
    match c.identity {
        Some(id) => {
            let ghost mut said = only_if(
                !id.always,
                text::filled(BY_DEFAULT@, seq![table@, c.name@]),
            );
            if !id.always {
                say(notes, text::fill2(BY_DEFAULT, table, c.name.as_str()));
            }
            assert(text::texts(notes@) =~= start + said);
            let usual = match bounds(&read.bounds, c.ty.as_str(), id.increment) {
                Some((min, max)) => id.min == min && id.max == max,
                None => false,
            };
            if !usual || id.cycles {
                let wraps = if id.cycles {
                    " and cycles"
                } else {
                    ""
                };
                let min = text::show_int(id.min);
                let max = text::show_int(id.max);
                say(
                    notes,
                    text::fill5(
                        OTHER_BOUNDS,
                        table,
                        c.name.as_str(),
                        min.as_str(),
                        max.as_str(),
                        wraps,
                    ),
                );
            }
            proof {
                said = said + only_if(
                    !has_usual_bounds(*read, c.ty@, id) || id.cycles,
                    bounds_note(table@, c.name@, id),
                );
            }
            assert(text::texts(notes@) =~= start + said);
            if id.cache != DEFAULT_SEQUENCE_CACHE {
                let cache = text::show_int(id.cache);
                let usual_cache = text::show_int(DEFAULT_SEQUENCE_CACHE);
                say(
                    notes,
                    text::fill4(
                        OTHER_CACHE,
                        table,
                        c.name.as_str(),
                        cache.as_str(),
                        usual_cache.as_str(),
                    ),
                );
            }
            assert(text::texts(notes@) =~= start + identity_notes(*read, table@, *c));
        },
        None => {
            assert(start + Seq::<Seq<char>>::empty() =~= start);
        },
    }
}

/// One column, and everything about it the model has nowhere to put.
fn column(read: &ReadBack, c: &RawColumn, table: &TableName, notes: &mut Vec<String>) -> (r:
    PulledColumn)
    ensures
        r@ == column_read(*read, *c),
        text::texts(final(notes)@) == text::texts(old(notes)@) + column_notes(*read, *c, table@),
{
    let ghost start = text::texts(notes@);
    let shown = table.show();
    let t = shown.as_str();
    let ghost mut said = only_if(
        read_whole(*read, c.ty@) is None,
        text::filled(OPAQUE_TYPE@, seq![t@, c.name@, c.ty@]),
    );
    let ty = match stored_type(read, c.ty.as_str()) {
        Ok(ty) => ty,
        Err(kept) => {
            say(notes, text::fill3(OPAQUE_TYPE, t, c.name.as_str(), c.ty.as_str()));
            kept
        },
    };
    assert(text::texts(notes@) =~= start + said);
    if c.generated {
        let expression = match &c.default {
            Some(expression) => expression.as_str(),
            None => "not readable",
        };
        say(notes, text::fill3(GENERATED_COLUMN, t, c.name.as_str(), expression));
    }
    proof {
        let generated = only_if(
            c.generated,
            text::filled(GENERATED_COLUMN@, seq![t@, c.name@, generated_text(c.default)]),
        );
        assert((start + said) + generated =~= text::texts(notes@));
        regroup(start, said, generated);
        said = said + generated;
    }
    say_named(notes, OWNED_SEQUENCE, t, c.name.as_str(), &c.owned_sequence);
    proof {
        let owned = named_note(OWNED_SEQUENCE@, t@, c.name@, c.owned_sequence);
        regroup(start, said, owned);
        said = said + owned;
    }
    say_named(notes, FOREIGN_SEQUENCE, t, c.name.as_str(), &c.default_sequences);
    proof {
        let used = named_note(FOREIGN_SEQUENCE@, t@, c.name@, c.default_sequences);
        regroup(start, said, used);
        said = said + used;
    }
    say_named(notes, COLLATED, t, c.name.as_str(), &c.collation);
    proof {
        let collated = named_note(COLLATED@, t@, c.name@, c.collation);
        regroup(start, said, collated);
        said = said + collated;
    }
    say_identity(notes, read, t, c);
    proof {
        regroup(start, said, identity_notes(*read, t@, *c));
    }
    let default = if c.generated {
        None
    } else {
        match &c.default {
            Some(default) => Some(default.clone()),
            None => None,
        }
    };
    let identity = match c.identity {
        Some(id) => Some(Identity { seed: id.seed, increment: id.increment }),
        None => None,
    };
    PulledColumn { ty, nullable: c.nullable, default, identity }
}

// ---------------------------------------------------------------------------
// Columns by number

/// The name of the column with this number on this table, among the first `n`:
/// the last that was read.
pub open spec fn column_named(columns: Seq<RawColumn>, n: int, table: i64, attnum: i32) -> Option<
    Seq<char>,
>
    decreases n,
{
    if n <= 0 {
        None
    } else if columns[n - 1].table_oid == table && columns[n - 1].attnum == attnum {
        Some(columns[n - 1].name@)
    } else {
        column_named(columns, n - 1, table, attnum)
    }
}

/// The names behind the first `k` numbers, or the first number that has none.
pub open spec fn names_of(columns: Seq<RawColumn>, table: i64, attnums: Seq<i32>, k: int) -> Result<
    Seq<Seq<char>>,
    i32,
>
    decreases k,
{
    if k <= 0 {
        Ok(Seq::empty())
    } else {
        match names_of(columns, table, attnums, k - 1) {
            Ok(front) => match column_named(
                columns,
                columns.len() as int,
                table,
                attnums[k - 1],
            ) {
                Some(name) => Ok(front.push(name)),
                None => Err(attnums[k - 1]),
            },
            Err(attnum) => Err(attnum),
        }
    }
}

/// The names behind some numbers, or the first number that has none.
pub open spec fn names_behind(columns: Seq<RawColumn>, table: i64, attnums: Seq<i32>) -> Result<
    Seq<Seq<char>>,
    i32,
> {
    names_of(columns, table, attnums, attnums.len() as int)
}

/// The name of the column with this number on this table.
fn column_name(columns: &Vec<RawColumn>, table: i64, attnum: i32) -> (r: Option<String>)
    ensures
        text::text_in(r) == column_named(columns@, columns@.len() as int, table, attnum),
{
    let mut n: usize = columns.len();
    while n > 0
        invariant
            n <= columns@.len(),
            column_named(columns@, columns@.len() as int, table, attnum) == column_named(
                columns@,
                n as int,
                table,
                attnum,
            ),
        decreases n,
    {
        if columns[n - 1].table_oid == table && columns[n - 1].attnum == attnum {
            return Some(columns[n - 1].name.clone());
        }
        n -= 1;
    }
    None
}

/// An outcome over texts.
pub open spec fn named_texts(r: Result<Vec<String>, i32>) -> Result<Seq<Seq<char>>, i32> {
    match r {
        Ok(names) => Ok(text::texts(names@)),
        Err(attnum) => Err(attnum),
    }
}

/// The names behind some numbers, or the first number that has none.
pub fn names(columns: &Vec<RawColumn>, table: i64, attnums: &[i32]) -> (r: Result<
    Vec<String>,
    i32,
>)
    ensures
        named_texts(r) == names_behind(columns@, table, attnums@),
{
    let mut out: Vec<String> = Vec::new();
    let mut i: usize = 0;
    assert(text::texts(out@) =~= Seq::<Seq<char>>::empty());
    while i < attnums.len()
        invariant
            i <= attnums@.len(),
            names_of(columns@, table, attnums@, i as int) == Ok::<Seq<Seq<char>>, i32>(
                text::texts(out@),
            ),
        decreases attnums@.len() - i,
    {
        match column_name(columns, table, attnums[i]) {
            Some(name) => {
                let ghost before = out@;
                out.push(name);
                proof {
                    text::texts_push(before, name);
                }
            },
            None => {
                proof {
                    stops_at(columns@, table, attnums@, i as int, attnums@.len() as int);
                }
                return Err(attnums[i]);
            },
        }
        i += 1;
    }
    Ok(out)
}

/// The first number without a name is the outcome, whatever follows it.
proof fn stops_at(columns: Seq<RawColumn>, table: i64, attnums: Seq<i32>, at: int, k: int)
    requires
        0 <= at < k <= attnums.len(),
        names_of(columns, table, attnums, at) is Ok,
        column_named(columns, columns.len() as int, table, attnums[at]) is None,
    ensures
        names_of(columns, table, attnums, k) == Err::<Seq<Seq<char>>, i32>(attnums[at]),
    decreases k,
{
    if k > at + 1 {
        stops_at(columns, table, attnums, at, k - 1);
    }
}

/// A number with no live column behind it.
pub const UNRESOLVED: &'static str =
    "{} `{}` on `{}` names column number {}, which this pull did not read \
             back. It is left out rather than read back with a column missing, because a key with \
             fewer columns than it has is a different key.";

/// The note on a number with no live column behind it.
pub open spec fn unresolved_note(
    kind: Seq<char>,
    name: Seq<char>,
    table: Qualified,
    attnum: i32,
) -> Seq<char> {
    text::filled(
        UNRESOLVED@,
        seq![kind, name, model::dotted(table), text::decimal_int(attnum as int)],
    )
}

/// The note on a number with no live column behind it.
fn unresolved(kind: &str, name: &str, table: &TableName, attnum: i32) -> (r: String)
    ensures
        r@ == unresolved_note(kind@, name@, table@, attnum),
{
    let shown = table.show();
    let number = text::show_int(attnum as i64);
    text::fill4(UNRESOLVED, kind, name, shown.as_str(), number.as_str())
}

// ---------------------------------------------------------------------------
// Constraints

pub const NOT_ENFORCED: &'static str =
    "constraint `{}` on `{}` is `NOT ENFORCED`: the engine records it and checks \
                     nothing against it, ever. This model has no word for that — read back it is \
                     an ordinary constraint, which a plan would recreate as one that enforces — \
                     so it is left out. Its definition is `{}`.";

pub const NO_INHERIT: &'static str =
    "check constraint `{}` on `{}` is `NO INHERIT`: it holds for this table's own \
                     rows and for no table that inherits from it. This model holds only the \
                     expression, so it is left out rather than read back as a check a plan would \
                     recreate on the children too. Its definition is `{}`.";

pub const TRIGGERS_NOT_ORDINARY: &'static str =
    "constraint `{}` on `{}` is implemented by triggers that are not in the \
                     ordinary enable mode — `DISABLE TRIGGER` and the replica modes both land \
                     here — while the catalog still calls the constraint validated and enforced. \
                     This model holds only the constraint, so it is left out rather than read \
                     back as one whose checks are running. Its definition is `{}`.";

pub const TEMPORAL: &'static str =
    "constraint `{}` on `{}` is temporal — `WITHOUT OVERLAPS` on a key, `PERIOD` \
                     on a foreign key — and it carries the `contype` of an ordinary one. What it \
                     asks is about ranges, not values, and this model holds only the columns, so \
                     it is left out rather than read back as the constraint it is not. Its \
                     definition is `{}`.";

pub const COVERING: &'static str =
    "constraint `{}` on `{}` is enforced by an index with an `INCLUDE` payload, \
                     and this model holds a key constraint's key columns and nothing else. Read \
                     back it is the same constraint over a narrower index, so it is left out \
                     rather than read back as one that covers less than it does.";

pub const ONE_NULL: &'static str =
    "constraint `{}` on `{}` is enforced by a `NULLS NOT DISTINCT` index, so it \
                     admits at most one null key where an ordinary unique constraint admits any \
                     number. This model holds only `unique`, so the constraint is left out \
                     rather than read back as the weaker one it is not.";

pub const DEFERRABLE: &'static str =
    "constraint `{}` on `{}` is `DEFERRABLE{}`, and this model holds neither \
                     word. Read back as an ordinary constraint it compares equal to one that is \
                     checked immediately — so a transaction that relies on `SET CONSTRAINTS`, or \
                     on rows that violate it in the middle of one, would break with no plan \
                     saying anything had changed. Its definition is `{}`.";

pub const CHECK_NOT_VALID: &'static str =
    "check constraint `{}` on `{}` is `NOT VALID`: it holds for new rows and \
                         has never been checked against the rows already there. This model holds \
                         only the expression, so it is read back as an ordinary check.";

pub const CHECK_UNREADABLE: &'static str =
    "check constraint `{}` on `{}` has no readable expression, so it is left \
                         out. Its definition is `{}`.";

pub const EXCLUSION: &'static str =
    "`{}` on `{}` is an exclusion constraint, which this model does not hold. It is \
                 left out of the pull, so a plan cannot see it and `verify` cannot report a \
                 change to it.";

pub const UNKNOWN_KIND: &'static str =
    "constraint `{}` on `{}` is of kind `{}`, which this dialect does not read. \
                 Its definition is `{}`.";

/// What a constraint leaves in its table.
pub enum Kept {
    Nothing,
    PrimaryKey { name: Seq<char>, columns: Seq<Seq<char>> },
    Unique { name: Seq<char>, columns: Seq<Seq<char>> },
    Check { name: Seq<char>, expression: Seq<char> },
    ForeignKey { name: Seq<char>, key: model::ForeignKeyView },
}

/// What a constraint is read as, and what is said of it.
#[verifier::ext_equal]
pub struct Outcome {
    pub notes: Seq<Seq<char>>,
    pub kept: Kept,
}

/// Left out, with one note.
pub open spec fn left_out(note: Seq<char>) -> Outcome {
    Outcome { notes: seq![note], kept: Kept::Nothing }
}

/// Whether a constraint reached the pull.
pub open spec fn reached(kept: Kept) -> bool {
    !(kept is Nothing)
}

/// A table with what a constraint leaves in it.
pub open spec fn with_kept(table: TableView, kept: Kept) -> TableView {
    match kept {
        Kept::Nothing => table,
        Kept::PrimaryKey { name, columns } => TableView {
            primary_key: Some((Some(name), columns)),
            ..table
        },
        Kept::Unique { name, columns } => TableView {
            unique: entries::put(table.unique, seq![name], columns),
            ..table
        },
        Kept::Check { name, expression } => TableView {
            checks: entries::put(table.checks, seq![name], expression),
            ..table
        },
        Kept::ForeignKey { name, key } => TableView {
            foreign_keys: entries::put(table.foreign_keys, seq![name], key),
            ..table
        },
    }
}

/// Whether the index carries an `INCLUDE` payload.
pub open spec fn covers(i: RawIndex, oid: i64) -> bool {
    i.oid == oid && i.columns@.len() > i.key_count
}

/// Whether one of the indexes has this number and carries an `INCLUDE` payload.
pub open spec fn has_payload(indexes: Seq<RawIndex>, oid: i64) -> bool {
    exists|k: int| 0 <= k < indexes.len() && #[trigger] covers(indexes[k], oid)
}

/// Whether an index carries an `INCLUDE` payload.
pub open spec fn is_covering(indexes: Seq<RawIndex>, oid: Option<i64>) -> bool {
    match oid {
        Some(wanted) => has_payload(indexes, wanted),
        None => false,
    }
}

/// Whether the index admits at most one null key.
pub open spec fn one_null(i: RawIndex, oid: i64) -> bool {
    i.oid == oid && i.nulls_not_distinct
}

/// Whether one of the indexes has this number and admits at most one null key.
pub open spec fn has_one_null(indexes: Seq<RawIndex>, oid: i64) -> bool {
    exists|k: int| 0 <= k < indexes.len() && #[trigger] one_null(indexes[k], oid)
}

/// Whether an index admits at most one null key.
pub open spec fn is_one_null(indexes: Seq<RawIndex>, oid: Option<i64>) -> bool {
    match oid {
        Some(wanted) => has_one_null(indexes, wanted),
        None => false,
    }
}

/// Whether the index a constraint is enforced by carries a payload.
fn enforced_by_covering(indexes: &Vec<RawIndex>, oid: Option<i64>) -> (r: bool)
    ensures
        r == is_covering(indexes@, oid),
{
    match oid {
        Some(wanted) => {
            let mut k: usize = 0;
            while k < indexes.len()
                invariant
                    k <= indexes@.len(),
                    oid == Some(wanted),
                    forall|j: int| 0 <= j < k ==> !#[trigger] covers(indexes@[j], wanted),
                decreases indexes@.len() - k,
            {
                if indexes[k].oid == wanted && indexes[k].columns.len() > indexes[k].key_count {
                    assert(covers(indexes@[k as int], wanted));
                    assert(has_payload(indexes@, wanted));
                    return true;
                }
                k += 1;
            }
            false
        },
        None => false,
    }
}

/// Whether the index a constraint is enforced by admits one null key.
fn enforced_by_one_null(indexes: &Vec<RawIndex>, oid: Option<i64>) -> (r: bool)
    ensures
        r == is_one_null(indexes@, oid),
{
    match oid {
        Some(wanted) => {
            let mut k: usize = 0;
            while k < indexes.len()
                invariant
                    k <= indexes@.len(),
                    oid == Some(wanted),
                    forall|j: int| 0 <= j < k ==> !#[trigger] one_null(indexes@[j], wanted),
                decreases indexes@.len() - k,
            {
                if indexes[k].oid == wanted && indexes[k].nulls_not_distinct {
                    assert(one_null(indexes@[k as int], wanted));
                    assert(has_one_null(indexes@, wanted));
                    return true;
                }
                k += 1;
            }
            false
        },
        None => false,
    }
}

/// The kinds that a declaration could hold, and the exclusion.
pub open spec fn is_known_kind(kind: char) -> bool {
    kind == 'p' || kind == 'u' || kind == 'f' || kind == 'c' || kind == 'x'
}

/// What follows `DEFERRABLE`.
pub open spec fn deferral(deferred: bool) -> Seq<char> {
    if deferred {
        " INITIALLY DEFERRED"@
    } else {
        ""@
    }
}

/// The property that leaves a constraint out whatever its kind makes of it, as
/// it is said.
pub open spec fn disqualified(indexes: Seq<RawIndex>, c: RawConstraint, table: Seq<char>) -> Option<
    Seq<char>,
> {
    let key = c.kind == 'p' || c.kind == 'u';
    if is_known_kind(c.kind) && !c.enforced {
        Some(text::filled(NOT_ENFORCED@, seq![c.name@, table, c.definition@]))
    } else if c.kind == 'c' && c.no_inherit {
        Some(text::filled(NO_INHERIT@, seq![c.name@, table, c.definition@]))
    } else if is_known_kind(c.kind) && c.triggers_not_ordinary {
        Some(text::filled(TRIGGERS_NOT_ORDINARY@, seq![c.name@, table, c.definition@]))
    } else if is_known_kind(c.kind) && c.period {
        Some(text::filled(TEMPORAL@, seq![c.name@, table, c.definition@]))
    } else if key && is_covering(indexes, c.index_oid) {
        Some(text::filled(COVERING@, seq![c.name@, table]))
    } else if key && is_one_null(indexes, c.index_oid) {
        Some(text::filled(ONE_NULL@, seq![c.name@, table]))
    } else if (key || c.kind == 'f') && c.deferrable {
        Some(
            text::filled(
                DEFERRABLE@,
                seq![c.name@, table, deferral(c.deferred), c.definition@],
            ),
        )
    } else {
        None
    }
}

/// The property that leaves a constraint out whatever its kind makes of it.
fn what_disqualifies(indexes: &Vec<RawIndex>, c: &RawConstraint, table: &str) -> (r: Option<String>)
    ensures
        text::text_in(r) == disqualified(indexes@, *c, table@),
{
    let name = c.name.as_str();
    let definition = c.definition.as_str();
    let key = c.kind == 'p' || c.kind == 'u';
    let known = key || c.kind == 'f' || c.kind == 'c' || c.kind == 'x';
    if known && !c.enforced {
        Some(text::fill3(NOT_ENFORCED, name, table, definition))
    } else if c.kind == 'c' && c.no_inherit {
        Some(text::fill3(NO_INHERIT, name, table, definition))
    } else if known && c.triggers_not_ordinary {
        Some(text::fill3(TRIGGERS_NOT_ORDINARY, name, table, definition))
    } else if known && c.period {
        Some(text::fill3(TEMPORAL, name, table, definition))
    } else if key && enforced_by_covering(indexes, c.index_oid) {
        Some(text::fill2(COVERING, name, table))
    } else if key && enforced_by_one_null(indexes, c.index_oid) {
        Some(text::fill2(ONE_NULL, name, table))
    } else if (key || c.kind == 'f') && c.deferrable {
        let later = if c.deferred {
            " INITIALLY DEFERRED"
        } else {
            ""
        };
        Some(text::fill4(DEFERRABLE, name, table, later, definition))
    } else {
        None
    }
}

// ---------------------------------------------------------------------------
// Foreign keys

pub const NO_UNIQUENESS: &'static str =
    "foreign key `{}` on `{}` is enforced against a uniqueness on the referenced \
                 table that this pull left out, so it is left out too — read back it would be a \
                 key with nothing to point at, and recreating this schema would fail on it. Its \
                 definition is `{}`.";

pub const KEY_NOT_VALID: &'static str =
    "foreign key `{}` on `{}` is `NOT VALID`: rows already there have never been \
                 checked against it, and this model holds only the key. Read back it is an \
                 ordinary foreign key, which is one that would be validated on being recreated.";

pub const UNREAD_TABLE: &'static str =
    "foreign key `{}` on `{}` references a table this pull did not read, so it is \
                 left out. Its definition is `{}`.";

pub const SET_COLUMNS: &'static str =
    "foreign key `{}` on `{}` names the columns its `ON DELETE SET` action touches, \
                 and this model holds only the action. Read back it would null or default every \
                 referencing column instead of the named ones, so it is left out. Its definition \
                 is `{}`.";

pub const OTHER_MATCH: &'static str =
    "foreign key `{}` on `{}` is `MATCH {}`, and this model holds only the default \
                 `MATCH SIMPLE`. The difference decides what happens to a row whose referencing \
                 columns are partly null — accepted by SIMPLE, refused by FULL — so the key is \
                 left out rather than read back as the one it is not.";

pub const UNKNOWN_MATCH: &'static str =
    "foreign key `{}` on `{}` has the match type `{}`, which this dialect does \
             not know. It is left out rather than read back as the default one.";

pub const UNREAD_COLUMNS: &'static str =
    "foreign key `{}` on `{}` names columns on `{}` that this \
                     pull cannot resolve, so it is left out. Its definition is `{}`.";

pub const OTHER_ACTION: &'static str =
    "foreign key `{}` on `{}` is `ON DELETE {}` `ON UPDATE {}`, and this model holds \
                 no `RESTRICT`. The difference is not cosmetic — `NO ACTION` is checked at the \
                 end of the statement and can be deferred, `RESTRICT` cannot — so the key is \
                 left out rather than read back as the action it is not.";

/// What the engine's letter for a referential action means, where the model
/// has a word for it. `RESTRICT` has none.
pub open spec fn action_of(c: char) -> Option<ReferentialAction> {
    if c == 'a' {
        Some(ReferentialAction::NoAction)
    } else if c == 'c' {
        Some(ReferentialAction::Cascade)
    } else if c == 'n' {
        Some(ReferentialAction::SetNull)
    } else if c == 'd' {
        Some(ReferentialAction::SetDefault)
    } else {
        None
    }
}

/// What the engine's letter for a referential action means.
pub fn referential_action(c: char) -> (r: Option<ReferentialAction>)
    ensures
        r == action_of(c),
{
    if c == 'a' {
        Some(ReferentialAction::NoAction)
    } else if c == 'c' {
        Some(ReferentialAction::Cascade)
    } else if c == 'n' {
        Some(ReferentialAction::SetNull)
    } else if c == 'd' {
        Some(ReferentialAction::SetDefault)
    } else {
        None
    }
}

/// The engine's letter for a referential action, in words.
pub open spec fn action_text(c: char) -> Seq<char> {
    if c == 'a' {
        "NO ACTION"@
    } else if c == 'r' {
        "RESTRICT"@
    } else if c == 'c' {
        "CASCADE"@
    } else if c == 'n' {
        "SET NULL"@
    } else if c == 'd' {
        "SET DEFAULT"@
    } else {
        "an action this engine spells with a character pbps does not know"@
    }
}

/// The engine's letter for a referential action, in words.
pub fn action_name(c: char) -> (r: &'static str)
    ensures
        r@ == action_text(c),
{
    if c == 'a' {
        "NO ACTION"
    } else if c == 'r' {
        "RESTRICT"
    } else if c == 'c' {
        "CASCADE"
    } else if c == 'n' {
        "SET NULL"
    } else if c == 'd' {
        "SET DEFAULT"
    } else {
        "an action this engine spells with a character pbps does not know"
    }
}

/// The table with this oid, among the first `n`: the last that was read.
pub open spec fn table_named(tables: Seq<RawTable>, n: int, oid: i64) -> Option<Qualified>
    decreases n,
{
    if n <= 0 {
        None
    } else if tables[n - 1].oid == oid {
        Some(name_of(tables[n - 1]))
    } else {
        table_named(tables, n - 1, oid)
    }
}

/// The table a key points at, where it is in the pull.
pub open spec fn referenced_table(
    tables: Seq<RawTable>,
    refused: Seq<i64>,
    oid: Option<i64>,
) -> Option<Qualified> {
    match oid {
        Some(oid) => if refused.contains(oid) {
            None
        } else {
            table_named(tables, tables.len() as int, oid)
        },
        None => None,
    }
}

/// The name of an optional table.
pub open spec fn name_in(name: Option<TableName>) -> Option<Qualified> {
    match name {
        Some(name) => Some(name@),
        None => None,
    }
}

/// Whether an oid is in a list.
fn has_oid(list: &Vec<i64>, oid: i64) -> (r: bool)
    ensures
        r == list@.contains(oid),
{
    let mut i: usize = 0;
    while i < list.len()
        invariant
            i <= list@.len(),
            forall|k: int| 0 <= k < i ==> list@[k] != oid,
        decreases list@.len() - i,
    {
        if list[i] == oid {
            return true;
        }
        i += 1;
    }
    false
}

/// The table a key points at, where it is in the pull.
fn reference_table(tables: &Vec<RawTable>, refused: &Vec<i64>, oid: Option<i64>) -> (r: Option<
    TableName,
>)
    ensures
        name_in(r) == referenced_table(tables@, refused@, oid),
{
    match oid {
        Some(wanted) => {
            if has_oid(refused, wanted) {
                return None;
            }
            let mut n: usize = tables.len();
            while n > 0
                invariant
                    n <= tables@.len(),
                    oid == Some(wanted),
                    !refused@.contains(wanted),
                    table_named(tables@, tables@.len() as int, wanted) == table_named(
                        tables@,
                        n as int,
                        wanted,
                    ),
                decreases n,
            {
                if tables[n - 1].oid == wanted {
                    let t = &tables[n - 1];
                    return Some(TableName::new(t.schema.as_str(), t.name.as_str()));
                }
                n -= 1;
            }
            None
        },
        None => None,
    }
}

/// The columns a key points at: the numbers are those of the referenced
/// table.
pub open spec fn referenced_columns(
    columns: Seq<RawColumn>,
    refused: Seq<i64>,
    c: RawConstraint,
) -> Option<Seq<Seq<char>>> {
    match c.ref_table {
        Some(table) => if refused.contains(table) && c.ref_columns@.len() > 0 {
            None
        } else {
            match names_behind(columns, table, c.ref_columns@) {
                Ok(names) => Some(names),
                Err(_) => None,
            }
        },
        None => None,
    }
}

/// The texts of an optional list.
pub open spec fn list_in(list: Option<Vec<String>>) -> Option<Seq<Seq<char>>> {
    match list {
        Some(list) => Some(text::texts(list@)),
        None => None,
    }
}

/// The columns a key points at.
pub fn reference_columns(columns: &Vec<RawColumn>, refused: &Vec<i64>, c: &RawConstraint) -> (r:
    Option<Vec<String>>)
    ensures
        list_in(r) == referenced_columns(columns@, refused@, *c),
{
    match c.ref_table {
        Some(table) => {
            if has_oid(refused, table) && c.ref_columns.len() > 0 {
                return None;
            }
            match names(columns, table, c.ref_columns.as_slice()) {
                Ok(names) => Some(names),
                Err(_) => None,
            }
        },
        None => None,
    }
}

/// A match type other than the default, as it is said.
pub open spec fn match_note(c: RawConstraint, table: Seq<char>) -> Seq<char> {
    if c.match_type == 'f' {
        text::filled(OTHER_MATCH@, seq![c.name@, table, "FULL"@])
    } else if c.match_type == 'p' {
        text::filled(OTHER_MATCH@, seq![c.name@, table, "PARTIAL"@])
    } else {
        text::filled(UNKNOWN_MATCH@, seq![c.name@, table, seq![c.match_type]])
    }
}

/// Whether the uniqueness a key is enforced against did not reach the pull.
pub open spec fn lacks_uniqueness(surviving: Seq<i64>, oid: Option<i64>) -> bool {
    match oid {
        Some(wanted) => !surviving.contains(wanted),
        None => false,
    }
}

/// What a foreign key is read as, once its uniqueness is there.
pub open spec fn foreign_key_kept(
    raw: RawCatalog,
    refused: Seq<i64>,
    c: RawConstraint,
    table: Qualified,
) -> Result<Kept, Seq<char>> {
    let t = model::dotted(table);
    match referenced_table(raw.tables@, refused, c.ref_table) {
        None => Err(text::filled(UNREAD_TABLE@, seq![c.name@, t, c.definition@])),
        Some(references_table) => if c.delete_set_columns@.len() > 0 {
            Err(text::filled(SET_COLUMNS@, seq![c.name@, t, c.definition@]))
        } else if c.match_type != 's' {
            Err(match_note(c, t))
        } else {
            match names_behind(raw.columns@, c.table_oid, c.columns@) {
                Err(attnum) => Err(unresolved_note("foreign key"@, c.name@, table, attnum)),
                Ok(columns) => match referenced_columns(raw.columns@, refused, c) {
                    None => Err(
                        text::filled(
                            UNREAD_COLUMNS@,
                            seq![c.name@, t, model::dotted(references_table), c.definition@],
                        ),
                    ),
                    Some(references_columns) => match (
                        action_of(c.on_delete),
                        action_of(c.on_update),
                    ) {
                        (Some(on_delete), Some(on_update)) => Ok(
                            Kept::ForeignKey {
                                name: c.name@,
                                key: model::ForeignKeyView {
                                    columns,
                                    references_table,
                                    references_columns,
                                    on_delete,
                                    on_update,
                                },
                            },
                        ),
                        _ => Err(
                            text::filled(
                                OTHER_ACTION@,
                                seq![
                                    c.name@,
                                    t,
                                    action_text(c.on_delete),
                                    action_text(c.on_update),
                                ],
                            ),
                        ),
                    },
                },
            }
        },
    }
}

/// What a foreign key is read as.
pub open spec fn foreign_key_read(
    raw: RawCatalog,
    refused: Seq<i64>,
    surviving: Seq<i64>,
    c: RawConstraint,
    table: Qualified,
) -> Outcome {
    let t = model::dotted(table);
    if lacks_uniqueness(surviving, c.index_oid) {
        left_out(text::filled(NO_UNIQUENESS@, seq![c.name@, t, c.definition@]))
    } else {
        let unchecked = only_if(!c.validated, text::filled(KEY_NOT_VALID@, seq![c.name@, t]));
        match foreign_key_kept(raw, refused, c, table) {
            Ok(kept) => Outcome { notes: unchecked, kept },
            Err(note) => Outcome { notes: unchecked + seq![note], kept: Kept::Nothing },
        }
    }
}

/// What a foreign key leaves, before it is put into its table.
fn foreign_key(raw: &RawCatalog, refused: &Vec<i64>, c: &RawConstraint, table: &TableName) -> (r:
    Result<ForeignKey, String>)
    ensures
        match r {
            Ok(key) => foreign_key_kept(*raw, refused@, *c, table@) == Ok::<Kept, Seq<char>>(
                Kept::ForeignKey { name: c.name@, key: key@ },
            ),
            Err(note) => foreign_key_kept(*raw, refused@, *c, table@) == Err::<Kept, Seq<char>>(
                note@,
            ),
        },
{
    let shown = table.show();
    let t = shown.as_str();
    let name = c.name.as_str();
    let definition = c.definition.as_str();
    let references_table = match reference_table(&raw.tables, refused, c.ref_table) {
        Some(references_table) => references_table,
        None => {
            return Err(text::fill3(UNREAD_TABLE, name, t, definition));
        },
    };
    if c.delete_set_columns.len() > 0 {
        return Err(text::fill3(SET_COLUMNS, name, t, definition));
    }
    if c.match_type != 's' {
        return Err(
            if c.match_type == 'f' {
                text::fill3(OTHER_MATCH, name, t, "FULL")
            } else if c.match_type == 'p' {
                text::fill3(OTHER_MATCH, name, t, "PARTIAL")
            } else {
                let letter = text::one_char(c.match_type);
                text::fill3(UNKNOWN_MATCH, name, t, letter.as_str())
            },
        );
    }
    let columns = match names(&raw.columns, c.table_oid, c.columns.as_slice()) {
        Ok(columns) => columns,
        Err(attnum) => {
            return Err(unresolved("foreign key", name, table, attnum));
        },
    };
    let references_columns = match reference_columns(&raw.columns, refused, c) {
        Some(references_columns) => references_columns,
        None => {
            let there = references_table.show();
            return Err(text::fill4(UNREAD_COLUMNS, name, t, there.as_str(), definition));
        },
    };
    match (referential_action(c.on_delete), referential_action(c.on_update)) {
        (Some(on_delete), Some(on_update)) => {
            Ok(
                ForeignKey { columns, references_table, references_columns, on_delete, on_update },
            )
        },
        _ => Err(
            text::fill4(
                OTHER_ACTION,
                name,
                t,
                action_name(c.on_delete),
                action_name(c.on_update),
            ),
        ),
    }
}

/// Reads a foreign key into its table, and says whether it got there.
fn add_foreign_key(
    raw: &RawCatalog,
    refused: &Vec<i64>,
    surviving: &Vec<i64>,
    c: &RawConstraint,
    name: &TableName,
    table: &mut PulledTable,
    notes: &mut Vec<String>,
) -> (r: bool)
    ensures
        ({
            let out = foreign_key_read(*raw, refused@, surviving@, *c, name@);
            &&& final(table)@ == with_kept(old(table)@, out.kept)
            &&& text::texts(final(notes)@) == text::texts(old(notes)@) + out.notes
            &&& r == reached(out.kept)
        }),
{
    let ghost start = text::texts(notes@);
    let shown = name.show();
    let t = shown.as_str();
    let lacking = match c.index_oid {
        Some(oid) => !has_oid(surviving, oid),
        None => false,
    };
    if lacking {
        say(notes, text::fill3(NO_UNIQUENESS, c.name.as_str(), t, c.definition.as_str()));
        return false;
    }
    let ghost unchecked = only_if(!c.validated, text::filled(KEY_NOT_VALID@, seq![c.name@, t@]));
    if !c.validated {
        say(notes, text::fill2(KEY_NOT_VALID, c.name.as_str(), t));
    }
    assert(text::texts(notes@) =~= start + unchecked);
    match foreign_key(raw, refused, c, name) {
        Ok(key) => {
            let ghost kept = Kept::ForeignKey { name: c.name@, key: key@ };
            let ghost before = table@;
            entries::put_in(&mut table.foreign_keys, c.name.clone(), key);
            assert(table@ =~= with_kept(before, kept));
            true
        },
        Err(note) => {
            say(notes, note);
            proof {
                regroup(start, unchecked, seq![note@]);
            }
            false
        },
    }
}

/// What a constraint is read as: by its kind, once nothing disqualifies it.
pub open spec fn constraint_read(
    raw: RawCatalog,
    refused: Seq<i64>,
    surviving: Seq<i64>,
    c: RawConstraint,
    table: Qualified,
) -> Outcome {
    let t = model::dotted(table);
    if c.kind == 'n' {
        // The column already carries it.
        Outcome { notes: Seq::empty(), kept: Kept::Nothing }
    } else {
        match disqualified(raw.indexes@, c, t) {
            Some(note) => left_out(note),
            None => if c.kind == 'p' {
                match names_behind(raw.columns@, c.table_oid, c.columns@) {
                    Ok(columns) => Outcome {
                        notes: Seq::empty(),
                        kept: Kept::PrimaryKey { name: c.name@, columns },
                    },
                    Err(attnum) => left_out(
                        unresolved_note("primary key"@, c.name@, table, attnum),
                    ),
                }
            } else if c.kind == 'u' {
                match names_behind(raw.columns@, c.table_oid, c.columns@) {
                    Ok(columns) => Outcome {
                        notes: Seq::empty(),
                        kept: Kept::Unique { name: c.name@, columns },
                    },
                    Err(attnum) => left_out(
                        unresolved_note("unique constraint"@, c.name@, table, attnum),
                    ),
                }
            } else if c.kind == 'c' {
                check_read(c, t)
            } else if c.kind == 'f' {
                foreign_key_read(raw, refused, surviving, c, table)
            } else if c.kind == 'x' {
                left_out(text::filled(EXCLUSION@, seq![c.name@, t]))
            } else {
                left_out(
                    text::filled(UNKNOWN_KIND@, seq![c.name@, t, seq![c.kind], c.definition@]),
                )
            },
        }
    }
}

/// What a check is read as: its expression, verbatim.
pub open spec fn check_read(c: RawConstraint, table: Seq<char>) -> Outcome {
    let unchecked = only_if(!c.validated, text::filled(CHECK_NOT_VALID@, seq![c.name@, table]));
    match c.expression {
        Some(expression) => Outcome {
            notes: unchecked,
            kept: Kept::Check { name: c.name@, expression: expression@ },
        },
        None => Outcome {
            notes: unchecked + seq![
                text::filled(CHECK_UNREADABLE@, seq![c.name@, table, c.definition@]),
            ],
            kept: Kept::Nothing,
        },
    }
}

/// Reads a check into its table, and says whether it got there.
fn add_check(c: &RawConstraint, t: &str, table: &mut PulledTable, notes: &mut Vec<String>) -> (r:
    bool)
    ensures
        r == reached(check_read(*c, t@).kept),
        final(table)@ == with_kept(old(table)@, check_read(*c, t@).kept),
        text::texts(final(notes)@) == text::texts(old(notes)@) + check_read(*c, t@).notes,
{
    let ghost start = text::texts(notes@);
    let ghost unchecked = only_if(!c.validated, text::filled(CHECK_NOT_VALID@, seq![c.name@, t@]));
    if !c.validated {
        say(notes, text::fill2(CHECK_NOT_VALID, c.name.as_str(), t));
    }
    assert(text::texts(notes@) =~= start + unchecked);
    match &c.expression {
        Some(expression) => {
            let check = CheckConstraint { expression: expression.clone() };
            let ghost before = table@;
            entries::put_in(&mut table.checks, c.name.clone(), check);
            assert(table@ =~= with_kept(before, check_read(*c, t@).kept));
            true
        },
        None => {
            let note = text::fill3(CHECK_UNREADABLE, c.name.as_str(), t, c.definition.as_str());
            say(notes, note);
            proof {
                regroup(start, unchecked, seq![note@]);
            }
            false
        },
    }
}

/// Reads a constraint into its table, and says whether it got there. Of a key
/// that says its backing index is there; of the rest nobody asks.
fn add_constraint(
    raw: &RawCatalog,
    refused: &Vec<i64>,
    surviving: &Vec<i64>,
    c: &RawConstraint,
    name: &TableName,
    table: &mut PulledTable,
    notes: &mut Vec<String>,
) -> (r: bool)
    ensures
        ({
            let out = constraint_read(*raw, refused@, surviving@, *c, name@);
            &&& final(table)@ == with_kept(old(table)@, out.kept)
            &&& text::texts(final(notes)@) == text::texts(old(notes)@) + out.notes
            &&& r == reached(out.kept)
        }),
{
    if c.kind == 'n' {
        assert(text::texts(notes@) + Seq::<Seq<char>>::empty() =~= text::texts(notes@));
        return false;
    }
    let shown = name.show();
    let t = shown.as_str();
    if let Some(note) = what_disqualifies(&raw.indexes, c, t) {
        say(notes, note);
        return false;
    }
    if c.kind == 'p' {
        match names(&raw.columns, c.table_oid, c.columns.as_slice()) {
            Ok(columns) => {
                let ghost before = table@;
                table.primary_key = Some(PrimaryKey { name: Some(c.name.clone()), columns });
                assert(table@ =~= with_kept(
                    before,
                    Kept::PrimaryKey { name: c.name@, columns: text::texts(columns@) },
                ));
                assert(text::texts(notes@) + Seq::<Seq<char>>::empty() =~= text::texts(notes@));
                true
            },
            Err(attnum) => {
                say(notes, unresolved("primary key", c.name.as_str(), name, attnum));
                false
            },
        }
    } else if c.kind == 'u' {
        match names(&raw.columns, c.table_oid, c.columns.as_slice()) {
            Ok(columns) => {
                let ghost before = table@;
                let constraint = UniqueConstraint { columns };
                entries::put_in(&mut table.unique, c.name.clone(), constraint);
                assert(table@ =~= with_kept(
                    before,
                    Kept::Unique { name: c.name@, columns: text::texts(columns@) },
                ));
                assert(text::texts(notes@) + Seq::<Seq<char>>::empty() =~= text::texts(notes@));
                true
            },
            Err(attnum) => {
                say(notes, unresolved("unique constraint", c.name.as_str(), name, attnum));
                false
            },
        }
    } else if c.kind == 'c' {
        add_check(c, t, table, notes)
    } else if c.kind == 'f' {
        add_foreign_key(raw, refused, surviving, c, name, table, notes)
    } else if c.kind == 'x' {
        say(notes, text::fill2(EXCLUSION, c.name.as_str(), t));
        false
    } else {
        let letter = text::one_char(c.kind);
        say(
            notes,
            text::fill4(UNKNOWN_KIND, c.name.as_str(), t, letter.as_str(), c.definition.as_str()),
        );
        false
    }
}

// ---------------------------------------------------------------------------
// Indexes

pub const OTHER_METHOD: &'static str =
    "index `{}` on `{}` uses the `{}` method, and this model holds only the default \
                 one. It is left out of the pull, so a plan cannot see it.";

pub const OVER_EXPRESSION: &'static str =
    "index `{}` on `{}` is over an expression, which this model does not hold. It is \
                 left out of the pull, so a plan cannot see it.";

pub const INVALID_INDEX: &'static str =
    "index `{}` on `{}` is `indisvalid = false`: the engine keeps the row and the \
                 planner does not use it, which is what a `CREATE INDEX CONCURRENTLY` that \
                 failed leaves behind. It is left out of the pull, so a declaration of the same \
                 shape reads as an index that is missing rather than one that is present.";

pub const OTHER_OPTIONS: &'static str =
    "index `{}` on `{}` orders a column by an operator class or a collation that is \
                 not its type's own — `text_pattern_ops` and `COLLATE \"C\"` are the two that \
                 come up — and `IndexColumn` holds only the name and the direction. Read back it \
                 is an ordinary index, which answers different queries and compares different \
                 values equal, so it is left out.";

pub const INDEX_ONE_NULL: &'static str =
    "index `{}` on `{}` is `NULLS NOT DISTINCT`, so it admits at most one null key \
                 where an ordinary unique index admits any number. This model holds only \
                 `unique:`, so the index is left out rather than read back as the weaker one it \
                 is not.";

pub const INDEX_EXCLUSION: &'static str =
    "index `{}` on `{}` enforces an exclusion constraint, which this model does not \
                 hold.";

pub const CROSSED_NULLS: &'static str =
    "index `{}` on `{}` orders `{}` `{}` `NULLS {}`, and this model holds \
                     only the direction. Read back it is the default ordering for that \
                     direction, which puts the nulls at the other end.";

/// What an index is read as, or why it is left out, and what is said of one
/// that is kept.
pub enum IndexRead {
    LeftOut(Seq<char>),
    Kept { index: model::IndexView, notes: Seq<Seq<char>> },
}

/// The property that leaves an index out, as it is said.
pub open spec fn index_disqualified(i: RawIndex, t: Seq<char>) -> Option<Seq<char>> {
    if i.method@ != "btree"@ {
        Some(text::filled(OTHER_METHOD@, seq![i.name@, t, i.method@]))
    } else if i.has_expressions || i.columns@.contains(0) {
        Some(text::filled(OVER_EXPRESSION@, seq![i.name@, t]))
    } else if !i.valid {
        Some(text::filled(INVALID_INDEX@, seq![i.name@, t]))
    } else if i.nondefault_column_options {
        Some(text::filled(OTHER_OPTIONS@, seq![i.name@, t]))
    } else if i.nulls_not_distinct {
        Some(text::filled(INDEX_ONE_NULL@, seq![i.name@, t]))
    } else if i.exclusion {
        Some(text::filled(INDEX_EXCLUSION@, seq![i.name@, t]))
    } else {
        None
    }
}

/// How many of an index's columns are its key.
pub open spec fn key_len(i: RawIndex) -> int {
    if i.key_count <= i.columns@.len() {
        i.key_count as int
    } else {
        i.columns@.len() as int
    }
}

/// The option of the `k`th column.
pub open spec fn option_at(i: RawIndex, k: int) -> i32 {
    if 0 <= k < i.options@.len() {
        i.options@[k]
    } else {
        0
    }
}

/// Whether the `k`th column descends.
pub open spec fn descends(i: RawIndex, k: int) -> bool {
    option_at(i, k) & 1 == 1
}

/// Whether the `k`th column puts its nulls first.
pub open spec fn nulls_first(i: RawIndex, k: int) -> bool {
    option_at(i, k) & 2 == 2
}

/// A direction, as it is said.
pub open spec fn direction(descending: bool) -> Seq<char> {
    if descending {
        "DESC"@
    } else {
        "ASC"@
    }
}

/// An end, as it is said.
pub open spec fn end_of_order(first: bool) -> Seq<char> {
    if first {
        "FIRST"@
    } else {
        "LAST"@
    }
}

/// The key columns among the first `n` names, each with its direction.
pub open spec fn key_columns(i: RawIndex, names: Seq<Seq<char>>, n: int) -> Seq<(Seq<char>, bool)> {
    Seq::new(n as nat, |k: int| (names[k], descends(i, k)))
}

/// The notes on the key columns, among the first `n`, whose nulls are not
/// where their direction puts them.
pub open spec fn crossed(i: RawIndex, t: Seq<char>, names: Seq<Seq<char>>, n: int) -> Seq<
    Seq<char>,
>
    decreases n,
{
    if n <= 0 {
        Seq::empty()
    } else {
        crossed(i, t, names, n - 1) + only_if(
            nulls_first(i, n - 1) != descends(i, n - 1),
            text::filled(
                CROSSED_NULLS@,
                seq![
                    i.name@,
                    t,
                    names[n - 1],
                    direction(descends(i, n - 1)),
                    end_of_order(nulls_first(i, n - 1)),
                ],
            ),
        )
    }
}

/// What an index is read as.
pub open spec fn index_read(columns: Seq<RawColumn>, i: RawIndex, table: Qualified) -> IndexRead {
    let t = model::dotted(table);
    match index_disqualified(i, t) {
        Some(note) => IndexRead::LeftOut(note),
        None => match (
            names_behind(columns, i.table_oid, i.columns@.take(key_len(i))),
            names_behind(columns, i.table_oid, i.columns@.skip(key_len(i))),
        ) {
            (Ok(keys), Ok(included)) => IndexRead::Kept {
                index: model::IndexView {
                    columns: key_columns(i, keys, keys.len() as int),
                    include_columns: included,
                    unique: i.unique,
                    filter: text::text_in(i.filter),
                },
                notes: crossed(i, t, keys, keys.len() as int),
            },
            (Err(attnum), _) => IndexRead::LeftOut(
                unresolved_note("index"@, i.name@, table, attnum),
            ),
            (Ok(_), Err(attnum)) => IndexRead::LeftOut(
                unresolved_note("index"@, i.name@, table, attnum),
            ),
        },
    }
}

/// A table with what an index leaves in it.
pub open spec fn with_index(table: TableView, name: Seq<char>, read: IndexRead) -> TableView {
    match read {
        IndexRead::LeftOut(_) => table,
        IndexRead::Kept { index, notes: _ } => TableView {
            indexes: entries::put(table.indexes, seq![name], index),
            ..table
        },
    }
}

/// What is said of an index.
pub open spec fn index_notes(read: IndexRead) -> Seq<Seq<char>> {
    match read {
        IndexRead::LeftOut(note) => seq![note],
        IndexRead::Kept { index: _, notes } => notes,
    }
}

/// Whether a number is in a list.
fn has_number(list: &Vec<i32>, n: i32) -> (r: bool)
    ensures
        r == list@.contains(n),
{
    let mut i: usize = 0;
    while i < list.len()
        invariant
            i <= list@.len(),
            forall|k: int| 0 <= k < i ==> list@[k] != n,
        decreases list@.len() - i,
    {
        if list[i] == n {
            return true;
        }
        i += 1;
    }
    false
}

/// The property that leaves an index out.
fn what_disqualifies_index(i: &RawIndex, t: &str) -> (r: Option<String>)
    ensures
        text::text_in(r) == index_disqualified(*i, t@),
{
    let name = i.name.as_str();
    if !text::same(i.method.as_str(), "btree") {
        Some(text::fill3(OTHER_METHOD, name, t, i.method.as_str()))
    } else if i.has_expressions || has_number(&i.columns, 0) {
        Some(text::fill2(OVER_EXPRESSION, name, t))
    } else if !i.valid {
        Some(text::fill2(INVALID_INDEX, name, t))
    } else if i.nondefault_column_options {
        Some(text::fill2(OTHER_OPTIONS, name, t))
    } else if i.nulls_not_distinct {
        Some(text::fill2(INDEX_ONE_NULL, name, t))
    } else if i.exclusion {
        Some(text::fill2(INDEX_EXCLUSION, name, t))
    } else {
        None
    }
}

/// The key columns of an index, with what is said of where their nulls are.
fn index_keys(i: &RawIndex, t: &str, keys: &Vec<String>, notes: &mut Vec<String>) -> (r: Vec<
    IndexColumn,
>)
    ensures
        model::index_columns(r@) == key_columns(*i, text::texts(keys@), keys@.len() as int),
        text::texts(final(notes)@) == text::texts(old(notes)@) + crossed(
            *i,
            t@,
            text::texts(keys@),
            keys@.len() as int,
        ),
{
    let ghost start = text::texts(notes@);
    let ghost names = text::texts(keys@);
    let mut out: Vec<IndexColumn> = Vec::new();
    let mut k: usize = 0;
    assert(start + Seq::<Seq<char>>::empty() =~= start);
    while k < keys.len()
        invariant
            k <= keys@.len(),
            names == text::texts(keys@),
            out@.len() == k,
            forall|j: int| 0 <= j < k ==> (#[trigger] out@[j]).name@ == names[j],
            forall|j: int| 0 <= j < k ==> (#[trigger] out@[j]).descending == descends(*i, j),
            text::texts(notes@) == start + crossed(*i, t@, names, k as int),
        decreases keys@.len() - k,
    {
        let option: i32 = if k < i.options.len() {
            i.options[k]
        } else {
            0
        };
        let descending = option & 1 == 1;
        let first = option & 2 == 2;
        let ghost said = crossed(*i, t@, names, k as int);
        let ghost here = only_if(
            nulls_first(*i, k as int) != descends(*i, k as int),
            text::filled(
                CROSSED_NULLS@,
                seq![
                    i.name@,
                    t@,
                    names[k as int],
                    direction(descends(*i, k as int)),
                    end_of_order(nulls_first(*i, k as int)),
                ],
            ),
        );
        if first != descending {
            let way = if descending {
                "DESC"
            } else {
                "ASC"
            };
            let end = if first {
                "FIRST"
            } else {
                "LAST"
            };
            say(
                notes,
                text::fill5(CROSSED_NULLS, i.name.as_str(), t, keys[k].as_str(), way, end),
            );
        }
        assert(text::texts(notes@) =~= (start + said) + here);
        proof {
            regroup(start, said, here);
        }
        out.push(IndexColumn { name: keys[k].clone(), descending });
        k += 1;
    }
    assert(model::index_columns(out@) =~= key_columns(*i, names, keys@.len() as int));
    out
}

/// Reads an index into its table, and says whether it got there.
fn add_index(
    columns: &Vec<RawColumn>,
    i: &RawIndex,
    name: &TableName,
    table: &mut PulledTable,
    notes: &mut Vec<String>,
) -> (r: bool)
    ensures
        ({
            let read = index_read(columns@, *i, name@);
            &&& final(table)@ == with_index(old(table)@, i.name@, read)
            &&& text::texts(final(notes)@) == text::texts(old(notes)@) + index_notes(read)
            &&& r == (read is Kept)
        }),
{
    let shown = name.show();
    let t = shown.as_str();
    if let Some(note) = what_disqualifies_index(i, t) {
        say(notes, note);
        return false;
    }
    let len: usize = i.columns.len();
    let cut: usize = if i.key_count <= len {
        i.key_count
    } else {
        len
    };
    let all = i.columns.as_slice();
    let front = slice_subrange(all, 0, cut);
    let back = slice_subrange(all, cut, len);
    assert(front@ =~= i.columns@.take(key_len(*i)));
    assert(back@ =~= i.columns@.skip(key_len(*i)));
    match (names(columns, i.table_oid, front), names(columns, i.table_oid, back)) {
        (Ok(keys), Ok(included)) => {
            let keyed = index_keys(i, t, &keys, notes);
            let filter = match &i.filter {
                Some(filter) => Some(filter.clone()),
                None => None,
            };
            let index = Index {
                columns: keyed,
                include_columns: included,
                unique: i.unique,
                filter,
            };
            let ghost before = table@;
            entries::put_in(&mut table.indexes, i.name.clone(), index);
            proof {
                let read = index_read(columns@, *i, name@);
                assert(text::texts(keys@).len() == keys@.len());
                assert(read is Kept);
                assert(index@ =~= read->index);
                assert(table@ =~= with_index(before, i.name@, read));
            }
            true
        },
        (Err(attnum), _) => {
            say(notes, unresolved("index", i.name.as_str(), name, attnum));
            false
        },
        (Ok(_), Err(attnum)) => {
            say(notes, unresolved("index", i.name.as_str(), name, attnum));
            false
        },
    }
}

// ---------------------------------------------------------------------------
// Tables

/// A table being built.
#[verifier::ext_equal]
pub struct Built {
    pub table: TableView,
    pub notes: Seq<Seq<char>>,
    /// The indexes that reached the pull, as an index or as the key they
    /// enforce.
    pub surviving: Seq<i64>,
}

/// A table with the columns among the first `n` that are its own.
pub open spec fn with_columns(
    raw: RawCatalog,
    read: ReadBack,
    t: RawTable,
    surviving: Seq<i64>,
    n: int,
) -> Built
    decreases n,
{
    if n <= 0 {
        Built { table: bare_table(), notes: Seq::empty(), surviving }
    } else {
        let front = with_columns(raw, read, t, surviving, n - 1);
        let c = raw.columns@[n - 1];
        if c.table_oid == t.oid {
            Built {
                table: TableView {
                    columns: entries::put_behind(
                        front.table.columns,
                        seq![c.name@],
                        column_read(read, c),
                    ),
                    ..front.table
                },
                notes: front.notes + column_notes(read, c, name_of(t)),
                surviving: front.surviving,
            }
        } else {
            front
        }
    }
}

/// The indexes that survive once a constraint is read: that of a key that
/// reached the pull.
pub open spec fn surviving_with(surviving: Seq<i64>, kept: Kept, oid: Option<i64>) -> Seq<i64> {
    match oid {
        Some(oid) => if kept is PrimaryKey || kept is Unique {
            surviving.push(oid)
        } else {
            surviving
        },
        None => surviving,
    }
}

/// A table with the constraints, among the first `n`, that are its own and no
/// foreign keys.
pub open spec fn with_constraints(
    raw: RawCatalog,
    refused: Seq<i64>,
    t: RawTable,
    start: Built,
    n: int,
) -> Built
    decreases n,
{
    if n <= 0 {
        start
    } else {
        let front = with_constraints(raw, refused, t, start, n - 1);
        let c = raw.constraints@[n - 1];
        if c.table_oid == t.oid && c.kind != 'f' {
            let out = constraint_read(raw, refused, Seq::empty(), c, name_of(t));
            Built {
                table: with_kept(front.table, out.kept),
                notes: front.notes + out.notes,
                surviving: surviving_with(front.surviving, out.kept, c.index_oid),
            }
        } else {
            front
        }
    }
}

/// Whether this constraint is enforced by this index of its own. A foreign
/// key's index belongs to the table it points at.
pub open spec fn enforces(c: RawConstraint, oid: i64) -> bool {
    (c.kind == 'p' || c.kind == 'u' || c.kind == 'x') && c.index_oid == Some(oid)
}

/// Whether an index enforces a constraint, and so is that constraint.
pub open spec fn is_a_constraint(constraints: Seq<RawConstraint>, oid: i64) -> bool {
    exists|k: int| 0 <= k < constraints.len() && #[trigger] enforces(constraints[k], oid)
}

/// Whether an index enforces a constraint.
fn enforces_a_constraint(constraints: &Vec<RawConstraint>, oid: i64) -> (r: bool)
    ensures
        r == is_a_constraint(constraints@, oid),
{
    let mut k: usize = 0;
    while k < constraints.len()
        invariant
            k <= constraints@.len(),
            forall|j: int| 0 <= j < k ==> !#[trigger] enforces(constraints@[j], oid),
        decreases constraints@.len() - k,
    {
        let c = &constraints[k];
        if c.kind == 'p' || c.kind == 'u' || c.kind == 'x' {
            if let Some(own) = c.index_oid {
                if own == oid {
                    assert(enforces(constraints@[k as int], oid));
                    return true;
                }
            }
        }
        k += 1;
    }
    false
}

/// A table with the indexes, among the first `n`, that are its own and no
/// constraints.
pub open spec fn with_indexes(raw: RawCatalog, t: RawTable, start: Built, n: int) -> Built
    decreases n,
{
    if n <= 0 {
        start
    } else {
        let front = with_indexes(raw, t, start, n - 1);
        let i = raw.indexes@[n - 1];
        if i.table_oid == t.oid && !is_a_constraint(raw.constraints@, i.oid) {
            let read = index_read(raw.columns@, i, name_of(t));
            Built {
                table: with_index(front.table, i.name@, read),
                notes: front.notes + index_notes(read),
                surviving: if read is Kept {
                    front.surviving.push(i.oid)
                } else {
                    front.surviving
                },
            }
        } else {
            front
        }
    }
}

/// A table, all but its foreign keys.
pub open spec fn built(
    raw: RawCatalog,
    read: ReadBack,
    refused: Seq<i64>,
    t: RawTable,
    surviving: Seq<i64>,
) -> Built {
    let columns = with_columns(raw, read, t, surviving, raw.columns@.len() as int);
    let constraints = with_constraints(
        raw,
        refused,
        t,
        columns,
        raw.constraints@.len() as int,
    );
    with_indexes(raw, t, constraints, raw.indexes@.len() as int)
}

/// Builds a table, all but its foreign keys.
fn build(
    raw: &RawCatalog,
    read: &ReadBack,
    refused: &Vec<i64>,
    t: &RawTable,
    surviving: &mut Vec<i64>,
    notes: &mut Vec<String>,
) -> (r: PulledTable)
    requires
        old(notes)@.len() == 0,
    ensures
        ({
            let b = built(*raw, *read, refused@, *t, old(surviving)@);
            &&& r@ == b.table
            &&& text::texts(final(notes)@) == b.notes
            &&& final(surviving)@ == b.surviving
        }),
{
    let name = TableName::new(t.schema.as_str(), t.name.as_str());
    let mut table = PulledTable::new();
    let ghost start = surviving@;
    assert(text::texts(notes@) =~= Seq::<Seq<char>>::empty());
    let mut n: usize = 0;
    while n < raw.columns.len()
        invariant
            n <= raw.columns@.len(),
            name@ == name_of(*t),
            surviving@ == start,
            ({
                let b = with_columns(*raw, *read, *t, start, n as int);
                &&& table@ == b.table
                &&& text::texts(notes@) == b.notes
                &&& start == b.surviving
            }),
        decreases raw.columns@.len() - n,
    {
        let c = &raw.columns[n];
        if c.table_oid == t.oid {
            let ghost before = table@;
            let read_as = column(read, c, &name, notes);
            entries::put_last(&mut table.columns, c.name.clone(), read_as);
            assert(table@ =~= TableView {
                columns: entries::put_behind(
                    before.columns,
                    seq![c.name@],
                    column_read(*read, *c),
                ),
                ..before
            });
        }
        n += 1;
    }
    let ghost columns = with_columns(*raw, *read, *t, start, raw.columns@.len() as int);
    let none: Vec<i64> = Vec::new();
    let mut n: usize = 0;
    while n < raw.constraints.len()
        invariant
            n <= raw.constraints@.len(),
            name@ == name_of(*t),
            none@ == Seq::<i64>::empty(),
            ({
                let b = with_constraints(*raw, refused@, *t, columns, n as int);
                &&& table@ == b.table
                &&& text::texts(notes@) == b.notes
                &&& surviving@ == b.surviving
            }),
        decreases raw.constraints@.len() - n,
    {
        let c = &raw.constraints[n];
        // Foreign keys wait until it is known which uniqueness is there.
        if c.table_oid == t.oid && c.kind != 'f' {
            let kept = add_constraint(raw, refused, &none, c, &name, &mut table, notes);
            if kept && (c.kind == 'p' || c.kind == 'u') {
                if let Some(oid) = c.index_oid {
                    surviving.push(oid);
                }
            }
        }
        n += 1;
    }
    let ghost constraints = with_constraints(
        *raw,
        refused@,
        *t,
        columns,
        raw.constraints@.len() as int,
    );
    let mut n: usize = 0;
    while n < raw.indexes.len()
        invariant
            n <= raw.indexes@.len(),
            name@ == name_of(*t),
            ({
                let b = with_indexes(*raw, *t, constraints, n as int);
                &&& table@ == b.table
                &&& text::texts(notes@) == b.notes
                &&& surviving@ == b.surviving
            }),
        decreases raw.indexes@.len() - n,
    {
        let i = &raw.indexes[n];
        if i.table_oid == t.oid && !enforces_a_constraint(&raw.constraints, i.oid) {
            if add_index(&raw.columns, i, &name, &mut table, notes) {
                surviving.push(i.oid);
            }
        }
        n += 1;
    }
    table
}

// ---------------------------------------------------------------------------
// Modules

/// The position past the identifier at `at`.
pub open spec fn past_identifier(s: Seq<char>, at: int) -> Option<int> {
    if 0 <= at < s.len() && s[at] == '"' {
        lexer::quoted_end(s, at + 1)
    } else if lexer::ident_end(s, at) > at {
        Some(lexer::ident_end(s, at))
    } else {
        None
    }
}

/// The position past the qualified name at `at`.
pub open spec fn past_qualified(s: Seq<char>, at: int) -> Option<int>
    decreases s.len() - at,
{
    match past_identifier(s, at) {
        Some(e) => if at < e < s.len() && s[e] == '.' {
            past_qualified(s, e + 1)
        } else {
            Some(e)
        },
        None => None,
    }
}

/// What follows the object's name in a deparsed statement.
pub open spec fn behind_name(s: Seq<char>, prefix: Seq<char>) -> Option<Seq<char>> {
    let from = text::white_from(s, 0);
    if text::occurs_at(s, prefix, from) {
        match past_qualified(s, from + prefix.len()) {
            Some(e) => Some(text::stripped(s.subrange(e, s.len() as int))),
            None => None,
        }
    } else {
        None
    }
}

/// The position past the identifier at `at`: a bare one ends at the first
/// character that cannot continue it.
fn after_one_identifier(s: &[char], at: usize) -> (r: Option<usize>)
    requires
        at <= s@.len(),
    ensures
        match r {
            Some(e) => past_identifier(s@, at as int) == Some(e as int) && at < e <= s@.len(),
            None => past_identifier(s@, at as int) is None,
        },
{
    if at < s.len() && s[at] == '"' {
        return lexer::end_of_quoted(s, at + 1);
    }
    let end = lexer::end_of_word(s, at);
    if end > at {
        Some(end)
    } else {
        None
    }
}

/// The position past the qualified name at `at`. The name is stepped over
/// rather than searched for.
pub fn after_a_qualified_name(s: &[char], at: usize) -> (r: Option<usize>)
    requires
        at <= s@.len(),
    ensures
        match r {
            Some(e) => past_qualified(s@, at as int) == Some(e as int) && at < e <= s@.len(),
            None => past_qualified(s@, at as int) is None,
        },
{
    let mut here: usize = at;
    loop
        invariant
            at <= here <= s@.len(),
            past_qualified(s@, at as int) == past_qualified(s@, here as int),
        decreases s@.len() - here,
    {
        match after_one_identifier(s, here) {
            Some(e) => {
                if e < s.len() && s[e] == '.' {
                    here = e + 1;
                } else {
                    return Some(e);
                }
            },
            None => {
                return None;
            },
        }
    }
}

/// The part of a deparsed statement a declaration holds: everything after the
/// object's name. Nothing where the text is not this shape at all.
pub fn after_the_name(deparsed: &str, prefix: &str) -> (r: Option<String>)
    ensures
        text::text_in(r) == behind_name(deparsed@, prefix@),
{
    let cs = text::chars_of(deparsed);
    let ps = text::chars_of(prefix);
    let s = cs.as_slice();
    let from = text::past_white(s);
    let len: usize = s.len();
    if !text::stands_at(s, ps.as_slice(), from) {
        return None;
    }
    assert(from + ps@.len() <= len);
    match after_a_qualified_name(s, from + ps.len()) {
        Some(e) => Some(text::text_of(text::strip(text::part(s, e, s.len())))),
        None => None,
    }
}

pub const FUNCTION_PREFIX: &'static str = "CREATE OR REPLACE FUNCTION ";

pub const PROCEDURE_PREFIX: &'static str = "CREATE OR REPLACE PROCEDURE ";

pub const TRIGGER_PREFIX: &'static str = "CREATE TRIGGER ";

/// A view's query: the engine ends it with a `;`, which would end the
/// `CREATE` statement.
pub open spec fn query_of(s: Seq<char>) -> Seq<char> {
    let t = text::stripped(s);
    let u = t.take(text::without_to(t, ';', t.len() as int));
    u.take(text::white_to(u, 0, u.len() as int))
}

/// The part of a module's deparsed statement that a declaration holds.
pub open spec fn definition_read(m: RawModule) -> Option<Seq<char>> {
    if m.kind == 'v' {
        Some(query_of(m.definition@))
    } else if m.kind == 'f' {
        behind_name(m.definition@, FUNCTION_PREFIX@)
    } else if m.kind == 'p' {
        behind_name(m.definition@, PROCEDURE_PREFIX@)
    } else {
        behind_name(m.definition@, TRIGGER_PREFIX@)
    }
}

/// The part of a module's deparsed statement that a declaration holds.
fn definition_of(m: &RawModule) -> (r: Option<String>)
    ensures
        text::text_in(r) == definition_read(*m),
{
    if m.kind == 'v' {
        let cs = text::chars_of(m.definition.as_str());
        let t = text::strip(cs.as_slice());
        let u = text::without_end(t, ';');
        let to = text::before_white(u, 0, u.len());
        let query = text::part(u, 0, to);
        assert(query@ =~= query_of(m.definition@));
        Some(text::text_of(query))
    } else if m.kind == 'f' {
        after_the_name(m.definition.as_str(), FUNCTION_PREFIX)
    } else if m.kind == 'p' {
        after_the_name(m.definition.as_str(), PROCEDURE_PREFIX)
    } else {
        after_the_name(m.definition.as_str(), TRIGGER_PREFIX)
    }
}

/// The argument type a spelling is, or why it is none.
pub open spec fn arg_read(read: ReadBack, ty: Seq<char>) -> Result<
    model::ArgView,
    Seq<char>,
> {
    match answer(read.args@, ty) {
        Some(ReadArg::As(arg)) => Ok(arg@),
        Some(ReadArg::Refused(why)) => Err(why@),
        None => Err(Seq::empty()),
    }
}

/// The argument type a spelling is, or why it is none.
pub fn read_arg(read: &ReadBack, ty: &str) -> (r: Result<RoutineArg, String>)
    ensures
        match r {
            Ok(arg) => arg_read(*read, ty@) == Ok::<model::ArgView, Seq<char>>(arg@),
            Err(why) => arg_read(*read, ty@) == Err::<model::ArgView, Seq<char>>(why@),
        },
{
    match ask(&read.args, ty) {
        Some(ReadArg::As(arg)) => Ok(arg.again()),
        Some(ReadArg::Refused(why)) => Err(why.clone()),
        None => {
            let nothing = String::new();
            assert(nothing@ =~= Seq::<char>::empty());
            Err(nothing)
        },
    }
}

/// The argument types of a routine, among the first `n` rows, or the place of
/// the first that is none and why.
pub open spec fn args_read(read: ReadBack, rows: Seq<RawModuleArg>, oid: i64, n: int) -> Result<
    Seq<model::ArgView>,
    (i64, Seq<char>),
>
    decreases n,
{
    if n <= 0 {
        Ok(Seq::empty())
    } else {
        match args_read(read, rows, oid, n - 1) {
            Ok(front) => if rows[n - 1].routine_oid == oid {
                match arg_read(read, rows[n - 1].ty@) {
                    Ok(arg) => Ok(front.push(arg)),
                    Err(why) => Err((rows[n - 1].position, why)),
                }
            } else {
                Ok(front)
            },
            Err(e) => Err(e),
        }
    }
}

/// The first row that is no argument type is the outcome, whatever follows it.
proof fn args_stop_at(read: ReadBack, rows: Seq<RawModuleArg>, oid: i64, at: int, n: int)
    requires
        0 <= at <= n <= rows.len(),
        args_read(read, rows, oid, at) is Err,
    ensures
        args_read(read, rows, oid, n) == args_read(read, rows, oid, at),
    decreases n,
{
    if n > at {
        args_stop_at(read, rows, oid, at, n - 1);
    }
}

/// The argument types of a routine, or the place of the first that is none
/// and why.
fn args_of(read: &ReadBack, rows: &Vec<RawModuleArg>, oid: i64) -> (r: Result<
    Vec<RoutineArg>,
    (i64, String),
>)
    ensures
        match r {
            Ok(args) => args_read(*read, rows@, oid, rows@.len() as int) == Ok::<
                Seq<model::ArgView>,
                (i64, Seq<char>),
            >(model::all_args(args@)),
            Err((position, why)) => args_read(*read, rows@, oid, rows@.len() as int) == Err::<
                Seq<model::ArgView>,
                (i64, Seq<char>),
            >((position, why@)),
        },
{
    let mut out: Vec<RoutineArg> = Vec::new();
    let mut i: usize = 0;
    assert(model::all_args(out@) =~= Seq::<model::ArgView>::empty());
    while i < rows.len()
        invariant
            i <= rows@.len(),
            args_read(*read, rows@, oid, i as int) == Ok::<Seq<model::ArgView>, (i64, Seq<char>)>(
                model::all_args(out@),
            ),
        decreases rows@.len() - i,
    {
        let row = &rows[i];
        if row.routine_oid == oid {
            match read_arg(read, row.ty.as_str()) {
                Ok(arg) => {
                    let ghost before = out@;
                    out.push(arg);
                    assert(model::all_args(out@) =~= model::all_args(before).push(arg@));
                },
                Err(why) => {
                    proof {
                        args_stop_at(*read, rows@, oid, i + 1, rows@.len() as int);
                    }
                    return Err((row.position, why));
                },
            }
        }
        i += 1;
    }
    Ok(out)
}

pub const UNHELD_ARGUMENT: &'static str =
    "`{}` is a routine whose argument {} this model cannot hold as \
                                 an identity: {}. It is left out of the pull, because a routine \
                                 keyed by the wrong signature is one whose `DROP` names another \
                                 object.";

pub const UNKNOWN_MODULE: &'static str =
    "`{}` is a module of a kind this reader does not know (`{}`). It is \
                     left out of the pull rather than read back as one of the kinds it is not.";

pub const UNCUT_MODULE: &'static str =
    "`{}` is a module whose definition this reader could not separate from the \
                 statement the engine deparsed for it. It is left out of the pull rather than \
                 recorded with a body that is not its own — an empty definition would read as a \
                 module with nothing in it, and the next plan would write that back.";

pub const UNWRITABLE_MODULE: &'static str =
    "`{}` is a module whose identity the declaration format cannot write back: it \
                 is stored as text and read by parsing it, and this one does not survive that. It \
                 is left out of the pull entirely rather than pulled into a schema that will not \
                 load.";

/// What a module is, or why the reader cannot say.
pub open spec fn identity_read(raw: RawCatalog, read: ReadBack, m: RawModule) -> Result<
    (ModuleKind, model::ModuleIdView),
    Seq<char>,
> {
    let here = (m.schema@, m.name@);
    if m.kind == 'v' {
        Ok((ModuleKind::View, model::ModuleIdView::Named(here)))
    } else if m.kind == 'f' || m.kind == 'p' {
        match args_read(read, raw.module_args@, m.oid, raw.module_args@.len() as int) {
            Ok(args) => Ok(
                (
                    if m.kind == 'f' {
                        ModuleKind::Function
                    } else {
                        ModuleKind::Procedure
                    },
                    model::ModuleIdView::Routine { name: here, args },
                ),
            ),
            Err((position, why)) => Err(
                text::filled(
                    UNHELD_ARGUMENT@,
                    seq![model::dotted(here), text::decimal_int(position as int), why],
                ),
            ),
        }
    } else if m.kind == 't' {
        Ok(
            (
                ModuleKind::Trigger,
                model::ModuleIdView::Trigger { on: (m.schema@, m.on_table@), name: m.name@ },
            ),
        )
    } else {
        Err(text::filled(UNKNOWN_MODULE@, seq![model::dotted(here), seq![m.kind]]))
    }
}

/// What a module is, or why the reader cannot say.
pub fn module_identity(raw: &RawCatalog, read: &ReadBack, m: &RawModule) -> (r: Result<
    (ModuleKind, ModuleId),
    String,
>)
    ensures
        match r {
            Ok((kind, id)) => identity_read(*raw, *read, *m) == Ok::<
                (ModuleKind, model::ModuleIdView),
                Seq<char>,
            >((kind, id@)),
            Err(note) => identity_read(*raw, *read, *m) == Err::<
                (ModuleKind, model::ModuleIdView),
                Seq<char>,
            >(note@),
        },
{
    let here = ObjectName::new(m.schema.as_str(), m.name.as_str());
    if m.kind == 'v' {
        Ok((ModuleKind::View, ModuleId::Named(here)))
    } else if m.kind == 'f' || m.kind == 'p' {
        match args_of(read, &raw.module_args, m.oid) {
            Ok(args) => {
                let kind = if m.kind == 'f' {
                    ModuleKind::Function
                } else {
                    ModuleKind::Procedure
                };
                Ok((kind, ModuleId::Routine { name: here, args }))
            },
            Err((position, why)) => {
                let shown = here.show();
                let number = text::show_int(position);
                Err(text::fill3(UNHELD_ARGUMENT, shown.as_str(), number.as_str(), why.as_str()))
            },
        }
    } else if m.kind == 't' {
        let on = ObjectName::new(m.schema.as_str(), m.on_table.as_str());
        Ok((ModuleKind::Trigger, ModuleId::Trigger { on, name: m.name.clone() }))
    } else {
        let shown = here.show();
        let letter = text::one_char(m.kind);
        Err(text::fill2(UNKNOWN_MODULE, shown.as_str(), letter.as_str()))
    }
}

/// Whether a module's identity reads back as itself.
pub open spec fn module_reads_back(read: ReadBack, id: model::ModuleIdView) -> bool {
    match answer(read.modules@, model::module_text(id)) {
        Some(back) => back@ == id,
        None => false,
    }
}

/// What a module is read as, or why it is left out.
pub enum ModuleRead {
    LeftOut(Seq<char>),
    Kept { id: model::ModuleIdView, kind: ModuleKind, definition: Seq<char> },
}

/// What a module is read as.
pub open spec fn module_read(raw: RawCatalog, read: ReadBack, m: RawModule) -> ModuleRead {
    let here = model::dotted((m.schema@, m.name@));
    match identity_read(raw, read, m) {
        Err(note) => ModuleRead::LeftOut(note),
        Ok((kind, id)) => match definition_read(m) {
            Some(definition) => if definition.len() == 0 {
                ModuleRead::LeftOut(text::filled(UNCUT_MODULE@, seq![here]))
            } else if !module_reads_back(read, id) {
                ModuleRead::LeftOut(
                    text::filled(UNWRITABLE_MODULE@, seq![model::module_text(id)]),
                )
            } else {
                ModuleRead::Kept { id, kind, definition }
            },
            None => ModuleRead::LeftOut(text::filled(UNCUT_MODULE@, seq![here])),
        },
    }
}

/// One module, or why it is not one.
fn module(raw: &RawCatalog, read: &ReadBack, m: &RawModule) -> (r: Result<
    (ModuleId, Module),
    String,
>)
    ensures
        match r {
            Ok((id, module)) => module_read(*raw, *read, *m) == (ModuleRead::Kept {
                id: id@,
                kind: module.kind,
                definition: module.definition@,
            }),
            Err(note) => module_read(*raw, *read, *m) == ModuleRead::LeftOut(note@),
        },
{
    let here = ObjectName::new(m.schema.as_str(), m.name.as_str()).show();
    let (kind, id) = match module_identity(raw, read, m) {
        Ok(identity) => identity,
        Err(note) => {
            return Err(note);
        },
    };
    let definition = match definition_of(m) {
        Some(definition) => definition,
        None => {
            return Err(text::fill1(UNCUT_MODULE, here.as_str()));
        },
    };
    if text::chars_of(definition.as_str()).len() == 0 {
        return Err(text::fill1(UNCUT_MODULE, here.as_str()));
    }
    let shown = id.show();
    let reads = match ask(&read.modules, shown.as_str()) {
        Some(back) => back.is(&id),
        None => false,
    };
    if !reads {
        return Err(text::fill1(UNWRITABLE_MODULE, shown.as_str()));
    }
    Ok((id, Module { kind, definition }))
}

/// The modules that were read, and what was said of them.
#[verifier::ext_equal]
pub struct Modules {
    pub modules: Seq<Entry<(ModuleKind, Seq<char>)>>,
    /// The identities themselves, in the same order.
    pub ids: Seq<model::ModuleIdView>,
    pub log: Log,
}

/// The modules with one more row.
pub open spec fn with_module(raw: RawCatalog, read: ReadBack, m: RawModule, front: Modules) ->
    Modules {
    match module_read(raw, read, m) {
        ModuleRead::LeftOut(note) => Modules {
            log: noted(front.log, (m.schema@, m.name@), seq![note]),
            ..front
        },
        ModuleRead::Kept { id, kind, definition } => Modules {
            modules: entries::put(front.modules, model::module_rank(id), (kind, definition)),
            ids: entries::put_key(front.modules, front.ids, model::module_rank(id), id),
            ..front
        },
    }
}

/// The modules with the first `n` rows.
pub open spec fn with_modules(raw: RawCatalog, read: ReadBack, start: Modules, n: int) -> Modules
    decreases n,
{
    if n <= 0 {
        start
    } else {
        with_module(raw, read, raw.modules@[n - 1], with_modules(raw, read, start, n - 1))
    }
}

impl Pulled {
    /// The modules of the pull.
    pub open spec fn modules(&self) -> Modules {
        Modules {
            modules: entries::entries(self.schema.modules@),
            ids: entries::keys(self.schema.modules@),
            log: self.log(),
        }
    }
}

/// One module, or a note saying why it is not one.
fn add_module(raw: &RawCatalog, read: &ReadBack, m: &RawModule, pulled: &mut Pulled)
    ensures
        final(pulled).modules() == with_module(*raw, *read, *m, old(pulled).modules()),
        final(pulled).schema.tables == old(pulled).schema.tables,
        final(pulled).schema.roles == old(pulled).schema.roles,
        final(pulled).unexpressible == old(pulled).unexpressible,
{
    match module(raw, read, m) {
        Ok((id, module)) => {
            let ghost before = pulled.modules();
            let ghost was = pulled.schema.modules@;
            entries::put_in(&mut pulled.schema.modules, id, module);
            proof {
                entries::a_key_is_put(was, id, module);
            }
            assert(pulled.modules() =~= with_module(*raw, *read, *m, before));
        },
        Err(said) => {
            let here = ObjectName::new(m.schema.as_str(), m.name.as_str());
            let notes: Vec<String> = vec![said];
            assert(text::texts(notes@) =~= seq![said@]);
            note(pulled, &here, notes);
        },
    }
}

// ---------------------------------------------------------------------------
// The whole pull

/// The tables, among the first `n`, that cannot be recorded.
pub open spec fn refused_tables(raw: RawCatalog, read: ReadBack, n: int) -> Seq<i64>
    decreases n,
{
    if n <= 0 {
        Seq::empty()
    } else {
        let t = raw.tables@[n - 1];
        if unwritable(raw, read, t) is Some {
            refused_tables(raw, read, n - 1).push(t.oid)
        } else {
            refused_tables(raw, read, n - 1)
        }
    }
}

/// What is said of the tables, among the first `n`, that cannot be recorded.
pub open spec fn refusals_log(raw: RawCatalog, read: ReadBack, start: Log, n: int) -> Log
    decreases n,
{
    if n <= 0 {
        start
    } else {
        let t = raw.tables@[n - 1];
        let front = refusals_log(raw, read, start, n - 1);
        match unwritable(raw, read, t) {
            Some(detail) => noted(front, name_of(t), seq![detail]),
            None => front,
        }
    }
}

/// The tables that were read, and what was said of them.
#[verifier::ext_equal]
pub struct Tables {
    pub tables: Seq<Entry<TableView>>,
    pub log: Log,
    pub surviving: Seq<i64>,
}

/// The tables with the first `n` rows, all but their foreign keys.
pub open spec fn with_tables(
    raw: RawCatalog,
    read: ReadBack,
    refused: Seq<i64>,
    start: Tables,
    n: int,
) -> Tables
    decreases n,
{
    if n <= 0 {
        start
    } else {
        let front = with_tables(raw, read, refused, start, n - 1);
        let t = raw.tables@[n - 1];
        if refused.contains(t.oid) {
            front
        } else {
            let b = built(raw, read, refused, t, front.surviving);
            Tables {
                tables: entries::put(front.tables, model::table_rank(name_of(t)), b.table),
                log: noted(front.log, name_of(t), b.notes),
                surviving: b.surviving,
            }
        }
    }
}

/// The tables with one more foreign key.
pub open spec fn with_foreign_key(
    raw: RawCatalog,
    refused: Seq<i64>,
    name: Qualified,
    c: RawConstraint,
    front: Tables,
) -> Tables {
    match entries::found(front.tables, model::table_rank(name)) {
        Some(table) => {
            let out = constraint_read(raw, refused, front.surviving, c, name);
            Tables {
                tables: entries::put_behind(
                    front.tables,
                    model::table_rank(name),
                    with_kept(table, out.kept),
                ),
                log: noted(front.log, name, out.notes),
                surviving: front.surviving,
            }
        },
        None => front,
    }
}

/// The tables with the foreign keys of one, among the first `n` constraints.
pub open spec fn with_foreign_keys(
    raw: RawCatalog,
    refused: Seq<i64>,
    t: RawTable,
    start: Tables,
    n: int,
) -> Tables
    decreases n,
{
    if n <= 0 {
        start
    } else {
        let front = with_foreign_keys(raw, refused, t, start, n - 1);
        let c = raw.constraints@[n - 1];
        if c.table_oid == t.oid && c.kind == 'f' {
            with_foreign_key(raw, refused, name_of(t), c, front)
        } else {
            front
        }
    }
}

/// The tables with the foreign keys of the first `n`.
pub open spec fn with_all_foreign_keys(
    raw: RawCatalog,
    refused: Seq<i64>,
    start: Tables,
    n: int,
) -> Tables
    decreases n,
{
    if n <= 0 {
        start
    } else {
        let front = with_all_foreign_keys(raw, refused, start, n - 1);
        let t = raw.tables@[n - 1];
        if refused.contains(t.oid) {
            front
        } else {
            with_foreign_keys(raw, refused, t, front, raw.constraints@.len() as int)
        }
    }
}

impl Pulled {
    /// The tables of the pull.
    pub open spec fn tables(&self, surviving: Seq<i64>) -> Tables {
        Tables { tables: entries::entries(self.schema.tables@), log: self.log(), surviving }
    }

    /// Everything of the pull but its tables and what was said.
    pub open spec fn same_rest(&self, other: &Pulled) -> bool {
        &&& self.schema.modules == other.schema.modules
        &&& self.schema.roles == other.schema.roles
        &&& self.unexpressible == other.unexpressible
    }
}

/// Decides which tables can be recorded at all, before anything is built that
/// names one.
fn refuse_tables(raw: &RawCatalog, read: &ReadBack, pulled: &mut Pulled) -> (r: Vec<i64>)
    ensures
        r@ == refused_tables(*raw, *read, raw.tables@.len() as int),
        final(pulled).log() == refusals_log(
            *raw,
            *read,
            old(pulled).log(),
            raw.tables@.len() as int,
        ),
        final(pulled).schema == old(pulled).schema,
        final(pulled).unexpressible == old(pulled).unexpressible,
{
    let ghost start = pulled.log();
    let ghost schema = pulled.schema;
    let ghost unexpressible = pulled.unexpressible;
    let mut refused: Vec<i64> = Vec::new();
    let mut i: usize = 0;
    while i < raw.tables.len()
        invariant
            i <= raw.tables@.len(),
            refused@ == refused_tables(*raw, *read, i as int),
            pulled.log() == refusals_log(*raw, *read, start, i as int),
            pulled.schema == schema,
            pulled.unexpressible == unexpressible,
        decreases raw.tables@.len() - i,
    {
        let t = &raw.tables[i];
        if let Some(detail) = a_name_the_declaration_cannot_write(raw, read, t) {
            let name = TableName::new(t.schema.as_str(), t.name.as_str());
            let notes: Vec<String> = vec![detail];
            assert(text::texts(notes@) =~= seq![detail@]);
            note(pulled, &name, notes);
            refused.push(t.oid);
        }
        i += 1;
    }
    refused
}

/// Builds every table that can be recorded, all but its foreign keys, and
/// says which indexes reached the pull.
fn build_tables(raw: &RawCatalog, read: &ReadBack, refused: &Vec<i64>, pulled: &mut Pulled) -> (r:
    Vec<i64>)
    ensures
        final(pulled).tables(r@) == with_tables(
            *raw,
            *read,
            refused@,
            old(pulled).tables(Seq::empty()),
            raw.tables@.len() as int,
        ),
        final(pulled).same_rest(old(pulled)),
{
    let ghost start = *pulled;
    let mut surviving: Vec<i64> = Vec::new();
    let mut i: usize = 0;
    assert(surviving@ =~= Seq::<i64>::empty());
    while i < raw.tables.len()
        invariant
            i <= raw.tables@.len(),
            pulled.tables(surviving@) == with_tables(
                *raw,
                *read,
                refused@,
                start.tables(Seq::empty()),
                i as int,
            ),
            pulled.same_rest(&start),
        decreases raw.tables@.len() - i,
    {
        let t = &raw.tables[i];
        if !has_oid(refused, t.oid) {
            let ghost before = pulled.tables(surviving@);
            let name = TableName::new(t.schema.as_str(), t.name.as_str());
            let mut notes: Vec<String> = Vec::new();
            let table = build(raw, read, refused, t, &mut surviving, &mut notes);
            note(pulled, &name, notes);
            entries::put_in(&mut pulled.schema.tables, name, table);
            assert(pulled.tables(surviving@) =~= with_tables(
                *raw,
                *read,
                refused@,
                start.tables(Seq::empty()),
                i + 1,
            ));
        }
        i += 1;
    }
    surviving
}

/// Reads one foreign key into its table.
fn place_foreign_key(
    raw: &RawCatalog,
    refused: &Vec<i64>,
    surviving: &Vec<i64>,
    name: &TableName,
    c: &RawConstraint,
    pulled: &mut Pulled,
)
    ensures
        final(pulled).tables(surviving@) == with_foreign_key(
            *raw,
            refused@,
            name@,
            *c,
            old(pulled).tables(surviving@),
        ),
        final(pulled).same_rest(old(pulled)),
{
    let ghost before = pulled.tables(surviving@);
    if let Some(at) = entries::position(&pulled.schema.tables, name) {
        let ghost was = pulled.schema.tables@;
        let (key, mut table) = pulled.schema.tables.remove(at);
        let mut notes: Vec<String> = Vec::new();
        assert(text::texts(notes@) =~= Seq::<Seq<char>>::empty());
        assert(before.tables[at as int] == (model::table_rank(key@), table@));
        let ghost held = table@;
        add_constraint(raw, refused, surviving, c, name, &mut table, &mut notes);
        pulled.schema.tables.insert(at, (key, table));
        proof {
            let out = constraint_read(*raw, refused@, surviving@, *c, name@);
            entries::position_has_key(before.tables, model::table_rank(name@));
            assert(text::texts(notes@) =~= out.notes);
            assert(pulled.schema.tables@ =~= was.update(at as int, (key, table)));
            assert(entries::entries(pulled.schema.tables@) =~= before.tables.update(
                at as int,
                (model::table_rank(name@), with_kept(held, out.kept)),
            ));
        }
        note(pulled, name, notes);
        assert(pulled.tables(surviving@) =~= with_foreign_key(*raw, refused@, name@, *c, before));
    }
}

/// Reads the foreign keys, now that it is known which uniqueness is there.
fn add_foreign_keys(
    raw: &RawCatalog,
    refused: &Vec<i64>,
    surviving: &Vec<i64>,
    pulled: &mut Pulled,
)
    ensures
        final(pulled).tables(surviving@) == with_all_foreign_keys(
            *raw,
            refused@,
            old(pulled).tables(surviving@),
            raw.tables@.len() as int,
        ),
        final(pulled).same_rest(old(pulled)),
{
    let ghost start = *pulled;
    let mut i: usize = 0;
    while i < raw.tables.len()
        invariant
            i <= raw.tables@.len(),
            pulled.tables(surviving@) == with_all_foreign_keys(
                *raw,
                refused@,
                start.tables(surviving@),
                i as int,
            ),
            pulled.same_rest(&start),
        decreases raw.tables@.len() - i,
    {
        let t = &raw.tables[i];
        if !has_oid(refused, t.oid) {
            let name = TableName::new(t.schema.as_str(), t.name.as_str());
            let ghost front = pulled.tables(surviving@);
            let mut k: usize = 0;
            while k < raw.constraints.len()
                invariant
                    k <= raw.constraints@.len(),
                    name@ == name_of(*t),
                    pulled.tables(surviving@) == with_foreign_keys(
                        *raw,
                        refused@,
                        *t,
                        front,
                        k as int,
                    ),
                    pulled.same_rest(&start),
                decreases raw.constraints@.len() - k,
            {
                let c = &raw.constraints[k];
                if c.table_oid == t.oid && c.kind == 'f' {
                    place_foreign_key(raw, refused, surviving, &name, c, pulled);
                }
                k += 1;
            }
        }
        i += 1;
    }
}

/// What a pull found.
#[verifier::ext_equal]
pub struct PulledView {
    pub tables: Seq<Entry<TableView>>,
    pub modules: Seq<Entry<(ModuleKind, Seq<char>)>>,
    /// The identities of the modules, in the same order.
    pub ids: Seq<model::ModuleIdView>,
    pub roles: Seq<Entry<RoleView>>,
    pub log: Log,
    pub unexpressible: Seq<(Seq<char>, Option<model::TargetView>, Seq<char>)>,
}

impl View for Pulled {
    type V = PulledView;

    open spec fn view(&self) -> PulledView {
        PulledView {
            tables: entries::entries(self.schema.tables@),
            modules: entries::entries(self.schema.modules@),
            ids: entries::keys(self.schema.modules@),
            roles: entries::entries(self.schema.roles@),
            log: self.log(),
            unexpressible: granted::unexpressed(self.unexpressible@),
        }
    }
}

/// Nothing said yet.
pub open spec fn empty_log() -> Log {
    Log { warnings: Seq::empty(), limitations: Seq::empty() }
}

/// The tables that a catalog's rows describe, and what is said of them: which
/// can be recorded at all is decided first, and foreign keys come last.
pub open spec fn tables_read(raw: RawCatalog, read: ReadBack) -> Tables {
    let n = raw.tables@.len() as int;
    let refused = refused_tables(raw, read, n);
    let start = Tables {
        tables: Seq::empty(),
        log: refusals_log(raw, read, empty_log(), n),
        surviving: Seq::empty(),
    };
    with_all_foreign_keys(raw, refused, with_tables(raw, read, refused, start, n), n)
}

/// The modules that a catalog's rows describe, and what is said by then.
pub open spec fn modules_read(raw: RawCatalog, read: ReadBack) -> Modules {
    with_modules(
        raw,
        read,
        Modules {
            modules: Seq::empty(),
            ids: Seq::empty(),
            log: tables_read(raw, read).log,
        },
        raw.modules@.len() as int,
    )
}

/// What the rows of a catalog describe.
pub open spec fn assembled(raw: RawCatalog, read: ReadBack) -> PulledView {
    let tables = tables_read(raw, read);
    let modules = modules_read(raw, read);
    let roles = granted::roles_read(
        raw,
        read,
        tables.tables,
        modules.modules,
        granted::nothing_granted(),
    );
    PulledView {
        tables: tables.tables,
        modules: modules.modules,
        ids: modules.ids,
        roles: roles.roles,
        log: Log {
            warnings: modules.log.warnings + roles.warnings,
            limitations: modules.log.limitations,
        },
        unexpressible: roles.unexpressible,
    }
}

/// Turns one pull's rows into the schema they describe and the list of what it
/// could not hold.
pub fn assemble(raw: &RawCatalog, read: &ReadBack) -> (r: Pulled)
    ensures
        r@ == assembled(*raw, *read),
{
    let mut pulled = Pulled {
        schema: Schema { tables: Vec::new(), modules: Vec::new(), roles: Vec::new() },
        warnings: Vec::new(),
        limitations: Vec::new(),
        unexpressible: Vec::new(),
    };
    assert(pulled.log() =~= empty_log());
    let refused = refuse_tables(raw, read, &mut pulled);
    assert(entries::entries(pulled.schema.tables@) =~= Seq::<Entry<TableView>>::empty());
    assert(entries::entries(pulled.schema.modules@) =~= Seq::<
        Entry<(ModuleKind, Seq<char>)>,
    >::empty());
    assert(entries::keys(pulled.schema.modules@) =~= Seq::<model::ModuleIdView>::empty());
    let surviving = build_tables(raw, read, &refused, &mut pulled);
    add_foreign_keys(raw, &refused, &surviving, &mut pulled);
    let ghost tables = pulled.tables(surviving@);
    assert(tables == tables_read(*raw, *read));
    let ghost start = pulled.modules();
    let mut i: usize = 0;
    while i < raw.modules.len()
        invariant
            i <= raw.modules@.len(),
            pulled.modules() == with_modules(*raw, *read, start, i as int),
            entries::entries(pulled.schema.tables@) == tables.tables,
            pulled.schema.roles@.len() == 0,
            pulled.unexpressible@.len() == 0,
        decreases raw.modules@.len() - i,
    {
        add_module(raw, read, &raw.modules[i], &mut pulled);
        i += 1;
    }
    assert(pulled.modules() == modules_read(*raw, *read));
    assert(granted::granted_so_far(
        entries::entries(pulled.schema.roles@),
        granted::unexpressed(pulled.unexpressible@),
    ) =~= granted::nothing_granted());
    granted::add_roles(raw, read, &mut pulled);
    assert(pulled@ =~= assembled(*raw, *read));
    pulled
}

} // verus!
