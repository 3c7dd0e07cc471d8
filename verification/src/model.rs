//! The declarations, and the changes between two of them.
//!
//! What only a type catalogue can say of a declared type is held beside the
//! type: [`DeclaredType::normal`] is what the catalogue reads it as, and a
//! [`RoutineArg`] carries the spelling a routine's identity has. Maps are
//! lists of entries in the order the plan writes them.
use vstd::prelude::*;

use crate::entries::Key;
use crate::error::DialectError;
use crate::text;

verus! {

/// The two halves of a qualified name.
pub type Qualified = (Seq<char>, Seq<char>);

/// A name within a schema.
#[derive(Debug, Clone, PartialEq, Eq, PartialOrd, Ord)]
pub struct TableName {
    pub schema: String,
    pub name: String,
}

/// Modules and tables are named the same way.
pub type ObjectName = TableName;

impl View for TableName {
    type V = Qualified;

    open spec fn view(&self) -> Qualified {
        (self.schema@, self.name@)
    }
}

/// `schema.name`.
pub open spec fn dotted(name: Qualified) -> Seq<char> {
    name.0 + seq!['.'] + name.1
}

/// Tables stand in the order of their schemas, then of their names.
pub open spec fn table_rank(name: Qualified) -> Seq<Seq<char>> {
    seq![name.0, name.1]
}

impl Key for TableName {
    open spec fn rank(&self) -> Seq<Seq<char>> {
        table_rank(self@)
    }

    fn ranks(&self) -> (r: Vec<String>) {
        let r: Vec<String> = vec![self.schema.clone(), self.name.clone()];
        assert(text::texts(r@) =~= table_rank(self@));
        r
    }
}

impl TableName {
    /// The name `schema.name`.
    pub fn new(schema: &str, name: &str) -> (r: TableName)
        ensures
            r@ == (schema@, name@),
    {
        TableName { schema: schema.to_owned(), name: name.to_owned() }
    }

    /// A column of this table.
    pub fn column(&self, name: &str) -> (r: ColumnRef)
        ensures
            r@ == (self@, name@),
    {
        ColumnRef { table: self.again(), name: name.to_owned() }
    }

    /// The same name once more.
    pub fn again(&self) -> (r: TableName)
        ensures
            r@ == self@,
    {
        TableName { schema: self.schema.clone(), name: self.name.clone() }
    }

    /// `schema.name`.
    pub fn show(&self) -> (r: String)
        ensures
            r@ == dotted(self@),
    {
        let mut out = self.schema.clone();
        out.push('.');
        out.append(self.name.as_str());
        assert(self.schema@.push('.') =~= self.schema@ + seq!['.']);
        out
    }

    /// Whether both name the same object.
    pub fn is(&self, other: &TableName) -> (r: bool)
        ensures
            r == (self@ == other@),
    {
        text::same(self.schema.as_str(), other.schema.as_str()) && text::same(
            self.name.as_str(),
            other.name.as_str(),
        )
    }
}

/// A column of a table.
#[derive(Debug, Clone, PartialEq, Eq)]
pub struct ColumnRef {
    pub table: TableName,
    pub name: String,
}

impl View for ColumnRef {
    type V = (Qualified, Seq<char>);

    open spec fn view(&self) -> (Qualified, Seq<char>) {
        (self.table@, self.name@)
    }
}

/// `schema.table.column`.
pub open spec fn column_text(column: (Qualified, Seq<char>)) -> Seq<char> {
    dotted(column.0) + seq!['.'] + column.1
}

impl ColumnRef {
    /// Whether both name the same column.
    pub fn is(&self, other: &ColumnRef) -> (r: bool)
        ensures
            r == (self@ == other@),
    {
        self.table.is(&other.table) && text::same(self.name.as_str(), other.name.as_str())
    }

    /// `schema.table.column`.
    pub fn show(&self) -> (r: String)
        ensures
            r@ == column_text(self@),
    {
        let mut out = self.table.show();
        out.push('.');
        out.append(self.name.as_str());
        assert(dotted(self.table@).push('.') =~= dotted(self.table@) + seq!['.']);
        out
    }
}

// ---------------------------------------------------------------------------
// Types

/// One argument of a type.
#[derive(Debug, Clone, PartialEq, Eq)]
pub enum TypeArg {
    Int(i64),
    Max,
    Ident(String),
}

/// What one argument of a type is.
pub enum TypeArgView {
    Int(int),
    Max,
    Ident(Seq<char>),
}

impl View for TypeArg {
    type V = TypeArgView;

    open spec fn view(&self) -> TypeArgView {
        match *self {
            TypeArg::Int(n) => TypeArgView::Int(n as int),
            TypeArg::Max => TypeArgView::Max,
            TypeArg::Ident(s) => TypeArgView::Ident(s@),
        }
    }
}

/// A column's type: its base, its arguments, and the way it is written.
#[derive(Debug, Clone, PartialEq, Eq)]
pub struct ColumnType {
    pub base: String,
    pub args: Vec<TypeArg>,
    pub spelled: String,
}

/// What a type is, apart from how it is written.
pub struct TypeView {
    pub base: Seq<char>,
    pub args: Seq<TypeArgView>,
}

impl View for ColumnType {
    type V = TypeView;

    open spec fn view(&self) -> TypeView {
        TypeView {
            base: self.base@,
            args: Seq::new(self.args@.len(), |i: int| self.args@[i]@),
        }
    }
}

impl TypeArg {
    /// Whether two arguments are the same.
    pub fn is(&self, other: &TypeArg) -> (r: bool)
        ensures
            r == (self@ == other@),
    {
        match (self, other) {
            (TypeArg::Int(a), TypeArg::Int(b)) => *a == *b,
            (TypeArg::Max, TypeArg::Max) => true,
            (TypeArg::Ident(a), TypeArg::Ident(b)) => text::same(a.as_str(), b.as_str()),
            _ => false,
        }
    }

    /// The same argument once more.
    pub fn again(&self) -> (r: TypeArg)
        ensures
            r@ == self@,
    {
        match self {
            TypeArg::Int(n) => TypeArg::Int(*n),
            TypeArg::Max => TypeArg::Max,
            TypeArg::Ident(s) => TypeArg::Ident(s.clone()),
        }
    }
}

impl ColumnType {
    /// Whether two types are the same base with the same arguments.
    pub fn is(&self, other: &ColumnType) -> (r: bool)
        ensures
            r == (self@ == other@),
    {
        if !text::same(self.base.as_str(), other.base.as_str()) {
            return false;
        }
        if self.args.len() != other.args.len() {
            assert(self@.args.len() != other@.args.len());
            return false;
        }
        let mut i: usize = 0;
        while i < self.args.len()
            invariant
                i <= self.args@.len(),
                self.args@.len() == other.args@.len(),
                forall|k: int| 0 <= k < i ==> self.args@[k]@ == other.args@[k]@,
            decreases self.args@.len() - i,
        {
            if !self.args[i].is(&other.args[i]) {
                assert(self@.args[i as int] != other@.args[i as int]);
                return false;
            }
            i += 1;
        }
        assert(self@.args =~= other@.args);
        true
    }

    /// The same type once more.
    pub fn again(&self) -> (r: ColumnType)
        ensures
            r@ == self@,
            r.spelled@ == self.spelled@,
    {
        let mut args: Vec<TypeArg> = Vec::new();
        let mut i: usize = 0;
        while i < self.args.len()
            invariant
                i <= self.args@.len(),
                args@.len() == i,
                forall|k: int| 0 <= k < i ==> args@[k]@ == self.args@[k]@,
            decreases self.args@.len() - i,
        {
            args.push(self.args[i].again());
            i += 1;
        }
        let out = ColumnType { base: self.base.clone(), args, spelled: self.spelled.clone() };
        assert(out@.args =~= self@.args);
        out
    }
}

/// What the type catalogue makes of a declared type.
#[derive(Debug, Clone, PartialEq, Eq)]
pub enum Reading {
    /// The type as the engine gives it back.
    As(ColumnType),
    /// It cannot be a type here, and why.
    Refused(DialectError),
}

/// A declared type, beside what the type catalogue reads it as.
#[derive(Debug, Clone, PartialEq, Eq)]
pub struct DeclaredType {
    /// The type as it is declared.
    pub written: ColumnType,
    /// The catalogue's reading of it.
    pub normal: Reading,
}

/// What a default's outermost cast names.
#[derive(Debug, Clone, PartialEq, Eq)]
pub enum Cast {
    /// There is none.
    Absent,
    /// A type the catalogue does not read.
    Unread,
    /// This type, normalized.
    To(ColumnType),
}

/// A declared default.
#[derive(Debug, Clone, PartialEq, Eq)]
pub struct DeclaredDefault {
    /// The expression as it is declared.
    pub text: String,
    /// Whether the expression, trimmed, is a constant.
    pub constant: bool,
    /// The expression without its grouping and its outermost cast.
    pub core: String,
    /// The cast that was taken off.
    pub cast: Cast,
}

/// A declared identity, with the seeds its sequence admits on the column's
/// type: none where the type cannot carry an identity.
#[derive(Debug, Clone, Copy, PartialEq, Eq)]
pub struct DeclaredIdentity {
    pub seed: i64,
    pub increment: i64,
    pub accepted: Option<(i64, i64)>,
}

/// A declared column.
#[derive(Debug, Clone, PartialEq, Eq)]
pub struct Column {
    pub ty: DeclaredType,
    pub nullable: bool,
    pub default: Option<DeclaredDefault>,
    pub identity: Option<DeclaredIdentity>,
    /// The refusal of a `serial`, naming this column.
    pub serial: Option<DialectError>,
}

// ---------------------------------------------------------------------------
// Tables

/// A primary key, which may leave its name to the engine.
#[derive(Debug, Clone, PartialEq, Eq)]
pub struct PrimaryKey {
    pub name: Option<String>,
    pub columns: Vec<String>,
}

/// A unique constraint.
#[derive(Debug, Clone, PartialEq, Eq)]
pub struct UniqueConstraint {
    pub columns: Vec<String>,
}

/// A check.
#[derive(Debug, Clone, PartialEq, Eq)]
pub struct CheckConstraint {
    pub expression: String,
}

impl View for PrimaryKey {
    type V = (Option<Seq<char>>, Seq<Seq<char>>);

    open spec fn view(&self) -> (Option<Seq<char>>, Seq<Seq<char>>) {
        (text::text_in(self.name), text::texts(self.columns@))
    }
}

impl View for UniqueConstraint {
    type V = Seq<Seq<char>>;

    open spec fn view(&self) -> Seq<Seq<char>> {
        text::texts(self.columns@)
    }
}

impl View for CheckConstraint {
    type V = Seq<char>;

    open spec fn view(&self) -> Seq<char> {
        self.expression@
    }
}

/// What a foreign key does when the row it points at goes or moves.
#[derive(Debug, Clone, Copy, PartialEq, Eq, Structural)]
pub enum ReferentialAction {
    NoAction,
    Cascade,
    SetNull,
    SetDefault,
}

/// A foreign key.
#[derive(Debug, Clone, PartialEq, Eq)]
pub struct ForeignKey {
    pub columns: Vec<String>,
    pub references_table: TableName,
    pub references_columns: Vec<String>,
    pub on_delete: ReferentialAction,
    pub on_update: ReferentialAction,
}

/// What a foreign key is.
#[verifier::ext_equal]
pub struct ForeignKeyView {
    pub columns: Seq<Seq<char>>,
    pub references_table: Qualified,
    pub references_columns: Seq<Seq<char>>,
    pub on_delete: ReferentialAction,
    pub on_update: ReferentialAction,
}

impl View for ForeignKey {
    type V = ForeignKeyView;

    open spec fn view(&self) -> ForeignKeyView {
        ForeignKeyView {
            columns: text::texts(self.columns@),
            references_table: self.references_table@,
            references_columns: text::texts(self.references_columns@),
            on_delete: self.on_delete,
            on_update: self.on_update,
        }
    }
}

/// One key column of an index.
#[derive(Debug, Clone, PartialEq, Eq)]
pub struct IndexColumn {
    pub name: String,
    pub descending: bool,
}

/// An index.
#[derive(Debug, Clone, PartialEq, Eq)]
pub struct Index {
    pub columns: Vec<IndexColumn>,
    pub include_columns: Vec<String>,
    pub unique: bool,
    pub filter: Option<String>,
}

/// What an index is: its key columns, each with whether it descends, and the
/// rest of it.
#[verifier::ext_equal]
pub struct IndexView {
    pub columns: Seq<(Seq<char>, bool)>,
    pub include_columns: Seq<Seq<char>>,
    pub unique: bool,
    pub filter: Option<Seq<char>>,
}

/// The key columns of an index.
pub open spec fn index_columns(columns: Seq<IndexColumn>) -> Seq<(Seq<char>, bool)> {
    Seq::new(columns.len(), |i: int| (columns[i].name@, columns[i].descending))
}

impl View for Index {
    type V = IndexView;

    open spec fn view(&self) -> IndexView {
        IndexView {
            columns: index_columns(self.columns@),
            include_columns: text::texts(self.include_columns@),
            unique: self.unique,
            filter: text::text_in(self.filter),
        }
    }
}

/// A declared table.
#[derive(Debug, Clone, PartialEq, Eq)]
pub struct Table {
    pub columns: Vec<(String, Column)>,
    pub primary_key: Option<PrimaryKey>,
    pub unique: Vec<(String, UniqueConstraint)>,
    pub checks: Vec<(String, CheckConstraint)>,
    pub foreign_keys: Vec<(String, ForeignKey)>,
    pub indexes: Vec<(String, Index)>,
}

// ---------------------------------------------------------------------------
// Modules

/// The kinds of module.
#[derive(Debug, Clone, Copy, PartialEq, Eq, Structural)]
pub enum ModuleKind {
    View,
    Procedure,
    Function,
    Trigger,
}

/// A declared module.
#[derive(Debug, Clone, PartialEq, Eq)]
pub struct Module {
    pub kind: ModuleKind,
    pub definition: String,
}

impl View for Module {
    type V = (ModuleKind, Seq<char>);

    open spec fn view(&self) -> (ModuleKind, Seq<char>) {
        (self.kind, self.definition@)
    }
}

/// One argument type of a routine, as it is written and as the engine puts it
/// in the routine's identity.
#[derive(Debug, Clone, PartialEq, Eq)]
pub struct RoutineArg {
    /// The type as it is written.
    pub text: String,
    /// The spelling of the identity: no modifier, one `[]` at most.
    pub canonical: String,
    /// `canonical` without its `[]`.
    pub element: String,
    /// Whether `canonical` has one.
    pub array: bool,
    /// Whether the type catalogue knows the spelling.
    pub catalogued: bool,
    /// A name inside the type that is over the engine's limit.
    pub overlong: Option<String>,
}

/// What an argument type is.
#[verifier::ext_equal]
pub struct ArgView {
    pub text: Seq<char>,
    pub canonical: Seq<char>,
    pub element: Seq<char>,
    pub array: bool,
    pub catalogued: bool,
    pub overlong: Option<Seq<char>>,
}

impl View for RoutineArg {
    type V = ArgView;

    open spec fn view(&self) -> ArgView {
        ArgView {
            text: self.text@,
            canonical: self.canonical@,
            element: self.element@,
            array: self.array,
            catalogued: self.catalogued,
            overlong: text::text_in(self.overlong),
        }
    }
}

/// The identity of a module.
#[derive(Debug, Clone, PartialEq, Eq)]
pub enum ModuleId {
    /// A view.
    Named(ObjectName),
    /// A function or a procedure: its name and its argument types.
    Routine { name: ObjectName, args: Vec<RoutineArg> },
    /// A trigger, whose name is scoped to its table.
    Trigger { on: ObjectName, name: String },
}

/// What identifies a module.
pub enum ModuleIdView {
    Named(Qualified),
    Routine { name: Qualified, args: Seq<ArgView> },
    Trigger { on: Qualified, name: Seq<char> },
}

/// Some argument types.
pub open spec fn all_args(args: Seq<RoutineArg>) -> Seq<ArgView> {
    Seq::new(args.len(), |i: int| args[i]@)
}

/// The argument types as they are written.
pub open spec fn written(args: Seq<ArgView>) -> Seq<Seq<char>> {
    Seq::new(args.len(), |i: int| args[i].text)
}

impl View for ModuleId {
    type V = ModuleIdView;

    open spec fn view(&self) -> ModuleIdView {
        match *self {
            ModuleId::Named(name) => ModuleIdView::Named(name@),
            ModuleId::Routine { name, args } => ModuleIdView::Routine {
                name: name@,
                args: all_args(args@),
            },
            ModuleId::Trigger { on, name } => ModuleIdView::Trigger { on: on@, name: name@ },
        }
    }
}

/// Modules stand in the order of their kinds of identity, then of their names:
/// a routine's argument types come last, a trigger's table first.
pub open spec fn module_rank(id: ModuleIdView) -> Seq<Seq<char>> {
    match id {
        ModuleIdView::Named(name) => seq![seq!['0'], name.0, name.1],
        ModuleIdView::Routine { name, args } => seq![seq!['1'], name.0, name.1] + written(args),
        ModuleIdView::Trigger { on, name } => seq![seq!['2'], on.0, on.1, name],
    }
}

impl Key for ModuleId {
    open spec fn rank(&self) -> Seq<Seq<char>> {
        module_rank(self@)
    }

    fn ranks(&self) -> (r: Vec<String>) {
        match self {
            ModuleId::Named(name) => {
                let r: Vec<String> = vec![
                    text::one_char('0'),
                    name.schema.clone(),
                    name.name.clone(),
                ];
                assert(text::texts(r@) =~= module_rank(self@));
                r
            },
            ModuleId::Routine { name, args } => {
                let r = routine_ranks(name, args);
                assert(text::texts(r@) =~= module_rank(self@));
                r
            },
            ModuleId::Trigger { on, name } => {
                let r: Vec<String> = vec![
                    text::one_char('2'),
                    on.schema.clone(),
                    on.name.clone(),
                    name.clone(),
                ];
                assert(text::texts(r@) =~= module_rank(self@));
                r
            },
        }
    }
}

/// The texts that order a routine.
fn routine_ranks(name: &ObjectName, args: &Vec<RoutineArg>) -> (r: Vec<String>)
    ensures
        text::texts(r@) == seq![seq!['1'], name@.0, name@.1] + written(all_args(args@)),
{
    let mut r: Vec<String> = vec![text::one_char('1'), name.schema.clone(), name.name.clone()];
    let mut i: usize = 0;
    assert(text::texts(r@) =~= seq![seq!['1'], name@.0, name@.1] + written(all_args(args@)).take(0));
    while i < args.len()
        invariant
            i <= args@.len(),
            text::texts(r@) == seq![seq!['1'], name@.0, name@.1] + written(all_args(args@)).take(i as int),
        decreases args@.len() - i,
    {
        let ghost before = r@;
        let next = args[i].text.clone();
        r.push(next);
        proof {
            text::texts_push(before, next);
            assert(text::texts(r@) =~= seq![seq!['1'], name@.0, name@.1] + written(all_args(args@)).take(
                i + 1,
            ));
        }
        i += 1;
    }
    assert(written(all_args(args@)).take(i as int) =~= written(all_args(args@)));
    r
}

/// Between two argument types of an identity.
pub const ARG_COMMA: &'static str = ",";

/// A routine as a person writes it.
pub const ROUTINE: &'static str = "{}({})";

/// A module's identity as a person writes it: `schema.view`,
/// `schema.routine(type,type)`, `schema.table.trigger`.
pub open spec fn module_text(id: ModuleIdView) -> Seq<char> {
    match id {
        ModuleIdView::Named(name) => dotted(name),
        ModuleIdView::Routine { name, args } => text::filled(
            ROUTINE@,
            seq![dotted(name), text::joined(written(args), ARG_COMMA@)],
        ),
        ModuleIdView::Trigger { on, name } => dotted(on) + seq!['.'] + name,
    }
}

/// The schema of a module: a trigger's is its table's.
pub open spec fn module_schema(id: ModuleIdView) -> Seq<char> {
    match id {
        ModuleIdView::Named(name) => name.0,
        ModuleIdView::Routine { name, args: _ } => name.0,
        ModuleIdView::Trigger { on, name: _ } => on.0,
    }
}

/// The bare name of a module.
pub open spec fn module_name(id: ModuleIdView) -> Seq<char> {
    match id {
        ModuleIdView::Named(name) => name.1,
        ModuleIdView::Routine { name, args: _ } => name.1,
        ModuleIdView::Trigger { on: _, name } => name,
    }
}

/// The written argument types, as a list of strings.
pub fn arg_list(args: &Vec<RoutineArg>) -> (r: Vec<String>)
    ensures
        text::texts(r@) == written(all_args(args@)),
{
    let mut out: Vec<String> = Vec::new();
    let mut i: usize = 0;
    while i < args.len()
        invariant
            i <= args@.len(),
            out@.len() == i,
            forall|k: int| 0 <= k < i ==> out@[k]@ == args@[k].text@,
        decreases args@.len() - i,
    {
        out.push(args[i].text.clone());
        i += 1;
    }
    assert(text::texts(out@) =~= written(all_args(args@)));
    out
}

impl ModuleId {
    /// The identity as a person writes it.
    pub fn show(&self) -> (r: String)
        ensures
            r@ == module_text(self@),
    {
        match self {
            ModuleId::Named(name) => name.show(),
            ModuleId::Routine { name, args } => {
                let args = arg_list(args);
                let list = text::join(&args, ARG_COMMA);
                let shown = name.show();
                text::fill2(ROUTINE, shown.as_str(), list.as_str())
            },
            ModuleId::Trigger { on, name } => {
                let mut out = on.show();
                out.push('.');
                out.append(name.as_str());
                assert(dotted(on@).push('.') =~= dotted(on@) + seq!['.']);
                out
            },
        }
    }

    /// The schema the module is in.
    pub fn schema(&self) -> (r: &str)
        ensures
            r@ == module_schema(self@),
    {
        match self {
            ModuleId::Named(name) => name.schema.as_str(),
            ModuleId::Routine { name, .. } => name.schema.as_str(),
            ModuleId::Trigger { on, .. } => on.schema.as_str(),
        }
    }

    /// The module's own name.
    pub fn name(&self) -> (r: &str)
        ensures
            r@ == module_name(self@),
    {
        match self {
            ModuleId::Named(name) => name.name.as_str(),
            ModuleId::Routine { name, .. } => name.name.as_str(),
            ModuleId::Trigger { name, .. } => name.as_str(),
        }
    }

    /// The schema and the module's own name.
    pub fn object_name(&self) -> (r: ObjectName)
        ensures
            r@ == (module_schema(self@), module_name(self@)),
    {
        TableName::new(self.schema(), self.name())
    }
}

/// Whether two optional texts are the same.
fn same_optional(a: &Option<String>, b: &Option<String>) -> (r: bool)
    ensures
        r == (text::text_in(*a) == text::text_in(*b)),
{
    match (a, b) {
        (Some(a), Some(b)) => text::same(a.as_str(), b.as_str()),
        (None, None) => true,
        _ => false,
    }
}

/// Whether two lists of argument types are the same.
pub fn same_args(a: &Vec<RoutineArg>, b: &Vec<RoutineArg>) -> (r: bool)
    ensures
        r == (all_args(a@) == all_args(b@)),
{
    if a.len() != b.len() {
        assert(all_args(a@).len() != all_args(b@).len());
        return false;
    }
    let mut i: usize = 0;
    while i < a.len()
        invariant
            i <= a@.len(),
            a@.len() == b@.len(),
            forall|k: int| 0 <= k < i ==> a@[k]@ == b@[k]@,
        decreases a@.len() - i,
    {
        if !a[i].is(&b[i]) {
            assert(all_args(a@)[i as int] != all_args(b@)[i as int]);
            return false;
        }
        i += 1;
    }
    assert(all_args(a@) =~= all_args(b@));
    true
}

impl ModuleId {
    /// Whether both name the same module.
    pub fn is(&self, other: &ModuleId) -> (r: bool)
        ensures
            r == (self@ == other@),
    {
        match (self, other) {
            (ModuleId::Named(a), ModuleId::Named(b)) => a.is(b),
            (
                ModuleId::Routine { name: a, args: xs },
                ModuleId::Routine { name: b, args: ys },
            ) => a.is(b) && same_args(xs, ys),
            (ModuleId::Trigger { on: a, name: x }, ModuleId::Trigger { on: b, name: y }) => a.is(b)
                && text::same(x.as_str(), y.as_str()),
            _ => false,
        }
    }

    /// The same identity once more.
    pub fn again(&self) -> (r: ModuleId)
        ensures
            r@ == self@,
    {
        match self {
            ModuleId::Named(name) => ModuleId::Named(name.again()),
            ModuleId::Routine { name, args } => {
                let copied = copy_args(args);
                ModuleId::Routine { name: name.again(), args: copied }
            },
            ModuleId::Trigger { on, name } => ModuleId::Trigger {
                on: on.again(),
                name: name.clone(),
            },
        }
    }
}

impl RoutineArg {
    /// Whether both are the same argument type.
    pub fn is(&self, other: &RoutineArg) -> (r: bool)
        ensures
            r == (self@ == other@),
    {
        text::same(self.text.as_str(), other.text.as_str()) && text::same(
            self.canonical.as_str(),
            other.canonical.as_str(),
        ) && text::same(self.element.as_str(), other.element.as_str()) && self.array == other.array
            && self.catalogued == other.catalogued && same_optional(
            &self.overlong,
            &other.overlong,
        )
    }

    /// The same argument type once more.
    pub fn again(&self) -> (r: RoutineArg)
        ensures
            r@ == self@,
    {
        RoutineArg {
            text: self.text.clone(),
            canonical: self.canonical.clone(),
            element: self.element.clone(),
            array: self.array,
            catalogued: self.catalogued,
            overlong: match &self.overlong {
                Some(name) => Some(name.clone()),
                None => None,
            },
        }
    }
}

/// The same argument types once more.
pub fn copy_args(args: &Vec<RoutineArg>) -> (r: Vec<RoutineArg>)
    ensures
        all_args(r@) == all_args(args@),
{
    let mut out: Vec<RoutineArg> = Vec::new();
    let mut i: usize = 0;
    while i < args.len()
        invariant
            i <= args@.len(),
            out@.len() == i,
            forall|k: int| 0 <= k < i ==> out@[k]@ == args@[k]@,
        decreases args@.len() - i,
    {
        out.push(args[i].again());
        i += 1;
    }
    assert(all_args(out@) =~= all_args(args@));
    out
}

// ---------------------------------------------------------------------------
// Roles

/// What a grant is on.
#[derive(Debug, Clone, PartialEq, Eq)]
pub enum GrantTarget {
    /// A table or a view.
    Object(ObjectName),
    /// A function or a procedure, with its argument types.
    Routine { name: ObjectName, args: Vec<RoutineArg> },
    /// A whole schema.
    Schema(String),
}

/// What a grant is on.
pub enum TargetView {
    Object(Qualified),
    Routine { name: Qualified, args: Seq<ArgView> },
    Schema(Seq<char>),
}

impl View for GrantTarget {
    type V = TargetView;

    open spec fn view(&self) -> TargetView {
        match *self {
            GrantTarget::Object(name) => TargetView::Object(name@),
            GrantTarget::Routine { name, args } => TargetView::Routine {
                name: name@,
                args: all_args(args@),
            },
            GrantTarget::Schema(schema) => TargetView::Schema(schema@),
        }
    }
}

/// A schema as a grant names it.
pub const SCHEMA_TARGET: &'static str = "schema::{}";

/// A target as a declaration writes it: `schema.table`,
/// `schema.routine(type,type)`, `schema::name`.
pub open spec fn target_text(target: TargetView) -> Seq<char> {
    match target {
        TargetView::Object(name) => dotted(name),
        TargetView::Routine { name, args } => module_text(ModuleIdView::Routine { name, args }),
        TargetView::Schema(schema) => text::filled(SCHEMA_TARGET@, seq![schema]),
    }
}

/// Targets stand in the order of their kinds, then of their names.
pub open spec fn target_rank(target: TargetView) -> Seq<Seq<char>> {
    match target {
        TargetView::Object(name) => seq![seq!['0'], name.0, name.1],
        TargetView::Routine { name, args } => seq![seq!['1'], name.0, name.1] + written(args),
        TargetView::Schema(schema) => seq![seq!['2'], schema],
    }
}

impl Key for GrantTarget {
    open spec fn rank(&self) -> Seq<Seq<char>> {
        target_rank(self@)
    }

    fn ranks(&self) -> (r: Vec<String>) {
        match self {
            GrantTarget::Object(name) => {
                let r: Vec<String> = vec![
                    text::one_char('0'),
                    name.schema.clone(),
                    name.name.clone(),
                ];
                assert(text::texts(r@) =~= target_rank(self@));
                r
            },
            GrantTarget::Routine { name, args } => {
                let r = routine_ranks(name, args);
                assert(text::texts(r@) =~= target_rank(self@));
                r
            },
            GrantTarget::Schema(schema) => {
                let r: Vec<String> = vec![text::one_char('2'), schema.clone()];
                assert(text::texts(r@) =~= target_rank(self@));
                r
            },
        }
    }
}

impl GrantTarget {
    /// The target as a declaration writes it.
    pub fn show(&self) -> (r: String)
        ensures
            r@ == target_text(self@),
    {
        match self {
            GrantTarget::Object(name) => name.show(),
            GrantTarget::Routine { name, args } => {
                let args = arg_list(args);
                let list = text::join(&args, ARG_COMMA);
                let shown = name.show();
                text::fill2(ROUTINE, shown.as_str(), list.as_str())
            },
            GrantTarget::Schema(schema) => text::fill1(SCHEMA_TARGET, schema.as_str()),
        }
    }

    /// Whether both name the same target.
    pub fn is(&self, other: &GrantTarget) -> (r: bool)
        ensures
            r == (self@ == other@),
    {
        match (self, other) {
            (GrantTarget::Object(a), GrantTarget::Object(b)) => a.is(b),
            (
                GrantTarget::Routine { name: a, args: xs },
                GrantTarget::Routine { name: b, args: ys },
            ) => a.is(b) && same_args(xs, ys),
            (GrantTarget::Schema(a), GrantTarget::Schema(b)) => text::same(
                a.as_str(),
                b.as_str(),
            ),
            _ => false,
        }
    }

    /// The same target once more.
    pub fn again(&self) -> (r: GrantTarget)
        ensures
            r@ == self@,
    {
        match self {
            GrantTarget::Object(name) => GrantTarget::Object(name.again()),
            GrantTarget::Routine { name, args } => {
                let copied = copy_args(args);
                GrantTarget::Routine { name: name.again(), args: copied }
            },
            GrantTarget::Schema(schema) => GrantTarget::Schema(schema.clone()),
        }
    }
}

// ---------------------------------------------------------------------------
// Changes

/// How to carry a change out. It never says where to arrive.
#[derive(Debug, Clone, Copy, PartialEq, Eq, Structural)]
pub struct Strategy {
    /// Build indexes without blocking writers, where that can be done.
    pub online: bool,
}

impl Default for Strategy {
    fn default() -> (r: Self)
        ensures
            r == (Strategy { online: false }),
    {
        Strategy { online: false }
    }
}

/// One step of a plan.
#[derive(Debug, Clone, PartialEq, Eq)]
pub enum Change {
    CreateTable { name: TableName, table: Table },
    DropTable { name: TableName },
    RenameTable { from: TableName, to: TableName },
    AddColumn { table: TableName, name: String, column: Column },
    DropColumn { column: ColumnRef },
    RenameColumn { table: TableName, from: String, to: String },
    AlterColumnType {
        column: ColumnRef,
        from: DeclaredType,
        to: DeclaredType,
        from_nullable: bool,
        to_nullable: bool,
        /// The engine refuses the conversion between the two normalized types.
        incompatible: bool,
        /// The applying session's time zone decides what the values become.
        zone_decided: bool,
    },
    AlterColumnNullability { column: ColumnRef, to_nullable: bool },
    AlterColumnDefault { column: ColumnRef, from: Option<String>, to: Option<String> },
    SetColumnDeprecated { column: ColumnRef, reason: Option<String> },
    SetPrimaryKey { table: TableName, from: Option<PrimaryKey>, to: Option<PrimaryKey> },
    AddUnique { table: TableName, name: String, constraint: UniqueConstraint },
    DropUnique { table: TableName, name: String },
    AddForeignKey { table: TableName, name: String, constraint: ForeignKey },
    DropForeignKey { table: TableName, name: String },
    AddCheck { table: TableName, name: String, constraint: CheckConstraint },
    DropCheck { table: TableName, name: String },
    AddIndex { table: TableName, name: String, index: Index },
    DropIndex { table: TableName, name: String },
    SetDataMode { table: TableName },
    InsertRow { table: TableName },
    UpdateRow { table: TableName },
    DeleteRow { table: TableName },
    CreateModule { id: ModuleId, module: Module },
    AlterModule { id: ModuleId, module: Module },
    DropModule { id: ModuleId, kind: ModuleKind },
    CreateRole { name: String },
    DropRole { name: String },
    RenameRole { from: String, to: String },
    Grant { role: String },
    Revoke { role: String },
    PublicExecution { id: ModuleId },
}

/// A plan: its changes, in the order they run.
#[derive(Debug, Clone, PartialEq, Eq)]
pub struct ChangeSet {
    pub changes: Vec<Change>,
}

// ---------------------------------------------------------------------------
// The plan's names and the catalog's

/// The name the catalog has now for the table that has the name `table` once
/// the first `n` changes of a plan have run, and whether one of them creates
/// it. A table that is renamed twice is still the one the catalog has.
pub open spec fn origin(changes: Seq<Change>, n: int, table: Qualified) -> (Qualified, bool)
    decreases n,
{
    if n <= 0 {
        (table, false)
    } else {
        match changes[n - 1] {
            Change::RenameTable { from, to } => if to@ == table {
                origin(changes, n - 1, from@)
            } else {
                origin(changes, n - 1, table)
            },
            Change::CreateTable { name, table: _ } => if name@ == table {
                (table, true)
            } else {
                origin(changes, n - 1, table)
            },
            _ => origin(changes, n - 1, table),
        }
    }
}

/// The name the catalog has now for the column that has the name `column` once
/// the first `n` changes of a plan have run. A column that one of them creates
/// has the name it was created with.
pub open spec fn column_origin(
    changes: Seq<Change>,
    n: int,
    table: Qualified,
    column: Seq<char>,
) -> Seq<char>
    decreases n,
{
    if n <= 0 {
        column
    } else {
        match changes[n - 1] {
            Change::RenameColumn { table: on, from, to } => if on@ == table && to@ == column {
                column_origin(changes, n - 1, table, from@)
            } else {
                column_origin(changes, n - 1, table, column)
            },
            Change::RenameTable { from, to } => if to@ == table {
                column_origin(changes, n - 1, from@, column)
            } else {
                column_origin(changes, n - 1, table, column)
            },
            Change::CreateTable { name, table: _ } => if name@ == table {
                column
            } else {
                column_origin(changes, n - 1, table, column)
            },
            Change::AddColumn { table: on, name, column: _ } => if on@ == table && name@
                == column {
                column
            } else {
                column_origin(changes, n - 1, table, column)
            },
            _ => column_origin(changes, n - 1, table, column),
        }
    }
}

/// The name the catalog has for a table, under the name the whole plan gives
/// it.
pub open spec fn catalog_name(changes: Seq<Change>, table: Qualified) -> Qualified {
    origin(changes, changes.len() as int, table).0
}

/// Whether a plan creates a table.
pub open spec fn creates_table(changes: Seq<Change>, table: Qualified) -> bool {
    origin(changes, changes.len() as int, table).1
}

/// The name the catalog has now for the table that has the name `table` once
/// the first `count` changes of a plan have run, and whether one of them
/// creates it.
pub fn traced(changes: &Vec<Change>, count: usize, table: &TableName) -> (r: (TableName, bool))
    requires
        count <= changes@.len(),
    ensures
        (r.0@, r.1) == origin(changes@, count as int, table@),
{
    let mut here = table.again();
    let mut n: usize = count;
    while n > 0
        invariant
            n <= count <= changes@.len(),
            origin(changes@, count as int, table@) == origin(changes@, n as int, here@),
        decreases n,
    {
        match &changes[n - 1] {
            Change::RenameTable { from, to } => {
                if to.is(&here) {
                    here = from.again();
                }
            },
            Change::CreateTable { name, .. } => {
                if name.is(&here) {
                    return (here, true);
                }
            },
            _ => {},
        }
        n -= 1;
    }
    (here, false)
}

/// The name the catalog has now for the column that has the name `column` once
/// the first `count` changes of a plan have run.
pub fn traced_column(
    changes: &Vec<Change>,
    count: usize,
    table: &TableName,
    column: &String,
) -> (r: String)
    requires
        count <= changes@.len(),
    ensures
        r@ == column_origin(changes@, count as int, table@, column@),
{
    let mut on = table.again();
    let mut here = column.clone();
    let mut n: usize = count;
    while n > 0
        invariant
            n <= count <= changes@.len(),
            column_origin(changes@, count as int, table@, column@) == column_origin(
                changes@,
                n as int,
                on@,
                here@,
            ),
        decreases n,
    {
        match &changes[n - 1] {
            Change::RenameColumn { table, from, to } => {
                if table.is(&on) && text::same(to.as_str(), here.as_str()) {
                    here = from.clone();
                }
            },
            Change::RenameTable { from, to } => {
                if to.is(&on) {
                    on = from.again();
                }
            },
            Change::CreateTable { name, .. } => {
                if name.is(&on) {
                    return here;
                }
            },
            Change::AddColumn { table, name, .. } => {
                if table.is(&on) && text::same(name.as_str(), here.as_str()) {
                    return here;
                }
            },
            _ => {},
        }
        n -= 1;
    }
    here
}

/// The name the catalog has for a table now, under the name the plan gives it.
pub fn stored_name(changes: &Vec<Change>, table: &TableName) -> (r: TableName)
    ensures
        r@ == catalog_name(changes@, table@),
{
    traced(changes, changes.len(), table).0
}

/// Whether a plan creates a table.
pub fn is_created(changes: &Vec<Change>, table: &TableName) -> (r: bool)
    ensures
        r == creates_table(changes@, table@),
{
    traced(changes, changes.len(), table).1
}

} // verus!
