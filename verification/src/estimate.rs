//! How expensive a change is, which is a different question from how dangerous
//! it is.
//!
//! Three facts, each on its own axis: whether the table is rebuilt, whether
//! every row is read even so, and which lock is taken. An estimate never
//! loosens a gate and never reclassifies anything. `Unknown` is an answer
//! here: an estimate that guesses cheap is worse than one that admits it does
//! not know.
//!
//! [`estimates`] answers from the plan alone, and [`against`] fills in what
//! only a connection knows.
use vstd::prelude::*;

use crate::emit;
use crate::model;
use crate::model::{
    Change, ChangeSet, ColumnType, DeclaredType, Reading, Strategy, TableName, TypeArg,
};
use crate::sql;
use crate::text;

verus! {

/// Whether the statement rebuilds the table.
#[derive(Debug, Clone, PartialEq, Eq)]
pub enum Rewrite {
    /// Every row is written again.
    Yes,
    /// A catalog change only.
    No,
    /// Not a function of the declaration alone. The reason is the answer.
    Unknown(String),
}

/// Whether the statement reads every row, which is a separate question from
/// whether it rewrites them.
#[derive(Debug, Clone, PartialEq, Eq)]
pub enum Reads {
    EveryRow,
    Nothing,
    Unknown(String),
}

/// What an answer about rewriting says.
pub enum RewriteView {
    Yes,
    No,
    Unknown(Seq<char>),
}

/// What an answer about reading says.
pub enum ReadsView {
    EveryRow,
    Nothing,
    Unknown(Seq<char>),
}

impl View for Rewrite {
    type V = RewriteView;

    open spec fn view(&self) -> RewriteView {
        match *self {
            Rewrite::Yes => RewriteView::Yes,
            Rewrite::No => RewriteView::No,
            Rewrite::Unknown(why) => RewriteView::Unknown(why@),
        }
    }
}

impl View for Reads {
    type V = ReadsView;

    open spec fn view(&self) -> ReadsView {
        match *self {
            Reads::EveryRow => ReadsView::EveryRow,
            Reads::Nothing => ReadsView::Nothing,
            Reads::Unknown(why) => ReadsView::Unknown(why@),
        }
    }
}

/// The lock the statement takes on the table.
#[derive(Debug, Clone, Copy, PartialEq, Eq, Structural)]
pub enum Lock {
    /// Blocks readers as well as writers.
    AccessExclusive,
    /// Blocks writers, not readers. An ordinary index build.
    Share,
    /// Blocks writers, not readers, and is what a foreign key takes, on the
    /// referenced table as well as on its own.
    ShareRowExclusive,
    /// Blocks neither, only other schema changes. A concurrent index build.
    ShareUpdateExclusive,
}

impl Lock {
    /// The lock in the engine's own words.
    pub open spec fn engine_text(self) -> Seq<char> {
        match self {
            Lock::AccessExclusive => "AccessExclusiveLock"@,
            Lock::Share => "ShareLock"@,
            Lock::ShareRowExclusive => "ShareRowExclusiveLock"@,
            Lock::ShareUpdateExclusive => "ShareUpdateExclusiveLock"@,
        }
    }

    /// What the lock stops, in words.
    pub open spec fn blocks_text(self) -> Seq<char> {
        match self {
            Lock::AccessExclusive => "reads and writes"@,
            Lock::Share => "writes"@,
            Lock::ShareRowExclusive => "writes"@,
            Lock::ShareUpdateExclusive => "neither reads nor writes, only other schema changes"@,
        }
    }

    /// The lock in the engine's own words, to match against `pg_locks`.
    pub fn engine_name(self) -> (r: &'static str)
        ensures
            r@ == self.engine_text(),
    {
        match self {
            Lock::AccessExclusive => "AccessExclusiveLock",
            Lock::Share => "ShareLock",
            Lock::ShareRowExclusive => "ShareRowExclusiveLock",
            Lock::ShareUpdateExclusive => "ShareUpdateExclusiveLock",
        }
    }

    /// What the lock stops.
    pub fn blocks(self) -> (r: &'static str)
        ensures
            r@ == self.blocks_text(),
    {
        match self {
            Lock::AccessExclusive => "reads and writes",
            Lock::Share => "writes",
            Lock::ShareRowExclusive => "writes",
            Lock::ShareUpdateExclusive => "neither reads nor writes, only other schema changes",
        }
    }
}

/// How many rows the table holds, as the catalog has it. Never analyzed is not
/// empty.
#[derive(Debug, Clone, Copy, PartialEq, Eq, Structural)]
pub enum Rows {
    Estimated(i64),
    NeverAnalyzed,
}

/// What one change costs.
#[derive(Debug, Clone, PartialEq, Eq)]
pub struct Estimate {
    /// The change, in the operator's words.
    pub about: String,
    /// The table the statement runs on, as the plan names it.
    pub table: TableName,
    /// The same table as the catalog has it now. Private, and filled by
    /// [`estimates`]: the name to measure a table under is the plan's to know.
    stored: TableName,
    /// The plan creates the table, so the catalog has no row for it yet.
    created: bool,
    pub rewrite: Rewrite,
    pub reads: Reads,
    pub lock: Lock,
    /// Other tables this statement locks.
    pub also_locks: Vec<TableName>,
    /// Filled in by [`against`].
    pub rows: Option<Rows>,
    /// Why `rows` is absent after [`against`] has run.
    pub rows_unknown: Option<String>,
}

/// What an estimate says.
#[verifier::ext_equal]
pub struct EstimateView {
    pub about: Seq<char>,
    pub table: model::Qualified,
    pub stored: model::Qualified,
    pub created: bool,
    pub rewrite: RewriteView,
    pub reads: ReadsView,
    pub lock: Lock,
    pub also_locks: Seq<model::Qualified>,
    pub rows: Option<Rows>,
    pub rows_unknown: Option<Seq<char>>,
}

/// Some tables, by name.
pub open spec fn all_names(tables: Seq<TableName>) -> Seq<model::Qualified> {
    Seq::new(tables.len(), |i: int| tables[i]@)
}

impl View for Estimate {
    type V = EstimateView;

    closed spec fn view(&self) -> EstimateView {
        EstimateView {
            about: self.about@,
            table: self.table@,
            stored: self.stored@,
            created: self.created,
            rewrite: self.rewrite@,
            reads: self.reads@,
            lock: self.lock,
            also_locks: all_names(self.also_locks@),
            rows: self.rows,
            rows_unknown: text::text_in(self.rows_unknown),
        }
    }
}

/// An estimate from a change alone.
pub open spec fn fresh(
    about: Seq<char>,
    table: model::Qualified,
    rewrite: RewriteView,
    reads: ReadsView,
    lock: Lock,
) -> EstimateView {
    EstimateView {
        about,
        table,
        stored: table,
        created: false,
        rewrite,
        reads,
        lock,
        also_locks: Seq::empty(),
        rows: None,
        rows_unknown: None,
    }
}

/// An estimate with both answers taken back to unknown.
pub open spec fn taken_back(e: EstimateView, why: Seq<char>) -> EstimateView {
    EstimateView {
        rewrite: RewriteView::Unknown(why),
        reads: ReadsView::Unknown(why),
        ..e
    }
}

impl Estimate {
    /// The change, in the operator's words.
    pub fn about(&self) -> (r: &str)
        ensures
            r@ == self@.about,
    {
        self.about.as_str()
    }

    /// The table the statement runs on, as the plan names it.
    pub fn table(&self) -> (r: &TableName)
        ensures
            r@ == self@.table,
    {
        &self.table
    }

    /// Whether the statement rebuilds the table.
    pub fn rewrite(&self) -> (r: &Rewrite)
        ensures
            r@ == self@.rewrite,
    {
        &self.rewrite
    }

    /// Whether the statement reads every row.
    pub fn reads(&self) -> (r: &Reads)
        ensures
            r@ == self@.reads,
    {
        &self.reads
    }

    /// The lock the statement takes on the table.
    pub fn lock(&self) -> (r: Lock)
        ensures
            r == self@.lock,
    {
        self.lock
    }

    /// Other tables this statement locks.
    pub fn also_locks(&self) -> (r: &Vec<TableName>)
        ensures
            all_names(r@) == self@.also_locks,
    {
        &self.also_locks
    }

    /// How many rows the table holds, once [`against`] has asked.
    pub fn rows(&self) -> (r: Option<Rows>)
        ensures
            r == self@.rows,
    {
        self.rows
    }

    /// Why the rows are not known after [`against`] has asked.
    pub fn rows_unknown(&self) -> (r: Option<&str>)
        ensures
            match r {
                Some(why) => self@.rows_unknown == Some(why@),
                None => self@.rows_unknown is None,
            },
    {
        match &self.rows_unknown {
            Some(why) => Some(why.as_str()),
            None => None,
        }
    }

    /// The table as the catalog has it now.
    pub fn stored(&self) -> (r: &TableName)
        ensures
            r@ == self@.stored,
    {
        &self.stored
    }

    /// Whether the plan creates the table, so that the catalog has no row for
    /// it yet.
    pub fn created(&self) -> (r: bool)
        ensures
            r == self@.created,
    {
        self.created
    }

    fn new(about: String, table: &TableName, rewrite: Rewrite, reads: Reads, lock: Lock) -> (r:
        Estimate)
        ensures
            r@ == fresh(about@, table@, rewrite@, reads@, lock),
    {
        let r = Estimate {
            about,
            table: table.again(),
            stored: table.again(),
            created: false,
            rewrite,
            reads,
            lock,
            also_locks: Vec::new(),
            rows: None,
            rows_unknown: None,
        };
        assert(r@.also_locks =~= Seq::empty());
        r
    }

    /// Takes both answers back to unknown, with the reason.
    fn unknown(&mut self, why: &str)
        ensures
            final(self)@ == taken_back(old(self)@, why@),
    {
        self.rewrite = Rewrite::Unknown(why.to_owned());
        self.reads = Reads::Unknown(why.to_owned());
        assert(self@.also_locks =~= old(self)@.also_locks);
    }

    /// Whether this change is free of the table's size.
    pub fn is_cheap(&self) -> (r: bool)
        ensures
            r == (self@.rewrite is No && self@.reads is Nothing),
    {
        match (&self.rewrite, &self.reads) {
            (Rewrite::No, Reads::Nothing) => true,
            _ => false,
        }
    }
}

// ---------------------------------------------------------------------------
// Changing a type

/// Why nothing is known of a type that is not read.
pub const UNREAD_TYPE: &'static str = "this dialect does not know one of the two types";

/// Why nothing is known of a change that the session decides.
pub const SESSION_DECIDES: &'static str =
    "the applying session's TimeZone decides it: measured, no rewrite under `UTC` and a \
             full rebuild under `America/New_York`";

/// The `i`th argument of a type, where it is a number.
pub open spec fn number_arg(ty: ColumnType, i: int) -> Option<int> {
    if 0 <= i < ty.args@.len() {
        match ty.args@[i] {
            TypeArg::Int(n) => Some(n as int),
            _ => None,
        }
    } else {
        None
    }
}

fn arg(ty: &ColumnType, i: usize) -> (r: Option<i64>)
    ensures
        match r {
            Some(n) => number_arg(*ty, i as int) == Some(n as int),
            None => number_arg(*ty, i as int) is None,
        },
{
    if i < ty.args.len() {
        match &ty.args[i] {
            TypeArg::Int(n) => Some(*n),
            TypeArg::Max | TypeArg::Ident(_) => None,
        }
    } else {
        None
    }
}

/// Whether the second bound is absent or no tighter than the first.
pub open spec fn no_tighter(from: Option<int>, to: Option<int>) -> bool {
    match (from, to) {
        (_, None) => true,
        (None, Some(_)) => false,
        (Some(x), Some(y)) => x <= y,
    }
}

/// A number, or zero where there is none.
pub open spec fn or_zero(n: Option<int>) -> int {
    match n {
        Some(n) => n,
        None => 0,
    }
}

/// Whether the target imposes no new constraint on the bytes already stored:
/// a varying string whose bound does not tighten, and a `numeric` that loses
/// its bounds, or keeps its scale and does not lose precision.
pub open spec fn is_free(from: ColumnType, to: ColumnType) -> bool {
    ||| {
        &&& from.base@ == "character varying"@
        &&& to.base@ == "character varying"@
        &&& no_tighter(number_arg(from, 0), number_arg(to, 0))
    }
    ||| from.base@ == "character varying"@ && to.base@ == "text"@
    ||| {
        &&& from.base@ == "text"@
        &&& to.base@ == "character varying"@
        &&& number_arg(to, 0) is None
    }
    ||| {
        &&& from.base@ == "numeric"@
        &&& to.base@ == "numeric"@
        &&& to.args@.len() == 0 || (or_zero(number_arg(from, 1)) == or_zero(number_arg(to, 1))
            && no_tighter(number_arg(from, 0), number_arg(to, 0)))
    }
}

fn bound_holds(from: &ColumnType, to: &ColumnType) -> (r: bool)
    ensures
        r == no_tighter(number_arg(*from, 0), number_arg(*to, 0)),
{
    match (arg(from, 0), arg(to, 0)) {
        (_, None) => true,
        (None, Some(_)) => false,
        (Some(x), Some(y)) => x <= y,
    }
}

fn scale(ty: &ColumnType) -> (r: i64)
    ensures
        r == or_zero(number_arg(*ty, 1)),
{
    match arg(ty, 1) {
        Some(n) => n,
        None => 0,
    }
}

fn free(from: &ColumnType, to: &ColumnType) -> (r: bool)
    ensures
        r == is_free(*from, *to),
{
    proof {
        reveal_strlit("character varying");
        reveal_strlit("text");
        reveal_strlit("numeric");
        assert("character varying"@.len() == 17);
        assert("text"@.len() == 4);
        assert("numeric"@.len() == 7);
    }
    let f = from.base.as_str();
    let t = to.base.as_str();
    if text::same(f, "character varying") {
        if text::same(t, "character varying") {
            bound_holds(from, to)
        } else {
            text::same(t, "text")
        }
    } else if text::same(f, "text") {
        text::same(t, "character varying") && arg(to, 0).is_none()
    } else if text::same(f, "numeric") && text::same(t, "numeric") {
        to.args.len() == 0 || (scale(from) == scale(to) && bound_holds(from, to))
    } else {
        false
    }
}

/// Whether changing one declared type into another rebuilds the table.
pub open spec fn rewrite_of(from: Reading, to: Reading, zone_decided: bool) -> RewriteView {
    match (from, to) {
        (Reading::As(from), Reading::As(to)) => if from@ == to@ {
            RewriteView::No
        } else if zone_decided {
            RewriteView::Unknown(SESSION_DECIDES@)
        } else if is_free(from, to) {
            RewriteView::No
        } else {
            RewriteView::Yes
        },
        _ => RewriteView::Unknown(UNREAD_TYPE@),
    }
}

/// Whether changing `from` into `to` rebuilds the table, from the typed change
/// alone. `zone_decided` is whether the applying session's time zone decides
/// what the values become.
pub fn rewrites(from: &DeclaredType, to: &DeclaredType, zone_decided: bool) -> (r: Rewrite)
    ensures
        r@ == rewrite_of(from.normal, to.normal, zone_decided),
{
    match (&from.normal, &to.normal) {
        (Reading::As(from), Reading::As(to)) => {
            if from.is(to) {
                Rewrite::No
            } else if zone_decided {
                Rewrite::Unknown(SESSION_DECIDES.to_owned())
            } else if free(from, to) {
                Rewrite::No
            } else {
                Rewrite::Yes
            }
        },
        _ => Rewrite::Unknown(UNREAD_TYPE.to_owned()),
    }
}

/// A type change reads exactly what it rewrites.
pub open spec fn reads_of(rewrite: RewriteView) -> ReadsView {
    match rewrite {
        RewriteView::Yes => ReadsView::EveryRow,
        RewriteView::No => ReadsView::Nothing,
        RewriteView::Unknown(why) => ReadsView::Unknown(why),
    }
}

// ---------------------------------------------------------------------------
// One change

/// A type change, in words.
pub const CHANGING: &'static str = "changing {} to {}";

/// A nullability change, in words.
pub const MAKING: &'static str = "making {} {}";

/// A new column, in words.
pub const ADDING_COLUMN: &'static str = "adding the column {}";

/// A dropped column, in words.
pub const DROPPING: &'static str = "dropping {}, which does not reclaim its space";

/// A new check, in words.
pub const ADDING_CHECK: &'static str = "adding the check {}";

/// A new unique constraint, in words.
pub const ADDING_UNIQUE: &'static str = "adding the unique constraint {}";

/// A new primary key, in words.
pub const ADDING_KEY: &'static str = "adding the primary key";

/// A new foreign key, in words.
pub const ADDING_FOREIGN_KEY: &'static str = "adding the foreign key {}";

/// A new index, in words.
pub const BUILDING: &'static str = "building the index {}";

/// A changed default, in words.
pub const CHANGING_DEFAULT: &'static str = "changing the default of {}";

/// A renamed column, in words.
pub const RENAMING: &'static str = "renaming {}";

/// A renamed table, in words.
pub const RENAMING_TABLE: &'static str = "renaming the table {}";

/// Why nothing is known of a default that is not a constant.
pub const UNPARSED_DEFAULT: &'static str =
    "the new column's default is an expression this tool does not parse, and \
                         whether it rebuilds the table depends on the expression's volatility: \
                         measured, a literal default rebuilds nothing and \
                         `DEFAULT gen_random_uuid()` rebuilds every row";

/// Whether a column's default is an expression this tool does not parse.
pub open spec fn has_unparsed_default(column: model::Column) -> bool {
    match column.default {
        Some(default) => !default.constant,
        None => false,
    }
}

/// What one change costs, from the change alone: `None` where the change is
/// not about a table's stored rows.
pub open spec fn estimated(change: Change, strategy: Strategy) -> Option<EstimateView> {
    match change {
        Change::AlterColumnType { column, from, to, zone_decided, .. } => {
            let rewrite = rewrite_of(from.normal, to.normal, zone_decided);
            Some(
                fresh(
                    text::filled(
                        CHANGING@,
                        seq![model::column_text(column@), to.written.spelled@],
                    ),
                    column@.0,
                    rewrite,
                    reads_of(rewrite),
                    Lock::AccessExclusive,
                ),
            )
        },
        Change::AlterColumnNullability { column, to_nullable } => Some(
            fresh(
                text::filled(
                    MAKING@,
                    seq![
                        model::column_text(column@),
                        if to_nullable {
                            "nullable"@
                        } else {
                            "NOT NULL"@
                        },
                    ],
                ),
                column@.0,
                RewriteView::No,
                if to_nullable {
                    ReadsView::Nothing
                } else {
                    ReadsView::EveryRow
                },
                Lock::AccessExclusive,
            ),
        ),
        Change::AddColumn { table, name, column } => {
            let e = fresh(
                text::filled(ADDING_COLUMN@, seq![model::column_text((table@, name@))]),
                table@,
                RewriteView::No,
                ReadsView::Nothing,
                Lock::AccessExclusive,
            );
            Some(
                if has_unparsed_default(column) {
                    taken_back(e, UNPARSED_DEFAULT@)
                } else {
                    e
                },
            )
        },
        Change::DropColumn { column } => Some(
            fresh(
                text::filled(DROPPING@, seq![model::column_text(column@)]),
                column@.0,
                RewriteView::No,
                ReadsView::Nothing,
                Lock::AccessExclusive,
            ),
        ),
        Change::AddCheck { table, name, .. } => Some(
            fresh(
                text::filled(ADDING_CHECK@, seq![name@]),
                table@,
                RewriteView::No,
                ReadsView::EveryRow,
                Lock::AccessExclusive,
            ),
        ),
        Change::AddUnique { table, name, .. } => Some(
            fresh(
                text::filled(ADDING_UNIQUE@, seq![name@]),
                table@,
                RewriteView::No,
                ReadsView::EveryRow,
                Lock::AccessExclusive,
            ),
        ),
        Change::SetPrimaryKey { table, from: _, to } => match to {
            Some(_) => Some(
                fresh(
                    ADDING_KEY@,
                    table@,
                    RewriteView::No,
                    ReadsView::EveryRow,
                    Lock::AccessExclusive,
                ),
            ),
            None => None,
        },
        Change::AddForeignKey { table, name, constraint } => {
            let e = fresh(
                text::filled(ADDING_FOREIGN_KEY@, seq![name@]),
                table@,
                RewriteView::No,
                ReadsView::EveryRow,
                Lock::ShareRowExclusive,
            );
            Some(
                EstimateView {
                    also_locks: if constraint.references_table@ != table@ {
                        seq![constraint.references_table@]
                    } else {
                        Seq::empty()
                    },
                    ..e
                },
            )
        },
        Change::AddIndex { table, name, index } => Some(
            fresh(
                text::filled(BUILDING@, seq![name@]),
                table@,
                RewriteView::No,
                ReadsView::EveryRow,
                if emit::is_concurrent(index, strategy) {
                    Lock::ShareUpdateExclusive
                } else {
                    Lock::Share
                },
            ),
        ),
        Change::AlterColumnDefault { column, .. } => Some(
            fresh(
                text::filled(CHANGING_DEFAULT@, seq![model::column_text(column@)]),
                column@.0,
                RewriteView::No,
                ReadsView::Nothing,
                Lock::AccessExclusive,
            ),
        ),
        Change::RenameColumn { table, from, to: _ } => Some(
            fresh(
                text::filled(RENAMING@, seq![model::column_text((table@, from@))]),
                table@,
                RewriteView::No,
                ReadsView::Nothing,
                Lock::AccessExclusive,
            ),
        ),
        Change::RenameTable { from, to: _ } => Some(
            fresh(
                text::filled(RENAMING_TABLE@, seq![model::dotted(from@)]),
                from@,
                RewriteView::No,
                ReadsView::Nothing,
                Lock::AccessExclusive,
            ),
        ),
        _ => None,
    }
}

/// What an optional estimate says.
pub open spec fn maybe(e: Option<Estimate>) -> Option<EstimateView> {
    match e {
        Some(e) => Some(e@),
        None => None,
    }
}

fn type_change(
    column: &model::ColumnRef,
    from: &DeclaredType,
    to: &DeclaredType,
    zone_decided: bool,
) -> (r: Estimate)
    ensures
        r@ == fresh(
            text::filled(CHANGING@, seq![model::column_text(column@), to.written.spelled@]),
            column@.0,
            rewrite_of(from.normal, to.normal, zone_decided),
            reads_of(rewrite_of(from.normal, to.normal, zone_decided)),
            Lock::AccessExclusive,
        ),
{
    let rewrite = rewrites(from, to, zone_decided);
    let reads = match &rewrite {
        Rewrite::Yes => Reads::EveryRow,
        Rewrite::No => Reads::Nothing,
        Rewrite::Unknown(why) => Reads::Unknown(why.clone()),
    };
    let shown = column.show();
    let about = text::fill2(CHANGING, shown.as_str(), to.written.spelled.as_str());
    Estimate::new(about, &column.table, rewrite, reads, Lock::AccessExclusive)
}

fn foreign_key(table: &TableName, name: &str, references: &TableName) -> (r: Estimate)
    ensures
        r@ == (EstimateView {
            also_locks: if references@ != table@ {
                seq![references@]
            } else {
                Seq::empty()
            },
            ..fresh(
                text::filled(ADDING_FOREIGN_KEY@, seq![name@]),
                table@,
                RewriteView::No,
                ReadsView::EveryRow,
                Lock::ShareRowExclusive,
            )
        }),
{
    let mut e = Estimate::new(
        text::fill1(ADDING_FOREIGN_KEY, name),
        table,
        Rewrite::No,
        Reads::EveryRow,
        Lock::ShareRowExclusive,
    );
    let ghost start = e@;
    if !references.is(table) {
        e.also_locks.push(references.again());
    }
    assert(e@.also_locks =~= if references@ != table@ {
        seq![references@]
    } else {
        Seq::empty()
    });
    e
}

/// What this change costs, from the typed change alone: not one row of data is
/// read to answer it.
pub fn estimate(change: &Change, strategy: Strategy) -> (r: Option<Estimate>)
    ensures
        maybe(r) == estimated(*change, strategy),
{
    match change {
        Change::AlterColumnType { column, from, to, zone_decided, .. } => Some(
            type_change(column, from, to, *zone_decided),
        ),
        Change::AlterColumnNullability { column, to_nullable } => {
            let shown = column.show();
            let (what, reads) = if *to_nullable {
                ("nullable", Reads::Nothing)
            } else {
                ("NOT NULL", Reads::EveryRow)
            };
            Some(
                Estimate::new(
                    text::fill2(MAKING, shown.as_str(), what),
                    &column.table,
                    Rewrite::No,
                    reads,
                    Lock::AccessExclusive,
                ),
            )
        },
        Change::AddColumn { table, name, column } => {
            let shown = table.column(name.as_str()).show();
            let mut e = Estimate::new(
                text::fill1(ADDING_COLUMN, shown.as_str()),
                table,
                Rewrite::No,
                Reads::Nothing,
                Lock::AccessExclusive,
            );
            if let Some(default) = &column.default {
                if !default.constant {
                    e.unknown(UNPARSED_DEFAULT);
                }
            }
            Some(e)
        },
        Change::DropColumn { column } => {
            let shown = column.show();
            Some(
                Estimate::new(
                    text::fill1(DROPPING, shown.as_str()),
                    &column.table,
                    Rewrite::No,
                    Reads::Nothing,
                    Lock::AccessExclusive,
                ),
            )
        },
        Change::AddCheck { table, name, .. } => Some(
            Estimate::new(
                text::fill1(ADDING_CHECK, name.as_str()),
                table,
                Rewrite::No,
                Reads::EveryRow,
                Lock::AccessExclusive,
            ),
        ),
        Change::AddUnique { table, name, .. } => Some(
            Estimate::new(
                text::fill1(ADDING_UNIQUE, name.as_str()),
                table,
                Rewrite::No,
                Reads::EveryRow,
                Lock::AccessExclusive,
            ),
        ),
        Change::SetPrimaryKey { table, from: _, to } => match to {
            Some(_) => Some(
                Estimate::new(
                    ADDING_KEY.to_owned(),
                    table,
                    Rewrite::No,
                    Reads::EveryRow,
                    Lock::AccessExclusive,
                ),
            ),
            None => None,
        },
        Change::AddForeignKey { table, name, constraint } => Some(
            foreign_key(table, name.as_str(), &constraint.references_table),
        ),
        Change::AddIndex { table, name, index } => {
            let lock = if emit::built_concurrently(index, strategy) {
                Lock::ShareUpdateExclusive
            } else {
                Lock::Share
            };
            Some(
                Estimate::new(
                    text::fill1(BUILDING, name.as_str()),
                    table,
                    Rewrite::No,
                    Reads::EveryRow,
                    lock,
                ),
            )
        },
        Change::AlterColumnDefault { column, .. } => {
            let shown = column.show();
            Some(
                Estimate::new(
                    text::fill1(CHANGING_DEFAULT, shown.as_str()),
                    &column.table,
                    Rewrite::No,
                    Reads::Nothing,
                    Lock::AccessExclusive,
                ),
            )
        },
        Change::RenameColumn { table, from, to: _ } => {
            let shown = table.column(from.as_str()).show();
            Some(
                Estimate::new(
                    text::fill1(RENAMING, shown.as_str()),
                    table,
                    Rewrite::No,
                    Reads::Nothing,
                    Lock::AccessExclusive,
                ),
            )
        },
        Change::RenameTable { from, to: _ } => {
            let shown = from.show();
            Some(
                Estimate::new(
                    text::fill1(RENAMING_TABLE, shown.as_str()),
                    from,
                    Rewrite::No,
                    Reads::Nothing,
                    Lock::AccessExclusive,
                ),
            )
        },
        Change::CreateTable { .. }
        | Change::DropTable { .. }
        | Change::SetColumnDeprecated { .. }
        | Change::DropUnique { .. }
        | Change::DropForeignKey { .. }
        | Change::DropCheck { .. }
        | Change::DropIndex { .. }
        | Change::CreateModule { .. }
        | Change::AlterModule { .. }
        | Change::DropModule { .. }
        | Change::InsertRow { .. }
        | Change::UpdateRow { .. }
        | Change::DeleteRow { .. }
        | Change::SetDataMode { .. }
        | Change::CreateRole { .. }
        | Change::DropRole { .. }
        | Change::RenameRole { .. }
        | Change::Grant { .. }
        | Change::Revoke { .. }
        | Change::PublicExecution { .. } => None,
    }
}

// ---------------------------------------------------------------------------
// A plan

/// How many changes of a plan decide what the catalog has for the table of
/// the change at `at`. A rename names its table as the changes before it leave
/// it; every other change names it as the whole plan does.
pub open spec fn deciding(changes: Seq<Change>, at: int) -> int {
    if changes[at] is RenameTable {
        at
    } else {
        changes.len() as int
    }
}

/// The estimate of the change at `at`, with the name the catalog has for its
/// table and whether the plan creates it.
pub open spec fn placed(changes: Seq<Change>, at: int, e: EstimateView) -> EstimateView {
    let (stored, created) = model::origin(changes, deciding(changes, at), e.table);
    EstimateView { stored, created, ..e }
}

/// The estimates of the first `n` changes of a plan.
pub open spec fn plan_estimates(changes: Seq<Change>, n: int, strategy: Strategy) -> Seq<
    EstimateView,
>
    decreases n,
{
    if n <= 0 {
        Seq::empty()
    } else {
        let rest = plan_estimates(changes, n - 1, strategy);
        match estimated(changes[n - 1], strategy) {
            Some(e) => rest.push(placed(changes, n - 1, e)),
            None => rest,
        }
    }
}

/// What some estimates say.
pub open spec fn views(v: Seq<Estimate>) -> Seq<EstimateView> {
    Seq::new(v.len(), |i: int| v[i]@)
}

/// Every estimate a plan carries, in order, each table named twice: as the
/// plan names it and as the catalog has it now. A change with no estimate is
/// left out.
pub fn estimates(changes: &ChangeSet, strategy: Strategy) -> (r: Vec<Estimate>)
    ensures
        views(r@) == plan_estimates(
            changes.changes@,
            changes.changes@.len() as int,
            strategy,
        ),
{
    let plan = &changes.changes;
    let mut out: Vec<Estimate> = Vec::new();
    let mut i: usize = 0;
    assert(views(out@) =~= Seq::empty());
    while i < plan.len()
        invariant
            i <= plan@.len(),
            plan@ == changes.changes@,
            views(out@) == plan_estimates(plan@, i as int, strategy),
        decreases plan@.len() - i,
    {
        if let Some(e) = estimate(&plan[i], strategy) {
            let ghost found = e@;
            let count: usize = match &plan[i] {
                Change::RenameTable { .. } => i,
                _ => plan.len(),
            };
            let (stored, created) = model::traced(plan, count, &e.table);
            let mut e = e;
            e.stored = stored;
            e.created = created;
            assert(e@ =~= placed(plan@, i as int, found));
            let ghost before = out@;
            out.push(e);
            assert(views(out@) =~= views(before).push(e@));
        }
        i += 1;
    }
    out
}

// ---------------------------------------------------------------------------
// What only a connection knows

/// Asks what a table is and how many rows it holds: `$1` is the quoted,
/// qualified name, `$2` the column of a type or nullability change, or empty.
pub const SHAPE: &'static str = "\
SELECT c.relkind::text AS relkind,
       c.relhassubclass AS inherited,
       c.reltuples::int8 AS reltuples,
       EXISTS (SELECT 1 FROM pg_catalog.pg_index i
                WHERE i.indrelid = c.oid
                  AND ($2 <> '' AND EXISTS (SELECT 1 FROM pg_catalog.pg_attribute a
                        WHERE a.attrelid = c.oid AND a.attname = $2
                          AND NOT a.attisdropped
                          AND a.attnum = ANY (i.indkey::int2[])))) AS column_is_indexed,
       (SELECT k.conname::text FROM pg_catalog.pg_constraint k
         WHERE k.conrelid = c.oid AND k.contype = 'c' AND k.convalidated
           AND EXISTS (SELECT 1 FROM pg_catalog.pg_attribute a
                        WHERE a.attrelid = c.oid AND a.attname = $2
                          AND NOT a.attisdropped AND a.attnum = ANY (k.conkey))
         ORDER BY k.conname LIMIT 1) AS validated_column_check
  FROM pg_catalog.pg_class c
 WHERE c.oid = pg_catalog.to_regclass($1)";

/// The row that [`SHAPE`] returns, each field absent where the catalog has a
/// null.
#[derive(Debug, Clone, PartialEq, Eq)]
pub struct Shape {
    pub relkind: Option<String>,
    pub inherited: Option<bool>,
    pub reltuples: Option<i64>,
    pub column_is_indexed: Option<bool>,
    pub validated_column_check: Option<String>,
}

/// Why a table whose name cannot be written is not measured.
pub const UNWRITABLE: &'static str = "this table's name cannot be written as an identifier";

/// Why a table that the plan creates has no row count.
pub const NOT_YET: &'static str =
    "this plan creates this table, so the database has no row count for it yet";

/// Why a table that is not there is not measured.
pub const NO_SUCH_TABLE: &'static str = "this database has no table by that name to measure";

/// Why a partitioned table is not answered for.
pub const PARTITIONED: &'static str =
    "this is a partitioned table, and ADR-0012 records that partitioned tables were not \
             measured";

/// Why an inheritance parent is not answered for.
pub const INHERITED: &'static str =
    "other tables inherit from this one, and ADR-0012 records that inheritance was not \
             measured";

/// Why a type change on an indexed column is not answered for.
pub const INDEXED: &'static str =
    "an index is built over the column this change retypes, so the index is rebuilt with \
             it, and ADR-0012 records that this was not measured";

/// Why the reads of a tightened column with a validated check are not known.
pub const CHECKED: &'static str =
    "validated check constraint {} refers to this column; the engine may use it \
             to skip the NOT NULL scan, but this tool does not parse its expression";

/// The row count a catalog row holds.
pub open spec fn rows_of(reltuples: Option<i64>) -> Rows {
    match reltuples {
        Some(n) => if n == -1 {
            Rows::NeverAnalyzed
        } else {
            Rows::Estimated(n)
        },
        None => Rows::NeverAnalyzed,
    }
}

/// The answer for a table that the catalog does not have.
pub open spec fn without_shape(e: EstimateView) -> EstimateView {
    if e.created {
        EstimateView { rows_unknown: Some(NOT_YET@), ..e }
    } else {
        taken_back(EstimateView { rows_unknown: Some(NO_SUCH_TABLE@), ..e }, NO_SUCH_TABLE@)
    }
}

/// The answer for a table of an ordinary shape: a type change that rebuilds it
/// takes an index over the column along, and a validated check may spare a
/// tightened column its scan.
pub open spec fn with_column(e: EstimateView, asked: bool, shape: Shape) -> EstimateView {
    if asked && e.rewrite is Yes && shape.column_is_indexed == Some(true) {
        taken_back(e, INDEXED@)
    } else if asked && e.rewrite is No && e.reads is EveryRow
        && shape.validated_column_check is Some {
        EstimateView {
            reads: ReadsView::Unknown(
                text::filled(CHECKED@, seq![shape.validated_column_check->0@]),
            ),
            ..e
        }
    } else {
        e
    }
}

/// The estimate after what the catalog says of the table: `asked` is whether
/// it was asked about a column.
pub open spec fn measured(e: EstimateView, asked: bool, shape: Option<Shape>) -> EstimateView {
    match shape {
        None => without_shape(e),
        Some(shape) => {
            let counted = EstimateView {
                rows: Some(rows_of(shape.reltuples)),
                rows_unknown: None,
                ..e
            };
            if shape.relkind matches Some(kind) && kind@ == "p"@ {
                taken_back(counted, PARTITIONED@)
            } else if shape.inherited == Some(true) {
                taken_back(counted, INHERITED@)
            } else {
                with_column(counted, asked, shape)
            }
        },
    }
}

/// The name to measure a table under. A name that cannot be written is not a
/// table with no rows in it: the estimate goes back to unknown.
pub fn relation(estimate: &mut Estimate) -> (r: Option<String>)
    ensures
        match sql::qualified_text(old(estimate)@.stored) {
            Ok(name) => r matches Some(s) && s@ == name && final(estimate)@ == old(estimate)@,
            Err(_) => r is None && final(estimate)@ == taken_back(
                old(estimate)@,
                UNWRITABLE@,
            ),
        },
{
    match sql::qualified(&estimate.stored) {
        Ok(name) => Some(name),
        Err(_) => {
            estimate.unknown(UNWRITABLE);
            None
        },
    }
}

/// Fills in what the catalog says of the table, and takes the answer back
/// where the table is of a shape that was never measured.
pub fn against(estimate: &mut Estimate, column: Option<&str>, shape: Option<&Shape>)
    ensures
        final(estimate)@ == measured(
            old(estimate)@,
            column is Some,
            match shape {
                Some(shape) => Some(*shape),
                None => None,
            },
        ),
{
    let shape = match shape {
        Some(shape) => shape,
        None => {
            if estimate.created {
                estimate.rows_unknown = Some(NOT_YET.to_owned());
            } else {
                estimate.rows_unknown = Some(NO_SUCH_TABLE.to_owned());
                estimate.unknown(NO_SUCH_TABLE);
            }
            assert(estimate@ =~= without_shape(old(estimate)@));
            return ;
        },
    };
    estimate.rows_unknown = None;
    estimate.rows = Some(
        match shape.reltuples {
            Some(n) => if n == -1 {
                Rows::NeverAnalyzed
            } else {
                Rows::Estimated(n)
            },
            None => Rows::NeverAnalyzed,
        },
    );
    let ghost counted = EstimateView {
        rows: Some(rows_of(shape.reltuples)),
        rows_unknown: None,
        ..old(estimate)@
    };
    assert(estimate@ =~= counted);
    let partitioned = match &shape.relkind {
        Some(kind) => text::same(kind.as_str(), "p"),
        None => false,
    };
    if partitioned {
        estimate.unknown(PARTITIONED);
        return ;
    }
    if let Some(true) = shape.inherited {
        estimate.unknown(INHERITED);
        return ;
    }
    let rewritten = match &estimate.rewrite {
        Rewrite::Yes => true,
        _ => false,
    };
    let scanned = match (&estimate.rewrite, &estimate.reads) {
        (Rewrite::No, Reads::EveryRow) => true,
        _ => false,
    };
    let indexed = match shape.column_is_indexed {
        Some(indexed) => indexed,
        None => false,
    };
    if column.is_some() && rewritten && indexed {
        estimate.unknown(INDEXED);
    } else if column.is_some() && scanned {
        if let Some(name) = &shape.validated_column_check {
            estimate.reads = Reads::Unknown(text::fill1(CHECKED, name.as_str()));
            assert(estimate@ =~= with_column(counted, true, *shape));
        }
    }
}

// ---------------------------------------------------------------------------
// Laws

/// An estimate that is not known is never called cheap, whatever was said
/// before: taking an answer back costs it.
pub proof fn unknown_is_never_cheap(e: EstimateView, why: Seq<char>)
    ensures
        !(taken_back(e, why).rewrite is No && taken_back(e, why).reads is Nothing),
{
}

/// A default this tool does not parse is never called free.
pub proof fn an_unparsed_default_is_unknown(table: TableName, name: String, column: model::Column)
    requires
        has_unparsed_default(column),
    ensures
        forall|strategy: Strategy|
            (#[trigger] estimated(Change::AddColumn { table, name, column }, strategy)) matches Some(
                e,
            ) && e.rewrite is Unknown && e.reads is Unknown,
{
}

/// The index lock is the one the emitted statement takes: the lighter lock is
/// named exactly where the statement is built alone and outside a transaction.
pub proof fn the_index_lock_follows_the_statement(
    extras: Seq<Seq<char>>,
    table: TableName,
    name: String,
    index: model::Index,
    strategy: Strategy,
)
    requires
        emit::emitted(extras, Change::AddIndex { table, name, index }, strategy) is Ok,
    ensures
        ({
            let change = Change::AddIndex { table, name, index };
            let statements = emit::emitted(extras, change, strategy)->Ok_0;
            &&& statements.len() == 1
            &&& estimated(change, strategy) matches Some(e) && (e.lock is ShareUpdateExclusive
                <==> !statements[0].transactional) && (e.lock is ShareUpdateExclusive
                <==> statements[0].own_batch)
        }),
{
}

/// What the catalog says never makes an estimate cheaper: a change that is
/// cheap after the table was measured was cheap before.
pub proof fn measuring_never_makes_a_change_cheap(
    e: EstimateView,
    asked: bool,
    shape: Option<Shape>,
)
    ensures
        ({
            let after = measured(e, asked, shape);
            after.rewrite is No && after.reads is Nothing ==> e.rewrite is No && e.reads is Nothing
        }),
{
}

/// Measuring names no other table and takes no other lock.
pub proof fn measuring_keeps_the_lock(e: EstimateView, asked: bool, shape: Option<Shape>)
    ensures
        measured(e, asked, shape).lock == e.lock,
        measured(e, asked, shape).table == e.table,
        measured(e, asked, shape).stored == e.stored,
        measured(e, asked, shape).also_locks == e.also_locks,
        measured(e, asked, shape).about == e.about,
{
}

} // verus!
