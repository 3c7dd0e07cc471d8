//! The PostgreSQL half of a declarative schema tool: what to ask the database,
//! what the answers mean, and what each change of a plan looks like on this
//! engine.
//!
//! There is no driver here. Every function takes plain values and gives plain
//! values back: the declarations and the plan ([`model`]), the rows a catalog
//! query returned, and what only a type catalogue or an identifier decoder can
//! say of a spelling. What a function does with them is stated in its
//! `ensures` and proved.
//!
//! - [`text`], [`order`] and [`lexer`]: text, its order, and the scans over
//!   declared SQL
//! - [`error`] and [`sql`]: refusals, and how names and literals are spelled
//! - [`emit`] and [`definition`]: the statements of a change
//! - [`validate`]: what is refused before anything connects
//! - [`estimate`]: what a change costs
//! - [`impact`] and [`drop_impact`]: what a rename breaks and what blocks a drop
//! - [`modules`]: what the catalog holds against a module about to be rebuilt
//! - [`introspect`] and [`granted`]: reading a database back, as [`entries`]
//! - [`pins`]: the routines a plan pins against replacement
//! - [`laws`], [`grouping`], [`pulled`], [`recorded`] and [`reordered`]: what
//!   holds across all of them
//!
//! What the answers come to is stated again over their inputs alone:
//!
//! - [`statements`] and [`templates`]: what each change is written as
//! - [`costs`], [`removals`], [`renames`] and [`inquiries`]: what a plan costs,
//!   takes away, breaks and asks
//! - [`acceptance`], [`bodies`] and [`scans`]: what a declaration is accepted
//!   for, and what is found in its text
//! - [`readings`], [`pulls`], [`grants`] and [`notes`]: what a catalog reads
//!   back as, and what is said of the rest
//! - [`rebuilds`] and [`answers`]: what a rebuild loses, and what the dialect
//!   answers
use vstd::prelude::*;

pub mod acceptance;
pub mod answers;
pub mod bodies;
pub mod costs;
pub mod definition;
pub mod drop_impact;
pub mod emit;
pub mod entries;
pub mod error;
pub mod estimate;
pub mod granted;
pub mod grants;
pub mod grouping;
pub mod impact;
pub mod inquiries;
pub mod introspect;
pub mod laws;
pub mod lexer;
pub mod model;
pub mod modules;
pub mod notes;
pub mod order;
pub mod pins;
pub mod pulled;
pub mod pulls;
pub mod readings;
pub mod rebuilds;
pub mod recorded;
pub mod removals;
pub mod renames;
pub mod reordered;
pub mod scans;
pub mod sql;
pub mod statements;
pub mod templates;
pub mod text;
pub mod validate;

verus! {

/// A part of the dialect that is not built yet.
///
/// One place, so that what is missing is a list rather than a habit, and so
/// that every refusal names the step that supplies it.
#[derive(Clone, Copy, Debug, PartialEq, Eq, Structural)]
pub enum Unbuilt {
    Introspection,
    Roles,
    Probes,
    ReferenceData,
}

impl Unbuilt {
    /// What is missing, in words.
    pub open spec fn step_text(self) -> Seq<char> {
        match self {
            Unbuilt::Introspection => "reading a database back (Phase 5 step 3)"@,
            Unbuilt::Roles => "roles and grants (Phase 5 step 6)"@,
            Unbuilt::Probes => "preflight probes (Phase 5 step 9)"@,
            Unbuilt::ReferenceData => "reference data (Phase 5 step 7)"@,
        }
    }

    /// The refusal of a change that needs this part.
    pub open spec fn refusal(self) -> error::Refusal {
        error::Refusal::NotBuilt { dialect: error::DIALECT@, part: self.step_text() }
    }

    /// What is missing, and the step that supplies it.
    pub fn step(self) -> (r: &'static str)
        ensures
            r@ == self.step_text(),
    {
        match self {
            Unbuilt::Introspection => "reading a database back (Phase 5 step 3)",
            Unbuilt::Roles => "roles and grants (Phase 5 step 6)",
            Unbuilt::Probes => "preflight probes (Phase 5 step 9)",
            Unbuilt::ReferenceData => "reference data (Phase 5 step 7)",
        }
    }

    /// The refusal of a change that needs this part.
    pub fn refuse(self) -> (r: error::DialectError)
        ensures
            r@ == self.refusal(),
    {
        error::DialectError::NotBuilt { dialect: error::DIALECT, part: self.step().to_owned() }
    }
}

/// The settings every write of this dialect runs under: each of them decides
/// what a declared text means. Plain `SET`, because outside a transaction
/// `SET LOCAL` does nothing.
pub const SESSION_PINS: &'static str =
    "SET standard_conforming_strings = on; SET check_function_bodies = on; \
         SET DateStyle = 'ISO, MDY'; SET TimeZone = 'UTC'; \
         SET IntervalStyle = 'postgres'; \
         SET timezone_abbreviations = 'Default'; \
         SET transform_null_equals = off; \
         SET bytea_output = 'hex'; SET extra_float_digits = 1;";

/// What opens a transaction, after the pins.
pub const BEGIN: &'static str = " BEGIN;";

/// How an engine reads its own text, for whatever scans a definition.
#[derive(Clone, Debug, PartialEq, Eq)]
pub struct Lexicon {
    /// What opens and what closes a quoted identifier.
    pub quoted_identifiers: Vec<(char, char)>,
    /// `E'…'` is a string in which a backslash escapes.
    pub escape_strings: bool,
    /// `$tag$…$tag$` is a string that only its own tag closes.
    pub dollar_quoted_strings: bool,
    /// What may stand in front of a quote and belong to the string it opens,
    /// folded.
    pub string_prefixes: Vec<&'static str>,
    /// `U&"…"` is an identifier.
    pub unicode_identifiers: bool,
}

impl Lexicon {
    /// Whether an identifier goes on with `c`.
    pub fn identifier_continues(&self, c: char) -> (r: bool)
        ensures
            r == lexer::goes_on(c),
    {
        lexer::continues_ident(c)
    }
}

/// Some fixed texts.
pub open spec fn fixed_texts(v: Seq<&'static str>) -> Seq<Seq<char>> {
    Seq::new(v.len(), |i: int| v[i]@)
}

/// What a transactional apply runs around its statements.
#[derive(Clone, Debug, PartialEq, Eq)]
pub struct TransactionFraming {
    pub begin: String,
    pub commit: &'static str,
    pub rollback: &'static str,
}

/// How much a change of type can cost the data.
#[derive(Clone, Copy, Debug, PartialEq, Eq, Structural)]
pub enum TypeChangeRisk {
    Safe,
    Narrowing,
    Incompatible,
}

/// An identifier as this engine reads it.
#[derive(Clone, Debug, PartialEq, Eq)]
pub enum Folded<'a> {
    /// As it was written.
    Borrowed(&'a str),
    /// With letters folded.
    Owned(String),
}

impl<'a> View for Folded<'a> {
    type V = Seq<char>;

    open spec fn view(&self) -> Seq<char> {
        match *self {
            Folded::Borrowed(s) => s@,
            Folded::Owned(s) => s@,
        }
    }
}

impl<'a> Folded<'a> {
    /// The identifier's text.
    pub fn as_str(&self) -> (r: &str)
        ensures
            r@ == self@,
    {
        match self {
            Folded::Borrowed(s) => s,
            Folded::Owned(s) => s.as_str(),
        }
    }
}

/// The place of `to` among `extras` from `at` on, counted from one.
pub open spec fn rank_from(extras: Seq<Seq<char>>, to: Seq<char>, at: int) -> Option<int>
    decreases extras.len() - at,
{
    if at < 0 || at >= extras.len() {
        None
    } else if extras[at] == to {
        Some(at + 1)
    } else {
        rank_from(extras, to, at + 1)
    }
}

/// The PostgreSQL dialect.
///
/// It carries one thing: the schemas that follow an object's own on the write
/// `search_path`. The verbatim expressions of a declaration bind their
/// unqualified names through that path when the object is created, and only
/// the project can say which schemas belong on it.
#[derive(Debug, Clone, PartialEq, Eq)]
pub struct Postgres {
    write_path_extras: Vec<String>,
}

impl Postgres {
    /// The schemas after an object's own on the write path.
    pub closed spec fn extras(&self) -> Seq<Seq<char>> {
        text::texts(self.write_path_extras@)
    }

    /// The dialect with nothing after an object's own schema on the write
    /// path.
    #[must_use]
    pub fn new() -> (r: Postgres)
        ensures
            r.extras() == Seq::<Seq<char>>::empty(),
    {
        let r = Postgres { write_path_extras: Vec::new() };
        assert(r.extras() =~= Seq::<Seq<char>>::empty());
        r
    }

    /// The dialect with `extras` after an object's own schema, in that order:
    /// the order is part of what a declaration means.
    #[must_use]
    pub fn with_write_path_extras(extras: Vec<String>) -> (r: Postgres)
        ensures
            r.extras() == text::texts(extras@),
    {
        Postgres { write_path_extras: extras }
    }

    /// The schemas after an object's own on the write path.
    #[must_use]
    pub fn write_path_extras(&self) -> (r: &[String])
        ensures
            text::texts(r@) == self.extras(),
    {
        self.write_path_extras.as_slice()
    }

    /// The name this dialect answers to.
    pub fn name(&self) -> (r: &'static str)
        ensures
            r@ == error::DIALECT@,
    {
        error::DIALECT
    }

    /// This engine's lexis: `"…"` alone quotes an identifier, `[` is code, and
    /// both extensions to the string literal are here. The words it reserves
    /// are the type catalogue's to say.
    pub fn lexicon(&self) -> (r: Lexicon)
        ensures
            r.quoted_identifiers@ == seq![('"', '"')],
            r.escape_strings,
            r.dollar_quoted_strings,
            fixed_texts(r.string_prefixes@) == seq!["u&"@, "e"@, "n"@, "b"@, "x"@],
            r.unicode_identifiers,
    {
        let r = Lexicon {
            quoted_identifiers: vec![('"', '"')],
            escape_strings: true,
            dollar_quoted_strings: true,
            string_prefixes: vec!["u&", "e", "n", "b", "x"],
            unicode_identifiers: true,
        };
        assert(r.quoted_identifiers@ =~= seq![('"', '"')]);
        assert(fixed_texts(r.string_prefixes@) =~= seq!["u&"@, "e"@, "n"@, "b"@, "x"@]);
        r
    }

    /// What a transactional apply runs around its statements: the pins come
    /// with `BEGIN`, because a setting cannot take effect in the batch it
    /// appears in.
    pub fn transaction_framing(&self) -> (r: TransactionFraming)
        ensures
            r.begin@ == SESSION_PINS@ + BEGIN@,
            r.commit@ == "COMMIT;"@,
            r.rollback@ == "ROLLBACK;"@,
    {
        TransactionFraming {
            begin: text::glue(SESSION_PINS, BEGIN),
            commit: "COMMIT;",
            rollback: "ROLLBACK;",
        }
    }

    /// The same pins, for the mode that opens no transaction to carry them.
    pub fn session_pins(&self) -> (r: Option<&'static str>)
        ensures
            r matches Some(pins) && pins@ == SESSION_PINS@,
    {
        Some(SESSION_PINS)
    }

    /// How much a change between two declared types can cost. `between` is the
    /// catalogue's answer for the two types as it reads them; where it does
    /// not read one of them there is nothing to answer, and the change is
    /// incompatible.
    pub fn type_change_risk(
        &self,
        from: &model::DeclaredType,
        to: &model::DeclaredType,
        between: TypeChangeRisk,
    ) -> (r: TypeChangeRisk)
        ensures
            r == (if from.normal is As && to.normal is As {
                between
            } else {
                TypeChangeRisk::Incompatible
            }),
    {
        match (&from.normal, &to.normal) {
            (model::Reading::As(_), model::Reading::As(_)) => between,
            _ => TypeChangeRisk::Incompatible,
        }
    }

    /// An unquoted identifier as this engine reads it: its ASCII letters
    /// folded to lower case, and every other character left alone. One that
    /// has nothing to fold is handed back and not copied.
    pub fn fold_ident<'a>(&self, ident: &'a str) -> (r: Folded<'a>)
        ensures
            r@ == text::lower(ident@),
            r is Owned <==> text::lower(ident@) != ident@,
    {
        let folded = text::fold(ident);
        if text::same(folded.as_str(), ident) {
            Folded::Borrowed(ident)
        } else {
            Folded::Owned(folded)
        }
    }

    /// An identifier, quoted, or the refusal of a text that cannot be one.
    pub fn quote_ident(&self, ident: &str) -> (r: Result<String, error::DialectError>)
        ensures
            error::told(r) == sql::quoted(ident@),
    {
        sql::quote(ident)
    }

    /// What a table declaration must satisfy before anything connects. `data`
    /// is what its reference data is refused for.
    pub fn validate_table(
        &self,
        name: &model::TableName,
        table: &model::Table,
        data: Vec<error::DialectError>,
    ) -> (r: Vec<error::DialectError>)
        ensures
            error::refusals(r@) == validate::table_refusals(
                name@,
                *table,
                error::refusals(data@),
            ),
    {
        validate::validate_table(name, table, data)
    }

    /// Whether a module of this kind shares a namespace with tables: a view
    /// does, and nothing else.
    pub fn shares_namespace_with_tables(&self, kind: model::ModuleKind) -> (r: bool)
        ensures
            r == (kind == model::ModuleKind::View),
    {
        match kind {
            model::ModuleKind::View => true,
            model::ModuleKind::Function | model::ModuleKind::Procedure
            | model::ModuleKind::Trigger => false,
        }
    }

    /// Whether two modules of this kind can share a name: routines overload,
    /// views and triggers do not.
    pub fn overloads(&self, kind: model::ModuleKind) -> (r: bool)
        ensures
            r == (kind == model::ModuleKind::Function || kind == model::ModuleKind::Procedure),
    {
        match kind {
            model::ModuleKind::Function | model::ModuleKind::Procedure => true,
            model::ModuleKind::View | model::ModuleKind::Trigger => false,
        }
    }

    /// Where a bare name in an object of schema `from` finds an object of
    /// schema `to`: its own schema first, then the extras in order, and
    /// nowhere else.
    pub fn bare_name_rank(&self, from: &str, to: &str) -> (r: Option<usize>)
        ensures
            match r {
                Some(rank) => if from@ == to@ {
                    rank == 0
                } else {
                    rank_from(self.extras(), to@, 0) == Some(rank as int)
                },
                None => from@ != to@ && rank_from(self.extras(), to@, 0) is None,
            },
    {
        if text::same(from, to) {
            return Some(0);
        }
        let extras = self.write_path_extras();
        let mut i: usize = 0;
        while i < extras.len()
            invariant
                i <= extras@.len(),
                from@ != to@,
                text::texts(extras@) == self.extras(),
                rank_from(self.extras(), to@, 0) == rank_from(self.extras(), to@, i as int),
            decreases extras@.len() - i,
        {
            assert(self.extras()[i as int] == extras@[i as int]@);
            if text::same(extras[i].as_str(), to) {
                return Some(i + 1);
            }
            i += 1;
        }
        assert(self.extras().len() == extras@.len());
        None
    }

    /// What a module declaration must satisfy before anything connects.
    pub fn validate_module(
        &self,
        id: &model::ModuleId,
        module: &model::Module,
        readings: &definition::Readings,
    ) -> (r: Vec<error::DialectError>)
        ensures
            error::refusals(r@) == definition::module_problems(*id, *module, *readings),
    {
        definition::validate_module(id, module, readings)
    }

    /// The statements of one change, or why it is refused.
    pub fn emit(&self, change: &model::Change, strategy: model::Strategy) -> (r: Result<
        Vec<emit::Statement>,
        error::DialectError,
    >)
        ensures
            emit::outcome(r) == emit::emitted(self.extras(), *change, strategy),
    {
        emit::emit(self, change, strategy)
    }
}

impl Default for Postgres {
    fn default() -> (r: Self)
        ensures
            r.extras() == Seq::<Seq<char>>::empty(),
    {
        Postgres::new()
    }
}

/// The write path finds an object in the order it lists its schemas: the
/// object's own schema is always first, and of two extras the one configured
/// earlier is found first.
pub proof fn an_earlier_extra_is_found_first(extras: Seq<Seq<char>>, i: int, j: int)
    requires
        0 <= i < j < extras.len(),
        extras[i] != extras[j],
        forall|k: int| 0 <= k < i ==> extras[k] != extras[i],
        forall|k: int| 0 <= k < j ==> extras[k] != extras[j],
    ensures
        rank_from(extras, extras[i], 0) == Some(i + 1),
        rank_from(extras, extras[j], 0) == Some(j + 1),
{
    rank_is_place(extras, i, 0);
    rank_is_place(extras, j, 0);
}

proof fn rank_is_place(extras: Seq<Seq<char>>, i: int, at: int)
    requires
        0 <= at <= i < extras.len(),
        forall|k: int| 0 <= k < i ==> extras[k] != extras[i],
    ensures
        rank_from(extras, extras[i], at) == Some(i + 1),
    decreases i - at,
{
    if at < i {
        rank_is_place(extras, i, at + 1);
    }
}

} // verus!
