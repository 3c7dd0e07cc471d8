//! What the dialect answers, and when two names are the same.
use vstd::prelude::*;

use crate::error::DialectError;
use crate::model;
use crate::model::{
    Change, ColumnRef, ColumnType, DeclaredType, GrantTarget, ModuleId, ModuleKind, RoutineArg,
    TableName, TypeArg,
};
use crate::pins;
use crate::pins::{Read, Routine, RoutineRow, Within};
use crate::templates;
use crate::text;
use crate::{Folded, Lexicon, Postgres, TransactionFraming, TypeChangeRisk, Unbuilt};

verus! {

// ---------------------------------------------------------------------------
// The dialect

/// A bare name is looked for in its own schema first and then in the extras, in
/// their order: its rank is how far down that list its schema first stands, and
/// it has none where its schema is not on it.
pub proof fn a_rank_is_a_place_on_the_write_path(
    p: Postgres,
    from: &str,
    to: &str,
    r: Option<usize>,
)
    requires
        call_ensures(Postgres::bare_name_rank, (&p, from, to), r),
    ensures
        r == Some(0usize) <==> from@ == to@,
        r matches Some(rank) ==> (rank > 0 ==> {
            &&& rank <= p.extras().len()
            &&& p.extras()[rank - 1] == to@
            &&& forall|i: int| 0 <= i < rank - 1 ==> #[trigger] p.extras()[i] != to@
        }),
        r is None <==> from@ != to@ && forall|i: int|
            0 <= i < p.extras().len() ==> #[trigger] p.extras()[i] != to@,
{
    a_rank_is_first(p.extras(), to@, 0);
}

proof fn a_rank_is_first(extras: Seq<Seq<char>>, to: Seq<char>, at: int)
    requires
        0 <= at <= extras.len(),
        forall|i: int| 0 <= i < at ==> #[trigger] extras[i] != to,
    ensures
        match crate::rank_from(extras, to, at) {
            Some(rank) => at < rank <= extras.len() && extras[rank - 1] == to && forall|i: int|
                0 <= i < rank - 1 ==> #[trigger] extras[i] != to,
            None => forall|i: int| 0 <= i < extras.len() ==> #[trigger] extras[i] != to,
        },
    decreases extras.len() - at,
{
    if at < extras.len() && extras[at] != to {
        a_rank_is_first(extras, to, at + 1);
    }
}

/// Only a view takes a name that a table could have, and only routines can
/// share one.
pub proof fn who_shares_a_name(p: Postgres, kind: ModuleKind, shares: bool, overloads: bool)
    requires
        call_ensures(Postgres::shares_namespace_with_tables, (&p, kind), shares),
        call_ensures(Postgres::overloads, (&p, kind), overloads),
    ensures
        shares <==> kind is View,
        overloads <==> kind is Function || kind is Procedure,
{
}

/// A type that was refused on either side makes a change incompatible; between
/// two that were read, the type catalogue decides.
pub proof fn a_refused_type_is_incompatible(
    p: Postgres,
    from: DeclaredType,
    to: DeclaredType,
    between: TypeChangeRisk,
    r: TypeChangeRisk,
)
    requires
        call_ensures(Postgres::type_change_risk, (&p, &from, &to, between), r),
    ensures
        from.normal is Refused || to.normal is Refused ==> r == TypeChangeRisk::Incompatible,
        from.normal is As && to.normal is As ==> r == between,
{
}

/// An identifier is folded letter by letter, to the small letter of each
/// capital one of the first alphabet, and nothing is copied where nothing
/// changes.
pub proof fn an_identifier_is_folded_letter_by_letter(p: Postgres, ident: &str, r: Folded)
    requires
        call_ensures(Postgres::fold_ident, (&p, ident), r),
    ensures
        r@.len() == ident@.len(),
        forall|i: int|
            0 <= i < ident@.len() ==> #[trigger] r@[i] == if 'A' <= ident@[i] && ident@[i] <= 'Z' {
                (ident@[i] as u32 + 32) as char
            } else {
                ident@[i]
            },
        r is Owned <==> exists|i: int|
            0 <= i < ident@.len() && 'A' <= #[trigger] ident@[i] && ident@[i] <= 'Z',
{
    let folded = text::lower(ident@);
    assert forall|i: int| 0 <= i < ident@.len() implies #[trigger] folded[i] == if 'A' <= ident@[i]
        && ident@[i] <= 'Z' {
        (ident@[i] as u32 + 32) as char
    } else {
        ident@[i]
    } by {}
    if exists|i: int| 0 <= i < ident@.len() && 'A' <= #[trigger] ident@[i] && ident@[i] <= 'Z' {
        let i = choose|i: int|
            0 <= i < ident@.len() && 'A' <= #[trigger] ident@[i] && ident@[i] <= 'Z';
        assert(folded[i] != ident@[i]);
    } else {
        assert forall|i: int| 0 <= i < ident@.len() implies #[trigger] folded[i] == ident@[i] by {
            assert(!('A' <= ident@[i] && ident@[i] <= 'Z'));
        }
        assert(folded =~= ident@);
    }
}

/// Every write opens with the settings that decide what a declared text means,
/// and then its transaction.
pub proof fn a_write_opens_with_its_settings(
    p: Postgres,
    framing: TransactionFraming,
    pins: Option<&'static str>,
)
    requires
        call_ensures(Postgres::transaction_framing, (&p,), framing),
        call_ensures(Postgres::session_pins, (&p,), pins),
    ensures
        pins matches Some(s) && s@ == "SET standard_conforming_strings = on; SET check_function_bodies = on; \
         SET DateStyle = 'ISO, MDY'; SET TimeZone = 'UTC'; \
         SET IntervalStyle = 'postgres'; \
         SET timezone_abbreviations = 'Default'; \
         SET transform_null_equals = off; \
         SET bytea_output = 'hex'; SET extra_float_digits = 1;"@ && framing.begin@ == s@
            + " BEGIN;"@,
        framing.commit@ == "COMMIT;"@,
        framing.rollback@ == "ROLLBACK;"@,
{
}

/// What the dialect is called, and what its text is scanned by.
pub proof fn what_the_dialect_is(p: Postgres, name: &'static str, lexicon: Lexicon)
    requires
        call_ensures(Postgres::name, (&p,), name),
        call_ensures(Postgres::lexicon, (&p,), lexicon),
    ensures
        name@ == "postgres"@,
        lexicon.quoted_identifiers@ == seq![('"', '"')],
        lexicon.escape_strings,
        lexicon.dollar_quoted_strings,
        lexicon.unicode_identifiers,
        crate::fixed_texts(lexicon.string_prefixes@) == seq!["u&"@, "e"@, "n"@, "b"@, "x"@],
{
}

/// A dialect has the extras it was given, in their order, and none where it was
/// given none.
pub proof fn a_dialect_keeps_its_extras(
    given: Vec<String>,
    with: Postgres,
    without: Postgres,
    kept: &[String],
)
    requires
        call_ensures(Postgres::with_write_path_extras, (given,), with),
        call_ensures(Postgres::new, (), without),
        call_ensures(Postgres::write_path_extras, (&with,), kept),
    ensures
        without.extras().len() == 0,
        kept@.len() == given@.len(),
        forall|i: int| 0 <= i < kept@.len() ==> (#[trigger] kept@[i])@ == given@[i]@,
{
    assert(text::texts(kept@).len() == kept@.len());
    assert(text::texts(given@).len() == given@.len());
    assert forall|i: int| 0 <= i < kept@.len() implies (#[trigger] kept@[i])@ == given@[i]@ by {
        assert(text::texts(kept@)[i] == kept@[i]@);
        assert(text::texts(given@)[i] == given@[i]@);
    }
}

/// What is not built is refused by the name of the step that supplies it.
pub proof fn an_unbuilt_part_names_its_step(part: Unbuilt, e: DialectError, message: String)
    requires
        call_ensures(Unbuilt::refuse, (part,), e),
        call_ensures(DialectError::message, (&e,), message),
    ensures
        message@ == "the "@ + "postgres"@ + " dialect does not implement "@ + match part {
            Unbuilt::Introspection => "reading a database back (Phase 5 step 3)"@,
            Unbuilt::Roles => "roles and grants (Phase 5 step 6)"@,
            Unbuilt::Probes => "preflight probes (Phase 5 step 9)"@,
            Unbuilt::ReferenceData => "reference data (Phase 5 step 7)"@,
        } + " yet"@,
{
    templates::an_unbuilt_part_reads("postgres"@, part.step_text());
}

/// An error says what was refused: a name that cannot be written by the name,
/// anything else in the words it was refused with.
pub proof fn an_error_says_what_was_refused(e: DialectError, message: String)
    requires
        call_ensures(DialectError::message, (&e,), message),
    ensures
        e matches DialectError::UnquotableIdent(ident) ==> message@ == "`"@ + ident@
            + "` cannot be written as an identifier"@,
        e matches DialectError::Invalid { dialect: _, message: said } ==> message@ == said@,
{
    if let DialectError::UnquotableIdent(ident) = e {
        templates::an_unquotable_identifier_reads(ident@);
    }
}

// ---------------------------------------------------------------------------
// When two names are the same

/// Two names are the same exactly where schema and name are.
pub proof fn a_name_is_its_schema_and_its_name(
    a: TableName,
    b: TableName,
    same: bool,
    shown: String,
)
    requires
        call_ensures(TableName::is, (&a, &b), same),
        call_ensures(TableName::show, (&a,), shown),
    ensures
        same <==> a.schema@ == b.schema@ && a.name@ == b.name@,
        shown@ == a.schema@ + "."@ + a.name@,
{
    reveal_strlit(".");
    assert(seq!['.'] =~= "."@);
}

/// Two columns are the same exactly where their tables and their names are.
pub proof fn a_column_is_its_table_and_its_name(
    a: ColumnRef,
    b: ColumnRef,
    same: bool,
    shown: String,
)
    requires
        call_ensures(ColumnRef::is, (&a, &b), same),
        call_ensures(ColumnRef::show, (&a,), shown),
    ensures
        same <==> a.table.schema@ == b.table.schema@ && a.table.name@ == b.table.name@ && a.name@
            == b.name@,
        shown@ == a.table.schema@ + "."@ + a.table.name@ + "."@ + a.name@,
{
    reveal_strlit(".");
    assert(seq!['.'] =~= "."@);
}

/// Two modifiers are the same exactly where they are of one kind and say the
/// same.
pub proof fn a_modifier_is_its_kind_and_value(a: TypeArg, b: TypeArg, same: bool)
    requires
        call_ensures(TypeArg::is, (&a, &b), same),
    ensures
        same <==> match (a, b) {
            (TypeArg::Int(m), TypeArg::Int(n)) => m == n,
            (TypeArg::Max, TypeArg::Max) => true,
            (TypeArg::Ident(s), TypeArg::Ident(t)) => s@ == t@,
            _ => false,
        },
{
}

/// Two types are the same exactly where their base names are and their
/// modifiers are, one by one; how they were spelled does not matter.
pub proof fn a_type_is_its_base_and_its_modifiers(a: ColumnType, b: ColumnType, same: bool)
    requires
        call_ensures(ColumnType::is, (&a, &b), same),
    ensures
        same <==> a.base@ == b.base@ && a.args@.len() == b.args@.len() && forall|i: int|
            0 <= i < a.args@.len() ==> (#[trigger] a.args@[i])@ == b.args@[i]@,
{
    if a@ == b@ {
        assert(a@.args.len() == b@.args.len());
        assert forall|i: int| 0 <= i < a.args@.len() implies (#[trigger] a.args@[i])@
            == b.args@[i]@ by {
            assert(a@.args[i] == b@.args[i]);
        }
    }
    if a.base@ == b.base@ && a.args@.len() == b.args@.len() && forall|i: int|
        0 <= i < a.args@.len() ==> (#[trigger] a.args@[i])@ == b.args@[i]@ {
        assert forall|i: int| 0 <= i < a.args@.len() implies #[trigger] a@.args[i] == b@.args[i] by {
            assert(a.args@[i]@ == b.args@[i]@);
        }
        assert(a@.args =~= b@.args);
    }
}

/// Two argument types are the same exactly where everything about them is.
pub proof fn an_argument_type_is_all_it_says(a: RoutineArg, b: RoutineArg, same: bool)
    requires
        call_ensures(RoutineArg::is, (&a, &b), same),
    ensures
        same <==> {
            &&& a.text@ == b.text@
            &&& a.canonical@ == b.canonical@
            &&& a.element@ == b.element@
            &&& a.array == b.array
            &&& a.catalogued == b.catalogued
            &&& match (a.overlong, b.overlong) {
                (Some(s), Some(t)) => s@ == t@,
                (None, None) => true,
                _ => false,
            }
        },
{
}

proof fn the_same_arguments(a: Seq<RoutineArg>, b: Seq<RoutineArg>)
    ensures
        model::all_args(a) == model::all_args(b) <==> a.len() == b.len() && forall|i: int|
            0 <= i < a.len() ==> (#[trigger] a[i])@ == b[i]@,
{
    let x = model::all_args(a);
    let y = model::all_args(b);
    if x == y {
        assert(x.len() == y.len());
        assert forall|i: int| 0 <= i < a.len() implies (#[trigger] a[i])@ == b[i]@ by {
            assert(x[i] == y[i]);
        }
    }
    if a.len() == b.len() && forall|i: int| 0 <= i < a.len() ==> (#[trigger] a[i])@ == b[i]@ {
        assert forall|i: int| 0 <= i < a.len() implies #[trigger] x[i] == y[i] by {
            assert(a[i]@ == b[i]@);
        }
        assert(x =~= y);
    }
}

/// Two modules are the same exactly where they are named in the same way: by
/// one name, by one name with the same argument types, or by one name on the
/// same table.
pub proof fn a_module_is_its_identity(a: ModuleId, b: ModuleId, same: bool)
    requires
        call_ensures(ModuleId::is, (&a, &b), same),
    ensures
        same <==> match (a, b) {
            (ModuleId::Named(m), ModuleId::Named(n)) => m@ == n@,
            (
                ModuleId::Routine { name: m, args: x },
                ModuleId::Routine { name: n, args: y },
            ) => m@ == n@ && x@.len() == y@.len() && forall|i: int|
                0 <= i < x@.len() ==> (#[trigger] x@[i])@ == y@[i]@,
            (
                ModuleId::Trigger { on: s, name: m },
                ModuleId::Trigger { on: t, name: n },
            ) => s@ == t@ && m@ == n@,
            _ => false,
        },
{
    if let (ModuleId::Routine { name: _, args: x }, ModuleId::Routine { name: _, args: y }) = (
        a,
        b,
    ) {
        the_same_arguments(x@, y@);
    }
}

/// Two targets of a grant are the same exactly where they are of one kind and
/// name the same.
pub proof fn a_target_is_its_kind_and_its_name(a: GrantTarget, b: GrantTarget, same: bool)
    requires
        call_ensures(GrantTarget::is, (&a, &b), same),
    ensures
        same <==> match (a, b) {
            (GrantTarget::Object(m), GrantTarget::Object(n)) => m@ == n@,
            (
                GrantTarget::Routine { name: m, args: x },
                GrantTarget::Routine { name: n, args: y },
            ) => m@ == n@ && x@.len() == y@.len() && forall|i: int|
                0 <= i < x@.len() ==> (#[trigger] x@[i])@ == y@[i]@,
            (GrantTarget::Schema(m), GrantTarget::Schema(n)) => m@ == n@,
            _ => false,
        },
{
    if let (GrantTarget::Routine { name: _, args: x }, GrantTarget::Routine { name: _, args: y }) =
        (a, b) {
        the_same_arguments(x@, y@);
    }
}

/// How a module is shown: under its schema, a routine with its argument types
/// as they are written, a trigger under its table.
pub proof fn a_module_is_shown_in_full(id: ModuleId, shown: String)
    requires
        call_ensures(ModuleId::show, (&id,), shown),
    ensures
        shown@ == match id {
            ModuleId::Named(name) => name.schema@ + "."@ + name.name@,
            ModuleId::Routine { name, args } => name.schema@ + "."@ + name.name@ + "("@
                + text::joined(Seq::new(args@.len(), |i: int| args@[i].text@), ","@) + ")"@,
            ModuleId::Trigger { on, name } => on.schema@ + "."@ + on.name@ + "."@ + name@,
        },
{
    reveal_strlit(".");
    assert(seq!['.'] =~= "."@);
    if let ModuleId::Routine { name, args } = id {
        let written = model::written(model::all_args(args@));
        assert(written =~= Seq::new(args@.len(), |i: int| args@[i].text@));
        templates::a_routine_identity_reads(model::dotted(name@), text::joined(written, ","@));
    }
}

/// How a grant's target is shown: an object and a routine as they are, a schema
/// as a schema.
pub proof fn a_target_is_shown_in_full(target: GrantTarget, shown: String)
    requires
        call_ensures(GrantTarget::show, (&target,), shown),
    ensures
        shown@ == match target {
            GrantTarget::Object(name) => name.schema@ + "."@ + name.name@,
            GrantTarget::Routine { name, args } => name.schema@ + "."@ + name.name@ + "("@
                + text::joined(Seq::new(args@.len(), |i: int| args@[i].text@), ","@) + ")"@,
            GrantTarget::Schema(schema) => "schema::"@ + schema@,
        },
{
    reveal_strlit(".");
    assert(seq!['.'] =~= "."@);
    match target {
        GrantTarget::Routine { name, args } => {
            let written = model::written(model::all_args(args@));
            assert(written =~= Seq::new(args@.len(), |i: int| args@[i].text@));
            templates::a_routine_identity_reads(model::dotted(name@), text::joined(written, ","@));
        },
        GrantTarget::Schema(schema) => templates::a_schema_target_reads(schema@),
        _ => {},
    }
}

/// Modules of different kinds, names or written argument types are kept apart.
pub proof fn different_modules_are_different_keys(a: model::ModuleIdView, b: model::ModuleIdView)
    requires
        model::module_rank(a) == model::module_rank(b),
    ensures
        match (a, b) {
            (model::ModuleIdView::Named(m), model::ModuleIdView::Named(n)) => m == n,
            (
                model::ModuleIdView::Routine { name: m, args: x },
                model::ModuleIdView::Routine { name: n, args: y },
            ) => m == n && x.len() == y.len() && forall|i: int|
                0 <= i < x.len() ==> (#[trigger] x[i]).text == y[i].text,
            (
                model::ModuleIdView::Trigger { on: s, name: m },
                model::ModuleIdView::Trigger { on: t, name: n },
            ) => s == t && m == n,
            _ => false,
        },
{
    let x = model::module_rank(a);
    let y = model::module_rank(b);
    assert(x[0] == y[0]);
    assert(x[0][0] == y[0][0]);
    assert(x[1] == y[1]);
    assert(x[2] == y[2]);
    match (a, b) {
        (
            model::ModuleIdView::Routine { name: _, args: p },
            model::ModuleIdView::Routine { name: _, args: q },
        ) => {
            assert(x.len() == 3 + p.len());
            assert(y.len() == 3 + q.len());
            assert forall|i: int| 0 <= i < p.len() implies (#[trigger] p[i]).text == q[i].text by {
                assert(x[3 + i] == model::written(p)[i]);
                assert(y[3 + i] == model::written(q)[i]);
            }
        },
        (model::ModuleIdView::Trigger { .. }, model::ModuleIdView::Trigger { .. }) => {
            assert(x[3] == y[3]);
        },
        _ => {},
    }
}

proof fn target_kind(a: model::TargetView)
    ensures
        model::target_rank(a)[0][0] == match a {
            model::TargetView::Object(_) => '0',
            model::TargetView::Routine { .. } => '1',
            model::TargetView::Schema(_) => '2',
        },
        a matches model::TargetView::Routine { name, args: _ } ==> model::target_rank(a)[1]
            == name.0 && model::target_rank(a)[2] == name.1,
{
    if let model::TargetView::Routine { name, args } = a {
        let head = seq![seq!['1'], name.0, name.1];
        assert(model::target_rank(a) == head + model::written(args));
        assert(model::target_rank(a)[0] == head[0]);
    }
}

/// Targets of different kinds, names or written argument types are kept apart.
pub proof fn different_targets_are_different_keys(a: model::TargetView, b: model::TargetView)
    requires
        model::target_rank(a) == model::target_rank(b),
    ensures
        match (a, b) {
            (model::TargetView::Object(m), model::TargetView::Object(n)) => m == n,
            (
                model::TargetView::Routine { name: m, args: x },
                model::TargetView::Routine { name: n, args: y },
            ) => m == n && x.len() == y.len() && forall|i: int|
                0 <= i < x.len() ==> (#[trigger] x[i]).text == y[i].text,
            (model::TargetView::Schema(m), model::TargetView::Schema(n)) => m == n,
            _ => false,
        },
{
    let x = model::target_rank(a);
    let y = model::target_rank(b);
    assert(x[0] == y[0]);
    target_kind(a);
    target_kind(b);
    assert(x[1] == y[1]);
    if !(a is Schema) && !(b is Schema) {
        assert(x[2] == y[2]);
    }
    match (a, b) {
        (
            model::TargetView::Routine { name: _, args: p },
            model::TargetView::Routine { name: _, args: q },
        ) => {
            assert(x.len() == 3 + p.len());
            assert(y.len() == 3 + q.len());
            assert forall|i: int| 0 <= i < p.len() implies (#[trigger] p[i]).text == q[i].text by {
                assert(x[3 + i] == model::written(p)[i]);
                assert(y[3 + i] == model::written(q)[i]);
            }
        },
        (model::TargetView::Object(m), model::TargetView::Object(n)) => {
            assert(x[2] == m.1 && y[2] == n.1);
        },
        (model::TargetView::Schema(m), model::TargetView::Schema(n)) => {
            assert(x[1] == m && y[1] == n);
        },
        _ => {},
    }
}

// ---------------------------------------------------------------------------
// Columns under earlier names

/// Whether a change gives this column of this table its name, or the table its.
pub open spec fn gives_column(change: Change, table: model::Qualified, column: Seq<char>) -> bool {
    match change {
        Change::RenameColumn { table: on, from: _, to } => on@ == table && to@ == column,
        Change::AddColumn { table: on, name, column: _ } => on@ == table && name@ == column,
        Change::RenameTable { from: _, to } => to@ == table,
        Change::CreateTable { name, table: _ } => name@ == table,
        _ => false,
    }
}

/// A column that nothing gives a name has the catalog's. The last change that
/// gives it one decides: behind a rename it is the column that was renamed,
/// behind a renamed table it is the column of the old one, and a column that is
/// new has no earlier name.
pub proof fn the_last_change_that_names_a_column_decides(
    changes: Seq<Change>,
    n: int,
    at: int,
    table: model::Qualified,
    column: Seq<char>,
)
    requires
        0 <= n <= changes.len(),
        -1 <= at < n,
        at >= 0 ==> gives_column(changes[at], table, column),
        forall|i: int| at < i < n ==> !gives_column(#[trigger] changes[i], table, column),
    ensures
        at < 0 ==> model::column_origin(changes, n, table, column) == column,
        at >= 0 ==> model::column_origin(changes, n, table, column) == match changes[at] {
            Change::RenameColumn { table: _, from, to: _ } => model::column_origin(
                changes,
                at,
                table,
                from@,
            ),
            Change::RenameTable { from, to: _ } => model::column_origin(
                changes,
                at,
                from@,
                column,
            ),
            _ => column,
        },
    decreases n,
{
    if n > at + 1 {
        assert(!gives_column(changes[n - 1], table, column));
        the_last_change_that_names_a_column_decides(changes, n - 1, at, table, column);
    }
}

// ---------------------------------------------------------------------------
// Pinned routines

/// A row is read exactly where nothing in it is null and its argument list is
/// one: then every column is where it belongs.
pub proof fn a_routine_is_what_its_row_says(
    row: RoutineRow,
    args: Result<Vec<String>, String>,
    r: Result<Routine, String>,
)
    requires
        call_ensures(pins::routine_with, (&row, args), r),
    ensures
        r is Ok <==> args is Ok && row.namespace is Some && row.schema_name is Some && row.name
            is Some && row.input is Some,
        r matches Ok(routine) ==> {
            &&& Some(routine.namespace) == row.namespace
            &&& routine.schema@ == row.schema_name->0@
            &&& routine.name@ == row.name->0@
            &&& routine.input@ == row.input->0@
            &&& text::texts(routine.args@) == text::texts(args->Ok_0@)
        },
        args matches Err(e) ==> (r matches Err(said) && said@
            == "a routine's argument list is not JSON: "@ + e@),
        args is Ok && row.namespace is None ==> (r matches Err(said) && said@ == "column `"@
            + "namespace"@ + "` is unexpectedly NULL"@),
        args is Ok && row.namespace is Some && row.schema_name is None ==> (r matches Err(said)
            && said@ == "column `"@ + "schema_name"@ + "` is unexpectedly NULL"@),
        args is Ok && row.namespace is Some && row.schema_name is Some && row.name is None ==> (
        r matches Err(said) && said@ == "column `"@ + "name"@ + "` is unexpectedly NULL"@),
        args is Ok && row.namespace is Some && row.schema_name is Some && row.name is Some
            && row.input is None ==> (r matches Err(said) && said@ == "column `"@ + "input"@
            + "` is unexpectedly NULL"@),
{
    templates::a_null_column_reads("namespace"@);
    templates::a_null_column_reads("schema_name"@);
    templates::a_null_column_reads("name"@);
    templates::a_null_column_reads("input"@);
    if let Err(e) = args {
        templates::an_unreadable_argument_list_reads(e@);
    }
}

/// Every row is a routine of its own, in the order of the rows, or none is.
pub proof fn every_row_is_a_routine(rows: Vec<RoutineRow>, r: Result<Vec<Routine>, String>)
    requires
        call_ensures(pins::routines, (&rows,), r),
    ensures
        r matches Ok(list) ==> list@.len() == rows@.len() && forall|i: int|
            0 <= i < list@.len() ==> {
                &&& Some((#[trigger] list@[i]).namespace) == rows@[i].namespace
                &&& rows@[i].schema_name matches Some(s) && list@[i].schema@ == s@
                &&& rows@[i].name matches Some(s) && list@[i].name@ == s@
                &&& rows@[i].input matches Some(s) && list@[i].input@ == s@
                &&& rows@[i].args matches Some(json) && pins::json_strings(json@) == Ok::<
                    Seq<Seq<char>>,
                    Seq<char>,
                >(text::texts(list@[i].args@))
            },
        (forall|i: int|
            0 <= i < rows@.len() ==> (#[trigger] rows@[i]).namespace is Some
                && rows@[i].schema_name is Some && rows@[i].name is Some && rows@[i].input is Some
                && (rows@[i].args matches Some(json) && pins::json_strings(json@) is Ok)) ==> r
            is Ok,
{
    if let Ok(list) = r {
        assert forall|i: int| 0 <= i < list@.len() implies {
            &&& Some((#[trigger] list@[i]).namespace) == rows@[i].namespace
            &&& rows@[i].schema_name matches Some(s) && list@[i].schema@ == s@
            &&& rows@[i].name matches Some(s) && list@[i].name@ == s@
            &&& rows@[i].input matches Some(s) && list@[i].input@ == s@
            &&& rows@[i].args matches Some(json) && pins::json_strings(json@) == Ok::<
                Seq<Seq<char>>,
                Seq<char>,
            >(text::texts(list@[i].args@))
        } by {
            assert(pins::reads_routine(Ok::<Routine, String>(list@[i]), rows@[i]));
        }
    }
}

/// A read of one's own runs in a transaction that is rolled back; a read inside
/// another's leaves that one as it was.
pub proof fn a_read_leaves_nothing_behind(
    within: Within,
    r: (&'static str, Vec<&'static str>),
)
    requires
        call_ensures(pins::framing, (within,), r),
    ensures
        within is OwnTransaction ==> r.0@ == "BEGIN ISOLATION LEVEL READ COMMITTED READ ONLY;"@
            && r.1@.len() == 1 && r.1@[0]@ == "ROLLBACK;"@,
        within is CallersTransaction ==> r.0@ == "SAVEPOINT pbps_routine_pins"@ && r.1@.len() == 2
            && r.1@[0]@ == "ROLLBACK TO SAVEPOINT pbps_routine_pins"@ && r.1@[1]@
            == "RELEASE SAVEPOINT pbps_routine_pins"@,
{
}

/// A read counts only where it was closed too, and what went wrong first is
/// what is said.
pub proof fn a_read_counts_where_it_was_closed(
    read: Result<Read, String>,
    closed: Result<(), String>,
    r: Result<Read, String>,
)
    requires
        call_ensures(pins::concluded::<String>, (read, closed), r),
    ensures
        r is Ok <==> read is Ok && closed is Ok,
        r is Ok ==> r == read,
        read is Err ==> r == read,
        read is Ok ==> (closed matches Err(e) ==> r == Err::<Read, String>(e)),
{
}

/// A server's version is the text of the row, where there is one.
pub proof fn a_version_is_what_the_server_says(
    row: Option<Option<String>>,
    r: Result<String, String>,
)
    requires
        call_ensures(pins::server_version, (row,), r),
    ensures
        r is Ok <==> (row matches Some(Some(_))),
        row matches Some(Some(version)) ==> (r matches Ok(v) && v@ == version@),
        row matches Some(None) ==> (r matches Err(e) && e@ == "column `"@ + "version"@
            + "` is unexpectedly NULL"@),
        row is None ==> (r matches Err(e) && e@ == "`server_version_num` returned no row"@),
{
    templates::a_null_column_reads("version"@);
}

} // verus!
