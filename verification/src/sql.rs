//! Spelling: identifiers, literals, dollar quoting, and the scope a statement
//! runs under.
use vstd::prelude::*;

use crate::error;
use crate::error::{invalid, DialectError};
use crate::lexer;
use crate::model;
use crate::model::TableName;
use crate::text;
use crate::Postgres;

verus! {

/// This engine's limit on one identifier, in bytes. The server truncates a
/// longer one and says so in a notice that nothing reads.
pub const MAX_IDENT_BYTES: usize = 63;

// ---------------------------------------------------------------------------
// Identifiers

/// How many bytes a text takes.
pub open spec fn byte_len(s: Seq<char>) -> nat {
    vstd::utf8::encode_utf8(s).len()
}

/// Whether a text can be an identifier: it is not empty, holds no NUL, and
/// fits the engine's limit.
pub open spec fn is_ident(s: Seq<char>) -> bool {
    s.len() > 0 && !s.contains('\0') && byte_len(s) <= MAX_IDENT_BYTES
}

/// An identifier between double quotes, with the ones inside it doubled.
pub open spec fn quoted_text(ident: Seq<char>) -> Seq<char> {
    seq!['"'] + text::doubled(ident, '"') + seq!['"']
}

/// An identifier, quoted, or the refusal of a text that cannot be one.
pub open spec fn quoted(ident: Seq<char>) -> Result<Seq<char>, error::Refusal> {
    if is_ident(ident) {
        Ok(quoted_text(ident))
    } else {
        Err(error::Refusal::UnquotableIdent(ident))
    }
}

/// Quotes one identifier, or refuses a text that cannot be one.
pub fn quote(ident: &str) -> (r: Result<String, DialectError>)
    ensures
        error::told(r) == quoted(ident@),
{
    if ident.is_empty() || text::has_char(ident, '\0') || ident.as_bytes().len() > MAX_IDENT_BYTES {
        return Err(DialectError::UnquotableIdent(ident.to_owned()));
    }
    Ok(between(ident, '"'))
}

/// A text between two `q`, with the ones inside it doubled.
fn between(s: &str, q: char) -> (r: String)
    ensures
        r@ == seq![q] + text::doubled(s@, q) + seq![q],
{
    let mut out = text::one_char(q);
    let inner = text::double(s, q);
    out.append(inner.as_str());
    out.push(q);
    assert(out@ =~= seq![q] + text::doubled(s@, q) + seq![q]);
    out
}

/// Between a schema and a name.
pub const DOTTED: &'static str = "{}.{}";

/// Between two names of a list.
pub const COMMA: &'static str = ", ";

/// `"schema"."name"`.
pub open spec fn qualified_text(name: model::Qualified) -> Result<Seq<char>, error::Refusal> {
    error::composed(DOTTED@, seq![quoted(name.0), quoted(name.1)])
}

/// `"schema"."name"`, quoted on both halves.
pub fn qualified(t: &TableName) -> (r: Result<String, DialectError>)
    ensures
        error::told(r) == qualified_text(t@),
{
    error::compose2(DOTTED, quote(t.schema.as_str()), quote(t.name.as_str()))
}

/// Every name of a list, quoted.
pub open spec fn quoted_each(names: Seq<Seq<char>>) -> Seq<Result<Seq<char>, error::Refusal>> {
    Seq::new(names.len(), |i: int| quoted(names[i]))
}

/// A list of columns: each name quoted, with commas between them.
pub open spec fn column_list_text(columns: Seq<Seq<char>>) -> Result<Seq<char>, error::Refusal> {
    error::joined_all(quoted_each(columns), COMMA@)
}

/// A list of columns, each name quoted.
pub fn column_list(columns: &Vec<String>) -> (r: Result<String, DialectError>)
    ensures
        error::told(r) == column_list_text(text::texts(columns@)),
{
    let mut parts: Vec<Result<String, DialectError>> = Vec::new();
    let mut i: usize = 0;
    while i < columns.len()
        invariant
            i <= columns@.len(),
            parts@.len() == i,
            forall|k: int| 0 <= k < i ==> error::told(#[trigger] parts@[k]) == quoted(columns@[k]@),
        decreases columns@.len() - i,
    {
        parts.push(quote(columns[i].as_str()));
        i += 1;
    }
    assert(error::all_told(parts@) =~= quoted_each(text::texts(columns@)));
    error::join_all(parts, COMMA)
}

// ---------------------------------------------------------------------------
// Literals

/// A string literal, with the quotes inside it doubled.
pub open spec fn literal_text(s: Seq<char>) -> Seq<char> {
    seq!['\''] + text::doubled(s, '\'') + seq!['\'']
}

/// A string literal. Doubling is the whole rule while
/// `standard_conforming_strings` is on, which the framing pins.
pub fn literal(s: &str) -> (r: String)
    ensures
        r@ == literal_text(s@),
{
    between(s, '\'')
}

/// What every tag begins with.
pub const TAG_STEM: &'static str = "$pbps";

/// The `n`th dollar-quote tag: `$pbps$`, `$pbps1$`, `$pbps2$` and so on.
pub open spec fn tag_text(n: nat) -> Seq<char> {
    if n == 0 {
        TAG_STEM@ + seq!['$']
    } else {
        TAG_STEM@ + text::decimal(n) + seq!['$']
    }
}

/// The number of the first tag from `n` on that `body` does not hold. A body
/// holds no more tags than it has characters, so the search ends there.
pub open spec fn first_free(body: Seq<char>, n: nat) -> nat
    decreases body.len() + 1 - n,
{
    if n > body.len() || !text::holds(body, tag_text(n)) {
        n
    } else {
        first_free(body, n + 1)
    }
}

/// The first tag that `body` does not hold.
pub open spec fn free_tag(body: Seq<char>) -> Seq<char> {
    tag_text(first_free(body, 0))
}

/// Where a tag stands in a body.
spec fn tag_place(body: Seq<char>, n: nat) -> int {
    choose|at: int| text::occurs_at(body, tag_text(n), at)
}

/// A tag is a dollar, a name that no digit begins, and a dollar.
pub proof fn a_tag_is_a_name_between_dollars(n: nat)
    ensures
        tag_text(n).len() >= 2,
        tag_text(n)[0] == '$',
        tag_text(n).last() == '$',
        forall|i: int|
            0 < i < tag_text(n).len() - 1 ==> #[trigger] tag_text(n)[i] != '$' && tag_text(n)[i]
                != '\n' && lexer::goes_on(tag_text(n)[i]),
        tag_text(n).len() > 2 && !lexer::is_digit(tag_text(n)[1]),
{
    reveal_strlit("$pbps");
    if n > 0 {
        text::decimal_is_digits(n);
        let d = text::decimal(n);
        assert forall|i: int| 0 < i < tag_text(n).len() - 1 implies #[trigger] tag_text(n)[i] != '$'
            && tag_text(n)[i] != '\n' && lexer::goes_on(tag_text(n)[i]) by {
            if i >= 5 {
                assert(tag_text(n)[i] == d[i - 5]);
            }
        }
    }
}

/// Two tags that stand at one place are one tag.
proof fn tags_do_not_overlap(body: Seq<char>, a: nat, b: nat, at: int)
    requires
        text::occurs_at(body, tag_text(a), at),
        text::occurs_at(body, tag_text(b), at),
    ensures
        a == b,
{
    a_tag_is_a_name_between_dollars(a);
    a_tag_is_a_name_between_dollars(b);
    let ta = tag_text(a);
    let tb = tag_text(b);
    assert(forall|i: int| 0 <= i < ta.len() ==> ta[i] == body.subrange(at, at + ta.len())[i]);
    assert(forall|i: int| 0 <= i < tb.len() ==> tb[i] == body.subrange(at, at + tb.len())[i]);
    if ta.len() < tb.len() {
        assert(tb[ta.len() - 1] == ta[ta.len() - 1]);
        assert(false);
    }
    if tb.len() < ta.len() {
        assert(ta[tb.len() - 1] == tb[tb.len() - 1]);
        assert(false);
    }
    assert(ta =~= tb);
    reveal_strlit("$pbps");
    if a == 0 && b == 0 {
    } else if a == 0 {
        text::decimal_is_digits(b);
    } else if b == 0 {
        text::decimal_is_digits(a);
    } else {
        assert(text::decimal(a) =~= ta.subrange(5, ta.len() - 1));
        assert(text::decimal(b) =~= tb.subrange(5, tb.len() - 1));
        text::decimal_is_injective(a, b);
    }
}

/// A body holds no more tags than it has characters.
proof fn tags_run_out(body: Seq<char>, n: nat)
    requires
        forall|m: nat| m < n ==> text::holds(body, #[trigger] tag_text(m)),
    ensures
        n <= body.len(),
{
    let numbers = vstd::set_lib::set_int_range(0, n as int);
    let places = vstd::set_lib::set_int_range(0, body.len() as int);
    vstd::set_lib::lemma_int_range(0, n as int);
    vstd::set_lib::lemma_int_range(0, body.len() as int);
    let place = |m: int| tag_place(body, m as nat);
    assert forall|m: int| numbers.contains(m) implies places.contains(#[trigger] place(m)) by {
        assert(text::holds(body, tag_text(m as nat)));
        a_tag_is_a_name_between_dollars(m as nat);
        assert(text::occurs_at(body, tag_text(m as nat), tag_place(body, m as nat)));
    }
    assert forall|a: int, b: int|
        numbers.contains(a) && numbers.contains(b) && #[trigger] place(a) == #[trigger] place(
            b,
        ) implies a == b by {
        assert(text::holds(body, tag_text(a as nat)));
        assert(text::holds(body, tag_text(b as nat)));
        tags_do_not_overlap(body, a as nat, b as nat, place(a));
    }
    vstd::set_lib::lemma_map_size(numbers, numbers.map(place), place);
    assert(numbers.map(place).subset_of(places)) by {
        assert forall|p: int| numbers.map(place).contains(p) implies places.contains(p) by {
            let m = choose|m: int| numbers.contains(m) && place(m) == p;
            assert(places.contains(place(m)));
        }
    }
    vstd::set_lib::lemma_len_subset(numbers.map(place), places);
}

/// The `n`th dollar-quote tag.
fn tag(n: usize) -> (r: String)
    ensures
        r@ == tag_text(n as nat),
{
    let mut out = TAG_STEM.to_owned();
    if n > 0 {
        let number = text::show_len(n);
        out.append(number.as_str());
    }
    out.push('$');
    if n == 0 {
        assert(TAG_STEM@.push('$') =~= TAG_STEM@ + seq!['$']);
    } else {
        assert((TAG_STEM@ + text::decimal(n as nat)).push('$') =~= TAG_STEM@ + text::decimal(
            n as nat,
        ) + seq!['$']);
    }
    out
}

/// The search for a free tag ends at one.
proof fn first_free_is_free(body: Seq<char>, n: nat)
    requires
        forall|m: nat| m < n ==> text::holds(body, #[trigger] tag_text(m)),
    ensures
        !text::holds(body, tag_text(first_free(body, n))),
        forall|m: nat| m < first_free(body, n) ==> text::holds(body, #[trigger] tag_text(m)),
    decreases body.len() + 1 - n,
{
    tags_run_out(body, n);
    if text::holds(body, tag_text(n)) {
        first_free_is_free(body, n + 1);
    }
}

/// The tag chosen for a body does not stand in it, and every tag before it
/// does: nothing inside the body can close the block, and no other tag would
/// have been chosen for it.
pub proof fn the_tag_is_never_in_the_body(body: Seq<char>)
    ensures
        !text::holds(body, free_tag(body)),
        forall|m: nat| m < first_free(body, 0) ==> text::holds(body, #[trigger] tag_text(m)),
{
    first_free_is_free(body, 0);
}

/// A `$…$` tag that the body cannot close: the first one that the body does
/// not hold.
pub fn dollar_tag(body: &str) -> (r: String)
    ensures
        r@ == free_tag(body@),
        !text::holds(body@, r@),
{
    let cs = text::chars_of(body);
    let len: usize = cs.len();
    let mut n: usize = 0;
    loop
        invariant
            len == body@.len(),
            n <= len,
            first_free(body@, 0) == first_free(body@, n as nat),
            forall|m: nat| m < n ==> text::holds(body@, #[trigger] tag_text(m)),
        decreases len - n,
    {
        let candidate = tag(n);
        if !text::has(body, candidate.as_str()) {
            return candidate;
        }
        proof {
            assert forall|m: nat| m < n + 1 implies text::holds(body@, #[trigger] tag_text(m)) by {
                if m == n {
                    assert(text::holds(body@, tag_text(n as nat)));
                }
            }
            tags_run_out(body@, (n + 1) as nat);
        }
        n += 1;
    }
}

// ---------------------------------------------------------------------------
// The scope of a statement

/// The one schema name a `search_path` cannot carry, quoted or not: this
/// engine reads the entry as the current role's own schema.
pub const NOT_A_SCHEMA_A_PATH_CAN_NAME: &'static str = "$user";

/// The schema a path changes the meaning of by listing it: it is searched
/// first only while a path leaves it out.
pub const NOT_A_SCHEMA_A_PATH_MAY_LIST: &'static str = "pg_catalog";

/// Why a path may not list `pg_catalog`.
pub const LISTED: &'static str =
    "`{}` cannot be part of a write `search_path`: this engine searches it first \
                 only while a path leaves it out, and a path that names it puts it where it is \
                 written. Measured, a schema holding a `lower(text)` of its own binds \
                 `CHECK (lower(c) = c)` to the built-in under `SET search_path = \"shad\"` and to \
                 its own function under `SET search_path = \"shad\", \"pg_catalog\"`, with no \
                 error either way — so listing it would let a project object shadow a built-in \
                 in a check, a filter or a default (ADR-0013 §3). Leave it out; it is already \
                 first.";

/// Why a path cannot name `$user`.
pub const SUBSTITUTED: &'static str =
    "`{}` cannot be part of a write `search_path`: this engine reads that entry \
                 as the current role's own schema rather than as a schema of that name, and \
                 quoting it does not help — measured, `SET search_path = \"$user\"` binds an \
                 unqualified name through the deployment role's schema even where a schema \
                 called `$user` exists. A statement scoped that way would resolve a name in a \
                 check, a filter or a default against whatever that role owns (ADR-0013 §3).";

/// One entry of a write path.
pub open spec fn path_entry(part: Seq<char>) -> Result<Seq<char>, error::Refusal> {
    if part == NOT_A_SCHEMA_A_PATH_MAY_LIST@ {
        Err(error::refused(text::filled(LISTED@, seq![part])))
    } else if part == NOT_A_SCHEMA_A_PATH_CAN_NAME@ {
        Err(error::refused(text::filled(SUBSTITUTED@, seq![part])))
    } else {
        quoted(part)
    }
}

/// The schemas of a write path: the object's own, then the extras in order.
pub open spec fn path_schemas(schema: Seq<char>, extras: Seq<Seq<char>>) -> Seq<Seq<char>> {
    seq![schema] + extras
}

/// The write `search_path` for an object in `schema`.
pub open spec fn write_path_text(schema: Seq<char>, extras: Seq<Seq<char>>) -> Result<
    Seq<char>,
    error::Refusal,
> {
    let schemas = path_schemas(schema, extras);
    error::joined_all(Seq::new(schemas.len(), |i: int| path_entry(schemas[i])), COMMA@)
}

fn entry(part: &str) -> (r: Result<String, DialectError>)
    ensures
        error::told(r) == path_entry(part@),
{
    if text::same(part, NOT_A_SCHEMA_A_PATH_MAY_LIST) {
        Err(invalid(text::fill1(LISTED, part)))
    } else if text::same(part, NOT_A_SCHEMA_A_PATH_CAN_NAME) {
        Err(invalid(text::fill1(SUBSTITUTED, part)))
    } else {
        quote(part)
    }
}

/// The write `search_path` for an object in `schema`: its own schema first,
/// then the configured extras.
pub fn write_path(pg: &Postgres, schema: &str) -> (r: Result<String, DialectError>)
    ensures
        error::told(r) == write_path_text(schema@, pg.extras()),
{
    let extras = pg.write_path_extras();
    let ghost schemas = path_schemas(schema@, pg.extras());
    let mut parts: Vec<Result<String, DialectError>> = Vec::new();
    parts.push(entry(schema));
    let mut i: usize = 0;
    while i < extras.len()
        invariant
            i <= extras@.len(),
            schemas == path_schemas(schema@, text::texts(extras@)),
            parts@.len() == i + 1,
            forall|k: int|
                0 <= k < i + 1 ==> error::told(#[trigger] parts@[k]) == path_entry(schemas[k]),
        decreases extras@.len() - i,
    {
        parts.push(entry(extras[i].as_str()));
        i += 1;
    }
    assert(error::all_told(parts@) =~= Seq::new(
        schemas.len(),
        |k: int| path_entry(schemas[k]),
    ));
    error::join_all(parts, COMMA)
}

/// A statement between the two that set its scope and give it back.
pub const SCOPED: &'static str = "SET search_path = {};\n{}\nRESET search_path;";

/// One statement under the write path of `schema`: a refusal of the statement
/// itself comes first.
pub open spec fn scoped_text(
    schema: Seq<char>,
    extras: Seq<Seq<char>>,
    body: Result<Seq<char>, error::Refusal>,
) -> Result<Seq<char>, error::Refusal> {
    match body {
        Err(e) => Err(e),
        Ok(_) => error::composed(SCOPED@, seq![write_path_text(schema, extras), body]),
    }
}

/// One statement under the write path of `schema`.
pub fn scoped_sql(
    pg: &Postgres,
    schema: &str,
    body: Result<String, DialectError>,
) -> (r: Result<String, DialectError>)
    ensures
        error::told(r) == scoped_text(schema@, pg.extras(), error::told(body)),
{
    let body = body?;
    error::compose2(SCOPED, write_path(pg, schema), Ok(body))
}

} // verus!
