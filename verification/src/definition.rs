//! Modules: what their text must say, and the statements that make and drop
//! them.
//!
//! A routine's identity holds its argument types and its definition holds the
//! parameter list; a trigger's identity holds its table and its definition
//! holds the `ON` clause. The engine creates whatever the definition says
//! under whatever key the declaration uses, so a disagreement between the two
//! is refused here, where nothing else would catch it. Only a certain
//! disagreement is refused.
use vstd::prelude::*;

use crate::error;
use crate::error::{invalid, DialectError};
use crate::lexer;
use crate::model;
use crate::model::{Module, ModuleId, ModuleKind, RoutineArg, TableName};
use crate::sql;
use crate::text;
use crate::Postgres;

verus! {

// ---------------------------------------------------------------------------
// What others read

/// What the text of a Unicode-escaped identifier decodes to with an escape
/// character, where it decodes at all.
#[derive(Debug, Clone, PartialEq, Eq)]
pub struct Decoding {
    pub inner: String,
    pub escape: char,
    pub decoded: Option<String>,
}

/// What a spelling in a parameter list reads as, where it is a type at all.
#[derive(Debug, Clone, PartialEq, Eq)]
pub struct Spelling {
    pub text: String,
    pub read: Option<RoutineArg>,
}

/// The readings a definition is held against: each is asked of the type
/// catalogue or of the identifier decoder beforehand. A text that is not
/// listed was not read.
#[derive(Debug, Clone, PartialEq, Eq)]
pub struct Readings {
    pub decodings: Vec<Decoding>,
    pub spellings: Vec<Spelling>,
}

/// What an escaped text decodes to, from the `at`th entry on.
pub open spec fn decoded_from(
    list: Seq<Decoding>,
    at: int,
    inner: Seq<char>,
    escape: char,
) -> Option<Seq<char>>
    decreases list.len() - at,
{
    if at < 0 || at >= list.len() {
        None
    } else if list[at].inner@ == inner && list[at].escape == escape {
        text::text_in(list[at].decoded)
    } else {
        decoded_from(list, at + 1, inner, escape)
    }
}

fn decode(list: &Vec<Decoding>, inner: &str, escape: char) -> (r: Option<String>)
    ensures
        text::text_in(r) == decoded_from(list@, 0, inner@, escape),
{
    let mut i: usize = 0;
    while i < list.len()
        invariant
            i <= list@.len(),
            decoded_from(list@, 0, inner@, escape) == decoded_from(
                list@,
                i as int,
                inner@,
                escape,
            ),
        decreases list@.len() - i,
    {
        if text::same(list[i].inner.as_str(), inner) && list[i].escape == escape {
            return match &list[i].decoded {
                Some(s) => Some(s.clone()),
                None => None,
            };
        }
        i += 1;
    }
    None
}

/// What a spelling reads as, from the `at`th entry on.
pub open spec fn spelling_from(list: Seq<Spelling>, at: int, spelling: Seq<char>) -> Option<
    RoutineArg,
>
    decreases list.len() - at,
{
    if at < 0 || at >= list.len() {
        None
    } else if list[at].text@ == spelling {
        list[at].read
    } else {
        spelling_from(list, at + 1, spelling)
    }
}

fn read_spelling<'a>(list: &'a Vec<Spelling>, spelling: &[char]) -> (r: Option<&'a RoutineArg>)
    ensures
        match r {
            Some(arg) => spelling_from(list@, 0, spelling@) == Some(*arg),
            None => spelling_from(list@, 0, spelling@) is None,
        },
{
    let wanted = text::text_of(spelling);
    let mut i: usize = 0;
    while i < list.len()
        invariant
            i <= list@.len(),
            wanted@ == spelling@,
            spelling_from(list@, 0, spelling@) == spelling_from(list@, i as int, spelling@),
        decreases list@.len() - i,
    {
        if text::same(list[i].text.as_str(), wanted.as_str()) {
            return match &list[i].read {
                Some(arg) => Some(arg),
                None => None,
            };
        }
        i += 1;
    }
    None
}

// ---------------------------------------------------------------------------
// The table a trigger is on

/// The keyword in front of a trigger's table.
pub const ON: &'static str = "on";

/// Where the name after the first bare `on` at depth zero begins and ends.
/// Literals, comments and quoted identifiers are stepped over whole.
pub open spec fn on_clause(s: Seq<char>, at: int, depth: int) -> Option<(int, int)>
    decreases s.len() - at,
{
    if at < 0 || at >= s.len() {
        None
    } else {
        match lexer::datum_end_at(s, at) {
            Some(e) => if at < e <= s.len() {
                on_clause(s, e, depth)
            } else {
                None
            },
            None => if s[at] == '(' {
                on_clause(s, at + 1, depth + 1)
            } else if s[at] == ')' {
                on_clause(
                    s,
                    at + 1,
                    if depth > 0 {
                        depth - 1
                    } else {
                        0
                    },
                )
            } else if lexer::goes_on(s[at]) {
                let e = lexer::ident_end(s, at);
                if depth == 0 && text::lower(s.subrange(at, e)) == text::lower(ON@) {
                    let from = lexer::past_gap(s, e);
                    match lexer::qualified_end(s, from) {
                        Some(to) => Some((from, to)),
                        None => None,
                    }
                } else if at < e <= s.len() {
                    on_clause(s, e, depth)
                } else {
                    None
                }
            } else if s[at] == '"' {
                match lexer::qualified_end(s, at) {
                    Some(e) => if at < e <= s.len() {
                        on_clause(s, e, depth)
                    } else {
                        None
                    },
                    None => None,
                }
            } else {
                on_clause(s, at + 1, depth)
            },
        }
    }
}

/// The name a `CREATE TRIGGER` body puts after `ON`.
pub open spec fn table_in_body(definition: Seq<char>) -> Option<Seq<char>> {
    match on_clause(definition, 0, 0) {
        Some((from, to)) => Some(definition.subrange(from, to)),
        None => None,
    }
}

/// The name a `CREATE TRIGGER` body puts after `ON`. Where there is none, the
/// caller refuses rather than guessing.
pub fn the_table_the_body_is_on<'a>(definition: &'a [char]) -> (r: Option<&'a [char]>)
    ensures
        match r {
            Some(named) => table_in_body(definition@) == Some(named@),
            None => table_in_body(definition@) is None,
        },
{
    let mut at: usize = 0;
    let mut depth: usize = 0;
    while at < definition.len()
        invariant
            depth <= at <= definition@.len(),
            on_clause(definition@, 0, 0) == on_clause(definition@, at as int, depth as int),
        decreases definition@.len() - at,
    {
        if let Some(e) = lexer::skip_datum_at(definition, at) {
            at = e;
            continue;
        }
        let c = definition[at];
        if c == '(' {
            depth += 1;
            at += 1;
        } else if c == ')' {
            if depth > 0 {
                depth -= 1;
            }
            at += 1;
        } else if lexer::continues_ident(c) {
            let e = lexer::end_of_word(definition, at);
            let word = text::part(definition, at, e);
            if depth == 0 && text::spells(word, ON) {
                let from = lexer::after_the_gap(definition, e).0;
                return match lexer::qualified_name_at(definition, from) {
                    Some(to) => Some(text::part(definition, from, to)),
                    None => None,
                };
            }
            at = e;
        } else if c == '"' {
            match lexer::qualified_name_at(definition, at) {
                Some(e) => {
                    at = e;
                },
                None => {
                    return None;
                },
            }
        } else {
            at += 1;
        }
    }
    None
}

/// The name an identifier spells: an unquoted one folded, a quoted one as
/// written, a Unicode-escaped one decoded.
pub open spec fn unquoted_text(ident: Seq<char>, escape: char, decodings: Seq<Decoding>) -> Option<
    Seq<char>,
> {
    if lexer::is_unicode_quoted(ident, 0) {
        if ident.len() >= 4 && ident.last() == '"' {
            decoded_from(
                decodings,
                0,
                text::undoubled_from(ident.subrange(3, ident.len() - 1), '"', 0),
                escape,
            )
        } else {
            None
        }
    } else if ident.len() >= 2 && ident[0] == '"' && ident.last() == '"' {
        Some(text::undoubled_from(ident.subrange(1, ident.len() - 1), '"', 0))
    } else {
        Some(text::lower(ident))
    }
}

/// The name an identifier spells, or `None` where an escape does not decode.
pub fn unquoted(ident: &[char], escape: char, decodings: &Vec<Decoding>) -> (r: Option<String>)
    ensures
        text::text_in(r) == unquoted_text(ident@, escape, decodings@),
{
    let n: usize = ident.len();
    if lexer::unicode_quoted(ident, 0) {
        if n >= 4 && ident[n - 1] == '"' {
            let inner = text::undouble(text::part(ident, 3, n - 1), '"');
            return decode(decodings, inner.as_str(), escape);
        }
        return None;
    }
    if n >= 2 && ident[0] == '"' && ident[n - 1] == '"' {
        return Some(text::undouble(text::part(ident, 1, n - 1), '"'));
    }
    Some(text::fold_chars(ident))
}

/// What a qualified name was read as.
pub enum NameReading {
    /// It is not one.
    NotAName,
    /// A part of it does not decode.
    Uncertain,
    /// Its parts, in order.
    Parts(Seq<Seq<char>>),
}

/// The escape character of the part that ends at `at`, and where the text goes
/// on behind it.
pub open spec fn escape_after(s: Seq<char>, at: int) -> (char, int) {
    let g = lexer::past_gap(s, at);
    match lexer::escape_clause_end(s, g) {
        Some(n) => (s[n - 2], lexer::past_gap(s, n)),
        None => ('\\', g),
    }
}

/// The parts of the qualified name at `at`, after the ones already read.
pub open spec fn read_name(
    s: Seq<char>,
    at: int,
    parts: Seq<Seq<char>>,
    decodings: Seq<Decoding>,
) -> NameReading
    decreases s.len() - at,
{
    match lexer::one_ident_end(s, at) {
        None => NameReading::NotAName,
        Some(e) => {
            let (escape, rest) = escape_after(s, e);
            match unquoted_text(s.subrange(at, e), escape, decodings) {
                None => NameReading::Uncertain,
                Some(part) => if 0 <= rest < s.len() && s[rest] == '.' {
                    let next = lexer::past_gap(s, rest + 1);
                    if at < next <= s.len() {
                        read_name(s, next, parts.push(part), decodings)
                    } else {
                        NameReading::NotAName
                    }
                } else {
                    NameReading::Parts(parts.push(part))
                },
            }
        },
    }
}

/// Whether a name is the table's: a bare one is in the table's own schema,
/// because the write path puts that first. One that cannot be read for certain
/// is not refused.
pub open spec fn names_table(named: Seq<char>, on: model::Qualified, decodings: Seq<Decoding>) -> bool {
    match read_name(named, 0, Seq::empty(), decodings) {
        NameReading::NotAName => false,
        NameReading::Uncertain => true,
        NameReading::Parts(parts) => {
            ||| parts.len() == 1 && parts[0] == on.1
            ||| parts.len() == 2 && parts[0] == on.0 && parts[1] == on.1
        },
    }
}

/// Whether the name a trigger's body puts after `ON` is the table its identity
/// names.
pub fn names_the_same_table(named: &[char], on: &TableName, decodings: &Vec<Decoding>) -> (r: bool)
    ensures
        r == names_table(named@, on@, decodings@),
{
    let len: usize = named.len();
    let mut parts: Vec<String> = Vec::new();
    let mut at: usize = 0;
    assert(text::texts(parts@) =~= Seq::empty());
    loop
        invariant
            len == named@.len(),
            at <= len,
            read_name(named@, 0, Seq::empty(), decodings@) == read_name(
                named@,
                at as int,
                text::texts(parts@),
                decodings@,
            ),
        decreases len - at,
    {
        let e = match lexer::one_ident_len(named, at) {
            Some(e) => e,
            None => {
                return false;
            },
        };
        let g = lexer::after_the_gap(named, e).0;
        let (escape, rest) = match lexer::uescape_len(named, g) {
            Some(n) => (named[n - 2], lexer::after_the_gap(named, n).0),
            None => ('\\', g),
        };
        let part = match unquoted(text::part(named, at, e), escape, decodings) {
            Some(part) => part,
            None => {
                return true;
            },
        };
        proof {
            text::texts_push(parts@, part);
        }
        parts.push(part);
        if rest < len && named[rest] == '.' {
            at = lexer::after_the_gap(named, rest + 1).0;
        } else {
            let ghost read = text::texts(parts@);
            assert(read.len() == parts@.len());
            if parts.len() == 1 {
                assert(read[0] == parts@[0]@);
                return text::same(parts[0].as_str(), on.name.as_str());
            }
            if parts.len() == 2 {
                assert(read[0] == parts@[0]@ && read[1] == parts@[1]@);
                return text::same(parts[0].as_str(), on.schema.as_str()) && text::same(
                    parts[1].as_str(),
                    on.name.as_str(),
                );
            }
            return false;
        }
    }
}

/// What the identifier decoder is asked about in the qualified name at `at`:
/// the text of each escaped part, and its escape character.
pub open spec fn escapes_from(s: Seq<char>, at: int) -> Seq<(Seq<char>, char)>
    decreases s.len() - at,
{
    match lexer::one_ident_end(s, at) {
        None => Seq::empty(),
        Some(e) => {
            let (escape, rest) = escape_after(s, e);
            let ident = s.subrange(at, e);
            let here = if lexer::is_unicode_quoted(ident, 0) && ident.len() >= 4 && ident.last()
                == '"' {
                seq![(text::undoubled_from(ident.subrange(3, ident.len() - 1), '"', 0), escape)]
            } else {
                Seq::empty()
            };
            if 0 <= rest < s.len() && s[rest] == '.' {
                let next = lexer::past_gap(s, rest + 1);
                if at < next <= s.len() {
                    here + escapes_from(s, next)
                } else {
                    here
                }
            } else {
                here
            }
        },
    }
}

/// The escaped identifiers in the name of a trigger's table.
pub open spec fn escapes_of(definition: Seq<char>) -> Seq<(Seq<char>, char)> {
    match table_in_body(definition) {
        Some(named) => escapes_from(named, 0),
        None => Seq::empty(),
    }
}

/// Escaped identifiers, as their texts and escape characters.
pub open spec fn escape_pairs(v: Seq<(String, char)>) -> Seq<(Seq<char>, char)> {
    Seq::new(v.len(), |i: int| (v[i].0@, v[i].1))
}

fn escapes<'a>(named: &'a [char]) -> (r: Vec<(String, char)>)
    ensures
        escape_pairs(r@) == escapes_from(named@, 0),
{
    let len: usize = named.len();
    let mut out: Vec<(String, char)> = Vec::new();
    let mut at: usize = 0;
    assert(escape_pairs(out@) + escapes_from(named@, 0) =~= escapes_from(named@, 0));
    loop
        invariant
            len == named@.len(),
            at <= len,
            escapes_from(named@, 0) == escape_pairs(out@) + escapes_from(named@, at as int),
        decreases len - at,
    {
        let ghost before = escape_pairs(out@);
        let e = match lexer::one_ident_len(named, at) {
            Some(e) => e,
            None => {
                assert(escape_pairs(out@) + Seq::<(Seq<char>, char)>::empty() =~= before);
                return out;
            },
        };
        let g = lexer::after_the_gap(named, e).0;
        let (escape, rest) = match lexer::uescape_len(named, g) {
            Some(n) => (named[n - 2], lexer::after_the_gap(named, n).0),
            None => ('\\', g),
        };
        let ident = text::part(named, at, e);
        let n: usize = ident.len();
        let ghost mut here: Seq<(Seq<char>, char)> = Seq::empty();
        if lexer::unicode_quoted(ident, 0) && n >= 4 && ident[n - 1] == '"' {
            let inner = text::undouble(text::part(ident, 3, n - 1), '"');
            proof {
                here = seq![(inner@, escape)];
            }
            out.push((inner, escape));
        }
        assert(escape_pairs(out@) =~= before + here);
        if rest < len && named[rest] == '.' {
            let next = lexer::after_the_gap(named, rest + 1).0;
            proof {
                let more = escapes_from(named@, next as int);
                assert(before + (here + more) =~= before + here + more);
            }
            at = next;
        } else {
            return out;
        }
    }
}

/// The escaped identifiers in a trigger's definition that the identifier
/// decoder is asked about before [`validate_module`] is.
pub fn escapes_in(definition: &str) -> (r: Vec<(String, char)>)
    ensures
        escape_pairs(r@) == escapes_of(definition@),
{
    let cs = text::chars_of(definition);
    match the_table_the_body_is_on(cs.as_slice()) {
        Some(named) => escapes(named),
        None => {
            let none: Vec<(String, char)> = Vec::new();
            assert(escape_pairs(none@) =~= Seq::empty());
            none
        },
    }
}

// ---------------------------------------------------------------------------
// The parameters of a routine

/// The position of the parenthesis that closes the list, from `at` inside it.
pub open spec fn list_end(s: Seq<char>, at: int, depth: int) -> Option<int>
    decreases s.len() - at,
{
    if at < 0 || at >= s.len() {
        None
    } else {
        match lexer::datum_end_at(s, at) {
            Some(e) => if at < e <= s.len() {
                list_end(s, e, depth)
            } else {
                None
            },
            None => if s[at] == '"' {
                match lexer::one_ident_end(s, at) {
                    Some(e) => if at < e <= s.len() {
                        list_end(s, e, depth)
                    } else {
                        None
                    },
                    None => None,
                }
            } else if s[at] == '(' {
                list_end(s, at + 1, depth + 1)
            } else if s[at] == ')' {
                if depth <= 1 {
                    Some(at)
                } else {
                    list_end(s, at + 1, depth - 1)
                }
            } else {
                list_end(s, at + 1, depth)
            },
        }
    }
}

/// The parameter list at the front of a routine's definition, without its
/// parentheses.
pub open spec fn list_text(definition: Seq<char>) -> Option<Seq<char>> {
    let from = lexer::past_gap(definition, 0);
    if 0 <= from < definition.len() && definition[from] == '(' {
        match list_end(definition, from + 1, 1) {
            Some(to) => Some(definition.subrange(from + 1, to)),
            None => None,
        }
    } else {
        None
    }
}

/// The parameter list at the front of a routine's definition, without its
/// parentheses, or `None` where the text does not begin with one.
pub fn parameter_list<'a>(definition: &'a [char]) -> (r: Option<&'a [char]>)
    ensures
        match r {
            Some(list) => list_text(definition@) == Some(list@),
            None => list_text(definition@) is None,
        },
{
    let from = lexer::after_the_gap(definition, 0).0;
    if from >= definition.len() || definition[from] != '(' {
        return None;
    }
    let start: usize = from + 1;
    let mut at: usize = start;
    let mut depth: usize = 1;
    while at < definition.len()
        invariant
            start <= at <= definition@.len(),
            start == from + 1,
            from == lexer::past_gap(definition@, 0),
            from < definition@.len(),
            definition@[from as int] == '(',
            1 <= depth <= at,
            list_end(definition@, start as int, 1) == list_end(
                definition@,
                at as int,
                depth as int,
            ),
        decreases definition@.len() - at,
    {
        if let Some(e) = lexer::skip_datum_at(definition, at) {
            at = e;
            continue;
        }
        let c = definition[at];
        if c == '"' {
            match lexer::one_ident_len(definition, at) {
                Some(e) => {
                    at = e;
                },
                None => {
                    return None;
                },
            }
            continue;
        }
        if c == '(' {
            depth += 1;
        } else if c == ')' {
            if depth == 1 {
                return Some(text::part(definition, start, at));
            }
            depth -= 1;
        }
        at += 1;
    }
    None
}

/// `depth` inside one more bracket, outside one, or unchanged.
pub open spec fn bracket_depth(c: char, depth: int) -> int {
    if c == '(' || c == '[' {
        depth + 1
    } else if c == ')' || c == ']' {
        if depth > 0 {
            depth - 1
        } else {
            0
        }
    } else {
        depth
    }
}

/// The parameters of a list from `start`, the scan standing at `at`: split at
/// the commas that are code at depth zero.
pub open spec fn split_from(s: Seq<char>, at: int, start: int, depth: int) -> Seq<Seq<char>>
    decreases s.len() - at,
{
    if at < 0 || at >= s.len() {
        seq![lexer::trimmed(s.subrange(start, s.len() as int))]
    } else {
        match lexer::datum_end_at(s, at) {
            Some(e) => if at < e <= s.len() {
                split_from(s, e, start, depth)
            } else {
                Seq::empty()
            },
            None => if s[at] == '"' && lexer::one_ident_end(s, at) is Some {
                let e = lexer::one_ident_end(s, at)->0;
                if at < e <= s.len() {
                    split_from(s, e, start, depth)
                } else {
                    Seq::empty()
                }
            } else if s[at] == ',' && depth == 0 {
                seq![lexer::trimmed(s.subrange(start, at))] + split_from(s, at + 1, at + 1, depth)
            } else {
                split_from(s, at + 1, start, bracket_depth(s[at], depth))
            },
        }
    }
}

/// The parameters of a list: none where the list is blank.
pub open spec fn parameters_of(list: Seq<char>) -> Seq<Seq<char>> {
    let parts = split_from(list, 0, 0, 0);
    if parts.len() == 1 && parts[0].len() == 0 {
        Seq::empty()
    } else {
        parts
    }
}

/// The texts of some slices.
pub open spec fn slices(v: Seq<&[char]>) -> Seq<Seq<char>> {
    Seq::new(v.len(), |i: int| v[i]@)
}

/// One slice per parameter: split at the commas of the list's own depth zero,
/// not at every comma.
pub fn parameters<'a>(list: &'a [char]) -> (r: Vec<&'a [char]>)
    ensures
        slices(r@) == parameters_of(list@),
{
    let len: usize = list.len();
    let mut parts: Vec<&'a [char]> = Vec::new();
    let mut at: usize = 0;
    let mut start: usize = 0;
    let mut depth: usize = 0;
    assert(slices(parts@) + split_from(list@, 0, 0, 0) =~= split_from(list@, 0, 0, 0));
    while at < len
        invariant
            len == list@.len(),
            start <= at <= len,
            depth <= at,
            slices(parts@) + split_from(list@, at as int, start as int, depth as int)
                == split_from(list@, 0, 0, 0),
        decreases len - at,
    {
        if let Some(e) = lexer::skip_datum_at(list, at) {
            at = e;
            continue;
        }
        let c = list[at];
        if c == '"' {
            if let Some(e) = lexer::one_ident_len(list, at) {
                at = e;
                continue;
            }
        }
        if c == ',' && depth == 0 {
            let ghost before = slices(parts@);
            let piece = lexer::ascii_trim(text::part(list, start, at));
            parts.push(piece);
            proof {
                assert(slices(parts@) =~= before.push(piece@));
                let rest = split_from(list@, at + 1, at + 1, depth as int);
                assert(before + (seq![piece@] + rest) =~= slices(parts@) + rest);
            }
            start = at + 1;
        } else if c == '(' || c == '[' {
            depth += 1;
        } else if (c == ')' || c == ']') && depth > 0 {
            depth -= 1;
        }
        at += 1;
    }
    let ghost before = slices(parts@);
    let piece = lexer::ascii_trim(text::part(list, start, len));
    parts.push(piece);
    assert(slices(parts@) =~= before + seq![piece@]);
    let ghost all = slices(parts@);
    assert(all.len() == parts@.len());
    if parts.len() == 1 {
        assert(all[0] == parts@[0]@);
        if parts[0].len() == 0 {
            let none: Vec<&'a [char]> = Vec::new();
            assert(slices(none@) =~= Seq::empty());
            return none;
        }
    }
    parts
}

/// A parameter mode this engine writes.
pub open spec fn is_mode(word: Seq<char>) -> bool {
    let w = text::lower(word);
    w == text::lower("in"@) || w == text::lower("out"@) || w == text::lower("inout"@) || w
        == text::lower("variadic"@)
}

/// A parameter mode this engine writes, in any case.
pub fn is_a_mode(word: &[char]) -> (r: bool)
    ensures
        r == is_mode(word@),
{
    text::spells(word, "in") || text::spells(word, "out") || text::spells(word, "inout")
        || text::spells(word, "variadic")
}

/// The one mode that keeps a parameter out of the identity.
pub open spec fn is_out(word: Seq<char>) -> bool {
    text::lower(word) == text::lower("out"@)
}

/// Whether the identity carries a parameter, and where the text after its mode
/// begins. The mode may come before or after the name.
pub open spec fn past_mode(parameter: Seq<char>) -> (bool, int) {
    let from = lexer::past_gap(parameter, 0);
    match lexer::one_ident_end(parameter, from) {
        None => (true, from),
        Some(first) => if is_mode(parameter.subrange(from, first)) {
            (!is_out(parameter.subrange(from, first)), lexer::past_gap(parameter, first))
        } else {
            let next = lexer::past_gap(parameter, first);
            match lexer::one_ident_end(parameter, next) {
                Some(second) => if is_mode(parameter.subrange(next, second)) {
                    (
                        !is_out(parameter.subrange(next, second)),
                        lexer::past_gap(parameter, second),
                    )
                } else {
                    (true, from)
                },
                None => (true, from),
            }
        },
    }
}

/// Whether the identity carries this parameter, and where the text after its
/// mode begins: `OUT` is the one mode that stays out of the identity.
pub fn after_the_mode(parameter: &[char]) -> (r: (bool, usize))
    ensures
        (r.0, r.1 as int) == past_mode(parameter@),
        r.1 <= parameter@.len(),
{
    let from = lexer::after_the_gap(parameter, 0).0;
    let first = match lexer::one_ident_len(parameter, from) {
        Some(first) => first,
        None => {
            return (true, from);
        },
    };
    let word = text::part(parameter, from, first);
    if is_a_mode(word) {
        return (!text::spells(word, "out"), lexer::after_the_gap(parameter, first).0);
    }
    let next = lexer::after_the_gap(parameter, first).0;
    if let Some(second) = lexer::one_ident_len(parameter, next) {
        let word = text::part(parameter, next, second);
        if is_a_mode(word) {
            return (!text::spells(word, "out"), lexer::after_the_gap(parameter, second).0);
        }
    }
    (true, from)
}

/// The keyword in front of a parameter's default.
pub const DEFAULT: &'static str = "default";

/// Where a parameter's default begins, or the end of the text.
pub open spec fn default_at(s: Seq<char>, at: int, depth: int) -> int
    decreases s.len() - at,
{
    if at < 0 || at >= s.len() {
        s.len() as int
    } else {
        match lexer::datum_end_at(s, at) {
            Some(e) => if at < e <= s.len() {
                default_at(s, e, depth)
            } else {
                s.len() as int
            },
            None => if s[at] == '"' && lexer::one_ident_end(s, at) is Some {
                let e = lexer::one_ident_end(s, at)->0;
                if at < e <= s.len() {
                    default_at(s, e, depth)
                } else {
                    s.len() as int
                }
            } else if s[at] == '=' && depth == 0 {
                at
            } else if depth == 0 && lexer::goes_on(s[at]) {
                let e = lexer::ident_end(s, at);
                if text::lower(s.subrange(at, e)) == text::lower(DEFAULT@) {
                    at
                } else if at < e <= s.len() {
                    default_at(s, e, depth)
                } else {
                    s.len() as int
                }
            } else {
                default_at(s, at + 1, bracket_depth(s[at], depth))
            },
        }
    }
}

/// The text before a parameter's default, which is the type and maybe a name.
pub open spec fn declared_part(s: Seq<char>) -> Seq<char> {
    lexer::trimmed_end(s.take(default_at(s, 0, 0)))
}

/// The text before a parameter's default. `DEFAULT` and `=` are the two
/// spellings, and one inside a literal is neither.
pub fn before_the_default<'a>(s: &'a [char]) -> (r: &'a [char])
    ensures
        r@ == declared_part(s@),
        r@.len() <= s@.len(),
{
    let len: usize = s.len();
    let mut at: usize = 0;
    let mut depth: usize = 0;
    let mut end: usize = len;
    while at < len
        invariant_except_break
            default_at(s@, 0, 0) == default_at(s@, at as int, depth as int),
            end == len,
        invariant
            len == s@.len(),
            depth <= at <= len,
        ensures
            end == default_at(s@, 0, 0),
            end <= len,
        decreases len - at,
    {
        if let Some(e) = lexer::skip_datum_at(s, at) {
            at = e;
            continue;
        }
        let c = s[at];
        if c == '"' {
            if let Some(e) = lexer::one_ident_len(s, at) {
                at = e;
                continue;
            }
        }
        if c == '=' && depth == 0 {
            end = at;
            break;
        }
        if depth == 0 && lexer::continues_ident(c) {
            let e = lexer::end_of_word(s, at);
            if text::spells(text::part(s, at, e), DEFAULT) {
                end = at;
                break;
            }
            at = e;
            continue;
        }
        if c == '(' || c == '[' {
            depth += 1;
        } else if (c == ')' || c == ']') && depth > 0 {
            depth -= 1;
        }
        at += 1;
    }
    let head = text::part(s, 0, end);
    assert(head@ =~= s@.take(end as int));
    let to = lexer::ascii_trim_end(head, 0, head.len());
    let out = text::part(head, 0, to);
    assert(out@ =~= head@.take(to as int));
    out
}

/// The type a parameter declares, and maybe a name in front of it.
pub open spec fn type_part(parameter: Seq<char>) -> Seq<char> {
    lexer::bared_end(declared_part(parameter.skip(past_mode(parameter).1)))
}

fn type_of<'a>(parameter: &'a [char]) -> (r: &'a [char])
    ensures
        r@ == type_part(parameter@),
{
    let from = after_the_mode(parameter).1;
    let rest = text::part(parameter, from, parameter.len());
    assert(rest@ =~= parameter@.skip(from as int));
    lexer::without_trailing_trivia(before_the_default(rest))
}

/// What is left of a declared type when its first identifier is a name.
pub open spec fn unnamed_part(s: Seq<char>) -> Option<Seq<char>> {
    match lexer::one_ident_end(s, 0) {
        Some(n) => Some(s.skip(lexer::past_gap(s, n))),
        None => None,
    }
}

fn unnamed<'a>(s: &'a [char]) -> (r: Option<&'a [char]>)
    ensures
        match r {
            Some(rest) => unnamed_part(s@) == Some(rest@),
            None => unnamed_part(s@) is None,
        },
{
    match lexer::one_ident_len(s, 0) {
        Some(n) => {
            let from = lexer::after_the_gap(s, n).0;
            let rest = text::part(s, from, s.len());
            assert(rest@ =~= s@.skip(from as int));
            Some(rest)
        },
        None => None,
    }
}

/// Whether two spellings are the same type, or could be: a bare name in one
/// and a qualified one in the other are one type whenever the write path puts
/// that schema in front of the name.
pub open spec fn could_be(declared: RoutineArg, identity: RoutineArg) -> bool {
    ||| declared.canonical@ == identity.canonical@
    ||| {
        &&& declared.array == identity.array
        &&& declared.element@.len() > 0
        &&& identity.element@.len() > 0
        &&& text::ends(identity.element@, seq!['.'] + declared.element@) || text::ends(
            declared.element@,
            seq!['.'] + identity.element@,
        )
    }
}

/// Whether `whole` is `part` behind a dot.
fn qualifies(whole: &str, part: &str) -> (r: bool)
    ensures
        r == text::ends(whole@, seq!['.'] + part@),
{
    let mut suffix = text::one_char('.');
    suffix.append(part);
    text::finishes(whole, suffix.as_str())
}

/// Whether two spellings are the same type, or could be.
pub fn agrees(declared: &RoutineArg, identity: &RoutineArg) -> (r: bool)
    ensures
        r == could_be(*declared, *identity),
{
    if text::same(declared.canonical.as_str(), identity.canonical.as_str()) {
        return true;
    }
    declared.array == identity.array && !declared.element.as_str().is_empty()
        && !identity.element.as_str().is_empty() && (qualifies(
        identity.element.as_str(),
        declared.element.as_str(),
    ) || qualifies(declared.element.as_str(), identity.element.as_str()))
}

/// Whether a reading of a parameter is no disagreement with the identity: a
/// spelling that was not read has not been learned to be wrong.
pub open spec fn admits(reading: Seq<char>, identity: RoutineArg, spellings: Seq<Spelling>) -> bool {
    match spelling_from(spellings, 0, reading) {
        Some(declared) => could_be(declared, identity),
        None => true,
    }
}

/// Whether a parameter is certainly not of the identity's type. Two readings
/// are tried, because a parameter is a type or a name and a type; a spelling
/// the catalogue knows is the whole type, and the second reading is not
/// offered for it.
pub open spec fn disagrees(parameter: Seq<char>, identity: RoutineArg, spellings: Seq<Spelling>) -> bool {
    let whole = type_part(parameter);
    let known = match spelling_from(spellings, 0, whole) {
        Some(arg) => arg.catalogued,
        None => false,
    };
    !admits(whole, identity, spellings) && (known || match unnamed_part(whole) {
        Some(rest) => !admits(rest, identity, spellings),
        None => true,
    })
}

fn reads_as(reading: &[char], identity: &RoutineArg, spellings: &Vec<Spelling>) -> (r: bool)
    ensures
        r == admits(reading@, *identity, spellings@),
{
    match read_spelling(spellings, reading) {
        Some(declared) => agrees(declared, identity),
        None => true,
    }
}

/// Whether a type the body declares is certainly not the one the identity
/// carries.
pub fn certainly_not(parameter: &[char], identity: &RoutineArg, spellings: &Vec<Spelling>) -> (r:
    bool)
    ensures
        r == disagrees(parameter@, *identity, spellings@),
{
    let whole = type_of(parameter);
    if reads_as(whole, identity, spellings) {
        return false;
    }
    let known = match read_spelling(spellings, whole) {
        Some(arg) => arg.catalogued,
        None => false,
    };
    if known {
        return true;
    }
    match unnamed(whole) {
        Some(rest) => !reads_as(rest, identity, spellings),
        None => true,
    }
}

/// The parameters that the identity carries.
pub open spec fn carried(parameters: Seq<Seq<char>>) -> Seq<Seq<char>>
    decreases parameters.len(),
{
    if parameters.len() == 0 {
        Seq::empty()
    } else {
        let rest = carried(parameters.drop_last());
        if past_mode(parameters.last()).0 {
            rest.push(parameters.last())
        } else {
            rest
        }
    }
}

fn carried_ones<'a>(given: &Vec<&'a [char]>) -> (r: Vec<&'a [char]>)
    ensures
        slices(r@) == carried(slices(given@)),
{
    let mut out: Vec<&'a [char]> = Vec::new();
    let mut i: usize = 0;
    let ghost all = slices(given@);
    assert(slices(out@) =~= carried(all.take(0)));
    while i < given.len()
        invariant
            i <= given@.len(),
            all == slices(given@),
            slices(out@) == carried(all.take(i as int)),
        decreases given@.len() - i,
    {
        proof {
            assert(all.take(i as int + 1).drop_last() =~= all.take(i as int));
            assert(all.take(i as int + 1).last() == given@[i as int]@);
        }
        if after_the_mode(given[i]).0 {
            let ghost before = out@;
            out.push(given[i]);
            assert(slices(out@) =~= slices(before).push(given@[i as int]@));
        }
        i += 1;
    }
    assert(all.take(i as int) =~= all);
    out
}

/// The spellings of a routine's parameters that the type catalogue is asked
/// about: the whole of each, and what is left where its first identifier is a
/// name.
pub open spec fn asked_of(parameters: Seq<Seq<char>>) -> Seq<Seq<char>>
    decreases parameters.len(),
{
    if parameters.len() == 0 {
        Seq::empty()
    } else {
        let whole = type_part(parameters.last());
        let rest = asked_of(parameters.drop_last()).push(whole);
        match unnamed_part(whole) {
            Some(part) => rest.push(part),
            None => rest,
        }
    }
}

/// The spellings in a routine's definition that the type catalogue is asked
/// about.
pub open spec fn spellings_of(definition: Seq<char>) -> Seq<Seq<char>> {
    match list_text(definition) {
        Some(list) => asked_of(parameters_of(list)),
        None => Seq::empty(),
    }
}

/// The spellings in a routine's definition that the type catalogue is asked
/// about before [`validate_module`] is.
pub fn spellings_in(definition: &str) -> (r: Vec<String>)
    ensures
        text::texts(r@) == spellings_of(definition@),
{
    let cs = text::chars_of(definition);
    let mut out: Vec<String> = Vec::new();
    assert(text::texts(out@) =~= Seq::empty());
    let list = match parameter_list(cs.as_slice()) {
        Some(list) => list,
        None => {
            return out;
        },
    };
    let given = parameters(list);
    let ghost all = slices(given@);
    let mut i: usize = 0;
    while i < given.len()
        invariant
            i <= given@.len(),
            all == slices(given@),
            text::texts(out@) == asked_of(all.take(i as int)),
        decreases given@.len() - i,
    {
        proof {
            assert(all.take(i as int + 1).drop_last() =~= all.take(i as int));
            assert(all.take(i as int + 1).last() == given@[i as int]@);
        }
        let whole = type_of(given[i]);
        let spelled = text::text_of(whole);
        proof {
            text::texts_push(out@, spelled);
        }
        out.push(spelled);
        if let Some(rest) = unnamed(whole) {
            let spelled = text::text_of(rest);
            proof {
                text::texts_push(out@, spelled);
            }
            out.push(spelled);
        }
        i += 1;
    }
    assert(all.take(i as int) =~= all);
    out
}

/// Why a definition without a parameter list is refused.
pub const NO_LIST: &'static str =
    "routine `{}` has a definition that does not begin with a parameter list. On this \
             engine the emitter writes `CREATE FUNCTION {}` and the declaration writes everything \
             after the name, so the list is the body's — and **measured**, the engine requires \
             one: `CREATE FUNCTION f RETURNS int …` is a syntax error";

/// Why a definition with another number of parameters is refused.
pub const OTHER_COUNT: &'static str =
    "routine `{}` is declared with {} argument type(s), and its definition's parameter \
             list carries {} into the identity. On this engine a routine is its name and its \
             argument types (ADR-0009 §1), so the engine would create an object this key does not \
             name — and accept it without a word";

/// Why a definition with a parameter of another type is refused.
pub const OTHER_TYPE: &'static str =
    "routine `{}` names `{}` as argument {}, and its definition declares that \
                 parameter as `{}`. The identity comes from the parameter list the \
                 definition holds, so the engine would create a different routine under this key \
                 and the next plan would not find the one named here";

/// The refusals of the first `n` parameters.
pub open spec fn type_problems(
    id: model::ModuleIdView,
    found: Seq<Seq<char>>,
    args: Seq<RoutineArg>,
    spellings: Seq<Spelling>,
    n: int,
) -> Seq<error::Refusal>
    decreases n,
{
    if n <= 0 {
        Seq::empty()
    } else {
        let rest = type_problems(id, found, args, spellings, n - 1);
        if disagrees(found[n - 1], args[n - 1], spellings) {
            rest.push(
                error::refused(
                    text::filled(
                        OTHER_TYPE@,
                        seq![
                            model::module_text(id),
                            args[n - 1].text@,
                            text::decimal(n as nat),
                            found[n - 1],
                        ],
                    ),
                ),
            )
        } else {
            rest
        }
    }
}

/// What a definition's parameter list disagrees with the identity about.
pub open spec fn body_problems(
    id: model::ModuleIdView,
    definition: Seq<char>,
    args: Seq<RoutineArg>,
    spellings: Seq<Spelling>,
) -> Seq<error::Refusal> {
    match list_text(definition) {
        None => seq![
            error::refused(
                text::filled(
                    NO_LIST@,
                    seq![
                        model::module_text(id),
                        model::dotted((model::module_schema(id), model::module_name(id))),
                    ],
                ),
            ),
        ],
        Some(list) => {
            let found = carried(parameters_of(list));
            if found.len() != args.len() {
                seq![
                    error::refused(
                        text::filled(
                            OTHER_COUNT@,
                            seq![
                                model::module_text(id),
                                text::decimal(args.len()),
                                text::decimal(found.len()),
                            ],
                        ),
                    ),
                ]
            } else {
                type_problems(id, found, args, spellings, found.len() as int)
            }
        },
    }
}

/// What the body's parameter list disagrees with the identity about. A count
/// is always certain; a type is certain only where both spellings are read.
pub fn the_body_declares_the_identity(
    id: &ModuleId,
    definition: &str,
    args: &Vec<RoutineArg>,
    spellings: &Vec<Spelling>,
) -> (r: Vec<DialectError>)
    ensures
        error::refusals(r@) == body_problems(id@, definition@, args@, spellings@),
{
    let cs = text::chars_of(definition);
    let shown = id.show();
    let list = match parameter_list(cs.as_slice()) {
        Some(list) => list,
        None => {
            let named = id.object_name().show();
            return error::just(text::fill2(NO_LIST, shown.as_str(), named.as_str()));
        },
    };
    let given = parameters(list);
    let found = carried_ones(&given);
    let ghost texts = slices(found@);
    assert(texts.len() == found@.len());
    if found.len() != args.len() {
        let declared = text::show_len(args.len());
        let counted = text::show_len(found.len());
        return error::just(
            text::fill3(OTHER_COUNT, shown.as_str(), declared.as_str(), counted.as_str()),
        );
    }
    let mut out: Vec<DialectError> = Vec::new();
    let mut i: usize = 0;
    assert(error::refusals(out@) =~= Seq::empty());
    while i < found.len()
        invariant
            i <= found@.len(),
            found@.len() == args@.len(),
            texts == slices(found@),
            shown@ == model::module_text(id@),
            error::refusals(out@) == type_problems(id@, texts, args@, spellings@, i as int),
        decreases found@.len() - i,
    {
        if certainly_not(found[i], &args[i], spellings) {
            let place = text::show_len(i + 1);
            let parameter = text::text_of(found[i]);
            let e = invalid(
                text::fill4(
                    OTHER_TYPE,
                    shown.as_str(),
                    args[i].text.as_str(),
                    place.as_str(),
                    parameter.as_str(),
                ),
            );
            proof {
                error::refusals_push(out@, e);
            }
            out.push(e);
        }
        i += 1;
    }
    out
}

// ---------------------------------------------------------------------------
// The statements of a module

/// Why a module without a definition is refused.
pub const EMPTY_DEFINITION: &'static str = "module `{}` has an empty definition";

/// Why a routine without argument types is refused.
pub const NO_ARGUMENTS: &'static str =
    "`{}` is a routine without an argument list, and this engine identifies a routine by \
             its arguments: two overloads share the name, so `DROP FUNCTION` needs the signature \
             to say which one (ADR-0009 §1)";

/// Why a trigger without a table is refused.
pub const NO_TABLE: &'static str =
    "trigger `{}` does not say which table it is on, and on this engine a trigger's \
             name is scoped to its table rather than to a schema (ADR-0009 §1)";

/// The engine's keyword for a module kind.
pub open spec fn keyword_text(kind: ModuleKind) -> Seq<char> {
    match kind {
        ModuleKind::View => "VIEW"@,
        ModuleKind::Procedure => "PROCEDURE"@,
        ModuleKind::Function => "FUNCTION"@,
        ModuleKind::Trigger => "TRIGGER"@,
    }
}

/// The engine's keyword for a module kind.
pub fn keyword(kind: ModuleKind) -> (r: &'static str)
    ensures
        r@ == keyword_text(kind),
{
    match kind {
        ModuleKind::View => "VIEW",
        ModuleKind::Procedure => "PROCEDURE",
        ModuleKind::Function => "FUNCTION",
        ModuleKind::Trigger => "TRIGGER",
    }
}

/// The argument types of a routine's identity, as the engine spells them.
pub open spec fn signature_text(id: model::ModuleIdView) -> Result<Seq<char>, error::Refusal> {
    match id {
        model::ModuleIdView::Routine { name: _, args } => Ok(
            text::joined(model::written(args), sql::COMMA@),
        ),
        _ => Err(error::refused(text::filled(NO_ARGUMENTS@, seq![model::module_text(id)]))),
    }
}

/// The argument types of a routine's identity, as the engine spells them.
pub fn signature(id: &ModuleId) -> (r: Result<String, DialectError>)
    ensures
        error::told(r) == signature_text(id@),
{
    match id {
        ModuleId::Routine { args, .. } => {
            let list = model::arg_list(args);
            Ok(text::join(&list, sql::COMMA))
        },
        _ => {
            let shown = id.show();
            Err(invalid(text::fill1(NO_ARGUMENTS, shown.as_str())))
        },
    }
}

/// The table a trigger is on.
pub open spec fn attached_text(id: model::ModuleIdView) -> Result<model::Qualified, error::Refusal> {
    match id {
        model::ModuleIdView::Trigger { on, name: _ } => Ok(on),
        _ => Err(error::refused(text::filled(NO_TABLE@, seq![model::module_text(id)]))),
    }
}

/// The table a trigger is on, or the refusal of an identity that names none.
pub fn attached_to(id: &ModuleId) -> (r: Result<&TableName, DialectError>)
    ensures
        match r {
            Ok(on) => attached_text(id@) == Ok::<model::Qualified, error::Refusal>(on@),
            Err(e) => attached_text(id@) == Err::<model::Qualified, error::Refusal>(e@),
        },
{
    match id {
        ModuleId::Trigger { on, .. } => Ok(on),
        _ => {
            let shown = id.show();
            Err(invalid(text::fill1(NO_TABLE, shown.as_str())))
        },
    }
}

/// A view: its definition is its query.
pub const CREATE_VIEW: &'static str = "CREATE VIEW {} AS\n{}";

/// A routine: everything after the name is the declaration's.
pub const CREATE_ROUTINE: &'static str = "CREATE {} {}\n{}";

/// A trigger, whose own name is never qualified.
pub const CREATE_TRIGGER: &'static str = "CREATE TRIGGER {}\n{}";

/// The terminator on a line of its own: the line before it is the user's.
pub const TERMINATED: &'static str = "{}\n;";

/// Drops a view.
pub const DROP_VIEW: &'static str = "DROP VIEW {};";

/// Drops one of the routines that share a name.
pub const DROP_ROUTINE: &'static str = "DROP {} {}({});";

/// Drops a trigger, whose name is scoped to its table.
pub const DROP_TRIGGER: &'static str = "DROP TRIGGER {} ON {};";

/// The name of the object a module's statements speak of.
pub open spec fn object_text(id: model::ModuleIdView) -> Result<Seq<char>, error::Refusal> {
    sql::qualified_text((model::module_schema(id), model::module_name(id)))
}

/// The `CREATE` of a module, without its terminator.
pub open spec fn create_body_text(id: model::ModuleIdView, module: Module) -> Result<
    Seq<char>,
    error::Refusal,
> {
    let body = lexer::trimmed(module.definition@);
    if body.len() == 0 {
        Err(error::refused(text::filled(EMPTY_DEFINITION@, seq![model::module_text(id)])))
    } else {
        match module.kind {
            ModuleKind::View => error::composed(
                CREATE_VIEW@,
                seq![object_text(id), Ok::<Seq<char>, error::Refusal>(body)],
            ),
            ModuleKind::Function | ModuleKind::Procedure => error::composed(
                CREATE_ROUTINE@,
                seq![
                    Ok::<Seq<char>, error::Refusal>(keyword_text(module.kind)),
                    object_text(id),
                    Ok::<Seq<char>, error::Refusal>(body),
                ],
            ),
            ModuleKind::Trigger => error::composed(
                CREATE_TRIGGER@,
                seq![
                    sql::quoted(model::module_name(id)),
                    Ok::<Seq<char>, error::Refusal>(body),
                ],
            ),
        }
    }
}

/// The whole `CREATE` of a module, under its schema's write path.
pub open spec fn create_module_text(
    extras: Seq<Seq<char>>,
    id: model::ModuleIdView,
    module: Module,
) -> Result<Seq<char>, error::Refusal> {
    sql::scoped_text(
        model::module_schema(id),
        extras,
        error::composed(TERMINATED@, seq![create_body_text(id, module)]),
    )
}

/// The refusal of a module without a definition.
pub fn empty_definition(id: &ModuleId) -> (r: DialectError)
    ensures
        r@ == error::refused(text::filled(EMPTY_DEFINITION@, seq![model::module_text(id@)])),
{
    let shown = id.show();
    invalid(text::fill1(EMPTY_DEFINITION, shown.as_str()))
}

fn create_body(id: &ModuleId, module: &Module) -> (r: Result<String, DialectError>)
    ensures
        error::told(r) == create_body_text(id@, *module),
{
    let cs = text::chars_of(module.definition.as_str());
    let body = text::text_of(lexer::ascii_trim(cs.as_slice()));
    if body.as_str().is_empty() {
        return Err(empty_definition(id));
    }
    match module.kind {
        ModuleKind::View => error::compose2(
            CREATE_VIEW,
            sql::qualified(&id.object_name()),
            Ok(body),
        ),
        ModuleKind::Function | ModuleKind::Procedure => error::compose3(
            CREATE_ROUTINE,
            Ok(keyword(module.kind).to_owned()),
            sql::qualified(&id.object_name()),
            Ok(body),
        ),
        ModuleKind::Trigger => error::compose2(CREATE_TRIGGER, sql::quote(id.name()), Ok(body)),
    }
}

/// The whole `CREATE` statement for a module, under its schema's write path.
pub fn create_module(pg: &Postgres, id: &ModuleId, module: &Module) -> (r: Result<
    String,
    DialectError,
>)
    ensures
        error::told(r) == create_module_text(pg.extras(), id@, *module),
{
    let terminated = error::compose1(TERMINATED, create_body(id, module));
    sql::scoped_sql(pg, id.schema(), terminated)
}

/// The table of a trigger, quoted.
pub open spec fn attached_name(id: model::ModuleIdView) -> Result<Seq<char>, error::Refusal> {
    match attached_text(id) {
        Ok(on) => sql::qualified_text(on),
        Err(e) => Err(e),
    }
}

/// The `DROP` of a module, under its schema's write path.
pub open spec fn drop_module_text(
    extras: Seq<Seq<char>>,
    id: model::ModuleIdView,
    kind: ModuleKind,
) -> Result<Seq<char>, error::Refusal> {
    sql::scoped_text(
        model::module_schema(id),
        extras,
        match kind {
            ModuleKind::View => error::composed(DROP_VIEW@, seq![object_text(id)]),
            ModuleKind::Function | ModuleKind::Procedure => error::composed(
                DROP_ROUTINE@,
                seq![
                    Ok::<Seq<char>, error::Refusal>(keyword_text(kind)),
                    object_text(id),
                    signature_text(id),
                ],
            ),
            ModuleKind::Trigger => error::composed(
                DROP_TRIGGER@,
                seq![sql::quoted(model::module_name(id)), attached_name(id)],
            ),
        },
    )
}

/// The `DROP` for a module, under its schema's write path. Never `CASCADE`:
/// the plan names every object it drops, or it does not drop.
pub fn drop_module(pg: &Postgres, id: &ModuleId, kind: ModuleKind) -> (r: Result<
    String,
    DialectError,
>)
    ensures
        error::told(r) == drop_module_text(pg.extras(), id@, kind),
{
    let body = match kind {
        ModuleKind::View => error::compose1(DROP_VIEW, sql::qualified(&id.object_name())),
        ModuleKind::Function | ModuleKind::Procedure => error::compose3(
            DROP_ROUTINE,
            Ok(keyword(kind).to_owned()),
            sql::qualified(&id.object_name()),
            signature(id),
        ),
        ModuleKind::Trigger => {
            let on = match attached_to(id) {
                Ok(on) => sql::qualified(on),
                Err(e) => Err(e),
            };
            error::compose2(DROP_TRIGGER, sql::quote(id.name()), on)
        },
    };
    sql::scoped_sql(pg, id.schema(), body)
}

// ---------------------------------------------------------------------------
// Validation

/// Why an argument type with a name over the limit is refused.
pub const OVERLONG: &'static str =
    "module `{}` names `{}` in an argument type, and that name is                          over {} bytes. The engine truncates a longer identifier with a NOTICE                          nothing reads and creates the routine under the truncated identity,                          which is not this key: the next plan cannot find it, and the `CREATE`                          it emits again is refused as already existing";

/// Why a trigger whose definition names another table is refused.
pub const OTHER_TABLE: &'static str =
    "trigger `{}` is declared on `{}`, and its definition puts it on \
                         `{}`. On this engine the table is part of the statement the \
                         declaration holds — `CREATE TRIGGER {} AFTER INSERT ON {} …` — so a \
                         definition naming another table creates the trigger there, under this \
                         key, and the next plan cannot find it";

/// Why a trigger whose definition names no table is refused.
pub const NO_ON_CLAUSE: &'static str =
    "trigger `{}` has a definition this dialect cannot find an `ON \
                         <table>` in. That clause is what decides which table the trigger is \
                         created on, and it has to be the `{}` this identity names — so a \
                         definition whose target cannot be read is refused rather than created \
                         somewhere this key does not point";

/// The refusals of the overlong names in the first `n` argument types.
pub open spec fn overlong_problems(id: model::ModuleIdView, args: Seq<RoutineArg>, n: int) -> Seq<
    error::Refusal,
>
    decreases n,
{
    if n <= 0 {
        Seq::empty()
    } else {
        let rest = overlong_problems(id, args, n - 1);
        match args[n - 1].overlong {
            Some(name) => rest.push(
                error::refused(
                    text::filled(
                        OVERLONG@,
                        seq![
                            model::module_text(id),
                            name@,
                            text::decimal(sql::MAX_IDENT_BYTES as nat),
                        ],
                    ),
                ),
            ),
            None => rest,
        }
    }
}

/// The refusal of a text that cannot be an identifier.
pub open spec fn ident_problems(ident: Seq<char>) -> Seq<error::Refusal> {
    match sql::quoted(ident) {
        Err(e) => seq![e],
        Ok(_) => Seq::empty(),
    }
}

/// The refusals of a name whose halves cannot be identifiers, the schema's
/// first.
pub open spec fn name_problems(schema: Seq<char>, name: Seq<char>) -> Seq<error::Refusal> {
    ident_problems(schema) + ident_problems(name)
}

/// Adds the refusals of a name.
fn add_name_problems(found: &mut Vec<DialectError>, schema: &str, name: &str)
    ensures
        error::refusals(final(found)@) == error::refusals(old(found)@) + name_problems(
            schema@,
            name@,
        ),
{
    let ghost start = error::refusals(found@);
    if let Err(e) = sql::quote(schema) {
        error::add_one(found, e);
    }
    assert(error::refusals(found@) =~= start + ident_problems(schema@));
    if let Err(e) = sql::quote(name) {
        error::add_one(found, e);
    }
    assert(error::refusals(found@) =~= start + name_problems(schema@, name@));
}

/// The refusal of a blank definition.
pub open spec fn blank_problems(id: model::ModuleIdView, definition: Seq<char>) -> Seq<
    error::Refusal,
> {
    if lexer::trimmed(definition).len() == 0 {
        seq![error::refused(text::filled(EMPTY_DEFINITION@, seq![model::module_text(id)]))]
    } else {
        Seq::empty()
    }
}

/// The refusals of a routine.
pub open spec fn routine_problems(id: ModuleId, definition: Seq<char>, readings: Readings) -> Seq<
    error::Refusal,
> {
    match id {
        ModuleId::Routine { name: _, args } => overlong_problems(
            id@,
            args@,
            args@.len() as int,
        ) + if lexer::trimmed(definition).len() == 0 {
            Seq::empty()
        } else {
            body_problems(id@, definition, args@, readings.spellings@)
        },
        _ => seq![error::refused(text::filled(NO_ARGUMENTS@, seq![model::module_text(id@)]))],
    }
}

/// The refusals of what a trigger's definition says of its table.
pub open spec fn clause_problems(
    id: model::ModuleIdView,
    on: model::Qualified,
    definition: Seq<char>,
    readings: Readings,
) -> Seq<error::Refusal> {
    match table_in_body(definition) {
        Some(named) => if names_table(named, on, readings.decodings@) {
            Seq::empty()
        } else {
            seq![
                error::refused(
                    text::filled(
                        OTHER_TABLE@,
                        seq![
                            model::module_text(id),
                            model::dotted(on),
                            named,
                            model::module_name(id),
                            model::dotted(on),
                        ],
                    ),
                ),
            ]
        },
        None => seq![
            error::refused(
                text::filled(NO_ON_CLAUSE@, seq![model::module_text(id), model::dotted(on)]),
            ),
        ],
    }
}

/// The refusals of a trigger.
pub open spec fn trigger_problems(
    id: model::ModuleIdView,
    definition: Seq<char>,
    readings: Readings,
) -> Seq<error::Refusal> {
    match attached_text(id) {
        Err(e) => seq![e],
        Ok(on) => name_problems(on.0, on.1) + clause_problems(id, on, definition, readings),
    }
}

/// Everything a module declaration is refused for, in order.
pub open spec fn module_problems(id: ModuleId, module: Module, readings: Readings) -> Seq<
    error::Refusal,
> {
    blank_problems(id@, module.definition@) + name_problems(
        model::module_schema(id@),
        model::module_name(id@),
    ) + match module.kind {
        ModuleKind::Function | ModuleKind::Procedure => routine_problems(
            id,
            module.definition@,
            readings,
        ),
        ModuleKind::Trigger => trigger_problems(id@, module.definition@, readings),
        ModuleKind::View => Seq::empty(),
    }
}

fn overlong(id: &ModuleId, args: &Vec<RoutineArg>) -> (r: Vec<DialectError>)
    ensures
        error::refusals(r@) == overlong_problems(id@, args@, args@.len() as int),
{
    let shown = id.show();
    let limit = text::show_len(sql::MAX_IDENT_BYTES);
    let mut out: Vec<DialectError> = Vec::new();
    let mut i: usize = 0;
    assert(error::refusals(out@) =~= Seq::empty());
    while i < args.len()
        invariant
            i <= args@.len(),
            shown@ == model::module_text(id@),
            limit@ == text::decimal(sql::MAX_IDENT_BYTES as nat),
            error::refusals(out@) == overlong_problems(id@, args@, i as int),
        decreases args@.len() - i,
    {
        if let Some(name) = &args[i].overlong {
            let e = invalid(text::fill3(OVERLONG, shown.as_str(), name.as_str(), limit.as_str()));
            proof {
                error::refusals_push(out@, e);
            }
            out.push(e);
        }
        i += 1;
    }
    out
}

fn clause(id: &ModuleId, on: &TableName, definition: &str, readings: &Readings) -> (r: Vec<
    DialectError,
>)
    ensures
        error::refusals(r@) == clause_problems(id@, on@, definition@, *readings),
{
    let cs = text::chars_of(definition);
    let shown = id.show();
    let table = on.show();
    match the_table_the_body_is_on(cs.as_slice()) {
        Some(named) => {
            if names_the_same_table(named, on, &readings.decodings) {
                let none: Vec<DialectError> = Vec::new();
                assert(error::refusals(none@) =~= Seq::empty());
                return none;
            }
            let named = text::text_of(named);
            error::just(
                text::fill5(
                    OTHER_TABLE,
                    shown.as_str(),
                    table.as_str(),
                    named.as_str(),
                    id.name(),
                    table.as_str(),
                ),
            )
        },
        None => error::just(text::fill2(NO_ON_CLAUSE, shown.as_str(), table.as_str())),
    }
}

/// What a module declaration must satisfy before anything connects: every
/// problem, and not only the first.
pub fn validate_module(id: &ModuleId, module: &Module, readings: &Readings) -> (r: Vec<
    DialectError,
>)
    ensures
        error::refusals(r@) == module_problems(*id, *module, *readings),
{
    let cs = text::chars_of(module.definition.as_str());
    let blank = lexer::ascii_trim(cs.as_slice()).len() == 0;
    let mut found: Vec<DialectError> = Vec::new();
    assert(error::refusals(found@) =~= Seq::empty());
    if blank {
        error::add_one(&mut found, empty_definition(id));
    }
    assert(error::refusals(found@) =~= blank_problems(id@, module.definition@));
    let ghost first = error::refusals(found@);
    add_name_problems(&mut found, id.schema(), id.name());
    let ghost second = error::refusals(found@);
    assert(second =~= first + name_problems(model::module_schema(id@), model::module_name(id@)));
    match module.kind {
        ModuleKind::Function | ModuleKind::Procedure => match id {
            ModuleId::Routine { args, .. } => {
                error::extend(&mut found, overlong(id, args));
                if !blank {
                    error::extend(
                        &mut found,
                        the_body_declares_the_identity(
                            id,
                            module.definition.as_str(),
                            args,
                            &readings.spellings,
                        ),
                    );
                }
                assert(error::refusals(found@) =~= second + routine_problems(
                    *id,
                    module.definition@,
                    *readings,
                ));
            },
            _ => {
                match signature(id) {
                    Err(e) => error::add_one(&mut found, e),
                    Ok(_) => {},
                }
            },
        },
        ModuleKind::Trigger => match attached_to(id) {
            Err(e) => error::add_one(&mut found, e),
            Ok(on) => {
                add_name_problems(&mut found, on.schema.as_str(), on.name.as_str());
                error::extend(&mut found, clause(id, on, module.definition.as_str(), readings));
                assert(error::refusals(found@) =~= second + trigger_problems(
                    id@,
                    module.definition@,
                    *readings,
                ));
            },
        },
        ModuleKind::View => {
            assert(error::refusals(found@) =~= second + Seq::<error::Refusal>::empty());
        },
    }
    found
}

// ---------------------------------------------------------------------------
// What is asked beforehand

/// Whether two sets of readings answer alike about everything a definition
/// asks of them.
pub open spec fn answer_alike(definition: Seq<char>, a: Readings, b: Readings) -> bool {
    &&& forall|s: Seq<char>| #[trigger]
        spellings_of(definition).contains(s) ==> spelling_from(a.spellings@, 0, s)
            == spelling_from(b.spellings@, 0, s)
    &&& forall|x: (Seq<char>, char)| #[trigger]
        escapes_of(definition).contains(x) ==> decoded_from(a.decodings@, 0, x.0, x.1)
            == decoded_from(b.decodings@, 0, x.0, x.1)
}

proof fn a_name_reads_alike(
    s: Seq<char>,
    at: int,
    parts: Seq<Seq<char>>,
    a: Seq<Decoding>,
    b: Seq<Decoding>,
)
    requires
        forall|x: (Seq<char>, char)| #[trigger]
            escapes_from(s, at).contains(x) ==> decoded_from(a, 0, x.0, x.1) == decoded_from(
                b,
                0,
                x.0,
                x.1,
            ),
    ensures
        read_name(s, at, parts, a) == read_name(s, at, parts, b),
    decreases s.len() - at,
{
    if let Some(e) = lexer::one_ident_end(s, at) {
        let (escape, rest) = escape_after(s, e);
        let ident = s.subrange(at, e);
        let all = escapes_from(s, at);
        let inner = text::undoubled_from(ident.subrange(3, ident.len() - 1), '"', 0);
        let escaped = lexer::is_unicode_quoted(ident, 0) && ident.len() >= 4 && ident.last() == '"';
        if escaped {
            assert(all[0] == (inner, escape));
            assert(all.contains((inner, escape)));
        }
        assert(unquoted_text(ident, escape, a) == unquoted_text(ident, escape, b));
        if let Some(part) = unquoted_text(ident, escape, a) {
            if 0 <= rest < s.len() && s[rest] == '.' {
                let next = lexer::past_gap(s, rest + 1);
                if at < next <= s.len() {
                    let more = escapes_from(s, next);
                    assert forall|x: (Seq<char>, char)| #[trigger]
                        more.contains(x) implies decoded_from(a, 0, x.0, x.1) == decoded_from(
                        b,
                        0,
                        x.0,
                        x.1,
                    ) by {
                        let k = choose|k: int| 0 <= k < more.len() && more[k] == x;
                        let skipped = all.len() - more.len();
                        assert(all[skipped + k] == x);
                        assert(all.contains(x));
                    }
                    a_name_reads_alike(s, next, parts.push(part), a, b);
                }
            }
        }
    }
}

proof fn a_carried_parameter_is_asked_about(parameters: Seq<Seq<char>>, i: int)
    requires
        0 <= i < carried(parameters).len(),
    ensures
        ({
            let whole = type_part(carried(parameters)[i]);
            &&& asked_of(parameters).contains(whole)
            &&& unnamed_part(whole) matches Some(rest) ==> asked_of(parameters).contains(rest)
        }),
    decreases parameters.len(),
{
    let last = parameters.last();
    let before = asked_of(parameters.drop_last());
    let all = asked_of(parameters);
    let kept = carried(parameters.drop_last());
    let whole = type_part(carried(parameters)[i]);
    if i < kept.len() {
        a_carried_parameter_is_asked_about(parameters.drop_last(), i);
        let k = choose|k: int| 0 <= k < before.len() && before[k] == whole;
        assert(all[k] == whole);
        if let Some(rest) = unnamed_part(whole) {
            let j = choose|j: int| 0 <= j < before.len() && before[j] == rest;
            assert(all[j] == rest);
        }
    } else {
        assert(whole == type_part(last));
        assert(all[before.len() as int] == whole);
        if let Some(rest) = unnamed_part(whole) {
            assert(all[before.len() as int + 1] == rest);
        }
    }
}

proof fn types_are_refused_alike(
    id: model::ModuleIdView,
    parameters: Seq<Seq<char>>,
    args: Seq<RoutineArg>,
    a: Seq<Spelling>,
    b: Seq<Spelling>,
    n: int,
)
    requires
        n <= carried(parameters).len(),
        forall|s: Seq<char>| #[trigger]
            asked_of(parameters).contains(s) ==> spelling_from(a, 0, s) == spelling_from(b, 0, s),
    ensures
        type_problems(id, carried(parameters), args, a, n) == type_problems(
            id,
            carried(parameters),
            args,
            b,
            n,
        ),
    decreases n,
{
    if n > 0 {
        types_are_refused_alike(id, parameters, args, a, b, n - 1);
        a_carried_parameter_is_asked_about(parameters, n - 1);
    }
}

/// What a module declaration is refused for is decided by what is asked about
/// its definition: readings that answer alike there give the same refusals,
/// whatever else they hold.
pub proof fn only_what_is_asked_decides_a_module(
    id: ModuleId,
    module: Module,
    a: Readings,
    b: Readings,
)
    requires
        answer_alike(module.definition@, a, b),
    ensures
        module_problems(id, module, a) == module_problems(id, module, b),
{
    let definition = module.definition@;
    if let Some(named) = table_in_body(definition) {
        assert(escapes_of(definition) == escapes_from(named, 0));
        a_name_reads_alike(named, 0, Seq::empty(), a.decodings@, b.decodings@);
    }
    if let Some(list) = list_text(definition) {
        let all = parameters_of(list);
        assert(spellings_of(definition) == asked_of(all));
        if let ModuleId::Routine { name: _, args } = id {
            types_are_refused_alike(
                id@,
                all,
                args@,
                a.spellings@,
                b.spellings@,
                carried(all).len() as int,
            );
        }
    }
}

} // verus!
