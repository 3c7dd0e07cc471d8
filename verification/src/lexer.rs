//! The scans that walk a declared expression or definition.
//!
//! None of them asks what the text means. They know what this engine's lexer
//! reads as something other than code (a literal, a dollar-quoted body, a
//! comment), where an identifier ends, and how parentheses pair, and that is
//! all that the guards above them need. Positions are counted in characters.
use vstd::prelude::*;

use crate::text;

verus! {

// ---------------------------------------------------------------------------
// Characters

/// A character an identifier goes on with: a letter, a digit, `_`, `$`, and
/// everything outside ASCII, because to this engine every byte of a non-ASCII
/// character is an identifier byte.
pub open spec fn goes_on(c: char) -> bool {
    ||| 'a' <= c && c <= 'z'
    ||| 'A' <= c && c <= 'Z'
    ||| '0' <= c && c <= '9'
    ||| c == '_'
    ||| c == '$'
    ||| c >= '\u{80}'
}

/// Whether an identifier goes on with `c`.
pub fn continues_ident(c: char) -> (r: bool)
    ensures
        r == goes_on(c),
{
    ('a' <= c && c <= 'z') || ('A' <= c && c <= 'Z') || ('0' <= c && c <= '9') || c == '_' || c
        == '$' || c >= '\u{80}'
}

/// An ASCII digit.
pub open spec fn is_digit(c: char) -> bool {
    '0' <= c && c <= '9'
}

/// The characters this engine ends a line with, either of them alone.
pub open spec fn is_newline(c: char) -> bool {
    c == '\n' || c == '\r'
}

/// The characters a `UESCAPE` clause cannot name: the quote itself, `+`, a
/// hexadecimal digit, and white space in Unicode's sense.
pub open spec fn cannot_escape(c: char) -> bool {
    ||| c == '\''
    ||| c == '+'
    ||| is_digit(c)
    ||| 'a' <= c && c <= 'f'
    ||| 'A' <= c && c <= 'F'
    ||| text::is_white(c)
}

fn refused_as_escape(c: char) -> (r: bool)
    ensures
        r == cannot_escape(c),
{
    c == '\'' || c == '+' || ('0' <= c && c <= '9') || ('a' <= c && c <= 'f') || ('A' <= c && c
        <= 'F') || text::white(c)
}

/// The two characters `a` and `b` at `at`.
pub open spec fn pair_at(s: Seq<char>, at: int, a: char, b: char) -> bool {
    0 <= at && at + 1 < s.len() && s[at] == a && s[at + 1] == b
}

fn two_at(s: &[char], at: usize, a: char, b: char) -> (r: bool)
    requires
        at <= s@.len(),
    ensures
        r == pair_at(s@, at as int, a, b),
{
    s.len() - at >= 2 && s[at] == a && s[at + 1] == b
}

/// The first `c` at or after `at`.
pub open spec fn next_char(s: Seq<char>, c: char, at: int) -> Option<int>
    decreases s.len() - at,
{
    if at < 0 || at >= s.len() {
        None
    } else if s[at] == c {
        Some(at)
    } else {
        next_char(s, c, at + 1)
    }
}

fn find_char(s: &[char], c: char, at: usize) -> (r: Option<usize>)
    requires
        at <= s@.len(),
    ensures
        match r {
            Some(p) => next_char(s@, c, at as int) == Some(p as int) && at <= p < s@.len() && s@[p as int]
                == c,
            None => next_char(s@, c, at as int) is None,
        },
{
    let mut i: usize = at;
    while i < s.len()
        invariant
            at <= i <= s@.len(),
            next_char(s@, c, at as int) == next_char(s@, c, i as int),
        decreases s@.len() - i,
    {
        if s[i] == c {
            return Some(i);
        }
        i += 1;
    }
    None
}

/// The first line end at or after `at`.
pub open spec fn next_newline(s: Seq<char>, at: int) -> Option<int>
    decreases s.len() - at,
{
    if at < 0 || at >= s.len() {
        None
    } else if is_newline(s[at]) {
        Some(at)
    } else {
        next_newline(s, at + 1)
    }
}

fn find_newline(s: &[char], at: usize) -> (r: Option<usize>)
    requires
        at <= s@.len(),
    ensures
        match r {
            Some(p) => next_newline(s@, at as int) == Some(p as int) && at <= p < s@.len(),
            None => next_newline(s@, at as int) is None,
        },
{
    let mut i: usize = at;
    while i < s.len()
        invariant
            at <= i <= s@.len(),
            next_newline(s@, at as int) == next_newline(s@, i as int),
        decreases s@.len() - i,
    {
        if s[i] == '\n' || s[i] == '\r' {
            return Some(i);
        }
        i += 1;
    }
    None
}

// ---------------------------------------------------------------------------
// White space

/// The first position at or after `at` that is not white space.
pub open spec fn solid_from(s: Seq<char>, at: int) -> int
    decreases s.len() - at,
{
    if at < 0 || at >= s.len() || !text::is_space(s[at]) {
        at
    } else {
        solid_from(s, at + 1)
    }
}

/// The end of what is left in front of `to` without the white space it ends
/// with, but no less than `from`.
pub open spec fn solid_to(s: Seq<char>, from: int, to: int) -> int
    decreases to - from,
{
    if to <= from || !text::is_space(s[to - 1]) {
        to
    } else {
        solid_to(s, from, to - 1)
    }
}

/// `s` without the ASCII white space at either end.
pub open spec fn trimmed(s: Seq<char>) -> Seq<char> {
    let from = solid_from(s, 0);
    s.subrange(from, solid_to(s, from, s.len() as int))
}

/// `s` without the ASCII white space it ends with.
pub open spec fn trimmed_end(s: Seq<char>) -> Seq<char> {
    s.take(solid_to(s, 0, s.len() as int))
}

/// Where the text begins, past its leading white space.
pub fn ascii_trim_start(s: &[char], at: usize) -> (r: usize)
    requires
        at <= s@.len(),
    ensures
        r == solid_from(s@, at as int),
        at <= r <= s@.len(),
{
    let mut i: usize = at;
    while i < s.len() && text::space(s[i])
        invariant
            at <= i <= s@.len(),
            solid_from(s@, at as int) == solid_from(s@, i as int),
        decreases s@.len() - i,
    {
        i += 1;
    }
    i
}

/// Where the text in front of `to` ends, before its trailing white space.
pub fn ascii_trim_end(s: &[char], from: usize, to: usize) -> (r: usize)
    requires
        from <= to <= s@.len(),
    ensures
        r == solid_to(s@, from as int, to as int),
        from <= r <= to,
{
    let mut i: usize = to;
    while i > from && text::space(s[i - 1])
        invariant
            from <= i <= to <= s@.len(),
            solid_to(s@, from as int, to as int) == solid_to(s@, from as int, i as int),
        decreases i,
    {
        i -= 1;
    }
    i
}

/// The text without the ASCII white space at either end.
///
/// ASCII wherever these scans look: to this engine a non-ASCII character is
/// part of an identifier, a non-breaking space included.
pub fn ascii_trim(s: &[char]) -> (r: &[char])
    ensures
        r@ == trimmed(s@),
        r@.len() <= s@.len(),
{
    let from = ascii_trim_start(s, 0);
    let to = ascii_trim_end(s, from, s.len());
    text::part(s, from, to)
}

// ---------------------------------------------------------------------------
// Literals and comments

/// The position just past the closing quote of the literal whose text begins
/// at `at`, after its opening quote. A doubled quote is a quote inside it, and
/// where `escapes` a backslash takes the next character with it.
pub open spec fn literal_end(s: Seq<char>, at: int, escapes: bool) -> Option<int>
    decreases s.len() + 2 - at,
{
    if at < 0 || at >= s.len() {
        None
    } else if escapes && s[at] == '\\' {
        literal_end(s, at + 2, escapes)
    } else if pair_at(s, at, '\'', '\'') {
        literal_end(s, at + 2, escapes)
    } else if s[at] == '\'' {
        Some(at + 1)
    } else {
        literal_end(s, at + 1, escapes)
    }
}

/// The position just past the closing quote of the literal whose text begins
/// at `at`, or `None` where nothing closes it.
pub fn end_of_literal(s: &[char], at: usize, escapes: bool) -> (r: Option<usize>)
    requires
        at <= s@.len(),
    ensures
        match r {
            Some(e) => literal_end(s@, at as int, escapes) == Some(e as int) && at < e <= s@.len(),
            None => literal_end(s@, at as int, escapes) is None,
        },
{
    let mut i: usize = at;
    while i < s.len()
        invariant
            at <= i <= s@.len(),
            literal_end(s@, at as int, escapes) == literal_end(s@, i as int, escapes),
        decreases s@.len() - i,
    {
        if escapes && s[i] == '\\' {
            if s.len() - i < 2 {
                assert(literal_end(s@, i + 2, escapes) is None);
                return None;
            }
            i += 2;
        } else if two_at(s, i, '\'', '\'') {
            i += 2;
        } else if s[i] == '\'' {
            return Some(i + 1);
        } else {
            i += 1;
        }
    }
    None
}

/// The position just past the `*/` that closes a block comment, from `at`
/// inside it with `depth` comments open. These nest.
pub open spec fn comment_end(s: Seq<char>, at: int, depth: int) -> Option<int>
    decreases s.len() - at,
{
    if at < 0 || at + 1 >= s.len() {
        None
    } else if pair_at(s, at, '/', '*') {
        comment_end(s, at + 2, depth + 1)
    } else if pair_at(s, at, '*', '/') {
        if depth <= 1 {
            Some(at + 2)
        } else {
            comment_end(s, at + 2, depth - 1)
        }
    } else {
        comment_end(s, at + 1, depth)
    }
}

/// The position just past the `*/` closing the block comment whose `/*` ends
/// at `at`, or `None` where nothing closes it.
pub fn end_of_block_comment(s: &[char], at: usize) -> (r: Option<usize>)
    requires
        at <= s@.len(),
    ensures
        match r {
            Some(e) => comment_end(s@, at as int, 1) == Some(e as int) && at < e <= s@.len(),
            None => comment_end(s@, at as int, 1) is None,
        },
{
    let mut i: usize = at;
    let mut depth: usize = 1;
    while s.len() - i >= 2
        invariant
            at <= i <= s@.len(),
            1 <= depth <= 1 + i,
            comment_end(s@, at as int, 1) == comment_end(s@, i as int, depth as int),
        decreases s@.len() - i,
    {
        if two_at(s, i, '/', '*') {
            depth += 1;
            i += 2;
        } else if two_at(s, i, '*', '/') {
            i += 2;
            if depth == 1 {
                return Some(i);
            }
            depth -= 1;
        } else {
            i += 1;
        }
    }
    None
}

/// A dollar-quote tag: empty, or a name that does not start with a digit.
pub open spec fn is_tag(tag: Seq<char>) -> bool {
    tag.len() == 0 || (!is_digit(tag[0]) && forall|i: int|
        0 <= i < tag.len() ==> goes_on(#[trigger] tag[i]))
}

/// The end of the `$tag$` that opens a dollar-quoted literal at `at`.
pub open spec fn delimiter_end(s: Seq<char>, at: int) -> Option<int> {
    if 0 <= at < s.len() && s[at] == '$' {
        match next_char(s, '$', at + 1) {
            Some(close) => if is_tag(s.subrange(at + 1, close)) {
                Some(close + 1)
            } else {
                None
            },
            None => None,
        }
    } else {
        None
    }
}

/// The end of the `$tag$` that opens a dollar-quoted literal at `at`, both
/// dollars counted, or `None` where what stands there does not open one.
pub fn dollar_delimiter(s: &[char], at: usize) -> (r: Option<usize>)
    requires
        at <= s@.len(),
    ensures
        match r {
            Some(e) => delimiter_end(s@, at as int) == Some(e as int) && at + 2 <= e <= s@.len(),
            None => delimiter_end(s@, at as int) is None,
        },
{
    if at == s.len() || s[at] != '$' {
        return None;
    }
    let close = match find_char(s, '$', at + 1) {
        Some(close) => close,
        None => {
            return None;
        },
    };
    let tag = text::part(s, at + 1, close);
    if tag.len() > 0 && '0' <= tag[0] && tag[0] <= '9' {
        assert(!is_tag(tag@));
        return None;
    }
    let mut i: usize = 0;
    while i < tag.len()
        invariant
            i <= tag@.len(),
            at < s@.len(),
            s@[at as int] == '$',
            next_char(s@, '$', at + 1) == Some(close as int),
            tag@ == s@.subrange(at + 1, close as int),
            forall|k: int| 0 <= k < i ==> goes_on(#[trigger] tag@[k]),
        decreases tag@.len() - i,
    {
        if !continues_ident(tag[i]) {
            assert(!goes_on(tag@[i as int]));
            assert(!is_tag(tag@));
            return None;
        }
        i += 1;
    }
    assert(is_tag(tag@));
    Some(close + 1)
}

/// The opener of a quoted literal at `at`: how long it is, and whether a
/// backslash escapes inside what it opens.
pub open spec fn opener(s: Seq<char>, at: int) -> Option<(int, bool)> {
    if pair_at(s, at, 'E', '\'') || pair_at(s, at, 'e', '\'') {
        Some((2, true))
    } else if (pair_at(s, at, 'U', '&') || pair_at(s, at, 'u', '&')) && at + 2 < s.len() && s[at
        + 2] == '\'' {
        Some((3, false))
    } else if pair_at(s, at, 'N', '\'') || pair_at(s, at, 'n', '\'') {
        Some((2, false))
    } else if 0 <= at < s.len() && s[at] == '\'' {
        Some((1, false))
    } else {
        None
    }
}

fn opener_at(s: &[char], at: usize) -> (r: Option<(usize, bool)>)
    requires
        at <= s@.len(),
    ensures
        match r {
            Some((n, escapes)) => opener(s@, at as int) == Some((n as int, escapes)) && 1 <= n && at
                + n <= s@.len(),
            None => opener(s@, at as int) is None,
        },
{
    if two_at(s, at, 'E', '\'') || two_at(s, at, 'e', '\'') {
        Some((2, true))
    } else if (two_at(s, at, 'U', '&') || two_at(s, at, 'u', '&')) && s.len() - at >= 3 && s[at + 2]
        == '\'' {
        Some((3, false))
    } else if two_at(s, at, 'N', '\'') || two_at(s, at, 'n', '\'') {
        Some((2, false))
    } else if at < s.len() && s[at] == '\'' {
        Some((1, false))
    } else {
        None
    }
}

/// `found`, or the end of the text where nothing was found.
pub open spec fn or_end(s: Seq<char>, found: Option<int>) -> int {
    match found {
        Some(e) => e,
        None => s.len() as int,
    }
}

/// The end of the literal or comment that begins at `at`, or `None` when what
/// begins there is code. One that nothing closes runs to the end of the text.
pub open spec fn datum_end(s: Seq<char>, at: int) -> Option<int> {
    match opener(s, at) {
        Some((n, escapes)) => Some(or_end(s, literal_end(s, at + n, escapes))),
        None => match delimiter_end(s, at) {
            Some(d) => {
                let delimiter = s.subrange(at, d);
                Some(
                    match text::first_at(s, delimiter, d) {
                        Some(close) => close + delimiter.len(),
                        None => s.len() as int,
                    },
                )
            },
            None => if pair_at(s, at, '-', '-') {
                Some(
                    match next_newline(s, at) {
                        Some(p) => p + 1,
                        None => s.len() as int,
                    },
                )
            } else if pair_at(s, at, '/', '*') {
                Some(or_end(s, comment_end(s, at + 2, 1)))
            } else {
                None
            },
        },
    }
}

/// The end of the literal or comment that begins at `at`, or `None` when what
/// begins there is code.
pub fn skip_datum(s: &[char], at: usize) -> (r: Option<usize>)
    requires
        at <= s@.len(),
    ensures
        match r {
            Some(e) => datum_end(s@, at as int) == Some(e as int) && at < e <= s@.len(),
            None => datum_end(s@, at as int) is None,
        },
{
    let len: usize = s.len();
    if let Some((n, escapes)) = opener_at(s, at) {
        return Some(
            match end_of_literal(s, at + n, escapes) {
                Some(e) => e,
                None => len,
            },
        );
    }
    if let Some(d) = dollar_delimiter(s, at) {
        let delimiter = text::part(s, at, d);
        return Some(
            match text::find_from(s, delimiter, d) {
                Some(close) => close + delimiter.len(),
                None => len,
            },
        );
    }
    if two_at(s, at, '-', '-') {
        return Some(
            match find_newline(s, at) {
                Some(p) => p + 1,
                None => len,
            },
        );
    }
    if two_at(s, at, '/', '*') {
        return Some(
            match end_of_block_comment(s, at + 2) {
                Some(e) => e,
                None => len,
            },
        );
    }
    None
}

/// [`datum_end`] for a scan that knows what came before: a `$` after an
/// identifier character is a character of that identifier.
pub open spec fn datum_end_at(s: Seq<char>, at: int) -> Option<int> {
    if 0 < at < s.len() && s[at] == '$' && goes_on(s[at - 1]) {
        None
    } else {
        datum_end(s, at)
    }
}

/// The end of the literal or comment that begins at `at` in a text that is
/// being walked from its start, or `None` when what begins there is code.
pub fn skip_datum_at(s: &[char], at: usize) -> (r: Option<usize>)
    requires
        at <= s@.len(),
    ensures
        match r {
            Some(e) => datum_end_at(s@, at as int) == Some(e as int) && at < e <= s@.len(),
            None => datum_end_at(s@, at as int) is None,
        },
{
    if 0 < at && at < s.len() && s[at] == '$' && continues_ident(s[at - 1]) {
        return None;
    }
    skip_datum(s, at)
}

/// Past the white space and comments at `at`, and whether what they separate
/// can still be a continuation of the string constant in front of them:
/// `newline` says that a line end has been crossed, `blocked` that a block
/// comment has.
pub open spec fn gap(s: Seq<char>, at: int, newline: bool, blocked: bool) -> (int, bool)
    decreases s.len() - at,
{
    if at < 0 || at >= s.len() {
        (at, newline && !blocked)
    } else if text::is_space(s[at]) {
        gap(s, at + 1, newline || is_newline(s[at]), blocked)
    } else if pair_at(s, at, '-', '-') {
        match next_newline(s, at + 2) {
            None => (s.len() as int, newline),
            Some(p) => if at < p < s.len() {
                gap(s, p + 1, true, blocked)
            } else {
                (s.len() as int, newline)
            },
        }
    } else if pair_at(s, at, '/', '*') {
        match comment_end(s, at + 2, 1) {
            None => (at, false),
            Some(e) => if at < e <= s.len() {
                gap(s, e, newline, true)
            } else {
                (at, false)
            },
        }
    } else {
        (at, newline && !blocked)
    }
}

/// The position past the white space and comments at `at`.
pub open spec fn past_gap(s: Seq<char>, at: int) -> int {
    gap(s, at, false, false).0
}

/// Past the white space and comments at `at`, and whether what they separate
/// can still be a continuation of the string constant in front of them.
pub fn after_the_gap(s: &[char], at: usize) -> (r: (usize, bool))
    requires
        at <= s@.len(),
    ensures
        (r.0 as int, r.1) == gap(s@, at as int, false, false),
        at <= r.0 <= s@.len(),
{
    let mut i: usize = at;
    let mut newline = false;
    let mut blocked = false;
    while i < s.len()
        invariant
            at <= i <= s@.len(),
            gap(s@, at as int, false, false) == gap(s@, i as int, newline, blocked),
        decreases s@.len() - i,
    {
        if text::space(s[i]) {
            if s[i] == '\n' || s[i] == '\r' {
                newline = true;
            }
            i += 1;
        } else if two_at(s, i, '-', '-') {
            match find_newline(s, i + 2) {
                None => {
                    return (s.len(), newline);
                },
                Some(p) => {
                    newline = true;
                    i = p + 1;
                },
            }
        } else if two_at(s, i, '/', '*') {
            match end_of_block_comment(s, i + 2) {
                None => {
                    return (i, false);
                },
                Some(e) => {
                    blocked = true;
                    i = e;
                },
            }
        } else {
            return (i, newline && !blocked);
        }
    }
    (i, newline && !blocked)
}

/// Where the code of `s` ends: `end` is the end of the code seen before `at`.
pub open spec fn code_end(s: Seq<char>, at: int, end: int) -> int
    decreases s.len() - at,
{
    if at < 0 || at >= s.len() {
        end
    } else if pair_at(s, at, '-', '-') {
        match next_newline(s, at) {
            Some(p) => if at <= p < s.len() {
                code_end(s, p + 1, end)
            } else {
                end
            },
            None => end,
        }
    } else if pair_at(s, at, '/', '*') && comment_end(s, at + 2, 1) is Some {
        let e = comment_end(s, at + 2, 1)->0;
        if at < e <= s.len() {
            code_end(s, e, end)
        } else {
            end
        }
    } else {
        match datum_end_at(s, at) {
            Some(e) => if at < e <= s.len() {
                code_end(s, e, e)
            } else {
                end
            },
            None => code_end(
                s,
                at + 1,
                if text::is_space(s[at]) {
                    end
                } else {
                    at + 1
                },
            ),
        }
    }
}

/// `s` without the white space and the comments that follow its code.
pub open spec fn bared_end(s: Seq<char>) -> Seq<char> {
    s.take(code_end(s, 0, 0))
}

/// Where the text's code ends, in front of the white space and comments that
/// follow it.
pub fn without_trailing_trivia(s: &[char]) -> (r: &[char])
    ensures
        r@ == bared_end(s@),
        r@.len() <= s@.len(),
{
    let mut at: usize = 0;
    let mut end: usize = 0;
    while at < s.len()
        invariant
            end <= at <= s@.len(),
            code_end(s@, 0, 0) == code_end(s@, at as int, end as int),
        decreases s@.len() - at,
    {
        if two_at(s, at, '-', '-') {
            match find_newline(s, at) {
                Some(p) => {
                    at = p + 1;
                },
                None => {
                    at = s.len();
                },
            }
            continue;
        }
        if two_at(s, at, '/', '*') {
            if let Some(e) = end_of_block_comment(s, at + 2) {
                at = e;
                continue;
            }
        }
        if let Some(e) = skip_datum_at(s, at) {
            at = e;
            end = e;
            continue;
        }
        if !text::space(s[at]) {
            end = at + 1;
        }
        at += 1;
    }
    assert(s@.subrange(0, end as int) =~= s@.take(end as int));
    text::part(s, 0, end)
}

// ---------------------------------------------------------------------------
// Grouping

/// Whether the parentheses of `s` from `at` on, with `depth` open, pair up so
/// that the first one is closed by the last character and by nothing before.
/// Only parentheses that are code count.
pub open spec fn closes(s: Seq<char>, at: int, depth: int) -> bool
    decreases s.len() - at,
{
    if at < 0 || at >= s.len() {
        depth == 0
    } else {
        match datum_end_at(s, at) {
            Some(e) => if at < e <= s.len() {
                closes(s, e, depth)
            } else {
                false
            },
            None => if s[at] == '(' {
                closes(s, at + 1, depth + 1)
            } else if s[at] == ')' {
                !(depth == 0 || (depth == 1 && at + 1 != s.len())) && closes(s, at + 1, depth - 1)
            } else {
                closes(s, at + 1, depth)
            },
        }
    }
}

/// Whether `s` is one group, from its first character to its last.
pub open spec fn is_group(s: Seq<char>) -> bool {
    s.len() >= 2 && s[0] == '(' && s.last() == ')' && closes(s, 0, 0)
}

fn pairs_up(s: &[char]) -> (r: bool)
    ensures
        r == is_group(s@),
{
    if s.len() < 2 || s[0] != '(' || s[s.len() - 1] != ')' {
        return false;
    }
    let mut at: usize = 0;
    let mut depth: usize = 0;
    while at < s.len()
        invariant
            depth <= at <= s@.len(),
            closes(s@, 0, 0) == closes(s@, at as int, depth as int),
            s@.len() >= 2,
            s@[0] == '(',
            s@.last() == ')',
        decreases s@.len() - at,
    {
        if let Some(e) = skip_datum_at(s, at) {
            at = e;
            continue;
        }
        if s[at] == '(' {
            depth += 1;
        } else if s[at] == ')' {
            if depth == 0 || (depth == 1 && at + 1 != s.len()) {
                return false;
            }
            depth -= 1;
        }
        at += 1;
    }
    depth == 0
}

/// White space trimmed, and every pair of grouping parentheses taken off.
pub open spec fn ungrouped(s: Seq<char>) -> Seq<char>
    decreases s.len(),
{
    let e = trimmed(s);
    if e.len() <= s.len() && is_group(e) {
        ungrouped(e.subrange(1, e.len() - 1))
    } else {
        e
    }
}

/// The same expression with any number of grouping parentheses taken off.
pub fn without_grouping(s: &[char]) -> (r: &[char])
    ensures
        r@ == ungrouped(s@),
        r@.len() <= s@.len(),
{
    let mut e = ascii_trim(s);
    let ghost mut outer = s@;
    while pairs_up(e)
        invariant
            e@ == trimmed(outer),
            e@.len() <= outer.len() <= s@.len(),
            ungrouped(s@) == ungrouped(outer),
        decreases e@.len(),
    {
        let inner = text::part(e, 1, e.len() - 1);
        proof {
            outer = inner@;
        }
        e = ascii_trim(inner);
    }
    e
}

// ---------------------------------------------------------------------------
// One bare literal

/// `s` without the comments, the white space and the grouping around it, one
/// layer of each.
pub open spec fn stripped_once(s: Seq<char>) -> Seq<char> {
    ungrouped(bared_end(s.skip(past_gap(s, 0))))
}

/// `s` without the comments, the white space and the grouping around it.
pub open spec fn stripped(s: Seq<char>) -> Seq<char>
    decreases s.len(),
{
    let next = stripped_once(s);
    if next.len() < s.len() {
        stripped(next)
    } else {
        s
    }
}

/// Whether what follows one piece of a string constant at `at` is nothing, or
/// more pieces of it: a continuation is a plain quoted piece across a line
/// end.
pub open spec fn continued(s: Seq<char>, at: int) -> bool
    decreases s.len() - at,
{
    if at < 0 || at >= s.len() {
        true
    } else {
        let (p, continues) = gap(s, at, false, false);
        if p < 0 || p >= s.len() {
            true
        } else if !continues || s[p] != '\'' {
            false
        } else {
            match literal_end(s, p + 1, false) {
                Some(e) => if at < e <= s.len() {
                    continued(s, e)
                } else {
                    false
                },
                None => false,
            }
        }
    }
}

/// Whether `s` is one dollar-quoted literal, with nothing but white space and
/// comments behind it.
pub open spec fn is_dollar_literal(s: Seq<char>) -> bool {
    match delimiter_end(s, 0) {
        Some(d) => match text::first_at(s, s.subrange(0, d), d) {
            Some(close) => past_gap(s, close + d) >= s.len(),
            None => false,
        },
        None => false,
    }
}

/// Whether `s` is one string literal and nothing else, in any of the spellings
/// this engine has for one, behind any grouping and comments.
pub open spec fn is_bare_literal(s: Seq<char>) -> bool {
    let e = stripped(s);
    if e.len() > 0 && e[0] == '$' {
        is_dollar_literal(e)
    } else {
        match opener(e, 0) {
            Some((n, escapes)) => match literal_end(e, n, escapes) {
                Some(end) => continued(e, end),
                None => false,
            },
            None => false,
        }
    }
}

/// Whether the text is one `$tag$…$tag$` literal and nothing else.
pub fn is_one_dollar_quoted_literal(s: &[char]) -> (r: bool)
    ensures
        r == is_dollar_literal(s@),
{
    let d = match dollar_delimiter(s, 0) {
        Some(d) => d,
        None => {
            return false;
        },
    };
    let delimiter = text::part(s, 0, d);
    let len: usize = s.len();
    match text::find_from(s, delimiter, d) {
        Some(close) => after_the_gap(s, close + d).0 >= len,
        None => false,
    }
}

/// Whether the expression is one string literal and nothing else.
///
/// Anything with a cast, a call or an operator in it answers `false`. The one
/// spelling of a literal left over is `U&'…' UESCAPE '!'`, which is two
/// literals with a keyword between them and answers `false` too.
pub fn is_a_bare_literal(expression: &str) -> (r: bool)
    ensures
        r == is_bare_literal(expression@),
{
    let cs = text::chars_of(expression);
    let mut e = cs.as_slice();
    loop
        invariant_except_break
            stripped(cs@) == stripped(e@),
        ensures
            e@ == stripped(cs@),
        decreases e@.len(),
    {
        let past = after_the_gap(e, 0).0;
        let rest = text::part(e, past, e.len());
        assert(rest@ =~= e@.skip(past as int));
        let next = without_grouping(without_trailing_trivia(rest));
        if next.len() >= e.len() {
            break;
        }
        e = next;
    }
    if e.len() > 0 && e[0] == '$' {
        return is_one_dollar_quoted_literal(e);
    }
    let (n, escapes) = match opener_at(e, 0) {
        Some(found) => found,
        None => {
            return false;
        },
    };
    let mut at = match end_of_literal(e, n, escapes) {
        Some(end) => end,
        None => {
            return false;
        },
    };
    let ghost first = at as int;
    while at < e.len()
        invariant
            at <= e@.len(),
            continued(e@, first) == continued(e@, at as int),
            is_bare_literal(expression@) == continued(e@, first),
        decreases e@.len() - at,
    {
        let (p, continues) = after_the_gap(e, at);
        if p >= e.len() {
            return true;
        }
        if !continues || e[p] != '\'' {
            return false;
        }
        match end_of_literal(e, p + 1, false) {
            Some(end) => {
                at = end;
            },
            None => {
                return false;
            },
        }
    }
    true
}

// ---------------------------------------------------------------------------
// Identifiers

/// The end of the run of identifier characters at `at`.
pub open spec fn ident_end(s: Seq<char>, at: int) -> int
    decreases s.len() - at,
{
    if at < 0 || at >= s.len() || !goes_on(s[at]) {
        at
    } else {
        ident_end(s, at + 1)
    }
}

/// The end of the run of identifier characters at `at`.
pub fn end_of_word(s: &[char], at: usize) -> (r: usize)
    requires
        at <= s@.len(),
    ensures
        r == ident_end(s@, at as int),
        at <= r <= s@.len(),
        at < s@.len() && goes_on(s@[at as int]) ==> at < r,
{
    let mut i: usize = at;
    while i < s.len() && continues_ident(s[i])
        invariant
            at <= i <= s@.len(),
            ident_end(s@, at as int) == ident_end(s@, i as int),
            i > at || (i == at),
        decreases s@.len() - i,
    {
        i += 1;
    }
    i
}

/// The position just past the quote that closes a quoted identifier whose
/// text goes on at `at`. A doubled quote is a quote inside the name.
pub open spec fn quoted_end(s: Seq<char>, at: int) -> Option<int>
    decreases s.len() - at,
{
    match next_char(s, '"', at) {
        Some(close) => if close < at {
            None
        } else if close + 1 < s.len() && s[close + 1] == '"' {
            quoted_end(s, close + 2)
        } else {
            Some(close + 1)
        },
        None => None,
    }
}

/// The position just past the quote that closes a quoted identifier whose
/// text goes on at `at`.
pub fn end_of_quoted(s: &[char], at: usize) -> (r: Option<usize>)
    requires
        at <= s@.len(),
    ensures
        match r {
            Some(e) => quoted_end(s@, at as int) == Some(e as int) && at < e <= s@.len(),
            None => quoted_end(s@, at as int) is None,
        },
{
    let mut i: usize = at;
    loop
        invariant
            at <= i <= s@.len(),
            quoted_end(s@, at as int) == quoted_end(s@, i as int),
        decreases s@.len() - i,
    {
        match find_char(s, '"', i) {
            Some(close) => {
                if s.len() - close >= 2 && s[close + 1] == '"' {
                    i = close + 2;
                } else {
                    return Some(close + 1);
                }
            },
            None => {
                return None;
            },
        }
    }
}

/// Whether a Unicode-escaped identifier `U&"…"` begins at `at`. The prefix is
/// glued to the quote.
pub open spec fn is_unicode_quoted(s: Seq<char>, at: int) -> bool {
    (pair_at(s, at, 'u', '&') || pair_at(s, at, 'U', '&')) && at + 2 < s.len() && s[at + 2] == '"'
}

/// Whether a Unicode-escaped identifier begins at `at`.
pub fn unicode_quoted(s: &[char], at: usize) -> (r: bool)
    requires
        at <= s@.len(),
    ensures
        r == is_unicode_quoted(s@, at as int),
{
    (two_at(s, at, 'u', '&') || two_at(s, at, 'U', '&')) && s.len() - at >= 3 && s[at + 2] == '"'
}

/// The end of the one identifier at `at`, quoted or not.
pub open spec fn one_ident_end(s: Seq<char>, at: int) -> Option<int> {
    if is_unicode_quoted(s, at) {
        quoted_end(s, at + 3)
    } else if 0 <= at < s.len() && s[at] == '"' {
        quoted_end(s, at + 1)
    } else {
        let e = ident_end(s, at);
        if e > at {
            Some(e)
        } else {
            None
        }
    }
}

/// The end of the one identifier at `at`, quoted or not, or `None` where none
/// begins there.
pub fn one_ident_len(s: &[char], at: usize) -> (r: Option<usize>)
    requires
        at <= s@.len(),
    ensures
        match r {
            Some(e) => one_ident_end(s@, at as int) == Some(e as int) && at < e <= s@.len(),
            None => one_ident_end(s@, at as int) is None,
        },
{
    let len: usize = s.len();
    if unicode_quoted(s, at) {
        return end_of_quoted(s, at + 3);
    }
    if at < len && s[at] == '"' {
        return end_of_quoted(s, at + 1);
    }
    let e = end_of_word(s, at);
    if e > at {
        Some(e)
    } else {
        None
    }
}

/// The keyword that names another escape character.
pub const UESCAPE: &'static str = "uescape";

/// The end of a `UESCAPE 'x'` clause at `at`.
pub open spec fn escape_clause_end(s: Seq<char>, at: int) -> Option<int> {
    match one_ident_end(s, at) {
        Some(w) => {
            let p = past_gap(s, w);
            if text::lower(s.subrange(at, w)) == text::lower(UESCAPE@) && 0 <= p && p + 2 < s.len()
                && s[p] == '\'' && s[p + 2] == '\'' && !cannot_escape(s[p + 1]) {
                Some(p + 3)
            } else {
                None
            }
        },
        None => None,
    }
}

/// The end of a `UESCAPE 'x'` clause at `at`, or `None`.
pub fn uescape_len(s: &[char], at: usize) -> (r: Option<usize>)
    requires
        at <= s@.len(),
    ensures
        match r {
            Some(e) => escape_clause_end(s@, at as int) == Some(e as int) && at + 3 <= e
                <= s@.len(),
            None => escape_clause_end(s@, at as int) is None,
        },
{
    let w = match one_ident_len(s, at) {
        Some(w) => w,
        None => {
            return None;
        },
    };
    let word = text::part(s, at, w);
    if !text::spells(word, UESCAPE) {
        return None;
    }
    let p = after_the_gap(s, w).0;
    if s.len() - p >= 3 && s[p] == '\'' && s[p + 2] == '\'' && !refused_as_escape(s[p + 1]) {
        Some(p + 3)
    } else {
        None
    }
}

/// The end of a qualified name whose first part ends at `at`: an escape clause
/// may follow each part, and a dot, with gaps on either side, leads to the
/// next.
pub open spec fn name_end(s: Seq<char>, at: int) -> Option<int>
    decreases s.len() - at,
{
    let after = match escape_clause_end(s, past_gap(s, at)) {
        Some(e) => e,
        None => at,
    };
    let dot = past_gap(s, after);
    if 0 <= dot < s.len() && s[dot] == '.' {
        let next = past_gap(s, dot + 1);
        match one_ident_end(s, next) {
            Some(e) => if at < e <= s.len() {
                name_end(s, e)
            } else {
                None
            },
            None => None,
        }
    } else {
        Some(after)
    }
}

/// The end of the qualified name at `at`.
pub open spec fn qualified_end(s: Seq<char>, at: int) -> Option<int> {
    match one_ident_end(s, at) {
        Some(e) => name_end(s, e),
        None => None,
    }
}

/// The end of the qualified name at `at`: `t`, `app.t`, `"App"."T"`, and
/// `app . t`, because the dot is a token of its own to this engine. `None`
/// where the text does not hold one there.
pub fn qualified_name_at(s: &[char], at: usize) -> (r: Option<usize>)
    requires
        at <= s@.len(),
    ensures
        match r {
            Some(e) => qualified_end(s@, at as int) == Some(e as int) && at < e <= s@.len(),
            None => qualified_end(s@, at as int) is None,
        },
{
    let first = match one_ident_len(s, at) {
        Some(e) => e,
        None => {
            return None;
        },
    };
    let mut end: usize = first;
    loop
        invariant
            at < end <= s@.len(),
            qualified_end(s@, at as int) == name_end(s@, end as int),
        decreases s@.len() - end,
    {
        let after = match uescape_len(s, after_the_gap(s, end).0) {
            Some(e) => e,
            None => end,
        };
        let dot = after_the_gap(s, after).0;
        if dot < s.len() && s[dot] == '.' {
            let next = after_the_gap(s, dot + 1).0;
            match one_ident_len(s, next) {
                Some(e) => {
                    end = e;
                },
                None => {
                    return None;
                },
            }
        } else {
            return Some(after);
        }
    }
}

} // verus!
