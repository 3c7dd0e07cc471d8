//! What stays the same about an expression when parentheses, white space and
//! comments are put around it.
use vstd::prelude::*;

use crate::lexer;
use crate::text;

verus! {

// ---------------------------------------------------------------------------
// White space at the ends

proof fn solid_from_is_first(s: Seq<char>, at: int)
    requires
        0 <= at <= s.len(),
    ensures
        at <= lexer::solid_from(s, at) <= s.len(),
        lexer::solid_from(s, at) < s.len() ==> !text::is_space(s[lexer::solid_from(s, at)]),
        forall|i: int|
            at <= i < lexer::solid_from(s, at) ==> text::is_space(#[trigger] s[i]),
    decreases s.len() - at,
{
    if at < s.len() && text::is_space(s[at]) {
        solid_from_is_first(s, at + 1);
    }
}

proof fn solid_to_is_last(s: Seq<char>, from: int, to: int)
    requires
        0 <= from <= to <= s.len(),
    ensures
        from <= lexer::solid_to(s, from, to) <= to,
        lexer::solid_to(s, from, to) > from ==> !text::is_space(
            s[lexer::solid_to(s, from, to) - 1],
        ),
        forall|i: int|
            lexer::solid_to(s, from, to) <= i < to ==> text::is_space(#[trigger] s[i]),
    decreases to - from,
{
    if to > from && text::is_space(s[to - 1]) {
        solid_to_is_last(s, from, to - 1);
    }
}

/// Whether a text has no white space at either end.
pub open spec fn is_trim(s: Seq<char>) -> bool {
    s.len() > 0 ==> !text::is_space(s[0]) && !text::is_space(s.last())
}

/// A text is white space, what is left of it when it is trimmed, and white
/// space.
proof fn trimming_takes_space(s: Seq<char>)
    ensures
        ({
            let from = lexer::solid_from(s, 0);
            let to = lexer::solid_to(s, from, s.len() as int);
            &&& 0 <= from <= to <= s.len()
            &&& lexer::trimmed(s) == s.subrange(from, to)
            &&& is_trim(lexer::trimmed(s))
            &&& forall|i: int| 0 <= i < from ==> text::is_space(#[trigger] s[i])
            &&& forall|i: int| to <= i < s.len() ==> text::is_space(#[trigger] s[i])
        }),
{
    let from = lexer::solid_from(s, 0);
    solid_from_is_first(s, 0);
    solid_to_is_last(s, from, s.len() as int);
}

proof fn a_trim_text_stays(s: Seq<char>)
    requires
        is_trim(s),
    ensures
        lexer::trimmed(s) == s,
{
    assert(lexer::trimmed(s) =~= s);
}

/// Taking the grouping off twice is taking it off once, and what is left is a
/// part of the text with no white space at either end and no parentheses
/// around the whole of it.
pub proof fn grouping_comes_off_once(s: Seq<char>)
    ensures
        ({
            let r = lexer::ungrouped(s);
            &&& lexer::ungrouped(r) == r
            &&& is_trim(r)
            &&& !lexer::is_group(r)
            &&& exists|from: int, to: int|
                0 <= from <= to <= s.len() && r == #[trigger] s.subrange(from, to)
        }),
    decreases s.len(),
{
    let e = lexer::trimmed(s);
    let from = lexer::solid_from(s, 0);
    let to = lexer::solid_to(s, from, s.len() as int);
    trimming_takes_space(s);
    if lexer::is_group(e) {
        let inner = e.subrange(1, e.len() - 1);
        grouping_comes_off_once(inner);
        let r = lexer::ungrouped(inner);
        let (a, b) = choose|a: int, b: int|
            0 <= a <= b <= inner.len() && r == #[trigger] inner.subrange(a, b);
        assert(r =~= s.subrange(from + 1 + a, from + 1 + b));
    } else {
        a_trim_text_stays(e);
    }
}

// ---------------------------------------------------------------------------
// A scan inside a longer text

/// Whether what follows begins with white space, if anything follows.
spec fn is_apart(q: Seq<char>) -> bool {
    q.len() > 0 ==> text::is_space(q[0])
}

/// Whether a text is white space from `at` on.
spec fn is_blank(s: Seq<char>, at: int) -> bool {
    forall|i: int| at <= i < s.len() ==> text::is_space(#[trigger] s[i])
}

/// A text between two others.
spec fn between(p: Seq<char>, s: Seq<char>, q: Seq<char>) -> Seq<char> {
    p + s + q
}

proof fn between_is(p: Seq<char>, s: Seq<char>, q: Seq<char>)
    ensures
        between(p, s, q).len() == p.len() + s.len() + q.len(),
        forall|i: int|
            0 <= i < s.len() ==> #[trigger] between(p, s, q)[p.len() + i] == s[i],
        forall|i: int|
            0 <= i < q.len() ==> #[trigger] between(p, s, q)[p.len() + s.len() + i] == q[i],
{
}

proof fn literal_inside(p: Seq<char>, s: Seq<char>, q: Seq<char>, at: int, escapes: bool)
    requires
        0 <= at <= s.len(),
        is_apart(q),
        lexer::literal_end(s, at, escapes) is Some,
    ensures
        lexer::literal_end(between(p, s, q), p.len() + at, escapes) == Some(
            p.len() + lexer::literal_end(s, at, escapes)->0,
        ),
        at < lexer::literal_end(s, at, escapes)->0 <= s.len(),
        s[lexer::literal_end(s, at, escapes)->0 - 1] == '\'',
    decreases s.len() + 2 - at,
{
    let w = between(p, s, q);
    let k = p.len() as int;
    between_is(p, s, q);
    assert(w[k + at] == s[at]);
    if at + 1 < s.len() {
        assert(w[k + (at + 1)] == s[at + 1]);
    } else if q.len() > 0 {
        assert(w[k + s.len() + 0] == q[0]);
    }
    if escapes && s[at] == '\\' {
        literal_inside(p, s, q, at + 2, escapes);
    } else if lexer::pair_at(s, at, '\'', '\'') {
        literal_inside(p, s, q, at + 2, escapes);
    } else if s[at] != '\'' {
        literal_inside(p, s, q, at + 1, escapes);
    }
}

proof fn comment_inside(p: Seq<char>, s: Seq<char>, q: Seq<char>, at: int, depth: int)
    requires
        0 <= at <= s.len(),
        lexer::comment_end(s, at, depth) is Some,
    ensures
        lexer::comment_end(between(p, s, q), p.len() + at, depth) == Some(
            p.len() + lexer::comment_end(s, at, depth)->0,
        ),
        at < lexer::comment_end(s, at, depth)->0 <= s.len(),
        s[lexer::comment_end(s, at, depth)->0 - 1] == '/',
    decreases s.len() - at,
{
    let w = between(p, s, q);
    let k = p.len() as int;
    between_is(p, s, q);
    assert(w[k + at] == s[at]);
    assert(w[k + (at + 1)] == s[at + 1]);
    if lexer::pair_at(s, at, '/', '*') {
        comment_inside(p, s, q, at + 2, depth + 1);
    } else if lexer::pair_at(s, at, '*', '/') {
        if depth > 1 {
            comment_inside(p, s, q, at + 2, depth - 1);
        }
    } else {
        comment_inside(p, s, q, at + 1, depth);
    }
}

proof fn newline_inside(p: Seq<char>, s: Seq<char>, q: Seq<char>, at: int)
    requires
        0 <= at <= s.len(),
        lexer::next_newline(s, at) is Some,
    ensures
        lexer::next_newline(between(p, s, q), p.len() + at) == Some(
            p.len() + lexer::next_newline(s, at)->0,
        ),
        at <= lexer::next_newline(s, at)->0 < s.len(),
        lexer::is_newline(s[lexer::next_newline(s, at)->0]),
    decreases s.len() - at,
{
    between_is(p, s, q);
    assert(between(p, s, q)[p.len() + at] == s[at]);
    if !lexer::is_newline(s[at]) {
        newline_inside(p, s, q, at + 1);
    }
}

proof fn char_inside(p: Seq<char>, s: Seq<char>, q: Seq<char>, c: char, at: int)
    requires
        0 <= at <= s.len(),
    ensures
        match lexer::next_char(s, c, at) {
            Some(e) => at <= e < s.len() && s[e] == c && lexer::next_char(
                between(p, s, q),
                c,
                p.len() + at,
            ) == Some(p.len() + e),
            None => match lexer::next_char(between(p, s, q), c, p.len() + at) {
                Some(e) => p.len() + s.len() <= e < between(p, s, q).len() && between(p, s, q)[e]
                    == c,
                None => true,
            },
        },
    decreases s.len() - at,
{
    between_is(p, s, q);
    if at < s.len() {
        assert(between(p, s, q)[p.len() + at] == s[at]);
        if s[at] != c {
            char_inside(p, s, q, c, at + 1);
        }
    } else {
        a_char_is_found(between(p, s, q), c, p.len() + at);
    }
}

proof fn a_char_is_found(s: Seq<char>, c: char, at: int)
    requires
        0 <= at,
    ensures
        lexer::next_char(s, c, at) matches Some(e) ==> at <= e < s.len() && s[e] == c,
    decreases s.len() - at,
{
    if at < s.len() && s[at] != c {
        a_char_is_found(s, c, at + 1);
    }
}

proof fn needle_inside(p: Seq<char>, s: Seq<char>, q: Seq<char>, needle: Seq<char>, at: int)
    requires
        0 <= at <= s.len(),
        text::first_at(s, needle, at) is Some,
    ensures
        text::first_at(between(p, s, q), needle, p.len() + at) == Some(
            p.len() + text::first_at(s, needle, at)->0,
        ),
        at <= text::first_at(s, needle, at)->0,
        text::occurs_at(s, needle, text::first_at(s, needle, at)->0),
    decreases s.len() + 1 - at,
{
    let w = between(p, s, q);
    let k = p.len() as int;
    between_is(p, s, q);
    assert(w.subrange(k + at, k + at + needle.len()) =~= s.subrange(at, at + needle.len()));
    if !text::occurs_at(s, needle, at) {
        needle_inside(p, s, q, needle, at + 1);
    }
}

proof fn opener_inside(p: Seq<char>, s: Seq<char>, q: Seq<char>, at: int)
    requires
        0 <= at < s.len(),
        is_apart(q),
    ensures
        lexer::opener(between(p, s, q), p.len() + at) == lexer::opener(s, at),
        lexer::opener(s, at) matches Some((n, _)) ==> n >= 1 && at + n <= s.len(),
{
    let w = between(p, s, q);
    let k = p.len() as int;
    between_is(p, s, q);
    assert(w[k + at] == s[at]);
    if at + 1 < s.len() {
        assert(w[k + (at + 1)] == s[at + 1]);
    }
    if at + 2 < s.len() {
        assert(w[k + (at + 2)] == s[at + 2]);
    }
    if q.len() > 0 {
        assert(w[k + s.len() + 0] == q[0]);
    }
}

proof fn pair_inside(p: Seq<char>, s: Seq<char>, q: Seq<char>, at: int, a: char, b: char)
    requires
        0 <= at < s.len(),
        is_apart(q),
        !text::is_space(b),
    ensures
        lexer::pair_at(between(p, s, q), p.len() + at, a, b) == lexer::pair_at(s, at, a, b),
{
    let w = between(p, s, q);
    let k = p.len() as int;
    between_is(p, s, q);
    assert(w[k + at] == s[at]);
    if at + 1 < s.len() {
        assert(w[k + (at + 1)] == s[at + 1]);
    } else if q.len() > 0 {
        assert(w[k + s.len() + 0] == q[0]);
    }
}

proof fn delimiter_inside(p: Seq<char>, s: Seq<char>, q: Seq<char>, at: int)
    requires
        0 <= at < s.len(),
        is_apart(q),
    ensures
        match lexer::delimiter_end(s, at) {
            Some(d) => at + 2 <= d <= s.len() && s[d - 1] == '$' && lexer::delimiter_end(
                between(p, s, q),
                p.len() + at,
            ) == Some(p.len() + d),
            None => lexer::delimiter_end(between(p, s, q), p.len() + at) is None,
        },
{
    let w = between(p, s, q);
    let k = p.len() as int;
    between_is(p, s, q);
    assert(w[k + at] == s[at]);
    if s[at] == '$' {
        char_inside(p, s, q, '$', at + 1);
        match lexer::next_char(s, '$', at + 1) {
            Some(close) => {
                assert(w.subrange(k + at + 1, k + close) =~= s.subrange(at + 1, close));
            },
            None => {
                if let Some(close) = lexer::next_char(w, '$', k + at + 1) {
                    let tag = w.subrange(k + at + 1, close);
                    assert(w[k + s.len() + 0] == q[0]);
                    assert(tag[s.len() - at - 1] == q[0]);
                    assert(!lexer::goes_on(tag[s.len() - at - 1]));
                }
            },
        }
    }
}

// ---------------------------------------------------------------------------
// Literals and comments, closed or not

/// Whether a `$` at `at` is a character of the identifier before it.
spec fn is_glued(s: Seq<char>, at: int) -> bool {
    0 < at < s.len() && s[at] == '$' && lexer::goes_on(s[at - 1])
}

/// The literal or comment that begins at `at`, where one does: its end, or
/// `None` where nothing closes it.
spec fn span(s: Seq<char>, at: int) -> Option<Option<int>> {
    if is_glued(s, at) {
        None
    } else {
        match lexer::opener(s, at) {
            Some((n, escapes)) => Some(lexer::literal_end(s, at + n, escapes)),
            None => match lexer::delimiter_end(s, at) {
                Some(d) => Some(
                    match text::first_at(s, s.subrange(at, d), d) {
                        Some(close) => Some(close + d - at),
                        None => None,
                    },
                ),
                None => if lexer::pair_at(s, at, '-', '-') {
                    Some(
                        match lexer::next_newline(s, at) {
                            Some(e) => Some(e + 1),
                            None => None,
                        },
                    )
                } else if lexer::pair_at(s, at, '/', '*') {
                    Some(lexer::comment_end(s, at + 2, 1))
                } else {
                    None
                },
            },
        }
    }
}

/// Whether a line comment begins at `at`.
spec fn is_line(s: Seq<char>, at: int) -> bool {
    lexer::pair_at(s, at, '-', '-')
}

proof fn a_span_is_a_datum(s: Seq<char>, at: int)
    requires
        0 <= at < s.len(),
    ensures
        lexer::datum_end_at(s, at) == match span(s, at) {
            None => None,
            Some(end) => Some(lexer::or_end(s, end)),
        },
        span(s, at) matches Some(Some(e)) ==> at < e <= s.len(),
        span(s, at) matches Some(Some(e)) ==> !is_line(s, at) ==> !text::is_space(s[e - 1]),
{
    let none = Seq::<char>::empty();
    assert(between(none, s, none) =~= s);
    if !is_glued(s, at) {
        opener_inside(none, s, none, at);
        delimiter_inside(none, s, none, at);
        match lexer::opener(s, at) {
            Some((n, escapes)) => {
                if lexer::literal_end(s, at + n, escapes) is Some {
                    literal_inside(none, s, none, at + n, escapes);
                }
            },
            None => match lexer::delimiter_end(s, at) {
                Some(d) => {
                    let needle = s.subrange(at, d);
                    if let Some(close) = text::first_at(s, needle, d) {
                        needle_inside(none, s, none, needle, d);
                        assert(s.subrange(close, close + needle.len())[needle.len() - 1]
                            == needle[needle.len() - 1]);
                    }
                },
                None => {
                    if is_line(s, at) {
                        if lexer::next_newline(s, at) is Some {
                            newline_inside(none, s, none, at);
                        }
                    } else if lexer::pair_at(s, at, '/', '*') {
                        if lexer::comment_end(s, at + 2, 1) is Some {
                            comment_inside(none, s, none, at + 2, 1);
                        }
                    }
                },
            },
        }
    }
}

/// Whether the text in front does not reach into the first character.
spec fn is_free(p: Seq<char>, s: Seq<char>, at: int) -> bool {
    at == 0 && p.len() > 0 && s[0] == '$' ==> !lexer::goes_on(p.last())
}

/// What begins at a place is the same literal or comment in a longer text, if
/// it is closed.
proof fn span_inside(p: Seq<char>, s: Seq<char>, q: Seq<char>, at: int)
    requires
        0 <= at < s.len(),
        is_apart(q),
        is_free(p, s, at),
    ensures
        is_line(between(p, s, q), p.len() + at) == is_line(s, at),
        match span(s, at) {
            None => span(between(p, s, q), p.len() + at) is None,
            Some(Some(e)) => span(between(p, s, q), p.len() + at) == Some(Some(p.len() + e)),
            Some(None) => span(between(p, s, q), p.len() + at) is Some,
        },
{
    let w = between(p, s, q);
    let k = p.len() as int;
    between_is(p, s, q);
    assert(w[k + at] == s[at]);
    if at > 0 {
        assert(w[k + (at - 1)] == s[at - 1]);
    } else if k > 0 {
        assert(w[k - 1] == p.last());
    }
    assert(is_glued(w, k + at) == is_glued(s, at));
    pair_inside(p, s, q, at, '-', '-');
    pair_inside(p, s, q, at, '/', '*');
    opener_inside(p, s, q, at);
    delimiter_inside(p, s, q, at);
    if !is_glued(s, at) {
        match lexer::opener(s, at) {
            Some((n, escapes)) => {
                if lexer::literal_end(s, at + n, escapes) is Some {
                    literal_inside(p, s, q, at + n, escapes);
                }
            },
            None => match lexer::delimiter_end(s, at) {
                Some(d) => {
                    let needle = s.subrange(at, d);
                    assert(w.subrange(k + at, k + d) =~= needle);
                    if text::first_at(s, needle, d) is Some {
                        needle_inside(p, s, q, needle, d);
                    }
                },
                None => {
                    if is_line(s, at) {
                        if lexer::next_newline(s, at) is Some {
                            newline_inside(p, s, q, at);
                        }
                    } else if lexer::pair_at(s, at, '/', '*') {
                        if lexer::comment_end(s, at + 2, 1) is Some {
                            comment_inside(p, s, q, at + 2, 1);
                        }
                    }
                },
            },
        }
    }
}

// What white space does not close.

proof fn literal_in_space(s: Seq<char>, at: int, escapes: bool)
    requires
        0 <= at,
        is_blank(s, at),
    ensures
        lexer::literal_end(s, at, escapes) is None,
    decreases s.len() - at,
{
    if at < s.len() {
        literal_in_space(s, at + 1, escapes);
    }
}

proof fn comment_in_space(s: Seq<char>, at: int, depth: int)
    requires
        0 <= at,
        is_blank(s, at),
    ensures
        lexer::comment_end(s, at, depth) is None,
    decreases s.len() - at,
{
    if at < s.len() {
        comment_in_space(s, at + 1, depth);
    }
}

proof fn blank_behind(p: Seq<char>, s: Seq<char>, q: Seq<char>)
    requires
        is_blank(q, 0),
    ensures
        is_blank(between(p, s, q), (p.len() + s.len()) as int),
{
    let w = between(p, s, q);
    between_is(p, s, q);
    assert forall|i: int| p.len() + s.len() <= i < w.len() implies text::is_space(
        #[trigger] w[i],
    ) by {
        let j = i - p.len() - s.len();
        assert(w[p.len() + s.len() + j] == q[j]);
    }
}

proof fn literal_stays_open(p: Seq<char>, s: Seq<char>, q: Seq<char>, at: int, escapes: bool)
    requires
        0 <= at,
        is_blank(q, 0),
        lexer::literal_end(s, at, escapes) is None,
    ensures
        lexer::literal_end(between(p, s, q), p.len() + at, escapes) is None,
    decreases s.len() + 2 - at,
{
    let w = between(p, s, q);
    let k = p.len() as int;
    between_is(p, s, q);
    blank_behind(p, s, q);
    if at >= s.len() {
        literal_in_space(w, k + at, escapes);
    } else {
        assert(w[k + at] == s[at]);
        if at + 1 < s.len() {
            assert(w[k + (at + 1)] == s[at + 1]);
        }
        if escapes && s[at] == '\\' {
            literal_stays_open(p, s, q, at + 2, escapes);
        } else if lexer::pair_at(s, at, '\'', '\'') {
            literal_stays_open(p, s, q, at + 2, escapes);
        } else {
            literal_stays_open(p, s, q, at + 1, escapes);
        }
    }
}

proof fn comment_stays_open(p: Seq<char>, s: Seq<char>, q: Seq<char>, at: int, depth: int)
    requires
        0 <= at,
        is_blank(q, 0),
        lexer::comment_end(s, at, depth) is None,
    ensures
        lexer::comment_end(between(p, s, q), p.len() + at, depth) is None,
    decreases s.len() - at,
{
    let w = between(p, s, q);
    let k = p.len() as int;
    between_is(p, s, q);
    blank_behind(p, s, q);
    if at >= s.len() {
        comment_in_space(w, k + at, depth);
    } else {
        assert(w[k + at] == s[at]);
        if at + 1 < s.len() {
            assert(w[k + (at + 1)] == s[at + 1]);
            if lexer::pair_at(s, at, '/', '*') {
                comment_stays_open(p, s, q, at + 2, depth + 1);
            } else if lexer::pair_at(s, at, '*', '/') {
                comment_stays_open(p, s, q, at + 2, depth - 1);
            } else {
                comment_stays_open(p, s, q, at + 1, depth);
            }
        } else {
            comment_in_space(w, k + at + 1, depth);
        }
    }
}

proof fn needle_stays_away(p: Seq<char>, s: Seq<char>, q: Seq<char>, needle: Seq<char>, at: int)
    requires
        0 <= at,
        is_blank(q, 0),
        needle.len() > 0,
        !text::is_space(needle.last()),
        text::first_at(s, needle, at) is None,
    ensures
        text::first_at(between(p, s, q), needle, p.len() + at) is None,
    decreases between(p, s, q).len() + 1 - at,
{
    let w = between(p, s, q);
    let k = p.len() as int;
    between_is(p, s, q);
    blank_behind(p, s, q);
    if k + at + needle.len() <= w.len() {
        if text::occurs_at(w, needle, k + at) {
            let there = w.subrange(k + at, k + at + needle.len());
            assert(there[needle.len() - 1] == needle.last());
            assert(w[k + at + needle.len() - 1] == needle.last());
            assert(at + needle.len() <= s.len());
            assert(s.subrange(at, at + needle.len()) =~= there);
        }
        needle_stays_away(p, s, q, needle, at + 1);
    }
}

proof fn newlines_stay_away(p: Seq<char>, s: Seq<char>, at: int)
    requires
        0 <= at,
        lexer::next_newline(s, at) is None,
    ensures
        lexer::next_newline(between(p, s, Seq::empty()), p.len() + at) is None,
    decreases s.len() - at,
{
    between_is(p, s, Seq::empty());
    if at < s.len() {
        assert(between(p, s, Seq::empty())[p.len() + at] == s[at]);
        newlines_stay_away(p, s, at + 1);
    }
}

/// What white space follows stays open, and a line comment stays open where
/// nothing follows.
proof fn span_stays_open(p: Seq<char>, s: Seq<char>, q: Seq<char>, at: int)
    requires
        0 <= at < s.len(),
        is_blank(q, 0),
        is_free(p, s, at),
        span(s, at) == Some(None::<int>),
        is_line(s, at) ==> q.len() == 0,
    ensures
        span(between(p, s, q), p.len() + at) == Some(None::<int>),
{
    let w = between(p, s, q);
    let k = p.len() as int;
    span_inside(p, s, q, at);
    between_is(p, s, q);
    assert(w[k + at] == s[at]);
    if at > 0 {
        assert(w[k + (at - 1)] == s[at - 1]);
    } else if k > 0 {
        assert(w[k - 1] == p.last());
    }
    pair_inside(p, s, q, at, '-', '-');
    pair_inside(p, s, q, at, '/', '*');
    opener_inside(p, s, q, at);
    delimiter_inside(p, s, q, at);
    match lexer::opener(s, at) {
        Some((n, escapes)) => {
            literal_stays_open(p, s, q, at + n, escapes);
        },
        None => match lexer::delimiter_end(s, at) {
            Some(d) => {
                let needle = s.subrange(at, d);
                assert(w.subrange(k + at, k + d) =~= needle);
                needle_stays_away(p, s, q, needle, d);
            },
            None => {
                if is_line(s, at) {
                    assert(q =~= Seq::empty());
                    newlines_stay_away(p, s, at);
                } else {
                    comment_stays_open(p, s, q, at + 2, 1);
                }
            },
        },
    }
}

// ---------------------------------------------------------------------------
// A text that closes what it opens

/// Whether everything that begins in `s` from `at` on is closed in it, but for
/// a line comment at its end.
spec fn is_clean(s: Seq<char>, at: int) -> bool
    decreases s.len() - at,
{
    if at < 0 || at >= s.len() {
        true
    } else {
        match span(s, at) {
            None => is_clean(s, at + 1),
            Some(Some(e)) => at < e <= s.len() && is_clean(s, e),
            Some(None) => is_line(s, at),
        }
    }
}

/// How many parentheses are open at the end of `s`, from `at` on with `depth`
/// open, or `None` where one is closed that was not opened.
spec fn depth_after(s: Seq<char>, at: int, depth: int) -> Option<int>
    decreases s.len() - at,
{
    if at < 0 || at >= s.len() {
        Some(depth)
    } else {
        match lexer::datum_end_at(s, at) {
            Some(e) => if at < e <= s.len() {
                depth_after(s, e, depth)
            } else {
                None
            },
            None => if s[at] == '(' {
                depth_after(s, at + 1, depth + 1)
            } else if s[at] == ')' {
                if depth <= 0 {
                    None
                } else {
                    depth_after(s, at + 1, depth - 1)
                }
            } else {
                depth_after(s, at + 1, depth)
            },
        }
    }
}

/// Whether a comment begins at `at`.
spec fn is_comment(s: Seq<char>, at: int) -> bool {
    is_line(s, at) || lexer::pair_at(s, at, '/', '*')
}

/// One step of the scan for the end of the code.
proof fn code_end_steps(s: Seq<char>, at: int, end: int)
    requires
        0 <= at < s.len(),
    ensures
        lexer::code_end(s, at, end) == match span(s, at) {
            None => lexer::code_end(
                s,
                at + 1,
                if text::is_space(s[at]) {
                    end
                } else {
                    at + 1
                },
            ),
            Some(Some(e)) => lexer::code_end(
                s,
                e,
                if is_comment(s, at) {
                    end
                } else {
                    e
                },
            ),
            Some(None) => if is_line(s, at) {
                end
            } else {
                s.len() as int
            },
        },
{
    a_span_is_a_datum(s, at);
    assert(lexer::code_end(s, s.len() as int, s.len() as int) == s.len());
}

proof fn space_is_nothing(s: Seq<char>, at: int, end: int, depth: int)
    requires
        0 <= at,
        is_blank(s, at),
    ensures
        is_clean(s, at),
        depth_after(s, at, depth) == Some(depth),
        lexer::code_end(s, at, end) == end,
    decreases s.len() - at,
{
    if at < s.len() {
        assert(span(s, at) is None);
        space_is_nothing(s, at + 1, end, depth);
    }
}

/// A scan gives the same inside white space and what is apart from it.
proof fn scans_inside(p: Seq<char>, s: Seq<char>, q: Seq<char>, at: int, depth: int)
    requires
        0 <= at <= s.len(),
        is_blank(q, 0),
        is_free(p, s, at),
    ensures
        is_clean(between(p, s, q), p.len() + at) == is_clean(s, at),
        depth_after(between(p, s, q), p.len() + at, depth) == depth_after(s, at, depth),
    decreases s.len() - at,
{
    let w = between(p, s, q);
    let k = p.len() as int;
    between_is(p, s, q);
    blank_behind(p, s, q);
    if at == s.len() {
        space_is_nothing(w, k + at, 0, depth);
    } else {
        assert(w[k + at] == s[at]);
        a_span_is_a_datum(s, at);
        a_span_is_a_datum(w, k + at);
        span_inside(p, s, q, at);
        match span(s, at) {
            None => {
                scans_inside(p, s, q, at + 1, depth);
                scans_inside(p, s, q, at + 1, depth + 1);
                scans_inside(p, s, q, at + 1, depth - 1);
            },
            Some(Some(e)) => {
                scans_inside(p, s, q, e, depth);
            },
            Some(None) => {
                assert(depth_after(s, s.len() as int, depth) == Some(depth));
                assert(depth_after(w, w.len() as int, depth) == Some(depth));
                if is_line(s, at) {
                    if let Some(Some(e)) = span(w, k + at) {
                        line_ends_behind(p, s, q, at);
                        space_is_nothing(w, e, 0, depth);
                    }
                } else {
                    span_stays_open(p, s, q, at);
                }
            },
        }
    }
}

/// A line comment that is open is closed only behind the text.
proof fn line_ends_behind(p: Seq<char>, s: Seq<char>, q: Seq<char>, at: int)
    requires
        0 <= at,
        lexer::next_newline(s, at) is None,
    ensures
        lexer::next_newline(between(p, s, q), p.len() + at) matches Some(e) ==> p.len() + s.len()
            <= e && p.len() + at <= e < between(p, s, q).len() && lexer::is_newline(
            between(p, s, q)[e],
        ),
    decreases between(p, s, q).len() - at,
{
    let w = between(p, s, q);
    let k = p.len() as int;
    between_is(p, s, q);
    if at < s.len() {
        assert(w[k + at] == s[at]);
        line_ends_behind(p, s, q, at + 1);
    } else if k + at < w.len() && !lexer::is_newline(w[k + at]) {
        line_ends_behind(p, s, q, at + 1);
    }
}

// ---------------------------------------------------------------------------
// White space and comments in front

proof fn line_is_found_behind_its_dashes(s: Seq<char>, at: int)
    requires
        0 <= at,
        is_line(s, at),
    ensures
        lexer::next_newline(s, at) == lexer::next_newline(s, at + 2),
{
    assert(lexer::next_newline(s, at) == lexer::next_newline(s, at + 1));
}

/// What is skipped in front holds no code, and a scan goes on behind it.
proof fn gap_is_nothing(s: Seq<char>, at: int, newline: bool, blocked: bool, depth: int)
    requires
        0 <= at <= s.len(),
    ensures
        ({
            let g = lexer::gap(s, at, newline, blocked).0;
            &&& at <= g <= s.len()
            &&& is_clean(s, at) == is_clean(s, g)
            &&& depth_after(s, at, depth) == depth_after(s, g, depth)
            &&& g < s.len() ==> !text::is_space(s[g]) && !is_line(s, g)
            &&& g < s.len() && lexer::pair_at(s, g, '/', '*') ==> lexer::comment_end(
                s,
                g + 2,
                1,
            ) is None
            &&& at < g < s.len() ==> !lexer::goes_on(s[g - 1])
        }),
    decreases s.len() - at,
{
    if at < s.len() {
        a_span_is_a_datum(s, at);
        if text::is_space(s[at]) {
            assert(span(s, at) is None);
            gap_is_nothing(s, at + 1, newline || lexer::is_newline(s[at]), blocked, depth);
        } else if is_line(s, at) {
            line_is_found_behind_its_dashes(s, at);
            assert(span(s, at) == Some(
                match lexer::next_newline(s, at) {
                    Some(e) => Some(e + 1),
                    None => None,
                },
            ));
            if let Some(e) = lexer::next_newline(s, at + 2) {
                let none = Seq::<char>::empty();
                assert(between(none, s, none) =~= s);
                newline_inside(none, s, none, at);
                gap_is_nothing(s, e + 1, true, blocked, depth);
            }
        } else if lexer::pair_at(s, at, '/', '*') {
            assert(span(s, at) == Some(lexer::comment_end(s, at + 2, 1)));
            if let Some(e) = lexer::comment_end(s, at + 2, 1) {
                let none = Seq::<char>::empty();
                assert(between(none, s, none) =~= s);
                comment_inside(none, s, none, at + 2, 1);
                gap_is_nothing(s, e, newline, true, depth);
            }
        }
    }
}

/// What is skipped does not rest on what stands in front.
proof fn gap_shifts(
    p: Seq<char>,
    s: Seq<char>,
    at: int,
    newline: bool,
    blocked: bool,
    other: bool,
    barred: bool,
)
    requires
        0 <= at <= s.len(),
    ensures
        lexer::gap(between(p, s, Seq::empty()), p.len() + at, newline, blocked).0 == p.len()
            + lexer::gap(s, at, other, barred).0,
    decreases s.len() - at,
{
    let none = Seq::<char>::empty();
    let w = between(p, s, none);
    let k = p.len() as int;
    between_is(p, s, none);
    if at < s.len() {
        assert(w[k + at] == s[at]);
        pair_inside(p, s, none, at, '-', '-');
        pair_inside(p, s, none, at, '/', '*');
        if text::is_space(s[at]) {
            let n = lexer::is_newline(s[at]);
            gap_shifts(p, s, at + 1, newline || n, blocked, other || n, barred);
        } else if is_line(s, at) {
            match lexer::next_newline(s, at + 2) {
                Some(e) => {
                    newline_inside(p, s, none, at + 2);
                    gap_shifts(p, s, e + 1, true, blocked, true, barred);
                },
                None => {
                    newlines_stay_away(p, s, at + 2);
                },
            }
        } else if lexer::pair_at(s, at, '/', '*') {
            match lexer::comment_end(s, at + 2, 1) {
                Some(e) => {
                    comment_inside(p, s, none, at + 2, 1);
                    gap_shifts(p, s, e, newline, true, other, true);
                },
                None => {
                    comment_stays_open(p, s, none, at + 2, 1);
                },
            }
        }
    }
}

/// What is skipped in front of code does not rest on what follows.
proof fn gap_stays(s: Seq<char>, q: Seq<char>, at: int, newline: bool, blocked: bool)
    requires
        0 <= at <= s.len(),
        is_apart(q),
        is_clean(s, at),
        lexer::gap(s, at, newline, blocked).0 < s.len(),
    ensures
        lexer::gap(s + q, at, newline, blocked).0 == lexer::gap(s, at, newline, blocked).0,
    decreases s.len() - at,
{
    let none = Seq::<char>::empty();
    let w = s + q;
    assert(between(none, s, q) =~= w);
    between_is(none, s, q);
    pair_inside(none, s, q, at, '-', '-');
    pair_inside(none, s, q, at, '/', '*');
    assert(between(none, s, q)[none.len() + at] == s[at]);
    a_span_is_a_datum(s, at);
    if text::is_space(s[at]) {
        assert(span(s, at) is None);
        gap_stays(s, q, at + 1, newline || lexer::is_newline(s[at]), blocked);
    } else if is_line(s, at) {
        line_is_found_behind_its_dashes(s, at);
        let e = lexer::next_newline(s, at + 2)->0;
        newline_inside(none, s, q, at + 2);
        gap_stays(s, q, e + 1, true, blocked);
    } else if lexer::pair_at(s, at, '/', '*') {
        assert(span(s, at) == Some(lexer::comment_end(s, at + 2, 1)));
        let e = lexer::comment_end(s, at + 2, 1)->0;
        comment_inside(none, s, q, at + 2, 1);
        gap_stays(s, q, e, newline, true);
    }
}

// ---------------------------------------------------------------------------
// A scan in the front part of a text

proof fn literal_within(s: Seq<char>, q: Seq<char>, at: int, escapes: bool)
    requires
        0 <= at,
        lexer::literal_end(s + q, at, escapes) matches Some(e) && e <= s.len(),
    ensures
        lexer::literal_end(s, at, escapes) == lexer::literal_end(s + q, at, escapes),
        at < lexer::literal_end(s + q, at, escapes)->0,
    decreases s.len() + 2 - at,
{
    let w = s + q;
    if at < w.len() {
        if escapes && w[at] == '\\' {
            literal_goes_on(w, at + 2, escapes);
            literal_within(s, q, at + 2, escapes);
        } else if lexer::pair_at(w, at, '\'', '\'') {
            literal_goes_on(w, at + 2, escapes);
            literal_within(s, q, at + 2, escapes);
        } else if w[at] != '\'' {
            literal_goes_on(w, at + 1, escapes);
            literal_within(s, q, at + 1, escapes);
        }
    }
}

proof fn literal_goes_on(s: Seq<char>, at: int, escapes: bool)
    requires
        0 <= at,
    ensures
        lexer::literal_end(s, at, escapes) matches Some(e) ==> at < e <= s.len(),
{
    if lexer::literal_end(s, at, escapes) is Some {
        let none = Seq::<char>::empty();
        literal_inside(none, s, none, at, escapes);
    }
}

proof fn comment_within(s: Seq<char>, q: Seq<char>, at: int, depth: int)
    requires
        0 <= at <= s.len(),
        lexer::comment_end(s + q, at, depth) matches Some(e) && e <= s.len(),
    ensures
        lexer::comment_end(s, at, depth) == lexer::comment_end(s + q, at, depth),
    decreases s.len() - at,
{
    let w = s + q;
    let none = Seq::<char>::empty();
    if lexer::pair_at(w, at, '/', '*') {
        comment_inside(none, w, none, at + 2, depth + 1);
        comment_within(s, q, at + 2, depth + 1);
    } else if lexer::pair_at(w, at, '*', '/') {
        if depth > 1 {
            comment_inside(none, w, none, at + 2, depth - 1);
            comment_within(s, q, at + 2, depth - 1);
        }
    } else {
        comment_inside(none, w, none, at + 1, depth);
        comment_within(s, q, at + 1, depth);
    }
}

proof fn newline_within(s: Seq<char>, q: Seq<char>, at: int)
    requires
        0 <= at,
        lexer::next_newline(s + q, at) matches Some(e) && e < s.len(),
    ensures
        lexer::next_newline(s, at) == lexer::next_newline(s + q, at),
    decreases s.len() - at,
{
    let w = s + q;
    let none = Seq::<char>::empty();
    if at < w.len() && !lexer::is_newline(w[at]) {
        newline_inside(none, w, none, at + 1);
        newline_within(s, q, at + 1);
    }
}

proof fn needle_within(s: Seq<char>, q: Seq<char>, needle: Seq<char>, at: int)
    requires
        0 <= at,
        text::first_at(s + q, needle, at) matches Some(e) && e + needle.len() <= s.len(),
    ensures
        text::first_at(s, needle, at) == text::first_at(s + q, needle, at),
    decreases s.len() + 1 - at,
{
    let w = s + q;
    let none = Seq::<char>::empty();
    if at + needle.len() <= w.len() {
        if !text::occurs_at(w, needle, at) {
            needle_inside(none, w, none, needle, at + 1);
            assert(w.subrange(at, at + needle.len()) =~= s.subrange(at, at + needle.len()));
            needle_within(s, q, needle, at + 1);
        } else {
            assert(w.subrange(at, at + needle.len()) =~= s.subrange(at, at + needle.len()));
        }
    }
}

/// What begins and ends in the front part of a text is the same there alone.
proof fn span_within(s: Seq<char>, q: Seq<char>, at: int)
    requires
        0 <= at < s.len(),
        match span(s + q, at) {
            None => true,
            Some(Some(e)) => e <= s.len(),
            Some(None) => false,
        },
    ensures
        span(s, at) == span(s + q, at),
{
    let w = s + q;
    let none = Seq::<char>::empty();
    assert(between(none, s, q) =~= w);
    assert(w[at] == s[at]);
    if at > 0 {
        assert(w[at - 1] == s[at - 1]);
    }
    a_span_is_a_datum(w, at);
    char_inside(none, s, q, '$', at + 1);
    if !is_glued(w, at) {
        match lexer::opener(w, at) {
            Some((n, escapes)) => {
                literal_goes_on(w, at + n, escapes);
                literal_within(s, q, at + n, escapes);
                assert(lexer::opener(s, at) == lexer::opener(w, at));
            },
            None => {
                assert(lexer::opener(s, at) is None);
                match lexer::delimiter_end(w, at) {
                    Some(d) => {
                        let needle = w.subrange(at, d);
                        let close = text::first_at(w, needle, d)->0;
                        delimiter_inside(none, w, none, at);
                        needle_inside(none, w, none, needle, d);
                        assert(needle =~= s.subrange(at, d));
                        needle_within(s, q, needle, d);
                        assert(w.subrange(at + 1, d - 1) =~= s.subrange(at + 1, d - 1));
                    },
                    None => {
                        if lexer::delimiter_end(s, at) is Some {
                            let close = lexer::next_char(s, '$', at + 1)->0;
                            assert(w.subrange(at + 1, close) =~= s.subrange(at + 1, close));
                        }
                        if is_line(w, at) {
                            newline_within(s, q, at);
                            newline_inside(none, w, none, at);
                            if !is_line(s, at) {
                                assert(at + 1 == s.len());
                                assert(!lexer::is_newline(w[at]));
                                assert(lexer::next_newline(w, at) == lexer::next_newline(
                                    w,
                                    at + 1,
                                ));
                                newline_inside(none, w, none, at + 1);
                            }
                        } else if lexer::pair_at(w, at, '/', '*') {
                            comment_inside(none, w, none, at + 2, 1);
                            comment_within(s, q, at + 2, 1);
                        }
                    },
                }
            },
        }
    }
}

proof fn gap_within(s: Seq<char>, q: Seq<char>, at: int, newline: bool, blocked: bool)
    requires
        0 <= at <= s.len(),
        lexer::gap(s + q, at, newline, blocked).0 < s.len(),
    ensures
        lexer::gap(s, at, newline, blocked).0 == lexer::gap(s + q, at, newline, blocked).0,
    decreases s.len() - at,
{
    let w = s + q;
    let none = Seq::<char>::empty();
    gap_is_nothing(w, at, newline, blocked, 0);
    assert(at < s.len());
    assert(w[at] == s[at]);
    if text::is_space(w[at]) {
        gap_within(s, q, at + 1, newline || lexer::is_newline(w[at]), blocked);
    } else if is_line(w, at) {
        if let Some(e) = lexer::next_newline(w, at + 2) {
            newline_inside(none, w, none, at + 2);
            gap_is_nothing(w, e + 1, true, blocked, 0);
            newline_within(s, q, at + 2);
            gap_within(s, q, e + 1, true, blocked);
        }
    } else if lexer::pair_at(w, at, '/', '*') {
        match lexer::comment_end(w, at + 2, 1) {
            Some(e) => {
                comment_inside(none, w, none, at + 2, 1);
                gap_is_nothing(w, e, newline, true, 0);
                comment_within(s, q, at + 2, 1);
                gap_within(s, q, e, newline, true);
            },
            None => {
                if lexer::pair_at(s, at, '/', '*') && lexer::comment_end(s, at + 2, 1) is Some {
                    comment_inside(none, s, q, at + 2, 1);
                    assert(between(none, s, q) =~= w);
                }
            },
        }
    }
}

// ---------------------------------------------------------------------------
// Where the code ends

proof fn code_ends_in_range(s: Seq<char>, at: int, end: int)
    requires
        0 <= end <= at <= s.len(),
    ensures
        ({
            let ce = lexer::code_end(s, at, end);
            &&& ce == end || at < ce <= s.len()
            &&& ce != end && is_clean(s, at) ==> !text::is_space(s[ce - 1])
            &&& !is_clean(s, at) ==> ce == s.len()
        }),
    decreases s.len() - at,
{
    if at < s.len() {
        a_span_is_a_datum(s, at);
        code_end_steps(s, at, end);
        match span(s, at) {
            None => {
                code_ends_in_range(
                    s,
                    at + 1,
                    if text::is_space(s[at]) {
                        end
                    } else {
                        at + 1
                    },
                );
            },
            Some(Some(e)) => {
                code_ends_in_range(
                    s,
                    e,
                    if is_comment(s, at) {
                        end
                    } else {
                        e
                    },
                );
            },
            Some(None) => {},
        }
    }
}

/// A clean text and the part of it up to the end of its code open and close
/// the same parentheses.
proof fn trivia_is_nothing(s: Seq<char>, at: int, end: int, depth: int)
    requires
        0 <= end <= at <= s.len(),
        is_clean(s, at),
    ensures
        depth_after(s, at, depth) == depth_after(
            s.take(lexer::code_end(s, at, end)),
            at,
            depth,
        ),
    decreases s.len() - at,
{
    let ce = lexer::code_end(s, at, end);
    let b = s.take(ce);
    let q = s.skip(ce);
    code_ends_in_range(s, at, end);
    assert(b + q =~= s);
    if at < s.len() {
        a_span_is_a_datum(s, at);
        code_end_steps(s, at, end);
        if at < ce {
            a_span_is_a_datum(b, at);
            assert(b[at] == s[at]);
        }
        match span(s, at) {
            None => {
                let next = if text::is_space(s[at]) {
                    end
                } else {
                    at + 1
                };
                trivia_is_nothing(s, at + 1, next, depth);
                trivia_is_nothing(s, at + 1, next, depth + 1);
                trivia_is_nothing(s, at + 1, next, depth - 1);
                if at < ce {
                    span_within(b, q, at);
                } else {
                    code_ends_in_range(s, at + 1, next);
                    assert(text::is_space(s[at]));
                }
            },
            Some(Some(e)) => {
                let next = if is_comment(s, at) {
                    end
                } else {
                    e
                };
                trivia_is_nothing(s, e, next, depth);
                code_ends_in_range(s, e, next);
                if at < ce {
                    span_within(b, q, at);
                }
            },
            Some(None) => {
                assert(depth_after(s, s.len() as int, depth) == Some(depth));
            },
        }
    }
}

/// The code of a clean text ends in the same place when what follows holds no
/// code.
proof fn code_end_stays(s: Seq<char>, q: Seq<char>, at: int, end: int)
    requires
        0 <= at <= s.len(),
        is_apart(q),
        is_clean(s, at),
        forall|j: int, e: int|
            s.len() <= j <= (s + q).len() && (j == s.len() || lexer::is_newline((s + q)[j - 1]))
                ==> #[trigger] lexer::code_end(s + q, j, e) == e,
    ensures
        lexer::code_end(s + q, at, end) == lexer::code_end(s, at, end),
    decreases s.len() - at,
{
    let w = s + q;
    let none = Seq::<char>::empty();
    assert(between(none, s, q) =~= w);
    if at < s.len() {
        assert(w[at] == s[at]);
        a_span_is_a_datum(s, at);
        a_span_is_a_datum(w, at);
        span_inside(none, s, q, at);
        pair_inside(none, s, q, at, '/', '*');
        code_end_steps(s, at, end);
        code_end_steps(w, at, end);
        match span(s, at) {
            None => {
                code_end_stays(
                    s,
                    q,
                    at + 1,
                    if text::is_space(s[at]) {
                        end
                    } else {
                        at + 1
                    },
                );
            },
            Some(Some(e)) => {
                code_end_stays(
                    s,
                    q,
                    e,
                    if is_comment(s, at) {
                        end
                    } else {
                        e
                    },
                );
            },
            Some(None) => {
                if let Some(Some(e)) = span(w, at) {
                    line_ends_behind(none, s, q, at);
                    assert(lexer::code_end(w, e, end) == end);
                }
            },
        }
    } else {
        assert(lexer::code_end(w, s.len() as int, end) == end);
    }
}

// ---------------------------------------------------------------------------
// A group

/// The parentheses of a group close what they open, and its code ends with it.
proof fn a_group_is_clean(t: Seq<char>, at: int, depth: int, end: int)
    requires
        0 <= at < t.len(),
        depth >= 1,
        lexer::closes(t, at, depth),
    ensures
        is_clean(t, at),
        lexer::code_end(t, at, end) == t.len(),
        depth_after(t, at, depth) == Some(0int),
    decreases t.len() - at,
{
    let n = t.len() as int;
    a_span_is_a_datum(t, at);
    code_end_steps(t, at, end);
    assert(!lexer::closes(t, n, depth));
    match span(t, at) {
        None => {
            let next = if text::is_space(t[at]) {
                end
            } else {
                at + 1
            };
            if t[at] == '(' {
                assert(!lexer::closes(t, n, depth + 1));
                a_group_is_clean(t, at + 1, depth + 1, next);
            } else if t[at] == ')' {
                if depth > 1 {
                    assert(!lexer::closes(t, n, depth - 1));
                    a_group_is_clean(t, at + 1, depth - 1, next);
                } else {
                    assert(is_clean(t, n));
                    assert(depth_after(t, n, 0) == Some(0int));
                    assert(lexer::code_end(t, n, n) == n);
                }
            } else {
                a_group_is_clean(t, at + 1, depth, next);
            }
        },
        Some(Some(e)) => {
            a_group_is_clean(
                t,
                e,
                depth,
                if is_comment(t, at) {
                    end
                } else {
                    e
                },
            );
        },
        Some(None) => {},
    }
}

proof fn group_facts(t: Seq<char>)
    requires
        lexer::is_group(t),
    ensures
        is_clean(t, 0),
        lexer::code_end(t, 0, 0) == t.len(),
        depth_after(t, 0, 0) == Some(0int),
        lexer::gap(t, 0, false, false).0 == 0,
        is_trim(t),
{
    a_span_is_a_datum(t, 0);
    assert(span(t, 0) is None);
    code_end_steps(t, 0, 0);
    assert(lexer::closes(t, 1, 1));
    a_group_is_clean(t, 1, 1, 1);
}

// ---------------------------------------------------------------------------
// Stripping

proof fn stripping_takes_a_part(s: Seq<char>)
    ensures
        lexer::stripped_once(s).len() <= s.len(),
        lexer::stripped_once(s).len() == s.len() ==> lexer::stripped_once(s) == s,
{
    let g = lexer::past_gap(s, 0);
    gap_is_nothing(s, 0, false, false, 0);
    let u = s.skip(g);
    code_ends_in_range(u, 0, 0);
    let b = lexer::bared_end(u);
    grouping_comes_off_once(b);
    let (from, to) = choose|from: int, to: int|
        0 <= from <= to <= b.len() && lexer::ungrouped(b) == #[trigger] b.subrange(from, to);
    if lexer::stripped_once(s).len() == s.len() {
        assert(b.subrange(from, to) =~= s);
    }
}

/// What is left of a text is what is left of it once it is stripped once.
proof fn stripping_goes_on(s: Seq<char>)
    ensures
        lexer::stripped(s) == lexer::stripped(lexer::stripped_once(s)),
{
    stripping_takes_a_part(s);
}

/// Whether a text that nothing more can be stripped off is one literal.
spec fn is_literal(e: Seq<char>) -> bool {
    if e.len() > 0 && e[0] == '$' {
        lexer::is_dollar_literal(e)
    } else {
        match lexer::opener(e, 0) {
            Some((n, escapes)) => match lexer::literal_end(e, n, escapes) {
                Some(end) => lexer::continued(e, end),
                None => false,
            },
            None => false,
        }
    }
}

proof fn a_continuation_is_clean(s: Seq<char>, at: int, depth: int)
    requires
        0 <= at <= s.len(),
        lexer::continued(s, at),
    ensures
        is_clean(s, at),
        depth_after(s, at, depth) == Some(depth),
    decreases s.len() - at,
{
    if at < s.len() {
        let g = lexer::gap(s, at, false, false).0;
        gap_is_nothing(s, at, false, false, depth);
        if g < s.len() {
            let e = lexer::literal_end(s, g + 1, false)->0;
            a_span_is_a_datum(s, g);
            assert(lexer::opener(s, g) == Some((1int, false)));
            assert(span(s, g) == Some(Some(e)));
            a_continuation_is_clean(s, e, depth);
        }
    }
}

proof fn a_literal_is_clean(e: Seq<char>)
    requires
        is_literal(e),
    ensures
        is_clean(e, 0),
        depth_after(e, 0, 0) == Some(0int),
        e.len() > 0,
{
    let n = e.len() as int;
    if n > 0 {
        a_span_is_a_datum(e, 0);
        if e[0] == '$' {
            let d = lexer::delimiter_end(e, 0)->0;
            let close = text::first_at(e, e.subrange(0, d), d)->0;
            assert(lexer::opener(e, 0) is None);
            assert(span(e, 0) == Some(Some(close + d)));
            gap_is_nothing(e, close + d, false, false, 0);
            assert(is_clean(e, n) && depth_after(e, n, 0) == Some(0int));
        } else {
            let (m, escapes) = lexer::opener(e, 0)->0;
            let end = lexer::literal_end(e, m, escapes)->0;
            assert(span(e, 0) == Some(Some(end)));
            a_continuation_is_clean(e, end, 0);
        }
    }
}

/// What one step of stripping goes through.
proof fn one_step(e: Seq<char>)
    ensures
        ({
            let g = lexer::past_gap(e, 0);
            let u = e.skip(g);
            &&& 0 <= g <= e.len()
            &&& is_clean(u, 0) == is_clean(e, 0)
            &&& depth_after(u, 0, 0) == depth_after(e, 0, 0)
            &&& u.len() > 0 ==> !text::is_space(u[0])
        }),
{
    let g = lexer::past_gap(e, 0);
    let none = Seq::<char>::empty();
    gap_is_nothing(e, 0, false, false, 0);
    let p = e.take(g);
    let u = e.skip(g);
    assert(between(p, u, none) =~= e);
    if u.len() > 0 {
        assert(u[0] == e[g]);
        scans_inside(p, u, none, 0, 0);
    } else {
        assert(is_clean(e, g) && depth_after(e, g, 0) == Some(0int));
    }
}

/// One literal closes everything that it opens.
proof fn bare_is_clean(e: Seq<char>)
    requires
        lexer::is_bare_literal(e),
    ensures
        is_clean(e, 0),
    decreases e.len(),
{
    if !is_clean(e, 0) {
        let g = lexer::past_gap(e, 0);
        let u = e.skip(g);
        let none = Seq::<char>::empty();
        one_step(e);
        code_ends_in_range(u, 0, 0);
        assert(u.take(u.len() as int) =~= u);
        assert(lexer::bared_end(u) == u);
        let t = lexer::trimmed(u);
        trimming_takes_space(u);
        let to = lexer::solid_to(u, 0, u.len() as int);
        let back = u.skip(to);
        assert(lexer::solid_from(u, 0) == 0);
        assert(between(none, t, back) =~= u);
        assert(is_blank(back, 0)) by {
            assert forall|i: int| 0 <= i < back.len() implies text::is_space(#[trigger] back[i]) by {
                assert(back[i] == u[to + i]);
            }
        }
        scans_inside(none, t, back, 0, 0);
        assert(!is_clean(t, 0));
        if lexer::is_group(t) {
            group_facts(t);
        }
        assert(lexer::stripped_once(e) == t);
        stripping_goes_on(e);
        stripping_takes_a_part(e);
        assert(is_literal(lexer::stripped(e)));
        if t.len() < e.len() {
            bare_is_clean(t);
        } else {
            a_literal_is_clean(e);
        }
    }
}

/// One literal closes the parentheses that it opens, and no others.
proof fn bare_is_balanced(e: Seq<char>)
    requires
        lexer::is_bare_literal(e),
    ensures
        is_clean(e, 0),
        depth_after(e, 0, 0) == Some(0int),
        lexer::past_gap(e, 0) < e.len(),
    decreases e.len(),
{
    bare_is_clean(e);
    one_step(e);
    let g = lexer::past_gap(e, 0);
    let u = e.skip(g);
    let ce = lexer::code_end(u, 0, 0);
    let b = lexer::bared_end(u);
    code_ends_in_range(u, 0, 0);
    trivia_is_nothing(u, 0, 0, 0);
    stripping_goes_on(e);
    stripping_takes_a_part(e);
    assert(is_literal(lexer::stripped(e)));
    assert(is_trim(b)) by {
        if b.len() > 0 {
            assert(b[0] == u[0]);
            assert(b.last() == u[ce - 1]);
        }
    }
    a_trim_text_stays(b);
    if lexer::is_group(b) {
        group_facts(b);
    } else {
        assert(lexer::stripped_once(e) == b);
        if b.len() < e.len() {
            bare_is_balanced(b);
        } else {
            a_literal_is_clean(e);
        }
    }
}

// ---------------------------------------------------------------------------
// Comments around a literal

proof fn a_comment_is_closed(w: Seq<char>, at: int, to: int)
    requires
        0 <= at <= to,
        to + 1 < w.len(),
        w[to] == '*',
        w[to + 1] == '/',
        forall|i: int| at <= i < to ==> (#[trigger] w[i]) != '*' && w[i] != '/',
    ensures
        lexer::comment_end(w, at, 1) == Some(to + 2),
    decreases to - at,
{
    if at < to {
        a_comment_is_closed(w, at + 1, to);
    }
}

/// A comment in front of an expression changes nothing about whether it is one
/// bare literal.
pub proof fn a_comment_in_front_changes_nothing(e: Seq<char>, comment: Seq<char>)
    requires
        forall|i: int| 0 <= i < comment.len() ==> (#[trigger] comment[i]) != '*' && comment[i] != '/',
    ensures
        lexer::is_bare_literal("/*"@ + comment + "*/ "@ + e) == lexer::is_bare_literal(e),
{
    reveal_strlit("/*");
    reveal_strlit("*/ ");
    let none = Seq::<char>::empty();
    let p = "/*"@ + comment + "*/ "@;
    let w = p + e;
    let n = comment.len() as int;
    assert(w =~= between(p, e, none));
    assert forall|i: int| 2 <= i < n + 2 implies (#[trigger] w[i]) != '*' && w[i] != '/' by {
        assert(w[i] == comment[i - 2]);
    }
    assert(w[0] == '/' && w[1] == '*' && w[n + 2] == '*' && w[n + 3] == '/' && w[n + 4] == ' ');
    a_comment_is_closed(w, 2, n + 2);
    assert(lexer::gap(w, 0, false, false) == lexer::gap(w, n + 4, false, true));
    assert(lexer::gap(w, n + 4, false, true) == lexer::gap(w, n + 5, false, true));
    gap_shifts(p, e, 0, false, true, false, false);
    let g = lexer::past_gap(e, 0);
    gap_is_nothing(e, 0, false, false, 0);
    assert(w.skip(p.len() + g) =~= e.skip(g));
    assert(lexer::stripped_once(w) == lexer::stripped_once(e));
    stripping_goes_on(w);
    stripping_goes_on(e);
}

/// What follows an expression with no code in it changes nothing about what is
/// left when it is stripped.
proof fn stripping_stays(e: Seq<char>, q: Seq<char>)
    requires
        is_clean(e, 0),
        lexer::past_gap(e, 0) < e.len(),
        is_apart(q),
        forall|u: Seq<char>, j: int, end: int|
            u.len() <= j <= (u + q).len() && (j == u.len() || lexer::is_newline((u + q)[j - 1]))
                ==> #[trigger] lexer::code_end(u + q, j, end) == end,
    ensures
        lexer::stripped(e + q) == lexer::stripped(e),
{
    let g = lexer::past_gap(e, 0);
    let u = e.skip(g);
    one_step(e);
    gap_stays(e, q, 0, false, false);
    assert((e + q).skip(g) =~= u + q);
    code_end_stays(u, q, 0, 0);
    code_ends_in_range(u, 0, 0);
    assert(lexer::bared_end(u + q) =~= lexer::bared_end(u));
    stripping_goes_on(e + q);
    stripping_goes_on(e);
}

/// A comment behind one bare literal leaves it one bare literal.
pub proof fn a_comment_behind_changes_nothing(e: Seq<char>, comment: Seq<char>)
    requires
        lexer::is_bare_literal(e),
        forall|i: int| 0 <= i < comment.len() ==> !lexer::is_newline(#[trigger] comment[i]),
    ensures
        lexer::is_bare_literal(e + " --"@ + comment),
{
    reveal_strlit(" --");
    let q = " --"@ + comment;
    bare_is_balanced(e);
    assert forall|u: Seq<char>, j: int, end: int|
        u.len() <= j <= (u + q).len() && (j == u.len() || lexer::is_newline((u + q)[j - 1]))
        implies #[trigger] lexer::code_end(u + q, j, end) == end by {
        let w = u + q;
        if j > u.len() {
            let i = j - 1 - u.len();
            assert(w[j - 1] == q[i]);
            if i >= 3 {
                assert(q[i] == comment[i - 3]);
            }
        } else {
            let n = u.len() as int;
            assert(w[n] == ' ' && w[n + 1] == '-' && w[n + 2] == '-');
            assert(span(w, n) is None);
            code_end_steps(w, n, end);
            assert forall|i: int| n + 1 <= i < w.len() implies !lexer::is_newline(
                #[trigger] w[i],
            ) by {
                assert(w[i] == q[i - n]);
                if i - n >= 3 {
                    assert(q[i - n] == comment[i - n - 3]);
                }
            }
            no_newline_is_found(w, n + 1);
            code_end_steps(w, n + 1, end);
        }
    }
    stripping_stays(e, q);
    assert(e + " --"@ + comment =~= e + q);
}

proof fn no_newline_is_found(s: Seq<char>, at: int)
    requires
        0 <= at,
        forall|i: int| at <= i < s.len() ==> !lexer::is_newline(#[trigger] s[i]),
    ensures
        lexer::next_newline(s, at) is None,
    decreases s.len() - at,
{
    if at < s.len() {
        no_newline_is_found(s, at + 1);
    }
}

// ---------------------------------------------------------------------------
// Parentheses around a literal

proof fn newline_comes(p: Seq<char>, s: Seq<char>, q: Seq<char>, at: int)
    requires
        0 <= at <= s.len(),
        lexer::next_newline(s, at) is None,
        q.len() > 0,
        lexer::is_newline(q[0]),
    ensures
        lexer::next_newline(between(p, s, q), p.len() + at) == Some((p.len() + s.len()) as int),
    decreases s.len() - at,
{
    between_is(p, s, q);
    if at < s.len() {
        assert(between(p, s, q)[p.len() + at] == s[at]);
        newline_comes(p, s, q, at + 1);
    } else {
        assert(between(p, s, q)[p.len() + s.len() + 0int] == q[0]);
    }
}

/// A balanced text closes inside parentheses what it opens.
proof fn grouping_closes(e: Seq<char>, at: int, depth: int, end: int)
    requires
        0 <= at <= e.len(),
        depth >= 0,
        is_clean(e, at),
        depth_after(e, at, depth) == Some(0int),
    ensures
        lexer::closes(between(seq!['('], e, seq!['\n', ')']), 1 + at, depth + 1),
        lexer::code_end(between(seq!['('], e, seq!['\n', ')']), 1 + at, end) == e.len() + 3,
    decreases e.len() - at,
{
    let p = seq!['('];
    let q = seq!['\n', ')'];
    let w = between(p, e, q);
    let n = e.len() as int;
    between_is(p, e, q);
    assert(w[p.len() + e.len() + 0int] == q[0] && w[p.len() + e.len() + 1int] == q[1]);
    assert(w[n + 1] == '\n' && w[n + 2] == ')');
    assert(span(w, n + 1) is None && span(w, n + 2) is None);
    a_span_is_a_datum(w, n + 1);
    a_span_is_a_datum(w, n + 2);
    assert(lexer::closes(w, n + 3, 0));
    assert(lexer::closes(w, n + 2, 1));
    assert forall|x: int| #[trigger] lexer::code_end(w, n + 2, x) == n + 3 by {
        code_end_steps(w, n + 2, x);
        assert(lexer::code_end(w, n + 3, n + 3) == n + 3);
    }
    if at == n {
        code_end_steps(w, n + 1, end);
        assert(lexer::code_end(w, n + 2, end) == n + 3);
        assert(lexer::closes(w, n + 1, 1));
    } else {
        assert(w[p.len() + at] == e[at]);
        a_span_is_a_datum(e, at);
        a_span_is_a_datum(w, 1 + at);
        span_inside(p, e, q, at);
        code_end_steps(w, 1 + at, end);
        match span(e, at) {
            None => {
                let next = if text::is_space(e[at]) {
                    end
                } else {
                    at + 2
                };
                if e[at] == '(' {
                    grouping_closes(e, at + 1, depth + 1, next);
                } else if e[at] == ')' {
                    grouping_closes(e, at + 1, depth - 1, next);
                } else {
                    grouping_closes(e, at + 1, depth, next);
                }
            },
            Some(Some(x)) => {
                grouping_closes(
                    e,
                    x,
                    depth,
                    if is_comment(w, 1 + at) {
                        end
                    } else {
                        1 + x
                    },
                );
            },
            Some(None) => {
                newline_comes(p, e, q, at);
                assert(span(w, 1 + at) == Some(Some(n + 2)));
                assert(depth_after(e, n, depth) == Some(depth));
                assert(lexer::code_end(w, n + 2, end) == n + 3);
            },
        }
    }
}

proof fn trimmed_is(s: Seq<char>, from: int, to: int)
    requires
        0 <= from < to <= s.len(),
        forall|i: int| 0 <= i < from ==> text::is_space(#[trigger] s[i]),
        forall|i: int| to <= i < s.len() ==> text::is_space(#[trigger] s[i]),
        !text::is_space(s[from]),
        !text::is_space(s[to - 1]),
    ensures
        lexer::solid_from(s, 0) == from,
        lexer::trimmed(s) == s.subrange(from, to),
{
    let a = lexer::solid_from(s, 0);
    solid_from_is_first(s, 0);
    if a < from {
        assert(text::is_space(s[a]));
    }
    if from < a {
        assert(text::is_space(s[from]));
    }
    let b = lexer::solid_to(s, from, s.len() as int);
    solid_to_is_last(s, from, s.len() as int);
    if b < to {
        assert(text::is_space(s[to - 1]));
    }
    if to < b {
        assert(text::is_space(s[b - 1]));
    }
}

proof fn ungrouping_goes_by_the_trimmed(a: Seq<char>, b: Seq<char>)
    requires
        lexer::trimmed(a) == lexer::trimmed(b),
    ensures
        lexer::ungrouped(a) == lexer::ungrouped(b),
{
    trimming_takes_space(a);
    trimming_takes_space(b);
}

proof fn gap_passes_space(s: Seq<char>, at: int, to: int, newline: bool, blocked: bool)
    requires
        0 <= at <= to <= s.len(),
        forall|i: int| at <= i < to ==> text::is_space(#[trigger] s[i]),
    ensures
        lexer::gap(s, at, newline, blocked).0 == lexer::gap(s, to, false, false).0,
    decreases to - at,
{
    let none = Seq::<char>::empty();
    if at < to {
        gap_passes_space(s, at + 1, to, newline || lexer::is_newline(s[at]), blocked);
    } else {
        assert(between(none, s, none) =~= s);
        gap_shifts(none, s, at, newline, blocked, false, false);
    }
}

/// Taking the grouping off one bare literal leaves one bare literal.
proof fn ungrouping_keeps_a_literal(e: Seq<char>)
    requires
        lexer::is_bare_literal(e),
    ensures
        lexer::stripped(lexer::ungrouped(e)) == lexer::stripped(e),
        exists|i: int| 0 <= i < e.len() && !text::is_space(#[trigger] e[i]),
{
    let none = Seq::<char>::empty();
    bare_is_balanced(e);
    gap_is_nothing(e, 0, false, false, 0);
    let g = lexer::past_gap(e, 0);
    assert(!text::is_space(e[g]));
    trimming_takes_space(e);
    let from = lexer::solid_from(e, 0);
    let to = lexer::solid_to(e, from, e.len() as int);
    let t = lexer::trimmed(e);
    let front = e.take(from);
    let back = e.skip(to);
    assert(from <= g < to) by {
        if g < from {
            assert(text::is_space(e[g]));
        }
        if to <= g {
            assert(text::is_space(e[g]));
        }
    }
    assert(e =~= between(front, t + back, none));
    assert(is_blank(back, 0)) by {
        assert forall|i: int| 0 <= i < back.len() implies text::is_space(#[trigger] back[i]) by {
            assert(back[i] == e[to + i]);
        }
    }
    gap_passes_space(e, 0, from, false, false);
    gap_shifts(front, t + back, 0, false, false, false, false);
    assert(lexer::past_gap(t + back, 0) == g - from);
    gap_within(t, back, 0, false, false);
    let h = lexer::past_gap(t, 0);
    assert(h == g - from);
    let u = e.skip(g);
    let v = t.skip(h);
    assert(u =~= v + back);
    assert(u =~= between(none, v, back));
    one_step(e);
    scans_inside(none, v, back, 0, 0);
    assert forall|j: int, end: int|
        v.len() <= j <= (v + back).len() && (j == v.len() || lexer::is_newline((v + back)[j - 1]))
        implies #[trigger] lexer::code_end(v + back, j, end) == end by {
        blank_behind(none, v, back);
        space_is_nothing(v + back, j, end, 0);
    }
    code_end_stays(v, back, 0, 0);
    code_ends_in_range(v, 0, 0);
    assert(lexer::bared_end(u) =~= lexer::bared_end(v));
    stripping_goes_on(e);
    if lexer::is_group(t) {
        group_facts(t);
        assert(h == 0);
        assert(v =~= t);
        assert(lexer::bared_end(v) =~= t);
        a_trim_text_stays(t);
        ungrouping_goes_by_the_trimmed(e, t);
        assert(lexer::stripped_once(e) == lexer::ungrouped(e));
    } else {
        assert(lexer::ungrouped(e) == t);
        assert(lexer::stripped_once(t) == lexer::stripped_once(e));
        stripping_goes_on(t);
    }
}

/// Parentheses around one bare literal leave it one bare literal. The line end
/// in front of the closing one ends a comment that the literal ends with.
pub proof fn a_grouped_literal_is_bare(e: Seq<char>)
    requires
        lexer::is_bare_literal(e),
    ensures
        lexer::is_bare_literal("("@ + e + "\n)"@),
{
    reveal_strlit("(");
    reveal_strlit("\n)");
    let p = seq!['('];
    let q = seq!['\n', ')'];
    let w = between(p, e, q);
    let n = e.len() as int;
    assert("("@ + e + "\n)"@ =~= w);
    between_is(p, e, q);
    bare_is_balanced(e);
    ungrouping_keeps_a_literal(e);
    grouping_closes(e, 0, 0, 1);
    assert(w[0] == '(');
    assert(w[p.len() + e.len() + 1int] == q[1]);
    assert(w.last() == ')');
    assert(span(w, 0) is None);
    a_span_is_a_datum(w, 0);
    assert(lexer::closes(w, 0, 0));
    assert(lexer::is_group(w));
    group_facts(w);
    assert(w.skip(0) =~= w);
    assert(lexer::bared_end(w) =~= w);
    a_trim_text_stays(w);
    let inner = w.subrange(1, w.len() - 1);
    assert(inner =~= e.push('\n'));
    let from = lexer::solid_from(e, 0);
    let to = lexer::solid_to(e, from, n);
    trimming_takes_space(e);
    let i = choose|i: int| 0 <= i < n && !text::is_space(#[trigger] e[i]);
    assert(from <= i < to) by {
        if i < from {
            assert(text::is_space(e[i]));
        }
        if to <= i {
            assert(text::is_space(e[i]));
        }
    }
    let t = e.subrange(from, to);
    assert(t[0] == e[from] && t.last() == e[to - 1]);
    trimmed_is(inner, from, to);
    assert(inner.subrange(from, to) =~= t);
    ungrouping_goes_by_the_trimmed(inner, e);
    assert(lexer::stripped_once(w) == lexer::ungrouped(e));
    stripping_goes_on(w);
}

} // verus!
