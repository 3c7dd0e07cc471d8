//! What the scans over text find, stated of the text itself.
use vstd::prelude::*;

use crate::lexer;
use crate::order;
use crate::sql;
use crate::text;

verus! {

// ---------------------------------------------------------------------------
// Joined, cut and counted

/// Joining nothing gives nothing, joining one text gives that text, and one
/// text more is put behind the separator.
pub proof fn joining_puts_the_separator_between(
    parts: Seq<Seq<char>>,
    last: Seq<char>,
    separator: Seq<char>,
)
    ensures
        parts.len() == 0 ==> text::joined(parts, separator) == Seq::<char>::empty(),
        parts.len() == 0 ==> text::joined(parts.push(last), separator) == last,
        parts.len() > 0 ==> text::joined(parts.push(last), separator) == text::joined(
            parts,
            separator,
        ) + separator + last,
{
    assert(parts.push(last).drop_last() =~= parts);
}

/// One text before the others is put before the separator.
pub proof fn joining_goes_from_the_front(
    first: Seq<char>,
    rest: Seq<Seq<char>>,
    separator: Seq<char>,
)
    requires
        rest.len() > 0,
    ensures
        text::joined(seq![first] + rest, separator) == first + separator + text::joined(
            rest,
            separator,
        ),
    decreases rest.len(),
{
    let all = seq![first] + rest;
    assert(all.drop_last() =~= seq![first] + rest.drop_last());
    assert(all.last() == rest.last());
    if rest.len() == 1 {
        assert(all.drop_last() =~= seq![first]);
        assert(text::joined(seq![first], separator) == first);
        assert(text::joined(all, separator) =~= first + separator + rest[0]);
    } else {
        joining_goes_from_the_front(first, rest.drop_last(), separator);
        assert(text::joined(all, separator) =~= first + separator + text::joined(rest, separator));
    }
}

/// What a row of digits counts.
pub open spec fn value(digits: Seq<char>) -> int
    decreases digits.len(),
{
    if digits.len() == 0 {
        0
    } else {
        10 * value(digits.drop_last()) + (digits.last() as int - '0' as int)
    }
}

/// A number is written as the digits that count it, without a zero in front;
/// below zero it is written behind a minus.
pub proof fn a_number_is_written_in_digits(n: nat)
    ensures
        value(text::decimal(n)) == n,
        n > 0 ==> text::decimal(n)[0] != '0',
        text::decimal(0) == seq!['0'],
        text::decimal_int(n as int) == text::decimal(n),
        n > 0 ==> text::decimal_int(-(n as int)) == seq!['-'] + text::decimal(n),
    decreases n,
{
    if n < 10 {
        assert(text::decimal(n).drop_last() =~= Seq::<char>::empty());
        assert(value(Seq::<char>::empty()) == 0);
        assert(text::decimal(n).last() as int == 48 + n);
        assert(text::decimal(0) =~= seq!['0']);
    } else {
        a_number_is_written_in_digits(n / 10);
        let d = text::decimal(n);
        assert(d.drop_last() =~= text::decimal(n / 10));
        assert(d.last() as int == 48 + n % 10);
        assert(text::decimal(n / 10).len() > 0);
        assert(d[0] == text::decimal(n / 10)[0]);
        a_number_is_written_in_digits(0);
    }
}

/// A text begins with its front, ends with its back and holds what is between
/// them.
pub proof fn a_part_is_found_where_it_is(front: Seq<char>, part: Seq<char>, rest: Seq<char>)
    ensures
        text::begins(part + rest, part),
        text::ends(front + part, part),
        text::holds(front + part + rest, part),
{
    let n = part.len() as int;
    let s = front + part + rest;
    assert((part + rest).subrange(0, n) =~= part);
    assert((front + part).subrange(front.len() as int, front.len() + n) =~= part);
    assert(s.subrange(front.len() as int, front.len() + n) =~= part);
    assert(text::occurs_at(s, part, front.len() as int));
}

/// Where a text begins with another, ends with it or holds it, the rest is what
/// is left of it there.
pub proof fn a_part_leaves_the_rest(s: Seq<char>, part: Seq<char>)
    ensures
        text::begins(s, part) ==> part.len() <= s.len() && s == part + s.skip(part.len() as int),
        text::ends(s, part) ==> part.len() <= s.len() && s == s.take(s.len() - part.len()) + part,
        text::holds(s, part) ==> exists|at: int|
            0 <= at <= s.len() - part.len() && s == #[trigger] s.take(at) + part + s.skip(
                at + part.len(),
            ),
{
    let n = part.len() as int;
    if text::begins(s, part) {
        assert(s =~= part + s.skip(n));
    }
    if text::ends(s, part) {
        assert(s =~= s.take(s.len() - n) + part);
    }
    if text::holds(s, part) {
        let at = choose|at: int| text::occurs_at(s, part, at);
        assert(s =~= s.take(at) + part + s.skip(at + n));
    }
}

/// Whether every letter of a text is between the words.
pub open spec fn is_all_space(s: Seq<char>) -> bool {
    forall|i: int|
        0 <= i < s.len() ==> (#[trigger] s[i] == ' ' || s[i] == '\t' || s[i] == '\n' || s[i] == '\r'
            || s[i] == '\u{c}')
}

proof fn solid_start(s: Seq<char>, at: int)
    requires
        0 <= at <= s.len(),
    ensures
        at <= lexer::solid_from(s, at) <= s.len(),
        is_all_space(s.subrange(at, lexer::solid_from(s, at))),
        lexer::solid_from(s, at) < s.len() ==> !text::is_space(s[lexer::solid_from(s, at)]),
    decreases s.len() - at,
{
    let to = lexer::solid_from(s, at);
    if at < s.len() && text::is_space(s[at]) {
        solid_start(s, at + 1);
        let rest = s.subrange(at + 1, to);
        assert forall|i: int| 0 <= i < to - at implies text::is_space(
            #[trigger] s.subrange(at, to)[i],
        ) by {
            if i > 0 {
                assert(s.subrange(at, to)[i] == rest[i - 1]);
            }
        }
    }
}

proof fn solid_stop(s: Seq<char>, from: int, to: int)
    requires
        0 <= from <= to <= s.len(),
    ensures
        from <= lexer::solid_to(s, from, to) <= to,
        is_all_space(s.subrange(lexer::solid_to(s, from, to), to)),
        lexer::solid_to(s, from, to) > from ==> !text::is_space(
            s[lexer::solid_to(s, from, to) - 1],
        ),
    decreases to - from,
{
    let end = lexer::solid_to(s, from, to);
    if from < to && text::is_space(s[to - 1]) {
        solid_stop(s, from, to - 1);
        let rest = s.subrange(end, to - 1);
        assert forall|i: int| 0 <= i < to - end implies text::is_space(
            #[trigger] s.subrange(end, to)[i],
        ) by {
            if i < to - end - 1 {
                assert(s.subrange(end, to)[i] == rest[i]);
            }
        }
    }
}

/// Trimming takes the space off both ends and nothing else: what is left has
/// none at either end.
pub proof fn trimming_takes_the_space_off_both_ends(s: Seq<char>)
    ensures
        exists|front: Seq<char>, back: Seq<char>|
            s == #[trigger] (front + lexer::trimmed(s) + back) && is_all_space(front)
                && is_all_space(back),
        lexer::trimmed(s).len() > 0 ==> !is_all_space(seq![lexer::trimmed(s)[0]])
            && !is_all_space(seq![lexer::trimmed(s).last()]),
{
    let from = lexer::solid_from(s, 0);
    let to = lexer::solid_to(s, from, s.len() as int);
    solid_start(s, 0);
    solid_stop(s, from, s.len() as int);
    let t = lexer::trimmed(s);
    assert(s =~= s.subrange(0, from) + t + s.subrange(to, s.len() as int));
    if t.len() > 0 {
        assert(t[0] == s[from]);
        assert(t.last() == s[to - 1]);
        assert(seq![t[0]][0] == t[0]);
        assert(seq![t.last()][0] == t.last());
    }
}

/// A text with no space at either end is left as it is, and one of nothing but
/// space is left empty.
pub proof fn trimming_leaves_the_rest_alone(front: Seq<char>, s: Seq<char>, back: Seq<char>)
    requires
        is_all_space(front),
        is_all_space(back),
        s.len() > 0 ==> !text::is_space(s[0]) && !text::is_space(s.last()),
    ensures
        lexer::trimmed(front + s + back) == s,
{
    let t = front + s + back;
    let from = lexer::solid_from(t, 0);
    solid_start(t, 0);
    if s.len() == 0 {
        if from < t.len() {
            if from < front.len() {
                assert(front[from] == t[from]);
            } else {
                assert(back[from - front.len()] == t[from]);
            }
        }
        solid_stop(t, from, t.len() as int);
        assert(lexer::trimmed(t) =~= s);
    } else {
        if from < front.len() {
            assert(front[from] == t[from]);
        }
        if from > front.len() {
            assert(t.subrange(0, from)[front.len() as int] == s[0]);
        }
        solid_stop(t, from, t.len() as int);
        let to = lexer::solid_to(t, from, t.len() as int);
        let end = (front.len() + s.len()) as int;
        if to > end {
            assert(t[to - 1] == back[to - 1 - end]);
        }
        if to < end {
            assert(t.subrange(to, t.len() as int)[end - 1 - to] == s.last());
        }
        assert(lexer::trimmed(t) =~= s);
    }
}

// ---------------------------------------------------------------------------
// Order

proof fn same_so_far(a: Seq<char>, b: Seq<char>, at: int, i: int)
    requires
        0 <= i <= at,
        at <= a.len(),
        at <= b.len(),
        forall|k: int| 0 <= k < at ==> #[trigger] a[k] == b[k],
    ensures
        order::before_from(a, b, i) == order::before_from(a, b, at),
    decreases at - i,
{
    if i < at {
        assert(a[i] == b[i]);
        same_so_far(a, b, at, i + 1);
    }
}

/// Of two texts the first letter that differs decides, and a text comes before
/// what it begins.
pub proof fn the_first_difference_decides(a: Seq<char>, b: Seq<char>, at: int)
    requires
        0 <= at <= a.len(),
        at <= b.len(),
        forall|k: int| 0 <= k < at ==> #[trigger] a[k] == b[k],
    ensures
        at < a.len() && at < b.len() && a[at] != b[at] ==> (order::before(a, b) <==> (a[at] as int)
            < (b[at] as int)),
        at == a.len() ==> (order::before(a, b) <==> at < b.len()),
{
    same_so_far(a, b, at, 0);
}

// ---------------------------------------------------------------------------
// Names

/// Which letters go on with a name.
pub proof fn what_goes_on_with_a_name(c: char)
    ensures
        'a' <= c <= 'z' || 'A' <= c <= 'Z' || '0' <= c <= '9' || c == '_' || c == '$' ==> lexer::goes_on(
            c,
        ),
        c as u32 >= 0x80 ==> lexer::goes_on(c),
        c as u32 <= 0x23 || (0x25 <= c as u32 && c as u32 <= 0x2f) || (0x3a <= c as u32 && c as u32
            <= 0x40) || (0x5b <= c as u32 && c as u32 <= 0x5e) || c == '`' || (0x7b <= c as u32
            && c as u32 <= 0x7f) ==> !lexer::goes_on(c),
{
}

/// Which letters cannot stand for the escape of a name: those that it could be
/// confused with.
pub proof fn what_cannot_escape(c: char)
    ensures
        c == '\'' || c == '+' || '0' <= c <= '9' || 'a' <= c <= 'f' || 'A' <= c <= 'F' || c == ' '
            || c == '\n' || c == '\t' ==> lexer::cannot_escape(c),
        'g' <= c <= 'z' || 'G' <= c <= 'Z' || c == '!' || c == '\\' || c == '#' || c == '_'
            ==> !lexer::cannot_escape(c),
{
}

proof fn a_word_goes_on(s: Seq<char>, at: int, to: int)
    requires
        0 <= at <= to <= s.len(),
        forall|i: int| at <= i < to ==> lexer::goes_on(#[trigger] s[i]),
        to < s.len() ==> !lexer::goes_on(s[to]),
    ensures
        lexer::ident_end(s, at) == to,
    decreases to - at,
{
    if at < to {
        assert(lexer::goes_on(s[at]));
        a_word_goes_on(s, at + 1, to);
    }
}

/// Whether a text is one word.
pub open spec fn is_word(w: Seq<char>) -> bool {
    w.len() > 0 && forall|i: int| 0 <= i < w.len() ==> lexer::goes_on(#[trigger] w[i])
}

/// A word ends where the first letter stands that cannot go on with it.
pub proof fn a_word_ends_at_its_end(front: Seq<char>, word: Seq<char>, back: Seq<char>)
    requires
        is_word(word),
        back.len() > 0 ==> !lexer::goes_on(back[0]),
    ensures
        lexer::ident_end(front + word + back, front.len() as int) == front.len() + word.len(),
{
    let s = front + word + back;
    let from = front.len() as int;
    let to = (front.len() + word.len()) as int;
    assert forall|i: int| from <= i < to implies lexer::goes_on(#[trigger] s[i]) by {
        assert(s[i] == word[i - from]);
    }
    if to < s.len() {
        assert(s[to] == back[0]);
    }
    a_word_goes_on(s, from, to);
}

/// The tag of a block is the first that its body does not hold: every one
/// before it is held.
pub proof fn a_tag_is_the_first_that_is_free(body: Seq<char>, n: nat)
    ensures
        sql::free_tag(body) == sql::tag_text(sql::first_free(body, 0)),
        n < sql::first_free(body, 0) ==> text::holds(body, sql::tag_text(n)),
        sql::tag_text(0) == "$pbps$"@,
        n > 0 ==> sql::tag_text(n) == "$pbps"@ + text::decimal(n) + "$"@,
{
    if n < sql::first_free(body, 0) {
        earlier_tags_are_held(body, 0, n);
    }
    reveal_strlit("$pbps$");
    reveal_strlit("$pbps");
    reveal_strlit("$");
    assert(sql::tag_text(0) =~= "$pbps$"@);
    assert(seq!['$'] =~= "$"@);
}

proof fn earlier_tags_are_held(body: Seq<char>, from: nat, n: nat)
    requires
        from <= n < sql::first_free(body, from),
    ensures
        text::holds(body, sql::tag_text(n)),
    decreases n - from,
{
    if from < n {
        earlier_tags_are_held(body, from + 1, n);
    }
}

// ---------------------------------------------------------------------------
// Literals

/// A letter, and a letter of a literal, is passed over; a doubled quote is no
/// end.
proof fn literal_passes(s: Seq<char>, at: int, content: Seq<char>, escapes: bool)
    requires
        0 <= at,
        at + text::doubled(content, '\'').len() < s.len(),
        s.subrange(at, at + text::doubled(content, '\'').len()) == text::doubled(content, '\''),
        s[at + text::doubled(content, '\'').len()] == '\'',
        at + text::doubled(content, '\'').len() + 1 < s.len() ==> s[at + text::doubled(
            content,
            '\'',
        ).len() + 1] != '\'',
        escapes ==> !content.contains('\\'),
    ensures
        lexer::literal_end(s, at, escapes) == Some(at + text::doubled(content, '\'').len() + 1),
    decreases content.len(),
{
    let d = text::doubled(content, '\'');
    if content.len() == 0 {
        assert(d.len() == 0);
        assert(lexer::literal_end(s, at, escapes) == Some(at + 1));
    } else {
        let c = content[0];
        let rest = content.drop_first();
        assert(content =~= seq![c] + rest);
        text::doubled_appends(seq![c], rest, '\'');
        let one = text::doubled(seq![c], '\'');
        reveal_with_fuel(text::doubled, 2);
        assert(seq![c].drop_last() =~= Seq::<char>::empty());
        let e = text::doubled(rest, '\'');
        assert(d == one + e);
        assert forall|i: int| 0 <= i < rest.len() implies content.contains(#[trigger] rest[i]) by {
            assert(content[i + 1] == rest[i]);
        }
        assert(s[at] == s.subrange(at, at + d.len())[0]);
        assert(d[0] == one[0]);
        if escapes {
            assert(content.contains(c));
            assert(c != '\\');
        }
        if c == '\'' {
            assert(one =~= seq![c, c]);
            assert(s[at + 1] == s.subrange(at, at + d.len())[1]);
            assert(d[1] == one[1]);
            assert(s.subrange(at + 2, at + 2 + e.len()) =~= e) by {
                assert forall|i: int| 0 <= i < e.len() implies s[at + 2 + i] == e[i] by {
                    assert(s.subrange(at, at + d.len())[2 + i] == d[2 + i]);
                }
            }
            literal_passes(s, at + 2, rest, escapes);
        } else {
            assert(one =~= seq![c]);
            assert(s.subrange(at + 1, at + 1 + e.len()) =~= e) by {
                assert forall|i: int| 0 <= i < e.len() implies s[at + 1 + i] == e[i] by {
                    assert(s.subrange(at, at + d.len())[1 + i] == d[1 + i]);
                }
            }
            literal_passes(s, at + 1, rest, escapes);
        }
    }
}

/// A literal ends behind the quote that is not doubled. A backslash is a letter
/// like any other, except where the literal reads escapes: then it takes the
/// letter behind it along, a quote too.
pub proof fn a_literal_ends_behind_its_quote(
    front: Seq<char>,
    content: Seq<char>,
    back: Seq<char>,
    escapes: bool,
)
    requires
        back.len() > 0 ==> back[0] != '\'',
        escapes ==> !content.contains('\\'),
    ensures
        ({
            let s = front + text::doubled(content, '\'') + "'"@ + back;
            let end = front.len() + text::doubled(content, '\'').len() + 1;
            lexer::literal_end(s, front.len() as int, escapes) == Some(end as int)
        }),
{
    reveal_strlit("'");
    let d = text::doubled(content, '\'');
    let s = front + d + "'"@ + back;
    let at = front.len() as int;
    assert(s.subrange(at, at + d.len()) =~= d);
    if at + d.len() + 1 < s.len() {
        assert(s[at + d.len() + 1] == back[0]);
    }
    literal_passes(s, at, content, escapes);
}

/// Where escapes are read, a backslash and what follows it end nothing.
pub proof fn an_escape_takes_the_next_letter_along(s: Seq<char>, at: int)
    requires
        0 <= at < s.len(),
        s[at] == '\\',
    ensures
        lexer::literal_end(s, at, true) == lexer::literal_end(s, at + 2, true),
        lexer::literal_end(s, at, false) == lexer::literal_end(s, at + 1, false),
{
}

/// What opens a literal: a quote alone, or behind the letters of an escape
/// string, of a national one, or of one with code points. Only the first reads
/// escapes.
pub proof fn what_opens_a_literal(rest: Seq<char>)
    ensures
        lexer::opener("'"@ + rest, 0) == Some((1int, false)),
        lexer::opener("e'"@ + rest, 0) == Some((2int, true)),
        lexer::opener("E'"@ + rest, 0) == Some((2int, true)),
        lexer::opener("n'"@ + rest, 0) == Some((2int, false)),
        lexer::opener("N'"@ + rest, 0) == Some((2int, false)),
        lexer::opener("u&'"@ + rest, 0) == Some((3int, false)),
        lexer::opener("U&'"@ + rest, 0) == Some((3int, false)),
        !rest.contains('\'') ==> lexer::opener(rest, 0) is None,
{
    reveal_strlit("'");
    reveal_strlit("e'");
    reveal_strlit("E'");
    reveal_strlit("n'");
    reveal_strlit("N'");
    reveal_strlit("u&'");
    reveal_strlit("U&'");
    if !rest.contains('\'') {
        assert forall|i: int| 0 <= i < rest.len() implies #[trigger] rest[i] != '\'' by {
            assert(rest.contains(rest[i]));
        }
    }
}

// ---------------------------------------------------------------------------
// Comments and gaps

/// Whether nothing in a text opens or closes a comment.
pub open spec fn is_uncommented(s: Seq<char>) -> bool {
    forall|i: int| 0 <= i < s.len() ==> #[trigger] s[i] != '/' && s[i] != '*'
}

proof fn a_comment_passes(s: Seq<char>, at: int, to: int, depth: int)
    requires
        0 <= at <= to,
        to + 1 < s.len(),
        forall|i: int| at <= i < to ==> #[trigger] s[i] != '/' && s[i] != '*',
    ensures
        lexer::comment_end(s, at, depth) == lexer::comment_end(s, to, depth),
    decreases to - at,
{
    if at < to {
        assert(s[at] != '/' && s[at] != '*');
        a_comment_passes(s, at + 1, to, depth);
    }
}

/// A comment ends at its close, and one inside it has a close of its own.
pub proof fn a_comment_ends_at_its_own_close(
    before: Seq<char>,
    inner: Seq<char>,
    after: Seq<char>,
    back: Seq<char>,
)
    requires
        is_uncommented(before),
        is_uncommented(inner),
        is_uncommented(after),
    ensures
        lexer::comment_end(before + "*/"@ + back, 0, 1) == Some(before.len() as int + 2),
        lexer::comment_end(before + "/*"@ + inner + "*/"@ + after + "*/"@ + back, 0, 1) == Some(
            (before.len() + inner.len() + after.len()) as int + 6,
        ),
        lexer::comment_end(before, 0, 1) is None,
{
    reveal_strlit("*/");
    reveal_strlit("/*");
    let s = before + "*/"@ + back;
    let b = before.len() as int;
    assert forall|i: int| 0 <= i < b implies #[trigger] s[i] != '/' && s[i] != '*' by {
        assert(s[i] == before[i]);
    }
    assert(s[b] == '*' && s[b + 1] == '/');
    a_comment_passes(s, 0, b, 1);
    let t = before + "/*"@ + inner + "*/"@ + after + "*/"@ + back;
    let c = b + 2 + inner.len();
    let d = c + 2 + after.len();
    assert forall|i: int| 0 <= i < b implies #[trigger] t[i] != '/' && t[i] != '*' by {
        assert(t[i] == before[i]);
    }
    assert forall|i: int| b + 2 <= i < c implies #[trigger] t[i] != '/' && t[i] != '*' by {
        assert(t[i] == inner[i - b - 2]);
    }
    assert forall|i: int| c + 2 <= i < d implies #[trigger] t[i] != '/' && t[i] != '*' by {
        assert(t[i] == after[i - c - 2]);
    }
    assert(t[b] == '/' && t[b + 1] == '*');
    assert(t[c] == '*' && t[c + 1] == '/');
    assert(t[d] == '*' && t[d + 1] == '/');
    a_comment_passes(t, 0, b, 1);
    a_comment_passes(t, b + 2, c, 2);
    a_comment_passes(t, c + 2, d, 1);
    assert(lexer::comment_end(t, b, 1) == lexer::comment_end(t, b + 2, 2));
    assert(lexer::comment_end(t, c, 2) == lexer::comment_end(t, c + 2, 1));
    assert(lexer::comment_end(t, d, 1) == Some(d + 2));
    an_open_comment_has_no_end(before, 0);
}

proof fn an_open_comment_has_no_end(s: Seq<char>, at: int)
    requires
        0 <= at,
        is_uncommented(s),
    ensures
        lexer::comment_end(s, at, 1) is None,
    decreases s.len() - at,
{
    if at + 1 < s.len() {
        assert(s[at] != '/' && s[at] != '*');
        an_open_comment_has_no_end(s, at + 1);
    }
}

proof fn a_gap_passes_space(s: Seq<char>, at: int, to: int, newline: bool, blocked: bool)
    requires
        0 <= at <= to <= s.len(),
        is_all_space(s.subrange(at, to)),
    ensures
        lexer::gap(s, at, newline, blocked).0 == lexer::gap(s, to, newline, blocked).0,
    decreases to - at,
{
    if at < to {
        assert(s[at] == s.subrange(at, to)[0]);
        let rest = s.subrange(at + 1, to);
        assert forall|i: int| 0 <= i < rest.len() implies text::is_space(#[trigger] rest[i]) by {
            assert(rest[i] == s.subrange(at, to)[i + 1]);
        }
        a_gap_passes_space(s, at + 1, to, newline || lexer::is_newline(s[at]), blocked);
        gap_end_is_alone(s, to, newline || lexer::is_newline(s[at]), newline, blocked, blocked);
    }
}

proof fn gap_end_is_alone(s: Seq<char>, at: int, m: bool, n: bool, p: bool, q: bool)
    ensures
        lexer::gap(s, at, m, p).0 == lexer::gap(s, at, n, q).0,
    decreases s.len() - at,
{
    if 0 <= at && at < s.len() {
        if text::is_space(s[at]) {
            gap_end_is_alone(
                s,
                at + 1,
                m || lexer::is_newline(s[at]),
                n || lexer::is_newline(s[at]),
                p,
                q,
            );
        } else if lexer::pair_at(s, at, '-', '-') {
            match lexer::next_newline(s, at + 2) {
                Some(e) => if at < e && e < s.len() {
                    gap_end_is_alone(s, e + 1, true, true, p, q);
                },
                None => {},
            }
        } else if lexer::pair_at(s, at, '/', '*') {
            match lexer::comment_end(s, at + 2, 1) {
                Some(e) => if at < e && e <= s.len() {
                    gap_end_is_alone(s, e, m, n, true, true);
                },
                None => {},
            }
        }
    }
}

/// Whether code begins with a text: with a letter that is no space and opens no
/// comment.
pub open spec fn is_code(s: Seq<char>) -> bool {
    s.len() == 0 || (!text::is_space(s[0]) && s[0] != '-' && s[0] != '/')
}

/// A gap is the space before code, and a comment in it with the space behind
/// that.
pub proof fn a_gap_is_space_and_comments(
    space: Seq<char>,
    comment: Seq<char>,
    more: Seq<char>,
    code: Seq<char>,
)
    requires
        is_all_space(space),
        is_all_space(more),
        is_uncommented(comment),
        is_code(code),
    ensures
        lexer::past_gap(space + code, 0) == space.len(),
        lexer::past_gap(space + "/*"@ + comment + "*/"@ + more + code, 0) == space.len() + 4
            + comment.len() + more.len(),
{
    reveal_strlit("*/");
    reveal_strlit("/*");
    let s = space + code;
    let n = space.len() as int;
    assert(s.subrange(0, n) =~= space);
    a_gap_passes_space(s, 0, n, false, false);
    if n < s.len() {
        assert(s[n] == code[0]);
    }
    assert(lexer::gap(s, n, false, false).0 == n);
    let t = space + "/*"@ + comment + "*/"@ + more + code;
    let c = n + 2 + comment.len();
    let m = c + 2 + more.len();
    assert(t.subrange(0, n) =~= space);
    a_gap_passes_space(t, 0, n, false, false);
    assert(t[n] == '/' && t[n + 1] == '*');
    assert(t[c] == '*' && t[c + 1] == '/');
    assert forall|i: int| n + 2 <= i < c implies #[trigger] t[i] != '/' && t[i] != '*' by {
        assert(t[i] == comment[i - n - 2]);
    }
    a_comment_passes(t, n + 2, c, 1);
    assert(lexer::comment_end(t, c, 1) == Some(c + 2));
    assert(t.subrange(c + 2, m) =~= more);
    a_gap_passes_space(t, c + 2, m, false, true);
    if m < t.len() {
        assert(t[m] == code[0]);
    }
    assert(lexer::gap(t, m, false, true).0 == m);
    assert(lexer::gap(t, n, false, false).0 == lexer::gap(t, c + 2, false, true).0);
}

proof fn no_newline_before(s: Seq<char>, at: int, to: int)
    requires
        0 <= at <= to < s.len(),
        forall|i: int| at <= i < to ==> #[trigger] s[i] != '\n' && s[i] != '\r',
        s[to] == '\n' || s[to] == '\r',
    ensures
        lexer::next_newline(s, at) == Some(to),
    decreases to - at,
{
    if at < to {
        assert(s[at] != '\n' && s[at] != '\r');
        no_newline_before(s, at + 1, to);
    }
}

/// A line comment ends with its line.
pub proof fn a_line_comment_ends_with_its_line(line: Seq<char>, code: Seq<char>)
    requires
        forall|i: int| 0 <= i < line.len() ==> #[trigger] line[i] != '\n' && line[i] != '\r',
        is_code(code),
    ensures
        lexer::past_gap("--"@ + line + "\n"@ + code, 0) == line.len() + 3,
{
    reveal_strlit("--");
    reveal_strlit("\n");
    let s = "--"@ + line + "\n"@ + code;
    let n = line.len() as int + 2;
    assert forall|i: int| 2 <= i < n implies #[trigger] s[i] != '\n' && s[i] != '\r' by {
        assert(s[i] == line[i - 2]);
    }
    assert(s[n] == '\n');
    no_newline_before(s, 2, n);
    assert(s[0] == '-' && s[1] == '-');
    if n + 1 < s.len() {
        assert(s[n + 1] == code[0]);
    }
    assert(lexer::gap(s, n + 1, true, false).0 == n + 1);
}

} // verus!
