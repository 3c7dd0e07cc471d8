//! What is found in the body of a definition: its parameters and its table.
use vstd::prelude::*;

use crate::definition;
use crate::definition::{Decoding, Spelling};
use crate::lexer;
use crate::model;
use crate::model::RoutineArg;
use crate::scans;
use crate::scans::{is_all_space, is_code, is_word};
use crate::text;

verus! {

/// Whether nothing in a text opens a literal, a comment or a quoted name.
pub open spec fn is_quiet(s: Seq<char>) -> bool {
    forall|i: int| 0 <= i < s.len() ==> is_quiet_char(#[trigger] s[i])
}

/// Whether a letter opens nothing.
pub open spec fn is_quiet_char(c: char) -> bool {
    c != '\'' && c != '$' && c != '-' && c != '/' && c != '"'
}

/// Whether a letter opens or closes a bracket.
pub open spec fn is_bracket(c: char) -> bool {
    c == '(' || c == ')' || c == '[' || c == ']'
}

/// Whether a text has no bracket.
pub open spec fn has_no_bracket(s: Seq<char>) -> bool {
    forall|i: int| 0 <= i < s.len() ==> !is_bracket(#[trigger] s[i])
}

proof fn nothing_opens(s: Seq<char>, at: int)
    requires
        0 <= at < s.len(),
        is_quiet_char(s[at]),
        at + 1 < s.len() ==> s[at + 1] != '\'',
        at + 2 < s.len() ==> s[at + 1] != '&' || s[at + 2] != '\'',
    ensures
        lexer::datum_end_at(s, at) is None,
{
}

proof fn nothing_opens_in_quiet(s: Seq<char>, at: int)
    requires
        is_quiet(s),
        0 <= at < s.len(),
    ensures
        lexer::datum_end_at(s, at) is None,
{
    assert(is_quiet_char(s[at]));
    if at + 1 < s.len() {
        assert(is_quiet_char(s[at + 1]));
    }
    if at + 2 < s.len() {
        assert(is_quiet_char(s[at + 2]));
    }
    nothing_opens(s, at);
}

// ---------------------------------------------------------------------------
// The parameter list

proof fn a_list_passes(s: Seq<char>, at: int, to: int, depth: int)
    requires
        0 <= at <= to < s.len(),
        s[to] == ')' || s[to] == '(',
        forall|i: int| at <= i < to ==> is_quiet_char(#[trigger] s[i]) && !is_bracket(s[i]),
    ensures
        definition::list_end(s, at, depth) == definition::list_end(s, to, depth),
    decreases to - at,
{
    if at < to {
        assert(is_quiet_char(s[at]) && !is_bracket(s[at]));
        assert(at + 1 < to ==> is_quiet_char(s[at + 1]));
        assert(at + 2 < to ==> is_quiet_char(s[at + 2]));
        nothing_opens(s, at);
        a_list_passes(s, at + 1, to, depth);
    }
}

proof fn a_flat_list_ends(s: Seq<char>, n: int, a: Seq<char>)
    requires
        is_quiet(a) && has_no_bracket(a),
        0 <= n,
        n + 1 + a.len() < s.len(),
        s.subrange(n + 1, n + 1 + a.len()) == a,
        s[n + 1 + a.len()] == ')',
    ensures
        definition::list_end(s, n + 1, 1) == Some(n + 1 + a.len()),
{
    let to = n + 1 + a.len();
    assert forall|i: int| n + 1 <= i < to implies is_quiet_char(#[trigger] s[i]) && !is_bracket(
        s[i],
    ) by {
        assert(s[i] == s.subrange(n + 1, to)[i - n - 1]);
    }
    a_list_passes(s, n + 1, to, 1);
    at_a_bracket(s, to, 1);
}

proof fn part_is_quiet(s: Seq<char>, from: int, a: Seq<char>)
    requires
        is_quiet(a) && has_no_bracket(a),
        0 <= from,
        from + a.len() <= s.len(),
        s.subrange(from, from + a.len()) == a,
    ensures
        forall|i: int|
            from <= i < from + a.len() ==> is_quiet_char(#[trigger] s[i]) && !is_bracket(s[i]),
{
    assert forall|i: int| from <= i < from + a.len() implies is_quiet_char(#[trigger] s[i])
        && !is_bracket(s[i]) by {
        assert(s[i] == s.subrange(from, from + a.len())[i - from]);
    }
}

proof fn a_nested_list_ends(
    s: Seq<char>,
    n: int,
    a: Seq<char>,
    b: Seq<char>,
    c: Seq<char>,
)
    requires
        is_quiet(a) && has_no_bracket(a),
        is_quiet(b) && has_no_bracket(b),
        is_quiet(c) && has_no_bracket(c),
        0 <= n,
        n + 3 + a.len() + b.len() + c.len() < s.len(),
        s.subrange(n + 1, n + 1 + a.len()) == a,
        s[n + 1 + a.len()] == '(',
        s.subrange(n + 2 + a.len(), n + 2 + a.len() + b.len()) == b,
        s[n + 2 + a.len() + b.len()] == ')',
        s.subrange(n + 3 + a.len() + b.len(), n + 3 + a.len() + b.len() + c.len()) == c,
        s[n + 3 + a.len() + b.len() + c.len()] == ')',
    ensures
        definition::list_end(s, n + 1, 1) == Some(n + 3 + a.len() + b.len() + c.len()),
{
    let p = n + 1 + a.len();
    let q = p + 1 + b.len();
    let r = q + 1 + c.len();
    part_is_quiet(s, n + 1, a);
    part_is_quiet(s, p + 1, b);
    part_is_quiet(s, q + 1, c);
    a_list_passes(s, n + 1, p, 1);
    at_a_bracket(s, p, 1);
    a_list_passes(s, p + 1, q, 2);
    at_a_bracket(s, q, 2);
    a_list_passes(s, q + 1, r, 1);
    at_a_bracket(s, r, 1);
}

/// A parameter list is what stands between the brackets that a definition
/// begins with, whatever comes behind it. A definition that begins with
/// anything else has none.
pub proof fn a_list_is_between_its_brackets(space: Seq<char>, list: Seq<char>, rest: Seq<char>)
    requires
        is_all_space(space),
        is_quiet(list) && has_no_bracket(list),
    ensures
        definition::list_text(space + ("("@ + list + ")"@ + rest)) == Some(list),
        rest.len() > 0 && is_code(rest) && rest[0] != '(' ==> definition::list_text(space + rest)
            is None,
{
    reveal_strlit("(");
    reveal_strlit(")");
    let none = Seq::<char>::empty();
    let n = space.len() as int;
    let code = "("@ + list + ")"@ + rest;
    let s = space + code;
    scans::a_gap_is_space_and_comments(space, none, none, code);
    let to = n + 1 + list.len();
    assert(s[n] == '(');
    assert(s[to] == ')');
    assert(s.subrange(n + 1, to) =~= list);
    a_flat_list_ends(s, n, list);
    if rest.len() > 0 && is_code(rest) && rest[0] != '(' {
        scans::a_gap_is_space_and_comments(space, none, none, rest);
        assert((space + rest)[n] == rest[0]);
    }
}

/// Brackets inside a list belong to it.
pub proof fn a_list_holds_its_own_brackets(
    a: Seq<char>,
    b: Seq<char>,
    c: Seq<char>,
    rest: Seq<char>,
)
    requires
        is_quiet(a) && has_no_bracket(a),
        is_quiet(b) && has_no_bracket(b),
        is_quiet(c) && has_no_bracket(c),
    ensures
        definition::list_text("("@ + (a + "("@ + b + ")"@ + c) + ")"@ + rest) == Some(
            a + "("@ + b + ")"@ + c,
        ),
{
    reveal_strlit("(");
    reveal_strlit(")");
    let list = a + "("@ + b + ")"@ + c;
    let s = "("@ + list + ")"@ + rest;
    let p = 1 + a.len() as int;
    let q = p + 1 + b.len();
    let r = q + 1 + c.len();
    assert(s[0] == '(');
    assert(s[p] == list[p - 1]);
    assert(s[q] == list[q - 1]);
    assert(s[r] == ')');
    assert(s.subrange(1, p) =~= a);
    assert(s.subrange(p + 1, q) =~= b);
    assert(s.subrange(q + 1, r) =~= c);
    a_nested_list_ends(s, 0, a, b, c);
    assert(s.subrange(1, r) =~= list);
    assert(lexer::past_gap(s, 0) == 0);
}

proof fn at_a_bracket(s: Seq<char>, at: int, depth: int)
    requires
        0 <= at < s.len(),
        s[at] == '(' || s[at] == ')',
    ensures
        s[at] == '(' ==> definition::list_end(s, at, depth) == definition::list_end(
            s,
            at + 1,
            depth + 1,
        ),
        s[at] == ')' && depth > 1 ==> definition::list_end(s, at, depth) == definition::list_end(
            s,
            at + 1,
            depth - 1,
        ),
        s[at] == ')' && depth <= 1 ==> definition::list_end(s, at, depth) == Some(at),
{
    assert(lexer::datum_end_at(s, at) is None);
}

// ---------------------------------------------------------------------------
// The parameters of a list

proof fn no_split(s: Seq<char>, at: int, to: int, start: int, depth: int)
    requires
        is_quiet(s),
        0 <= start,
        0 <= depth,
        0 <= at <= to <= s.len(),
        forall|i: int|
            at <= i < to ==> !is_bracket(#[trigger] s[i]) && (s[i] != ',' || depth > 0),
    ensures
        definition::split_from(s, at, start, depth) == definition::split_from(s, to, start, depth),
    decreases to - at,
{
    if at < to {
        nothing_opens_in_quiet(s, at);
        assert(is_quiet_char(s[at]));
        assert(!is_bracket(s[at]) && (s[at] != ',' || depth > 0));
        no_split(s, at + 1, to, start, depth);
    }
}

proof fn splitting_shifts(s: Seq<char>, k: int, at: int, start: int, depth: int)
    requires
        is_quiet(s),
        0 <= k <= start <= at <= s.len(),
    ensures
        definition::split_from(s, at, start, depth) == definition::split_from(
            s.skip(k),
            at - k,
            start - k,
            depth,
        ),
    decreases s.len() - at,
{
    let t = s.skip(k);
    assert(is_quiet(t)) by {
        assert forall|i: int| 0 <= i < t.len() implies is_quiet_char(#[trigger] t[i]) by {
            assert(t[i] == s[i + k]);
        }
    }
    if at < s.len() {
        nothing_opens_in_quiet(s, at);
        nothing_opens_in_quiet(t, at - k);
        assert(t[at - k] == s[at]);
        assert(is_quiet_char(s[at]));
        assert(s.subrange(start, at) =~= t.subrange(start - k, at - k));
        if s[at] == ',' && depth == 0 {
            splitting_shifts(s, k, at + 1, at + 1, depth);
        } else {
            splitting_shifts(s, k, at + 1, start, definition::bracket_depth(s[at], depth));
        }
    } else {
        assert(s.subrange(start, s.len() as int) =~= t.subrange(start - k, t.len() as int));
    }
}

proof fn one_part_is_the_whole(s: Seq<char>, at: int, start: int, depth: int)
    requires
        is_quiet(s),
        0 <= start <= at <= s.len(),
    ensures
        definition::split_from(s, at, start, depth).len() >= 1,
        definition::split_from(s, at, start, depth).len() == 1 ==> definition::split_from(
            s,
            at,
            start,
            depth,
        )[0] == lexer::trimmed(s.subrange(start, s.len() as int)),
    decreases s.len() - at,
{
    if at < s.len() {
        nothing_opens_in_quiet(s, at);
        assert(is_quiet_char(s[at]));
        if s[at] == ',' && depth == 0 {
            one_part_is_the_whole(s, at + 1, at + 1, depth);
        } else {
            one_part_is_the_whole(s, at + 1, start, definition::bracket_depth(s[at], depth));
        }
    }
}

/// A comma outside brackets parts a parameter from those behind it.
pub proof fn a_comma_parts_two_parameters(p: Seq<char>, rest: Seq<char>)
    requires
        is_quiet(p) && has_no_bracket(p),
        !p.contains(','),
        is_quiet(rest),
        lexer::trimmed(rest).len() > 0,
    ensures
        definition::parameters_of(p + ","@ + rest) == seq![lexer::trimmed(p)]
            + definition::parameters_of(rest),
{
    reveal_strlit(",");
    let s = p + ","@ + rest;
    let n = p.len() as int;
    assert forall|i: int| 0 <= i < s.len() implies is_quiet_char(#[trigger] s[i]) by {
        if i < n {
            assert(s[i] == p[i]);
        } else if i > n {
            assert(s[i] == rest[i - n - 1]);
        }
    }
    assert forall|i: int| 0 <= i < n implies !is_bracket(#[trigger] s[i]) && s[i] != ',' by {
        assert(s[i] == p[i]);
        assert(p.contains(p[i]));
    }
    no_split(s, 0, n, 0, 0);
    assert(s[n] == ',');
    nothing_opens_in_quiet(s, n);
    assert(s.subrange(0, n) =~= p);
    splitting_shifts(s, n + 1, n + 1, n + 1, 0);
    assert(s.skip(n + 1) =~= rest);
    one_part_is_the_whole(rest, 0, 0, 0);
    assert(rest.subrange(0, rest.len() as int) =~= rest);
}

/// A comma inside brackets parts nothing.
pub proof fn a_comma_in_brackets_parts_nothing(a: Seq<char>, b: Seq<char>, c: Seq<char>)
    requires
        is_quiet(a) && has_no_bracket(a),
        is_quiet(b) && has_no_bracket(b),
        is_quiet(c) && has_no_bracket(c),
        !a.contains(','),
        !c.contains(','),
    ensures
        definition::parameters_of(a + "("@ + b + ")"@ + c) == seq![
            lexer::trimmed(a + "("@ + b + ")"@ + c),
        ],
{
    reveal_strlit("(");
    reveal_strlit(")");
    let s = a + "("@ + b + ")"@ + c;
    let p = a.len() as int;
    let q = p + 1 + b.len();
    assert(s[p] == '(' && s[q] == ')');
    assert forall|i: int| 0 <= i < s.len() implies is_quiet_char(#[trigger] s[i]) by {
        if i < p {
            assert(s[i] == a[i]);
        } else if p < i < q {
            assert(s[i] == b[i - p - 1]);
        } else if q < i {
            assert(s[i] == c[i - q - 1]);
        }
    }
    assert forall|i: int| 0 <= i < p implies !is_bracket(#[trigger] s[i]) && s[i] != ',' by {
        assert(s[i] == a[i]);
        assert(a.contains(a[i]));
    }
    assert forall|i: int| p + 1 <= i < q implies !is_bracket(#[trigger] s[i]) by {
        assert(s[i] == b[i - p - 1]);
    }
    assert forall|i: int| q + 1 <= i < s.len() implies !is_bracket(#[trigger] s[i]) && s[i]
        != ',' by {
        assert(s[i] == c[i - q - 1]);
        assert(c.contains(c[i - q - 1]));
    }
    no_split(s, 0, p, 0, 0);
    nothing_opens_in_quiet(s, p);
    no_split(s, p + 1, q, 0, 1);
    nothing_opens_in_quiet(s, q);
    no_split(s, q + 1, s.len() as int, 0, 0);
    assert(s.subrange(0, s.len() as int) =~= s);
    let t = lexer::trimmed(s);
    scans::trimming_takes_the_space_off_both_ends(s);
    if t.len() == 0 {
        let (front, back) = choose|front: Seq<char>, back: Seq<char>|
            s == #[trigger] (front + t + back) && is_all_space(front) && is_all_space(back);
        if p < front.len() {
            assert(front[p] == s[p]);
        } else {
            assert(back[p - front.len()] == s[p]);
        }
    }
}

/// A list of nothing but space has no parameter, and one with neither comma nor
/// bracket has one.
pub proof fn a_list_without_a_comma_is_one_parameter(list: Seq<char>)
    requires
        is_quiet(list) && has_no_bracket(list),
        !list.contains(','),
    ensures
        is_all_space(list) ==> definition::parameters_of(list).len() == 0,
        lexer::trimmed(list).len() > 0 ==> definition::parameters_of(list) == seq![
            lexer::trimmed(list),
        ],
{
    assert forall|i: int| 0 <= i < list.len() implies !is_bracket(#[trigger] list[i]) && list[i]
        != ',' by {
        assert(list.contains(list[i]));
    }
    no_split(list, 0, list.len() as int, 0, 0);
    assert(list.subrange(0, list.len() as int) =~= list);
    if is_all_space(list) {
        let none = Seq::<char>::empty();
        scans::trimming_leaves_the_rest_alone(list, none, none);
        assert(list + none + none =~= list);
    }
}

// ---------------------------------------------------------------------------
// The mode of a parameter

proof fn modes_are_small()
    ensures
        text::lower("in"@) == "in"@,
        text::lower("out"@) == "out"@,
        text::lower("inout"@) == "inout"@,
        text::lower("variadic"@) == "variadic"@,
        text::lower("on"@) == "on"@,
        "in"@.len() == 2,
        "out"@.len() == 3,
        "inout"@.len() == 5,
        "variadic"@.len() == 8,
{
    reveal_strlit("in");
    reveal_strlit("out");
    reveal_strlit("inout");
    reveal_strlit("variadic");
    reveal_strlit("on");
    assert(text::lower("in"@) =~= "in"@);
    assert(text::lower("out"@) =~= "out"@);
    assert(text::lower("inout"@) =~= "inout"@);
    assert(text::lower("variadic"@) =~= "variadic"@);
    assert(text::lower("on"@) =~= "on"@);
}

/// Whether a word says how a parameter is passed.
pub open spec fn says_a_mode(word: Seq<char>) -> bool {
    let w = text::lower(word);
    w == "in"@ || w == "out"@ || w == "inout"@ || w == "variadic"@
}

proof fn a_word_is_an_ident(s: Seq<char>, at: int, word: Seq<char>)
    requires
        is_word(word),
        0 <= at,
        at + word.len() <= s.len(),
        s.subrange(at, at + word.len()) == word,
        at + word.len() < s.len() ==> !lexer::goes_on(s[at + word.len()]) && s[at + word.len()]
            != '&',
    ensures
        lexer::one_ident_end(s, at) == Some(at + word.len()),
        lexer::past_gap(s, at) == at,
{
    let front = s.take(at);
    let back = s.skip(at + word.len());
    assert(s =~= front + word + back);
    if back.len() > 0 {
        assert(back[0] == s[at + word.len()]);
    }
    scans::a_word_ends_at_its_end(front, word, back);
    assert(s[at] == word[0]);
    assert(lexer::goes_on(word[0]));
    assert forall|i: int| at <= i < at + word.len() implies lexer::goes_on(#[trigger] s[i]) by {
        assert(s[i] == word[i - at]);
    }
    assert(at + 1 < at + word.len() ==> s[at + 1] != '&') by {
        if at + 1 < at + word.len() {
            assert(lexer::goes_on(s[at + 1]));
        }
    }
}

proof fn a_space_is_a_gap(s: Seq<char>, at: int)
    requires
        0 <= at,
        at + 1 < s.len(),
        s[at] == ' ',
        lexer::goes_on(s[at + 1]),
    ensures
        lexer::past_gap(s, at) == at + 1,
{
    assert(lexer::gap(s, at, false, false).0 == lexer::gap(s, at + 1, false, false).0);
}

/// A parameter that is only handed out is no part of the identity; one that is
/// handed in, in and out, or in any number, is. The word that says so stands
/// first.
pub proof fn the_first_word_says_the_mode(mode: Seq<char>, rest: Seq<char>)
    requires
        is_word(mode),
        says_a_mode(mode),
    ensures
        definition::past_mode(mode + " "@ + rest).0 <==> text::lower(mode) != "out"@,
{
    reveal_strlit(" ");
    modes_are_small();
    let s = mode + " "@ + rest;
    assert(s.subrange(0, mode.len() as int) =~= mode);
    assert(s[mode.len() as int] == ' ');
    a_word_is_an_ident(s, 0, mode);
}

/// The word that says how a parameter is passed may stand behind its name, and
/// a parameter of which neither word says it is handed in.
pub proof fn the_second_word_says_the_mode(name: Seq<char>, mode: Seq<char>, rest: Seq<char>)
    requires
        is_word(name),
        is_word(mode),
        !says_a_mode(name),
    ensures
        says_a_mode(mode) ==> (definition::past_mode(name + " "@ + mode + " "@ + rest).0
            <==> text::lower(mode) != "out"@),
        !says_a_mode(mode) ==> definition::past_mode(name + " "@ + mode + " "@ + rest) == (
            true,
            0int,
        ),
{
    reveal_strlit(" ");
    modes_are_small();
    let s = name + " "@ + mode + " "@ + rest;
    let n = name.len() as int;
    let m = n + 1 + mode.len();
    assert(s.subrange(0, n) =~= name);
    assert(s[n] == ' ');
    assert(s.subrange(n + 1, m) =~= mode);
    assert(s[m] == ' ');
    assert(s[n + 1] == mode[0]);
    assert(lexer::goes_on(mode[0]));
    a_word_is_an_ident(s, 0, name);
    a_space_is_a_gap(s, n);
    a_word_is_an_ident(s, n + 1, mode);
}

/// Of the parameters exactly those that are handed in are carried, in their
/// order.
pub proof fn what_is_handed_in_is_carried(parameters: Seq<Seq<char>>, last: Seq<char>)
    ensures
        definition::carried(parameters.push(last)) == if definition::past_mode(last).0 {
            definition::carried(parameters).push(last)
        } else {
            definition::carried(parameters)
        },
        definition::carried(Seq::<Seq<char>>::empty()).len() == 0,
{
    assert(parameters.push(last).drop_last() =~= parameters);
}

// ---------------------------------------------------------------------------
// The type of a parameter

proof fn words_have_no_default(s: Seq<char>, at: int, words: Seq<Seq<char>>)
    requires
        is_quiet(s),
        0 <= at,
        at + spaced(words).len() <= s.len(),
        s.subrange(at, at + spaced(words).len()) == spaced(words),
        forall|i: int|
            0 <= i < words.len() ==> is_word(#[trigger] words[i]) && text::lower(words[i])
                != "default"@,
    ensures
        definition::default_at(s, at, 0) == definition::default_at(
            s,
            at + spaced(words).len(),
            0,
        ),
    decreases words.len(),
{
    if words.len() > 0 {
        reveal_strlit(" ");
        default_is_small();
        let w = words[0];
        let rest = words.drop_first();
        let all = spaced(words);
        let n = w.len() as int;
        assert(all == w + " "@ + spaced(rest));
        let part = s.subrange(at, at + all.len());
        assert(s.subrange(at, at + n) =~= w) by {
            assert forall|i: int| 0 <= i < n implies s[at + i] == w[i] by {
                assert(part[i] == all[i]);
            }
        }
        assert(s[at + n] == ' ') by {
            assert(part[n] == all[n]);
        }
        assert(is_word(w));
        a_word_is_an_ident(s, at, w);
        nothing_opens_in_quiet(s, at);
        assert(s[at] == s.subrange(at, at + n)[0]);
        assert(lexer::goes_on(w[0]));
        assert(is_quiet_char(s[at]));
        assert(lexer::ident_end(s, at) == at + n);
        assert(definition::default_at(s, at, 0) == definition::default_at(s, at + n, 0));
        nothing_opens_in_quiet(s, at + n);
        assert(definition::default_at(s, at + n, 0) == definition::default_at(s, at + n + 1, 0));
        assert(s.subrange(at + n + 1, at + n + 1 + spaced(rest).len()) =~= spaced(rest)) by {
            assert forall|i: int| 0 <= i < spaced(rest).len() implies s[at + n + 1 + i] == spaced(
                rest,
            )[i] by {
                assert(part[n + 1 + i] == all[n + 1 + i]);
            }
        }
        assert forall|i: int| 0 <= i < rest.len() implies is_word(#[trigger] rest[i])
            && text::lower(rest[i]) != "default"@ by {
            assert(rest[i] == words[i + 1]);
        }
        words_have_no_default(s, at + n + 1, rest);
    }
}

proof fn default_is_small()
    ensures
        text::lower("default"@) == "default"@,
{
    reveal_strlit("default");
    assert(text::lower("default"@) =~= "default"@);
}

/// A parameter is declared by what stands before its default, which a word or
/// an equals sign opens; the default itself is no part of the type.
pub proof fn a_default_is_no_part_of_a_declaration(
    words: Seq<Seq<char>>,
    opener: Seq<char>,
    value: Seq<char>,
)
    requires
        words.len() > 0,
        forall|i: int|
            0 <= i < words.len() ==> is_word(#[trigger] words[i]) && text::lower(words[i])
                != "default"@,
        opener == "="@ || (is_word(opener) && text::lower(opener) == "default"@),
        value.len() > 0 ==> !lexer::goes_on(value[0]) && value[0] != '&',
        is_quiet(spaced(words) + opener + value),
    ensures
        definition::declared_part(spaced(words) + opener + value) == lexer::trimmed_end(
            spaced(words),
        ),
{
    reveal_strlit("=");
    default_is_small();
    let s = spaced(words) + opener + value;
    let a = spaced(words).len() as int;
    assert(s.subrange(0, a) =~= spaced(words));
    words_have_no_default(s, 0, words);
    assert(s[a] == opener[0]);
    nothing_opens_in_quiet(s, a);
    assert(is_quiet_char(s[a]));
    if opener != "="@ {
        let b = a + opener.len();
        assert(s.subrange(a, b) =~= opener);
        if b < s.len() {
            assert(s[b] == value[0]);
        }
        a_word_is_an_ident(s, a, opener);
        assert(lexer::goes_on(opener[0]));
        assert(lexer::ident_end(s, a) == b);
    }
    assert(definition::default_at(s, a, 0) == a);
    assert(s.take(a) =~= spaced(words));
}

/// Trimming the end takes the space off it and nothing else.
pub proof fn trimming_the_end_takes_the_space_off_it(s: Seq<char>, back: Seq<char>)
    requires
        s.len() > 0,
        !text::is_space(s.last()),
        is_all_space(back),
    ensures
        lexer::trimmed_end(s + back) == s,
{
    solid_end(s, back, (s.len() + back.len()) as int);
    assert((s + back).take(s.len() as int) =~= s);
}

proof fn solid_end(s: Seq<char>, back: Seq<char>, to: int)
    requires
        s.len() > 0,
        !text::is_space(s.last()),
        is_all_space(back),
        s.len() <= to <= s.len() + back.len(),
    ensures
        lexer::solid_to(s + back, 0, to) == s.len(),
    decreases to,
{
    let t = s + back;
    if to > s.len() {
        assert(t[to - 1] == back[to - 1 - s.len()]);
        solid_end(s, back, to - 1);
    } else {
        assert(t[to - 1] == s.last());
    }
}

/// A parameter without its first word is what stands behind it, and there is
/// none where it does not begin with one.
pub proof fn a_parameter_without_its_name_is_the_rest(name: Seq<char>, rest: Seq<char>)
    requires
        is_word(name),
        rest.len() > 0,
        lexer::goes_on(rest[0]),
    ensures
        definition::unnamed_part(name + " "@ + rest) == Some(rest),
{
    reveal_strlit(" ");
    let s = name + " "@ + rest;
    let n = name.len() as int;
    assert(s.subrange(0, n) =~= name);
    assert(s[n] == ' ');
    assert(s[n + 1] == rest[0]);
    a_word_is_an_ident(s, 0, name);
    a_space_is_a_gap(s, n);
    assert(s.skip(n + 1) =~= rest);
}

proof fn quiet_code_end(s: Seq<char>, back: Seq<char>, at: int, end: int)
    requires
        is_quiet(s + back),
        s.len() > 0,
        !text::is_space(s.last()),
        is_all_space(back),
        0 <= at <= s.len() + back.len(),
        at >= s.len() ==> end == s.len(),
    ensures
        lexer::code_end(s + back, at, end) == s.len(),
    decreases s.len() + back.len() - at,
{
    let t = s + back;
    if at < t.len() {
        nothing_opens_in_quiet(t, at);
        assert(is_quiet_char(t[at]));
        if at >= s.len() {
            assert(t[at] == back[at - s.len()]);
            quiet_code_end(s, back, at + 1, end);
        } else {
            if at == s.len() - 1 {
                assert(t[at] == s.last());
            }
            quiet_code_end(
                s,
                back,
                at + 1,
                if text::is_space(t[at]) {
                    end
                } else {
                    at + 1
                },
            );
        }
    }
}

/// Text without a comment loses the space at its end and nothing else.
pub proof fn bare_text_keeps_all_but_the_space(s: Seq<char>, back: Seq<char>)
    requires
        is_quiet(s + back),
        s.len() > 0,
        !text::is_space(s.last()),
        is_all_space(back),
    ensures
        lexer::bared_end(s + back) == s,
{
    quiet_code_end(s, back, 0, 0);
    assert((s + back).take(s.len() as int) =~= s);
}

/// A parameter's type is what is left of it without its mode and its default.
pub proof fn a_type_is_a_parameter_without_mode_and_default(parameter: Seq<char>)
    ensures
        definition::type_part(parameter) == lexer::bared_end(
            definition::declared_part(parameter.skip(definition::past_mode(parameter).1)),
        ),
{
}

/// A parameter is certainly another type only where neither the whole of it nor
/// what stands behind its first word could be the one in the identity; where the
/// type catalogue knows the whole of it, that alone decides.
pub proof fn a_parameter_is_given_the_benefit_of_the_doubt(
    parameter: Seq<char>,
    identity: RoutineArg,
    spellings: Seq<Spelling>,
)
    ensures
        ({
            let whole = definition::type_part(parameter);
            &&& definition::admits(whole, identity, spellings) ==> !definition::disagrees(
                parameter,
                identity,
                spellings,
            )
            &&& definition::disagrees(parameter, identity, spellings) ==> {
                ||| (definition::spelling_from(spellings, 0, whole) matches Some(arg)
                    && arg.catalogued)
                ||| (definition::unnamed_part(whole) matches Some(rest) ==> !definition::admits(
                    rest,
                    identity,
                    spellings,
                ))
            }
            &&& !definition::admits(whole, identity, spellings) && definition::unnamed_part(whole)
                is None ==> definition::disagrees(parameter, identity, spellings)
            &&& !definition::admits(whole, identity, spellings) && (
            definition::spelling_from(spellings, 0, whole) matches Some(arg) && arg.catalogued)
                ==> definition::disagrees(parameter, identity, spellings)
        }),
{
}

// ---------------------------------------------------------------------------
// Whether a parameter is the type that the identity names

/// A declared type could be the one of the identity where the two are spelled
/// the same, or where one names it under a schema and the other does not and
/// both are arrays or neither is. Any other pair is two types.
pub proof fn a_type_could_be_named_under_a_schema(declared: RoutineArg, identity: RoutineArg)
    ensures
        declared.canonical@ == identity.canonical@ ==> definition::could_be(declared, identity),
        forall|schema: Seq<char>|
            #![trigger schema + seq!['.'] + declared.element@]
            identity.element@ == schema + seq!['.'] + declared.element@ && declared.element@.len()
                > 0 && declared.array == identity.array ==> definition::could_be(
                declared,
                identity,
            ),
        declared.canonical@ != identity.canonical@ && declared.array != identity.array
            ==> !definition::could_be(declared, identity),
        declared.canonical@ != identity.canonical@ && !text::ends(
            identity.element@,
            "."@ + declared.element@,
        ) && !text::ends(declared.element@, "."@ + identity.element@) ==> !definition::could_be(
            declared,
            identity,
        ),
        definition::could_be(declared, identity) == definition::could_be(identity, declared),
{
    reveal_strlit(".");
    assert(seq!['.'] =~= "."@);
    assert forall|schema: Seq<char>|
        #![trigger schema + seq!['.'] + declared.element@]
        identity.element@ == schema + seq!['.'] + declared.element@ && declared.element@.len() > 0
            && declared.array == identity.array implies definition::could_be(
        declared,
        identity,
    ) by {
        let tail = seq!['.'] + declared.element@;
        assert(identity.element@ =~= schema + tail);
        scans::a_part_is_found_where_it_is(schema, tail, Seq::empty());
    }
}

/// A spelling is what the first reading of it says, and nothing is held against
/// one that nobody read.
pub proof fn an_unread_spelling_is_admitted(
    reading: Seq<char>,
    identity: RoutineArg,
    spellings: Seq<Spelling>,
    at: int,
)
    requires
        forall|i: int| 0 <= i < at ==> (#[trigger] spellings[i]).text@ != reading,
        0 <= at <= spellings.len(),
    ensures
        at == spellings.len() ==> definition::admits(reading, identity, spellings),
        at < spellings.len() && spellings[at].text@ == reading ==> (definition::admits(
            reading,
            identity,
            spellings,
        ) <==> match spellings[at].read {
            Some(declared) => definition::could_be(declared, identity),
            None => true,
        }),
{
    spelling_is_first(spellings, 0, reading, at);
}

proof fn spelling_is_first(list: Seq<Spelling>, from: int, spelling: Seq<char>, at: int)
    requires
        0 <= from <= at <= list.len(),
        forall|i: int| from <= i < at ==> (#[trigger] list[i]).text@ != spelling,
    ensures
        at == list.len() ==> definition::spelling_from(list, from, spelling) is None,
        at < list.len() && list[at].text@ == spelling ==> definition::spelling_from(
            list,
            from,
            spelling,
        ) == list[at].read,
    decreases at - from,
{
    if from < at {
        assert(list[from].text@ != spelling);
        spelling_is_first(list, from + 1, spelling, at);
    }
}

proof fn no_type_disagrees(
    id: model::ModuleIdView,
    found: Seq<Seq<char>>,
    args: Seq<RoutineArg>,
    spellings: Seq<Spelling>,
    n: int,
)
    requires
        0 <= n <= args.len(),
    ensures
        definition::type_problems(id, found, args, spellings, n).len() == 0 <==> forall|i: int|
            0 <= i < n ==> !definition::disagrees(found[i], #[trigger] args[i], spellings),
    decreases n,
{
    if n > 0 {
        no_type_disagrees(id, found, args, spellings, n - 1);
        if definition::type_problems(id, found, args, spellings, n).len() == 0 {
            assert forall|i: int| 0 <= i < n implies !definition::disagrees(
                found[i],
                #[trigger] args[i],
                spellings,
            ) by {}
        } else if forall|i: int|
            0 <= i < n ==> !definition::disagrees(found[i], #[trigger] args[i], spellings) {
            assert(!definition::disagrees(found[n - 1], args[n - 1], spellings));
        }
    }
}

/// A body is accepted exactly where it has a parameter list, that carries as
/// many parameters as the identity has argument types, and none of them is
/// certainly of another type than the one in its place.
pub proof fn a_body_is_accepted_where_its_parameters_agree(
    id: model::ModuleIdView,
    body: Seq<char>,
    args: Seq<RoutineArg>,
    spellings: Seq<Spelling>,
)
    ensures
        definition::body_problems(id, body, args, spellings).len() == 0 <==> match definition::list_text(
            body,
        ) {
            None => false,
            Some(list) => {
                let found = definition::carried(definition::parameters_of(list));
                found.len() == args.len() && forall|i: int|
                    0 <= i < args.len() ==> !definition::disagrees(
                        found[i],
                        #[trigger] args[i],
                        spellings,
                    )
            },
        },
{
    if let Some(list) = definition::list_text(body) {
        let found = definition::carried(definition::parameters_of(list));
        if found.len() == args.len() {
            no_type_disagrees(id, found, args, spellings, found.len() as int);
        }
    }
}

// ---------------------------------------------------------------------------
// The table of a trigger

/// A bare name is that of a table where it folds to the table's own, and one
/// under a schema where both do.
pub proof fn a_bare_name_is_folded(
    schema: Seq<char>,
    name: Seq<char>,
    on: model::Qualified,
    decodings: Seq<Decoding>,
)
    requires
        is_word(schema),
        is_word(name),
    ensures
        definition::names_table(name, on, decodings) <==> text::lower(name) == on.1,
        definition::names_table(schema + "."@ + name, on, decodings) <==> text::lower(schema)
            == on.0 && text::lower(name) == on.1,
{
    reveal_strlit(".");
    let none = Seq::<Seq<char>>::empty();
    assert(name.subrange(0, name.len() as int) =~= name);
    a_word_is_an_ident(name, 0, name);
    an_end_is_an_end(name);
    a_word_is_no_quote(name);
    a_word_is_no_quote(schema);
    assert(definition::read_name(name, 0, none, decodings) == definition::NameReading::Parts(
        none.push(text::lower(name)),
    ));
    assert(none.push(text::lower(name))[0] == text::lower(name));
    let s = schema + "."@ + name;
    let n = schema.len() as int;
    assert(s.subrange(0, n) =~= schema);
    assert(s[n] == '.');
    a_word_is_an_ident(s, 0, schema);
    assert(lexer::past_gap(s, n) == n);
    assert(lexer::one_ident_end(s, n) is None) by {
        assert(lexer::ident_end(s, n) == n);
    }
    assert(lexer::escape_clause_end(s, n) is None);
    assert(definition::escape_after(s, n) == ('\\', n));
    assert(s.subrange(n + 1, s.len() as int) =~= name);
    a_word_is_an_ident(s, n + 1, name);
    an_end_is_an_end(s);
    let one = none.push(text::lower(schema));
    let two = one.push(text::lower(name));
    assert(definition::read_name(s, n + 1, one, decodings) == definition::NameReading::Parts(two));
    assert(definition::read_name(s, 0, none, decodings) == definition::read_name(
        s,
        n + 1,
        one,
        decodings,
    ));
    assert(two[0] == text::lower(schema) && two[1] == text::lower(name) && two.len() == 2);
}

proof fn an_end_is_an_end(s: Seq<char>)
    ensures
        definition::escape_after(s, s.len() as int) == ('\\', s.len() as int),
{
    let n = s.len() as int;
    assert(lexer::past_gap(s, n) == n);
    assert(lexer::one_ident_end(s, n) is None) by {
        assert(lexer::ident_end(s, n) == n);
    }
}

proof fn a_word_is_no_quote(w: Seq<char>)
    requires
        is_word(w),
    ensures
        !lexer::is_unicode_quoted(w, 0),
        w[0] != '"',
{
    assert(lexer::goes_on(w[0]));
    if w.len() > 2 {
        assert(lexer::goes_on(w[2]));
    }
}

/// Words, each with a space behind it.
pub open spec fn spaced(words: Seq<Seq<char>>) -> Seq<char>
    decreases words.len(),
{
    if words.len() == 0 {
        Seq::empty()
    } else {
        words[0] + " "@ + spaced(words.drop_first())
    }
}

proof fn words_are_passed(s: Seq<char>, at: int, words: Seq<Seq<char>>)
    requires
        is_quiet(s),
        0 <= at,
        at + spaced(words).len() <= s.len(),
        s.subrange(at, at + spaced(words).len()) == spaced(words),
        forall|i: int|
            0 <= i < words.len() ==> is_word(#[trigger] words[i]) && text::lower(words[i]) != "on"@,
    ensures
        definition::on_clause(s, at, 0) == definition::on_clause(
            s,
            at + spaced(words).len(),
            0,
        ),
    decreases words.len(),
{
    if words.len() > 0 {
        reveal_strlit(" ");
        modes_are_small();
        let w = words[0];
        let rest = words.drop_first();
        let all = spaced(words);
        let n = w.len() as int;
        assert(all == w + " "@ + spaced(rest));
        let part = s.subrange(at, at + all.len());
        assert(s.subrange(at, at + n) =~= w) by {
            assert forall|i: int| 0 <= i < n implies s[at + i] == w[i] by {
                assert(part[i] == all[i]);
            }
        }
        assert(s[at + n] == ' ') by {
            assert(part[n] == all[n]);
        }
        assert(is_word(w));
        a_word_is_an_ident(s, at, w);
        nothing_opens_in_quiet(s, at);
        assert(s[at] == s.subrange(at, at + n)[0]);
        assert(lexer::goes_on(w[0]));
        assert(is_quiet_char(s[at]));
        assert(lexer::ident_end(s, at) == at + n);
        assert(definition::on_clause(s, at, 0) == definition::on_clause(s, at + n, 0));
        nothing_opens_in_quiet(s, at + n);
        assert(definition::on_clause(s, at + n, 0) == definition::on_clause(s, at + n + 1, 0));
        assert(s.subrange(at + n + 1, at + n + 1 + spaced(rest).len()) =~= spaced(rest)) by {
            assert forall|i: int| 0 <= i < spaced(rest).len() implies s[at + n + 1 + i] == spaced(
                rest,
            )[i] by {
                assert(part[n + 1 + i] == all[n + 1 + i]);
            }
        }
        assert forall|i: int| 0 <= i < rest.len() implies is_word(#[trigger] rest[i])
            && text::lower(rest[i]) != "on"@ by {
            assert(rest[i] == words[i + 1]);
        }
        words_are_passed(s, at + n + 1, rest);
    }
}

proof fn a_name_behind_on(
    s: Seq<char>,
    a: int,
    b: int,
    c: int,
    d: int,
    on: Seq<char>,
    schema: Seq<char>,
    name: Seq<char>,
)
    requires
        is_quiet(s),
        is_word(on) && text::lower(on) == "on"@,
        is_word(schema),
        is_word(name),
        0 <= a,
        b == a + on.len(),
        c == b + 1 + schema.len(),
        d == c + 1 + name.len(),
        d <= s.len(),
        s.subrange(a, b) == on,
        s[b] == ' ',
        s.subrange(b + 1, c) == schema,
        s[c] == '.',
        s.subrange(c + 1, d) == name,
        d < s.len() ==> d + 1 < s.len() && s[d] == ' ' && lexer::goes_on(s[d + 1]),
    ensures
        definition::on_clause(s, a, 0) == Some((b + 1, d)),
{
    modes_are_small();
    a_word_is_an_ident(s, a, on);
    nothing_opens_in_quiet(s, a);
    assert(s[a] == s.subrange(a, b)[0]);
    assert(lexer::goes_on(on[0]));
    assert(is_quiet_char(s[a]));
    assert(lexer::ident_end(s, a) == b);
    assert(s[b + 1] == s.subrange(b + 1, c)[0]);
    assert(lexer::goes_on(schema[0]));
    a_space_is_a_gap(s, b);
    a_word_is_an_ident(s, b + 1, schema);
    a_dot_is_no_clause(s, c);
    a_word_is_an_ident(s, c + 1, name);
    assert(lexer::name_end(s, c) == lexer::name_end(s, d));
    name_ends(s, d);
    assert(lexer::qualified_end(s, b + 1) == Some(d));
}

proof fn a_table_is_found(
    s: Seq<char>,
    words: Seq<Seq<char>>,
    b: int,
    c: int,
    d: int,
    on: Seq<char>,
    schema: Seq<char>,
    name: Seq<char>,
)
    requires
        forall|i: int|
            0 <= i < words.len() ==> is_word(#[trigger] words[i]) && text::lower(words[i]) != "on"@,
        is_quiet(s),
        is_word(on) && text::lower(on) == "on"@,
        is_word(schema),
        is_word(name),
        b == spaced(words).len() + on.len(),
        c == b + 1 + schema.len(),
        d == c + 1 + name.len(),
        d <= s.len(),
        s.subrange(0, spaced(words).len() as int) == spaced(words),
        s.subrange(spaced(words).len() as int, b) == on,
        s[b] == ' ',
        s.subrange(b + 1, c) == schema,
        s[c] == '.',
        s.subrange(c + 1, d) == name,
        d < s.len() ==> d + 1 < s.len() && s[d] == ' ' && lexer::goes_on(s[d + 1]),
    ensures
        definition::table_in_body(s) == Some(s.subrange(b + 1, d)),
{
    words_are_passed(s, 0, words);
    a_name_behind_on(s, spaced(words).len() as int, b, c, d, on, schema, name);
}

proof fn a_dot_is_no_clause(s: Seq<char>, at: int)
    requires
        0 <= at < s.len(),
        s[at] == '.',
    ensures
        lexer::past_gap(s, at) == at,
        lexer::escape_clause_end(s, at) is None,
{
    assert(lexer::one_ident_end(s, at) is None) by {
        assert(lexer::ident_end(s, at) == at);
    }
}

proof fn clause_is_in_parts(
    front: Seq<char>,
    on: Seq<char>,
    schema: Seq<char>,
    name: Seq<char>,
    back: Seq<char>,
)
    ensures
        ({
            let s = front + on + " "@ + schema + "."@ + name + back;
            let a = front.len() as int;
            let b = a + on.len();
            let c = b + 1 + schema.len();
            let d = c + 1 + name.len();
            &&& s.len() == d + back.len()
            &&& s.subrange(0, a) == front
            &&& s.subrange(a, b) == on
            &&& s[b] == ' '
            &&& s.subrange(b + 1, c) == schema
            &&& s[c] == '.'
            &&& s.subrange(c + 1, d) == name
            &&& s.subrange(b + 1, d) == schema + "."@ + name
            &&& back.len() > 0 ==> s[d] == back[0]
            &&& back.len() > 1 ==> s[d + 1] == back[1]
        }),
{
    reveal_strlit(" ");
    reveal_strlit(".");
    let s = front + on + " "@ + schema + "."@ + name + back;
    let a = front.len() as int;
    let b = a + on.len();
    let c = b + 1 + schema.len();
    let d = c + 1 + name.len();
    assert(s.subrange(0, a) =~= front);
    assert(s.subrange(a, b) =~= on);
    assert(s.subrange(b + 1, c) =~= schema);
    assert(s.subrange(c + 1, d) =~= name);
    assert(s.subrange(b + 1, d) =~= schema + "."@ + name);
}

/// The table of a trigger is the name behind the first `ON` of its definition,
/// whatever words come before it and behind the name.
pub proof fn the_table_stands_behind_on(
    words: Seq<Seq<char>>,
    on: Seq<char>,
    schema: Seq<char>,
    name: Seq<char>,
    back: Seq<char>,
)
    requires
        forall|i: int|
            0 <= i < words.len() ==> is_word(#[trigger] words[i]) && text::lower(words[i]) != "on"@,
        is_word(on) && text::lower(on) == "on"@,
        is_word(schema),
        is_word(name),
        back.len() > 0 ==> back.len() > 1 && back[0] == ' ' && lexer::goes_on(back[1]),
        is_quiet(spaced(words) + on + " "@ + schema + "."@ + name + back),
    ensures
        definition::table_in_body(spaced(words) + on + " "@ + schema + "."@ + name + back) == Some(
            schema + "."@ + name,
        ),
{
    let front = spaced(words);
    let s = front + on + " "@ + schema + "."@ + name + back;
    let b = (front.len() + on.len()) as int;
    let c = b + 1 + schema.len();
    let d = c + 1 + name.len();
    clause_is_in_parts(front, on, schema, name, back);
    a_table_is_found(s, words, b, c, d, on, schema, name);
}

proof fn name_ends(s: Seq<char>, at: int)
    requires
        is_quiet(s),
        0 <= at <= s.len(),
        at < s.len() ==> at + 1 < s.len() && s[at] == ' ' && lexer::goes_on(s[at + 1]),
    ensures
        lexer::name_end(s, at) == Some(at),
{
    let g = if at < s.len() {
        at + 1
    } else {
        at
    };
    if at < s.len() {
        a_space_is_a_gap(s, at);
        assert(s[g] != '.');
    } else {
        assert(lexer::past_gap(s, at) == at);
    }
    match lexer::one_ident_end(s, g) {
        Some(w) => {
            let p = lexer::past_gap(s, w);
            if 0 <= p && p + 2 < s.len() {
                assert(is_quiet_char(s[p]));
            }
        },
        None => {},
    }
    assert(lexer::escape_clause_end(s, g) is None);
}

} // verus!
