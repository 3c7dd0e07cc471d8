//! Text as sequences of characters.
//!
//! Everything this crate writes is text, so what it means to fill a template,
//! to join pieces, to double a quote or to fold a letter is stated here once,
//! over `Seq<char>`, beside the function that does it.
use vstd::prelude::*;
use vstd::slice::slice_subrange;

verus! {

/// `String::push` appends the given character to the end of the string and
/// changes nothing in front of it.
pub assume_specification[ String::push ](s: &mut String, c: char)
    ensures
        final(s)@ == old(s)@.push(c),
;

/// The texts of a sequence of strings.
pub open spec fn texts(v: Seq<String>) -> Seq<Seq<char>> {
    Seq::new(v.len(), |i: int| v[i]@)
}

/// The text of an optional string.
pub open spec fn text_in(o: Option<String>) -> Option<Seq<char>> {
    match o {
        Some(s) => Some(s@),
        None => None,
    }
}

/// Adding one string adds its text.
pub proof fn texts_push(v: Seq<String>, s: String)
    ensures
        texts(v.push(s)) == texts(v).push(s@),
{
    assert(texts(v.push(s)) =~= texts(v).push(s@));
}

/// Whether two texts are the same characters.
pub fn same(a: &str, b: &str) -> (r: bool)
    ensures
        r == (a@ == b@),
{
    a.to_owned() == b.to_owned()
}

/// The characters of a text.
pub fn chars_of(s: &str) -> (r: Vec<char>)
    ensures
        r@ == s@,
{
    let mut out: Vec<char> = Vec::new();
    for c in it: s.chars()
        invariant
            out@ == it.seq().take(it.index() as int),
            it.seq() == s@,
    {
        out.push(c);
    }
    out
}

/// The text some characters spell.
pub fn text_of(cs: &[char]) -> (r: String)
    ensures
        r@ == cs@,
{
    let mut out = String::new();
    let mut i: usize = 0;
    while i < cs.len()
        invariant
            i <= cs@.len(),
            out@ == cs@.take(i as int),
        decreases cs@.len() - i,
    {
        out.push(cs[i]);
        i += 1;
        assert(cs@.take(i as int) =~= cs@.take(i - 1).push(cs@[i - 1]));
    }
    assert(cs@.take(i as int) =~= cs@);
    out
}

/// The part of `cs` between two positions.
pub fn part(cs: &[char], from: usize, to: usize) -> (r: &[char])
    requires
        from <= to <= cs@.len(),
    ensures
        r@ == cs@.subrange(from as int, to as int),
{
    slice_subrange(cs, from, to)
}

/// An owned copy of a list of strings.
pub fn copy_texts(v: &Vec<String>) -> (r: Vec<String>)
    ensures
        texts(r@) == texts(v@),
        r@.len() == v@.len(),
{
    let mut out: Vec<String> = Vec::new();
    let mut i: usize = 0;
    while i < v.len()
        invariant
            i <= v@.len(),
            out@.len() == i,
            texts(out@) == texts(v@).take(i as int),
        decreases v@.len() - i,
    {
        proof {
            assert(texts(v@).take(i as int + 1) =~= texts(v@).take(i as int).push(v@[i as int]@));
        }
        let ghost before = out@;
        let s = v[i].clone();
        out.push(s);
        proof {
            texts_push(before, s);
        }
        i += 1;
    }
    assert(texts(v@).take(i as int) =~= texts(v@));
    out
}

/// Whether `text` is one of `list`.
pub fn listed_in(list: &Vec<String>, text: &str) -> (r: bool)
    ensures
        r == texts(list@).contains(text@),
{
    let mut i: usize = 0;
    while i < list.len()
        invariant
            i <= list@.len(),
            forall|k: int| 0 <= k < i ==> texts(list@)[k] != text@,
        decreases list@.len() - i,
    {
        if same(list[i].as_str(), text) {
            assert(texts(list@)[i as int] == text@);
            return true;
        }
        i += 1;
    }
    false
}

// ---------------------------------------------------------------------------
// Templates

/// What is left of `template` from `at`, with each `{}` replaced by the next
/// of `args` from `k`. A `{}` with no argument left stands for itself.
pub open spec fn filled_from(template: Seq<char>, at: int, args: Seq<Seq<char>>, k: int) -> Seq<
    char,
>
    decreases template.len() - at,
{
    if at < 0 || at >= template.len() {
        Seq::empty()
    } else if at + 1 < template.len() && template[at] == '{' && template[at + 1] == '}' && 0 <= k
        < args.len() {
        args[k] + filled_from(template, at + 2, args, k + 1)
    } else {
        seq![template[at]] + filled_from(template, at + 1, args, k)
    }
}

/// `template` with its `{}` replaced by `args`, in order.
pub open spec fn filled(template: Seq<char>, args: Seq<Seq<char>>) -> Seq<char> {
    filled_from(template, 0, args, 0)
}

/// Fills a template.
pub fn fill(template: &str, args: &Vec<String>) -> (r: String)
    ensures
        r@ == filled(template@, texts(args@)),
{
    let cs = chars_of(template);
    let mut out = String::new();
    let mut at: usize = 0;
    let mut k: usize = 0;
    let ghost a = texts(args@);
    while at < cs.len()
        invariant
            at <= cs@.len(),
            k <= args@.len(),
            a == texts(args@),
            out@ + filled_from(cs@, at as int, a, k as int) == filled(cs@, a),
        decreases cs@.len() - at,
    {
        let ghost before = out@;
        if cs.len() - at >= 2 && cs[at] == '{' && cs[at + 1] == '}' && k < args.len() {
            out.append(args[k].as_str());
            proof {
                assert(before + (a[k as int] + filled_from(cs@, at + 2, a, k + 1)) =~= out@
                    + filled_from(cs@, at + 2, a, k + 1));
            }
            at += 2;
            k += 1;
        } else {
            out.push(cs[at]);
            proof {
                assert(before + (seq![cs@[at as int]] + filled_from(cs@, at + 1, a, k as int))
                    =~= out@ + filled_from(cs@, at + 1, a, k as int));
            }
            at += 1;
        }
    }
    assert(out@ + Seq::<char>::empty() =~= out@);
    out
}

/// Fills a template with one argument.
pub fn fill1(template: &str, a: &str) -> (r: String)
    ensures
        r@ == filled(template@, seq![a@]),
{
    let args: Vec<String> = vec![a.to_owned()];
    assert(texts(args@) =~= seq![a@]);
    fill(template, &args)
}

/// Fills a template with two arguments.
pub fn fill2(template: &str, a: &str, b: &str) -> (r: String)
    ensures
        r@ == filled(template@, seq![a@, b@]),
{
    let args: Vec<String> = vec![a.to_owned(), b.to_owned()];
    assert(texts(args@) =~= seq![a@, b@]);
    fill(template, &args)
}

/// Fills a template with three arguments.
pub fn fill3(template: &str, a: &str, b: &str, c: &str) -> (r: String)
    ensures
        r@ == filled(template@, seq![a@, b@, c@]),
{
    let args: Vec<String> = vec![a.to_owned(), b.to_owned(), c.to_owned()];
    assert(texts(args@) =~= seq![a@, b@, c@]);
    fill(template, &args)
}

/// Fills a template with four arguments.
pub fn fill4(template: &str, a: &str, b: &str, c: &str, d: &str) -> (r: String)
    ensures
        r@ == filled(template@, seq![a@, b@, c@, d@]),
{
    let args: Vec<String> = vec![a.to_owned(), b.to_owned(), c.to_owned(), d.to_owned()];
    assert(texts(args@) =~= seq![a@, b@, c@, d@]);
    fill(template, &args)
}

/// Fills a template with five arguments.
pub fn fill5(template: &str, a: &str, b: &str, c: &str, d: &str, e: &str) -> (r: String)
    ensures
        r@ == filled(template@, seq![a@, b@, c@, d@, e@]),
{
    let args: Vec<String> = vec![
        a.to_owned(),
        b.to_owned(),
        c.to_owned(),
        d.to_owned(),
        e.to_owned(),
    ];
    assert(texts(args@) =~= seq![a@, b@, c@, d@, e@]);
    fill(template, &args)
}

/// One text after another.
pub fn glue(a: &str, b: &str) -> (r: String)
    ensures
        r@ == a@ + b@,
{
    let mut out = a.to_owned();
    out.append(b);
    out
}

// ---------------------------------------------------------------------------
// Joining

/// `parts` with `separator` between each two of them.
pub open spec fn joined(parts: Seq<Seq<char>>, separator: Seq<char>) -> Seq<char>
    decreases parts.len(),
{
    if parts.len() == 0 {
        Seq::empty()
    } else if parts.len() == 1 {
        parts[0]
    } else {
        joined(parts.drop_last(), separator) + separator + parts.last()
    }
}

/// Joins texts with a separator.
pub fn join(parts: &Vec<String>, separator: &str) -> (r: String)
    ensures
        r@ == joined(texts(parts@), separator@),
{
    let mut out = String::new();
    let mut i: usize = 0;
    let ghost all = texts(parts@);
    while i < parts.len()
        invariant
            i <= parts@.len(),
            all == texts(parts@),
            out@ == joined(all.take(i as int), separator@),
        decreases parts@.len() - i,
    {
        proof {
            assert(all.take(i as int + 1).drop_last() =~= all.take(i as int));
            assert(all.take(i as int + 1).last() == parts@[i as int]@);
        }
        if i > 0 {
            out.append(separator);
        }
        out.append(parts[i].as_str());
        proof {
            if i == 0 {
                assert(Seq::<char>::empty() + parts@[0]@ =~= parts@[0]@);
            }
        }
        i += 1;
    }
    assert(all.take(i as int) =~= all);
    out
}

// ---------------------------------------------------------------------------
// Searching

/// Whether `needle` stands in `s` at `at`.
pub open spec fn occurs_at(s: Seq<char>, needle: Seq<char>, at: int) -> bool {
    &&& 0 <= at
    &&& at + needle.len() <= s.len()
    &&& s.subrange(at, at + needle.len()) == needle
}

/// Whether `needle` stands anywhere in `s`.
pub open spec fn holds(s: Seq<char>, needle: Seq<char>) -> bool {
    exists|at: int| occurs_at(s, needle, at)
}

/// The first position at or after `from` where `needle` stands in `s`.
pub open spec fn first_at(s: Seq<char>, needle: Seq<char>, from: int) -> Option<int>
    decreases s.len() + 1 - from,
{
    if from < 0 || from + needle.len() > s.len() {
        None
    } else if occurs_at(s, needle, from) {
        Some(from)
    } else {
        first_at(s, needle, from + 1)
    }
}

/// Whether `needle` stands in `s` at `at`.
pub fn stands_at(s: &[char], needle: &[char], at: usize) -> (r: bool)
    requires
        at <= s@.len(),
    ensures
        r == occurs_at(s@, needle@, at as int),
{
    let n: usize = s.len();
    if needle.len() > n - at {
        return false;
    }
    let mut i: usize = 0;
    while i < needle.len()
        invariant
            i <= needle@.len(),
            n == s@.len(),
            at + needle@.len() <= n,
            forall|k: int| 0 <= k < i ==> s@[at + k] == needle@[k],
        decreases needle@.len() - i,
    {
        if s[at + i] != needle[i] {
            assert(s@.subrange(at as int, at + needle@.len())[i as int] != needle@[i as int]);
            return false;
        }
        i += 1;
    }
    assert(s@.subrange(at as int, at + needle@.len()) =~= needle@);
    true
}

/// The first position at or after `from` where `needle` stands in `s`.
pub fn find_from(s: &[char], needle: &[char], from: usize) -> (r: Option<usize>)
    requires
        from <= s@.len(),
    ensures
        match r {
            Some(at) => first_at(s@, needle@, from as int) == Some(at as int) && from <= at
                && at + needle@.len() <= s@.len(),
            None => first_at(s@, needle@, from as int) is None,
        },
{
    if needle.len() > s.len() {
        return None;
    }
    let last: usize = s.len() - needle.len();
    if from > last {
        return None;
    }
    let mut at: usize = from;
    while at < last
        invariant
            from <= at <= last,
            last + needle@.len() == s@.len(),
            first_at(s@, needle@, from as int) == first_at(s@, needle@, at as int),
        decreases last - at,
    {
        if stands_at(s, needle, at) {
            return Some(at);
        }
        at += 1;
    }
    if stands_at(s, needle, last) {
        Some(last)
    } else {
        assert(first_at(s@, needle@, last + 1) is None);
        None
    }
}

/// A first position is a position, and nothing stands in front of it.
pub proof fn first_at_is_first(s: Seq<char>, needle: Seq<char>, from: int)
    requires
        0 <= from,
    ensures
        match first_at(s, needle, from) {
            Some(at) => from <= at && occurs_at(s, needle, at) && forall|k: int|
                from <= k < at ==> !occurs_at(s, needle, k),
            None => forall|k: int| from <= k ==> !occurs_at(s, needle, k),
        },
    decreases s.len() + 1 - from,
{
    if from + needle.len() > s.len() {
    } else if occurs_at(s, needle, from) {
    } else {
        first_at_is_first(s, needle, from + 1);
    }
}

/// Whether `needle` stands anywhere in `s`.
pub fn has(s: &str, needle: &str) -> (r: bool)
    ensures
        r == holds(s@, needle@),
{
    let cs = chars_of(s);
    let ns = chars_of(needle);
    proof {
        first_at_is_first(cs@, ns@, 0);
    }
    match find_from(cs.as_slice(), ns.as_slice(), 0) {
        Some(at) => {
            assert(occurs_at(s@, needle@, at as int));
            true
        },
        None => false,
    }
}

/// Whether `s` begins with `prefix`.
pub open spec fn begins(s: Seq<char>, prefix: Seq<char>) -> bool {
    occurs_at(s, prefix, 0)
}

/// Whether `s` begins with `prefix`.
pub fn starts(s: &str, prefix: &str) -> (r: bool)
    ensures
        r == begins(s@, prefix@),
{
    let cs = chars_of(s);
    let ps = chars_of(prefix);
    stands_at(cs.as_slice(), ps.as_slice(), 0)
}

/// Whether `s` ends with `suffix`.
pub open spec fn ends(s: Seq<char>, suffix: Seq<char>) -> bool {
    occurs_at(s, suffix, s.len() - suffix.len())
}

/// Whether `s` ends with `suffix`.
pub fn finishes(s: &str, suffix: &str) -> (r: bool)
    ensures
        r == ends(s@, suffix@),
{
    let cs = chars_of(s);
    let ss = chars_of(suffix);
    if ss.len() > cs.len() {
        return false;
    }
    stands_at(cs.as_slice(), ss.as_slice(), cs.len() - ss.len())
}

/// Whether the character stands in the text.
pub fn has_char(s: &str, c: char) -> (r: bool)
    ensures
        r == s@.contains(c),
{
    let cs = chars_of(s);
    let mut i: usize = 0;
    while i < cs.len()
        invariant
            i <= cs@.len(),
            cs@ == s@,
            forall|k: int| 0 <= k < i ==> cs@[k] != c,
        decreases cs@.len() - i,
    {
        if cs[i] == c {
            assert(s@[i as int] == c);
            return true;
        }
        i += 1;
    }
    false
}

// ---------------------------------------------------------------------------
// Doubling

/// `s` with every `q` written twice.
pub open spec fn doubled(s: Seq<char>, q: char) -> Seq<char>
    decreases s.len(),
{
    if s.len() == 0 {
        Seq::empty()
    } else if s.last() == q {
        doubled(s.drop_last(), q).push(q).push(q)
    } else {
        doubled(s.drop_last(), q).push(s.last())
    }
}

/// `s` from `at` with every two `q` in a row read as one.
pub open spec fn undoubled_from(s: Seq<char>, q: char, at: int) -> Seq<char>
    decreases s.len() - at,
{
    if at < 0 || at >= s.len() {
        Seq::empty()
    } else if s[at] == q && at + 1 < s.len() && s[at + 1] == q {
        seq![q] + undoubled_from(s, q, at + 2)
    } else {
        seq![s[at]] + undoubled_from(s, q, at + 1)
    }
}

/// Writes every `q` of a text twice.
pub fn double(s: &str, q: char) -> (r: String)
    ensures
        r@ == doubled(s@, q),
{
    let cs = chars_of(s);
    let mut out = String::new();
    let mut i: usize = 0;
    while i < cs.len()
        invariant
            i <= cs@.len(),
            out@ == doubled(cs@.take(i as int), q),
        decreases cs@.len() - i,
    {
        proof {
            assert(cs@.take(i as int + 1).drop_last() =~= cs@.take(i as int));
        }
        out.push(cs[i]);
        if cs[i] == q {
            out.push(q);
        }
        i += 1;
    }
    assert(cs@.take(i as int) =~= cs@);
    out
}

/// Reads every two `q` in a row as one.
pub fn undouble(cs: &[char], q: char) -> (r: String)
    ensures
        r@ == undoubled_from(cs@, q, 0),
{
    let mut out = String::new();
    let mut at: usize = 0;
    while at < cs.len()
        invariant
            at <= cs@.len(),
            out@ + undoubled_from(cs@, q, at as int) == undoubled_from(cs@, q, 0),
        decreases cs@.len() - at,
    {
        let ghost before = out@;
        if cs[at] == q && cs.len() - at >= 2 && cs[at + 1] == q {
            out.push(q);
            proof {
                assert(before + (seq![q] + undoubled_from(cs@, q, at + 2)) =~= out@
                    + undoubled_from(cs@, q, at + 2));
            }
            at += 2;
        } else {
            out.push(cs[at]);
            proof {
                assert(before + (seq![cs@[at as int]] + undoubled_from(cs@, q, at + 1)) =~= out@
                    + undoubled_from(cs@, q, at + 1));
            }
            at += 1;
        }
    }
    assert(out@ + Seq::<char>::empty() =~= out@);
    out
}

// ---------------------------------------------------------------------------
// Letters

/// An ASCII capital letter.
pub open spec fn is_upper(c: char) -> bool {
    'A' <= c && c <= 'Z'
}

/// `c` folded to lower case, where it is an ASCII letter.
pub open spec fn lower_char(c: char) -> char {
    if is_upper(c) {
        ((c as u32) + 32) as u32 as char
    } else {
        c
    }
}

/// `s` with its ASCII letters folded to lower case.
pub open spec fn lower(s: Seq<char>) -> Seq<char> {
    Seq::new(s.len(), |i: int| lower_char(s[i]))
}

/// Folds one character.
pub fn fold_char(c: char) -> (r: char)
    ensures
        r == lower_char(c),
{
    if 'A' <= c && c <= 'Z' {
        ((c as u8) + 32) as char
    } else {
        c
    }
}

/// Folds the ASCII letters of some characters.
pub fn fold_chars(cs: &[char]) -> (r: String)
    ensures
        r@ == lower(cs@),
{
    let mut out = String::new();
    let mut i: usize = 0;
    while i < cs.len()
        invariant
            i <= cs@.len(),
            out@ == lower(cs@.take(i as int)),
        decreases cs@.len() - i,
    {
        out.push(fold_char(cs[i]));
        i += 1;
        assert(lower(cs@.take(i as int)) =~= lower(cs@.take(i - 1)).push(lower_char(cs@[i - 1])));
    }
    assert(cs@.take(i as int) =~= cs@);
    out
}

/// Folds the ASCII letters of a text.
pub fn fold(s: &str) -> (r: String)
    ensures
        r@ == lower(s@),
{
    let cs = chars_of(s);
    fold_chars(cs.as_slice())
}

/// Whether some characters spell `word` in any case.
pub fn spells(cs: &[char], word: &str) -> (r: bool)
    ensures
        r == (lower(cs@) == lower(word@)),
{
    fold_chars(cs) == fold(word)
}

/// ASCII white space, as the engine's lexer reads it.
pub open spec fn is_space(c: char) -> bool {
    c == ' ' || c == '\t' || c == '\n' || c == '\r' || c == '\u{c}'
}

/// Whether `c` is ASCII white space.
pub fn space(c: char) -> (r: bool)
    ensures
        r == is_space(c),
{
    c == ' ' || c == '\t' || c == '\n' || c == '\r' || c == '\u{c}'
}

/// White space in Unicode's sense.
pub open spec fn is_white(c: char) -> bool {
    ||| '\u{9}' <= c && c <= '\u{d}'
    ||| c == ' '
    ||| c == '\u{85}'
    ||| c == '\u{a0}'
    ||| c == '\u{1680}'
    ||| '\u{2000}' <= c && c <= '\u{200a}'
    ||| c == '\u{2028}'
    ||| c == '\u{2029}'
    ||| c == '\u{202f}'
    ||| c == '\u{205f}'
    ||| c == '\u{3000}'
}

/// Whether `c` is white space in Unicode's sense.
pub fn white(c: char) -> (r: bool)
    ensures
        r == is_white(c),
{
    ('\u{9}' <= c && c <= '\u{d}') || c == ' ' || c == '\u{85}' || c == '\u{a0}' || c
        == '\u{1680}' || ('\u{2000}' <= c && c <= '\u{200a}') || c == '\u{2028}' || c == '\u{2029}'
        || c == '\u{202f}' || c == '\u{205f}' || c == '\u{3000}'
}

/// The first position at or after `at` that is not white.
pub open spec fn white_from(s: Seq<char>, at: int) -> int
    decreases s.len() - at,
{
    if at < 0 || at >= s.len() || !is_white(s[at]) {
        at
    } else {
        white_from(s, at + 1)
    }
}

/// The end of what is left in front of `to` without the white space it ends
/// with, but no less than `from`.
pub open spec fn white_to(s: Seq<char>, from: int, to: int) -> int
    decreases to - from,
{
    if to <= from || !is_white(s[to - 1]) {
        to
    } else {
        white_to(s, from, to - 1)
    }
}

/// `s` without the white space at either end.
pub open spec fn stripped(s: Seq<char>) -> Seq<char> {
    let from = white_from(s, 0);
    s.subrange(from, white_to(s, from, s.len() as int))
}

/// Where the text begins, past its leading white space.
pub fn past_white(s: &[char]) -> (r: usize)
    ensures
        r == white_from(s@, 0),
        r <= s@.len(),
{
    let mut i: usize = 0;
    while i < s.len() && white(s[i])
        invariant
            i <= s@.len(),
            white_from(s@, 0) == white_from(s@, i as int),
        decreases s@.len() - i,
    {
        i += 1;
    }
    i
}

/// Where the text in front of `to` ends, before its trailing white space.
pub fn before_white(s: &[char], from: usize, to: usize) -> (r: usize)
    requires
        from <= to <= s@.len(),
    ensures
        r == white_to(s@, from as int, to as int),
        from <= r <= to,
{
    let mut i: usize = to;
    while i > from && white(s[i - 1])
        invariant
            from <= i <= to <= s@.len(),
            white_to(s@, from as int, to as int) == white_to(s@, from as int, i as int),
        decreases i,
    {
        i -= 1;
    }
    i
}

/// The text without the white space at either end.
pub fn strip(s: &[char]) -> (r: &[char])
    ensures
        r@ == stripped(s@),
{
    let from = past_white(s);
    let to = before_white(s, from, s.len());
    part(s, from, to)
}

/// The end of what is left in front of `to` without the `c` it ends with.
pub open spec fn without_to(s: Seq<char>, c: char, to: int) -> int
    decreases to,
{
    if to <= 0 || s[to - 1] != c {
        to
    } else {
        without_to(s, c, to - 1)
    }
}

/// The text without the `c` it ends with, however many there are.
pub fn without_end<'a>(s: &'a [char], c: char) -> (r: &'a [char])
    ensures
        r@ == s@.take(without_to(s@, c, s@.len() as int)),
{
    let mut i: usize = s.len();
    while i > 0 && s[i - 1] == c
        invariant
            i <= s@.len(),
            without_to(s@, c, s@.len() as int) == without_to(s@, c, i as int),
        decreases i,
    {
        i -= 1;
    }
    assert(s@.subrange(0, i as int) =~= s@.take(i as int));
    part(s, 0, i)
}

// ---------------------------------------------------------------------------
// Numbers

/// One decimal digit.
pub open spec fn digit(n: nat) -> char {
    (48 + n % 10) as u32 as char
}

/// A natural number in decimal.
pub open spec fn decimal(n: nat) -> Seq<char>
    decreases n,
{
    if n < 10 {
        seq![digit(n)]
    } else {
        decimal(n / 10).push(digit(n))
    }
}

/// An integer in decimal, with a minus sign in front where it is negative.
pub open spec fn decimal_int(n: int) -> Seq<char> {
    if n < 0 {
        seq!['-'] + decimal((-n) as nat)
    } else {
        decimal(n as nat)
    }
}

/// A number in decimal.
pub fn show(n: u64) -> (r: String)
    ensures
        r@ == decimal(n as nat),
    decreases n,
{
    let mut out = if n < 10 {
        String::new()
    } else {
        show(n / 10)
    };
    let d: u8 = (n % 10) as u8;
    out.push((48 + d) as char);
    assert(Seq::<char>::empty().push(digit(n as nat)) =~= seq![digit(n as nat)]);
    out
}

/// A count in decimal.
pub fn show_len(n: usize) -> (r: String)
    ensures
        r@ == decimal(n as nat),
{
    show(n as u64)
}

/// A signed number in decimal.
pub fn show_int(n: i64) -> (r: String)
    ensures
        r@ == decimal_int(n as int),
{
    if n >= 0 {
        show(n as u64)
    } else if n == i64::MIN {
        glue_minus(9223372036854775808u64)
    } else {
        glue_minus((-n) as u64)
    }
}

/// A minus sign and a number.
fn glue_minus(n: u64) -> (r: String)
    ensures
        r@ == seq!['-'] + decimal(n as nat),
{
    let mut out = String::new();
    out.push('-');
    let digits = show(n);
    out.append(digits.as_str());
    assert(Seq::<char>::empty().push('-') =~= seq!['-']);
    out
}

/// A character as a text.
pub fn one_char(c: char) -> (r: String)
    ensures
        r@ == seq![c],
{
    let mut out = String::new();
    out.push(c);
    assert(Seq::<char>::empty().push(c) =~= seq![c]);
    out
}

// ---------------------------------------------------------------------------
// Laws of text

/// Doubling appends: what stands after a text is doubled on its own.
pub proof fn doubled_appends(a: Seq<char>, b: Seq<char>, q: char)
    ensures
        doubled(a + b, q) == doubled(a, q) + doubled(b, q),
    decreases b.len(),
{
    if b.len() == 0 {
        assert(a + b =~= a);
        assert(doubled(a, q) + doubled(b, q) =~= doubled(a, q));
    } else {
        doubled_appends(a, b.drop_last(), q);
        assert((a + b).drop_last() =~= a + b.drop_last());
        assert(doubled(a + b, q) =~= doubled(a, q) + doubled(b, q));
    }
}

/// Reading doubled quotes back gives the text that was doubled, whatever
/// stands in front of it.
pub proof fn undoubled_reads_doubled(front: Seq<char>, s: Seq<char>, q: char)
    ensures
        undoubled_from(front + doubled(s, q), q, front.len() as int) == s,
    decreases s.len(),
{
    reveal_with_fuel(doubled, 2);
    let whole = front + doubled(s, q);
    if s.len() == 0 {
        assert(undoubled_from(whole, q, front.len() as int) =~= s);
    } else {
        let head = seq![s[0]];
        let tail = s.drop_first();
        assert(s =~= head + tail);
        doubled_appends(head, tail, q);
        assert(head.drop_last() =~= Seq::<char>::empty());
        if s[0] == q {
            assert(doubled(head, q) =~= seq![q, q]);
            let next = front + seq![q, q];
            assert(whole =~= next + doubled(tail, q));
            undoubled_reads_doubled(next, tail, q);
            assert(whole[front.len() as int] == q && whole[front.len() as int + 1] == q);
        } else {
            assert(doubled(head, q) =~= head);
            let next = front + head;
            assert(whole =~= next + doubled(tail, q));
            undoubled_reads_doubled(next, tail, q);
            assert(whole[front.len() as int] == s[0]);
        }
        assert(undoubled_from(whole, q, front.len() as int) =~= s);
    }
}

/// Folding a folded text changes nothing.
pub proof fn folding_is_idempotent(s: Seq<char>)
    ensures
        lower(lower(s)) == lower(s),
{
    assert forall|i: int| 0 <= i < s.len() implies lower(lower(s))[i] == lower(s)[i] by {
        let c = s[i];
        if is_upper(c) {
            assert(lower_char(c) as u32 == c as u32 + 32);
        }
    }
    assert(lower(lower(s)) =~= lower(s));
}

/// Every character of a decimal is a digit.
pub proof fn decimal_is_digits(n: nat)
    ensures
        decimal(n).len() > 0,
        forall|i: int|
            0 <= i < decimal(n).len() ==> '0' <= #[trigger] decimal(n)[i] && decimal(n)[i] <= '9',
    decreases n,
{
    assert('0' <= digit(n) && digit(n) <= '9');
    if n >= 10 {
        decimal_is_digits(n / 10);
    }
}

/// Two numbers with the same decimal are the same number.
pub proof fn decimal_is_injective(a: nat, b: nat)
    requires
        decimal(a) == decimal(b),
    ensures
        a == b,
    decreases a + b,
{
    assert(decimal(a).last() == digit(a));
    assert(decimal(b).last() == digit(b));
    assert(digit(a) as u32 == 48 + a % 10);
    assert(digit(b) as u32 == 48 + b % 10);
    if a >= 10 {
        decimal_is_digits(a / 10);
    }
    if b >= 10 {
        decimal_is_digits(b / 10);
    }
    if a < 10 && b < 10 {
    } else if a < 10 {
        assert(decimal(a).len() == 1);
    } else if b < 10 {
        assert(decimal(b).len() == 1);
    } else {
        assert(decimal(a).drop_last() =~= decimal(a / 10));
        assert(decimal(b).drop_last() =~= decimal(b / 10));
        decimal_is_injective(a / 10, b / 10);
    }
}

} // verus!
