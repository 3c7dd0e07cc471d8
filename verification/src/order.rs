//! The order of texts, and sorted lists of them.
//!
//! A text comes before another as their characters do, from the first on; a
//! text comes before every longer text that begins with it.
use vstd::prelude::*;

use crate::text;

verus! {

/// Whether `a` comes before `b`, from their `i`th characters on.
pub open spec fn before_from(a: Seq<char>, b: Seq<char>, i: int) -> bool
    decreases b.len() - i,
{
    if i < 0 || i >= b.len() {
        false
    } else if i >= a.len() {
        true
    } else if a[i] < b[i] {
        true
    } else if b[i] < a[i] {
        false
    } else {
        before_from(a, b, i + 1)
    }
}

/// Whether `a` comes before `b`.
pub open spec fn before(a: Seq<char>, b: Seq<char>) -> bool {
    before_from(a, b, 0)
}

/// Whether each text comes before every later one.
pub open spec fn sorted(v: Seq<Seq<char>>) -> bool {
    forall|i: int, j: int| 0 <= i < j < v.len() ==> before(#[trigger] v[i], #[trigger] v[j])
}

/// Whether `a` comes before `b`.
pub fn comes_before(a: &str, b: &str) -> (r: bool)
    ensures
        r == before(a@, b@),
{
    let x = text::chars_of(a);
    let y = text::chars_of(b);
    let mut i: usize = 0;
    while i < y.len()
        invariant
            i <= y@.len(),
            x@ == a@,
            y@ == b@,
            before(a@, b@) == before_from(a@, b@, i as int),
        decreases y@.len() - i,
    {
        if i >= x.len() {
            return true;
        }
        if x[i] < y[i] {
            return true;
        }
        if y[i] < x[i] {
            return false;
        }
        i += 1;
    }
    false
}

proof fn not_before_itself(a: Seq<char>, i: int)
    requires
        0 <= i,
    ensures
        !before_from(a, a, i),
    decreases a.len() - i,
{
    if i < a.len() {
        not_before_itself(a, i + 1);
    }
}

proof fn before_chains(a: Seq<char>, b: Seq<char>, c: Seq<char>, i: int)
    requires
        0 <= i,
        before_from(a, b, i),
        before_from(b, c, i),
    ensures
        before_from(a, c, i),
    decreases b.len() - i,
{
    if i < a.len() && i < b.len() && i < c.len() && a[i] == b[i] && b[i] == c[i] {
        before_chains(a, b, c, i + 1);
    }
}

proof fn one_is_first(a: Seq<char>, b: Seq<char>, i: int)
    requires
        0 <= i <= a.len(),
        i <= b.len(),
        forall|k: int| 0 <= k < i ==> a[k] == b[k],
    ensures
        before_from(a, b, i) || before_from(b, a, i) || a == b,
    decreases b.len() - i,
{
    if i >= b.len() {
        if i >= a.len() {
            assert(a =~= b);
        }
    } else if i < a.len() && a[i] == b[i] {
        one_is_first(a, b, i + 1);
    }
}

/// No text comes before itself.
pub proof fn before_is_strict(a: Seq<char>)
    ensures
        !before(a, a),
{
    not_before_itself(a, 0);
}

/// What comes before something that comes before a third comes before the
/// third.
pub proof fn before_is_transitive(a: Seq<char>, b: Seq<char>, c: Seq<char>)
    requires
        before(a, b),
        before(b, c),
    ensures
        before(a, c),
{
    before_chains(a, b, c, 0);
}

/// Of two different texts one comes before the other.
pub proof fn before_is_total(a: Seq<char>, b: Seq<char>)
    ensures
        before(a, b) || before(b, a) || a == b,
{
    one_is_first(a, b, 0);
}

/// Two sorted lists of the same texts are the same list.
pub proof fn sorted_is_unique(a: Seq<Seq<char>>, b: Seq<Seq<char>>)
    requires
        sorted(a),
        sorted(b),
        forall|t: Seq<char>| a.contains(t) <==> b.contains(t),
    ensures
        a == b,
    decreases a.len(),
{
    if a.len() == 0 {
        if b.len() > 0 {
            assert(b.contains(b[0]));
        }
        assert(a =~= b);
    } else if b.len() == 0 {
        assert(a.contains(a[0]));
    } else {
        let x = a.last();
        let y = b.last();
        assert(a.contains(x));
        assert(b.contains(y));
        let i = choose|i: int| 0 <= i < b.len() && b[i] == x;
        let j = choose|j: int| 0 <= j < a.len() && a[j] == y;
        if i < b.len() - 1 && j < a.len() - 1 {
            assert(before(b[i], b[b.len() - 1]));
            assert(before(a[j], a[a.len() - 1]));
            before_is_transitive(x, y, x);
            before_is_strict(x);
        }
        assert(x == y);
        let p = a.drop_last();
        let q = b.drop_last();
        assert forall|t: Seq<char>| p.contains(t) <==> q.contains(t) by {
            if p.contains(t) {
                let k = choose|k: int| 0 <= k < p.len() && p[k] == t;
                assert(a[k] == t && a.contains(t));
                let m = choose|m: int| 0 <= m < b.len() && b[m] == t;
                if m == b.len() - 1 {
                    assert(before(a[k], a[a.len() - 1]));
                    before_is_strict(x);
                }
                assert(q[m] == t);
            }
            if q.contains(t) {
                let k = choose|k: int| 0 <= k < q.len() && q[k] == t;
                assert(b[k] == t && b.contains(t));
                let m = choose|m: int| 0 <= m < a.len() && a[m] == t;
                if m == a.len() - 1 {
                    assert(before(b[k], b[b.len() - 1]));
                    before_is_strict(y);
                }
                assert(p[m] == t);
            }
        }
        sorted_is_unique(p, q);
        assert(a =~= p.push(x));
        assert(b =~= q.push(y));
    }
}

/// The first place from `at` on whose text does not come before `s`.
pub open spec fn place_from(list: Seq<Seq<char>>, s: Seq<char>, at: int) -> int
    decreases list.len() - at,
{
    if at < 0 || at >= list.len() {
        list.len() as int
    } else if before(list[at], s) {
        place_from(list, s, at + 1)
    } else {
        at
    }
}

/// The list with `s` in it, once, in front of what does not come before it.
pub open spec fn with_text(list: Seq<Seq<char>>, s: Seq<char>) -> Seq<Seq<char>> {
    let p = place_from(list, s, 0);
    if p < list.len() && list[p] == s {
        list
    } else {
        list.insert(p, s)
    }
}

proof fn place_is_first(list: Seq<Seq<char>>, s: Seq<char>, at: int)
    requires
        0 <= at <= list.len(),
    ensures
        at <= place_from(list, s, at) <= list.len(),
        forall|k: int| at <= k < place_from(list, s, at) ==> before(#[trigger] list[k], s),
        place_from(list, s, at) < list.len() ==> !before(list[place_from(list, s, at)], s),
    decreases list.len() - at,
{
    if at < list.len() && before(list[at], s) {
        place_is_first(list, s, at + 1);
    }
}

/// A text's place is in the list or right behind it.
pub proof fn place_is_in_range(list: Seq<Seq<char>>, s: Seq<char>)
    ensures
        0 <= place_from(list, s, 0) <= list.len(),
{
    place_is_first(list, s, 0);
}

/// Putting a text into a sorted list keeps it sorted, and adds that text and
/// nothing else.
pub proof fn with_text_is_sorted(list: Seq<Seq<char>>, s: Seq<char>)
    requires
        sorted(list),
    ensures
        sorted(with_text(list, s)),
        forall|t: Seq<char>|
            #[trigger] with_text(list, s).contains(t) <==> list.contains(t) || t == s,
{
    let p = place_from(list, s, 0);
    let n = with_text(list, s);
    place_is_first(list, s, 0);
    let there = p < list.len() && list[p] == s;
    if !there && p < list.len() {
        before_is_total(list[p], s);
    }
    assert forall|i: int, j: int| 0 <= i < j < n.len() implies before(
        #[trigger] n[i],
        #[trigger] n[j],
    ) by {
        if there {
        } else if j < p {
            assert(n[i] == list[i] && n[j] == list[j]);
        } else if j == p {
            assert(n[i] == list[i]);
        } else if i == p {
            assert(n[j] == list[j - 1]);
            if j - 1 > p {
                before_is_transitive(s, list[p], list[j - 1]);
            }
        } else if i < p {
            assert(n[i] == list[i] && n[j] == list[j - 1]);
        } else {
            assert(n[i] == list[i - 1] && n[j] == list[j - 1]);
        }
    }
    assert forall|t: Seq<char>| #[trigger] n.contains(t) <==> list.contains(t) || t == s by {
        if n.contains(t) {
            let k = choose|k: int| 0 <= k < n.len() && n[k] == t;
            if there || k < p {
                assert(list[k] == t);
            } else if k > p {
                assert(list[k - 1] == t);
            }
        }
        if list.contains(t) {
            let k = choose|k: int| 0 <= k < list.len() && list[k] == t;
            if there || k < p {
                assert(n[k] == t);
            } else {
                assert(n[k + 1] == t);
            }
        }
        if t == s {
            assert(n[p] == t);
        }
    }
}

/// The first place whose text does not come before `s`.
fn place(list: &Vec<String>, s: &str) -> (r: usize)
    ensures
        r == place_from(text::texts(list@), s@, 0),
        r <= list@.len(),
{
    let ghost v = text::texts(list@);
    let mut i: usize = 0;
    while i < list.len()
        invariant
            i <= list@.len(),
            v == text::texts(list@),
            place_from(v, s@, 0) == place_from(v, s@, i as int),
        decreases list@.len() - i,
    {
        assert(v[i as int] == list@[i as int]@);
        if !comes_before(list[i].as_str(), s) {
            return i;
        }
        i += 1;
    }
    i
}

/// Puts a text into a list, once. A sorted list stays sorted.
pub fn insert(list: &mut Vec<String>, s: String)
    ensures
        text::texts(final(list)@) == with_text(text::texts(old(list)@), s@),
        sorted(text::texts(old(list)@)) ==> sorted(text::texts(final(list)@)),
        sorted(text::texts(old(list)@)) ==> forall|t: Seq<char>|
            text::texts(final(list)@).contains(t) <==> text::texts(old(list)@).contains(t) || t
                == s@,
{
    let ghost v = text::texts(list@);
    proof {
        if sorted(v) {
            with_text_is_sorted(v, s@);
        }
    }
    let at = place(list, s.as_str());
    if at < list.len() {
        assert(v[at as int] == list@[at as int]@);
        if text::same(list[at].as_str(), s.as_str()) {
            return ;
        }
    }
    list.insert(at, s);
    assert(text::texts(list@) =~= v.insert(at as int, s@));
}

} // verus!
