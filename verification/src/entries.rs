//! Lists of entries that stand for maps.
//!
//! A key is ordered as the list of texts it amounts to, its [`Key::rank`], and
//! a map is the list of its entries. [`put_in`] keeps the entries in the order
//! of their keys, with one entry to a key; [`put_last`] keeps them in the order
//! they came.
use vstd::prelude::*;

use crate::order;
use crate::text;

verus! {

/// What a map is keyed by.
pub trait Key {
    /// The texts that the key amounts to, in the order they decide.
    spec fn rank(&self) -> Seq<Seq<char>>;

    /// The texts that the key amounts to, in the order they decide.
    fn ranks(&self) -> (r: Vec<String>)
        ensures
            text::texts(r@) == self.rank(),
    ;
}

impl Key for String {
    open spec fn rank(&self) -> Seq<Seq<char>> {
        seq![self@]
    }

    fn ranks(&self) -> (r: Vec<String>) {
        let r: Vec<String> = vec![self.clone()];
        assert(text::texts(r@) =~= seq![self@]);
        r
    }
}

/// Whether the rank `a` comes before the rank `b`, from their `i`th texts on.
pub open spec fn rank_before_from(a: Seq<Seq<char>>, b: Seq<Seq<char>>, i: int) -> bool
    decreases b.len() - i,
{
    if i < 0 || i >= b.len() {
        false
    } else if i >= a.len() {
        true
    } else if a[i] == b[i] {
        rank_before_from(a, b, i + 1)
    } else {
        order::before(a[i], b[i])
    }
}

/// Whether the rank `a` comes before the rank `b`: the first text in which
/// they differ decides, and a rank comes before a longer one that begins with
/// it.
pub open spec fn rank_before(a: Seq<Seq<char>>, b: Seq<Seq<char>>) -> bool {
    rank_before_from(a, b, 0)
}

/// Whether the rank `a` comes before the rank `b`.
pub fn ranks_before(a: &Vec<String>, b: &Vec<String>) -> (r: bool)
    ensures
        r == rank_before(text::texts(a@), text::texts(b@)),
{
    let ghost x = text::texts(a@);
    let ghost y = text::texts(b@);
    let mut i: usize = 0;
    while i < b.len()
        invariant
            i <= b@.len(),
            x == text::texts(a@),
            y == text::texts(b@),
            rank_before(x, y) == rank_before_from(x, y, i as int),
        decreases b@.len() - i,
    {
        if i >= a.len() {
            return true;
        }
        assert(x[i as int] == a@[i as int]@ && y[i as int] == b@[i as int]@);
        if !text::same(a[i].as_str(), b[i].as_str()) {
            return order::comes_before(a[i].as_str(), b[i].as_str());
        }
        i += 1;
    }
    false
}

/// Whether two ranks are the same texts.
pub fn same_ranks(a: &Vec<String>, b: &Vec<String>) -> (r: bool)
    ensures
        r == (text::texts(a@) == text::texts(b@)),
{
    if a.len() != b.len() {
        assert(text::texts(a@).len() != text::texts(b@).len());
        return false;
    }
    let mut i: usize = 0;
    while i < a.len()
        invariant
            i <= a@.len(),
            a@.len() == b@.len(),
            forall|k: int| 0 <= k < i ==> a@[k]@ == b@[k]@,
        decreases a@.len() - i,
    {
        if !text::same(a[i].as_str(), b[i].as_str()) {
            assert(text::texts(a@)[i as int] != text::texts(b@)[i as int]);
            return false;
        }
        i += 1;
    }
    assert(text::texts(a@) =~= text::texts(b@));
    true
}

// ---------------------------------------------------------------------------
// Entries

/// One entry: its key's rank, and what stands under it.
pub type Entry<A> = (Seq<Seq<char>>, A);

/// The entries of a list.
pub open spec fn entries<K: Key, V: View>(v: Seq<(K, V)>) -> Seq<Entry<V::V>> {
    Seq::new(v.len(), |i: int| (v[i].0.rank(), v[i].1@))
}

/// The keys of a list.
pub open spec fn keys<K: View, V>(v: Seq<(K, V)>) -> Seq<K::V> {
    Seq::new(v.len(), |i: int| v[i].0@)
}

/// The first place from `at` on whose key does not come before `key`.
pub open spec fn place_from<A>(e: Seq<Entry<A>>, key: Seq<Seq<char>>, at: int) -> int
    decreases e.len() - at,
{
    if at < 0 || at >= e.len() {
        e.len() as int
    } else if rank_before(e[at].0, key) {
        place_from(e, key, at + 1)
    } else {
        at
    }
}

/// The entries with `value` under `key`.
pub open spec fn put<A>(e: Seq<Entry<A>>, key: Seq<Seq<char>>, value: A) -> Seq<Entry<A>> {
    let p = place_from(e, key, 0);
    if p < e.len() && e[p].0 == key {
        e.update(p, (key, value))
    } else {
        e.insert(p, (key, value))
    }
}

/// The keys of the entries `e` once `key` is put among them.
pub open spec fn put_key<A, B>(e: Seq<Entry<A>>, keys: Seq<B>, rank: Seq<Seq<char>>, key: B) -> Seq<
    B,
> {
    let p = place_from(e, rank, 0);
    if p < e.len() && e[p].0 == rank {
        keys.update(p, key)
    } else {
        keys.insert(p, key)
    }
}

/// The first place from `at` on that has this key.
pub open spec fn position_from<A>(e: Seq<Entry<A>>, key: Seq<Seq<char>>, at: int) -> Option<int>
    decreases e.len() - at,
{
    if at < 0 || at >= e.len() {
        None
    } else if e[at].0 == key {
        Some(at)
    } else {
        position_from(e, key, at + 1)
    }
}

/// What stands under a key.
pub open spec fn found<A>(e: Seq<Entry<A>>, key: Seq<Seq<char>>) -> Option<A> {
    match position_from(e, key, 0) {
        Some(i) => Some(e[i].1),
        None => None,
    }
}

/// The entries with `value` under `key`: in the place of what stood there, or
/// behind the rest.
pub open spec fn put_behind<A>(e: Seq<Entry<A>>, key: Seq<Seq<char>>, value: A) -> Seq<Entry<A>> {
    match position_from(e, key, 0) {
        Some(i) => e.update(i, (key, value)),
        None => e.push((key, value)),
    }
}

/// Whether each key comes before every later one.
pub open spec fn ordered<A>(e: Seq<Entry<A>>) -> bool {
    forall|i: int, j: int|
        0 <= i < j < e.len() ==> rank_before((#[trigger] e[i]).0, (#[trigger] e[j]).0)
}

/// Where a key stands.
pub fn position<K: Key, V: View>(list: &Vec<(K, V)>, key: &K) -> (r: Option<usize>)
    ensures
        match r {
            Some(i) => i < list@.len() && position_from(entries(list@), key.rank(), 0) == Some(
                i as int,
            ),
            None => position_from(entries(list@), key.rank(), 0) is None,
        },
{
    let ranks = key.ranks();
    let ghost e = entries(list@);
    let mut i: usize = 0;
    while i < list.len()
        invariant
            i <= list@.len(),
            e == entries(list@),
            text::texts(ranks@) == key.rank(),
            position_from(e, key.rank(), 0) == position_from(e, key.rank(), i as int),
        decreases list@.len() - i,
    {
        let here = list[i].0.ranks();
        assert(e[i as int].0 == text::texts(here@));
        if same_ranks(&here, &ranks) {
            return Some(i);
        }
        i += 1;
    }
    None
}

/// What stands under a key.
pub fn find<'a, K: Key, V: View>(list: &'a Vec<(K, V)>, key: &K) -> (r: Option<&'a V>)
    ensures
        match r {
            Some(v) => found(entries(list@), key.rank()) == Some(v@),
            None => found(entries(list@), key.rank()) is None,
        },
{
    match position(list, key) {
        Some(i) => Some(&list[i].1),
        None => None,
    }
}

/// The first place whose key does not come before `ranks`.
fn place<K: Key, V: View>(list: &Vec<(K, V)>, ranks: &Vec<String>) -> (r: usize)
    ensures
        r == place_from(entries(list@), text::texts(ranks@), 0),
        r <= list@.len(),
{
    let ghost e = entries(list@);
    let ghost key = text::texts(ranks@);
    let mut p: usize = 0;
    while p < list.len()
        invariant
            p <= list@.len(),
            e == entries(list@),
            key == text::texts(ranks@),
            place_from(e, key, 0) == place_from(e, key, p as int),
        decreases list@.len() - p,
    {
        let here = list[p].0.ranks();
        assert(e[p as int].0 == text::texts(here@));
        if !ranks_before(&here, ranks) {
            return p;
        }
        p += 1;
    }
    p
}

/// Puts `value` under `key`, in the order of the keys.
pub fn put_in<K: Key, V: View>(list: &mut Vec<(K, V)>, key: K, value: V)
    ensures
        entries(final(list)@) == put(entries(old(list)@), key.rank(), value@),
        final(list)@ == put_key(entries(old(list)@), old(list)@, key.rank(), (key, value)),
{
    let ranks = key.ranks();
    let ghost e = entries(list@);
    let p = place(list, &ranks);
    if p < list.len() {
        let here = list[p].0.ranks();
        assert(e[p as int].0 == text::texts(here@));
        if same_ranks(&here, &ranks) {
            list.set(p, (key, value));
            assert(entries(list@) =~= e.update(p as int, (key.rank(), value@)));
            return ;
        }
    }
    list.insert(p, (key, value));
    assert(entries(list@) =~= e.insert(p as int, (key.rank(), value@)));
}

/// Puts `value` under `key`, behind what is there.
pub fn put_last<K: Key, V: View>(list: &mut Vec<(K, V)>, key: K, value: V)
    ensures
        entries(final(list)@) == put_behind(entries(old(list)@), key.rank(), value@),
{
    let ghost e = entries(list@);
    match position(list, &key) {
        Some(i) => {
            list.set(i, (key, value));
            assert(entries(list@) =~= e.update(i as int, (key.rank(), value@)));
        },
        None => {
            list.push((key, value));
            assert(entries(list@) =~= e.push((key.rank(), value@)));
        },
    }
}

// ---------------------------------------------------------------------------
// Laws of entries

proof fn rank_not_before_itself(a: Seq<Seq<char>>, i: int)
    requires
        0 <= i,
    ensures
        !rank_before_from(a, a, i),
    decreases a.len() - i,
{
    if i < a.len() {
        rank_not_before_itself(a, i + 1);
    }
}

proof fn rank_before_chains(a: Seq<Seq<char>>, b: Seq<Seq<char>>, c: Seq<Seq<char>>, i: int)
    requires
        0 <= i,
        rank_before_from(a, b, i),
        rank_before_from(b, c, i),
    ensures
        rank_before_from(a, c, i),
    decreases b.len() - i,
{
    if i < a.len() && i < b.len() && i < c.len() {
        if a[i] == b[i] && b[i] == c[i] {
            rank_before_chains(a, b, c, i + 1);
        } else if a[i] != b[i] && b[i] != c[i] {
            order::before_is_transitive(a[i], b[i], c[i]);
            if a[i] == c[i] {
                order::before_is_strict(a[i]);
            }
        }
    }
}

proof fn one_rank_is_first(a: Seq<Seq<char>>, b: Seq<Seq<char>>, i: int)
    requires
        0 <= i <= a.len(),
        i <= b.len(),
        forall|k: int| 0 <= k < i ==> a[k] == b[k],
    ensures
        rank_before_from(a, b, i) || rank_before_from(b, a, i) || a == b,
    decreases b.len() - i,
{
    if i >= b.len() {
        if i >= a.len() {
            assert(a =~= b);
        }
    } else if i < a.len() {
        if a[i] == b[i] {
            one_rank_is_first(a, b, i + 1);
        } else {
            order::before_is_total(a[i], b[i]);
        }
    }
}

/// No rank comes before itself.
pub proof fn rank_before_is_strict(a: Seq<Seq<char>>)
    ensures
        !rank_before(a, a),
{
    rank_not_before_itself(a, 0);
}

/// What comes before something that comes before a third comes before the
/// third.
pub proof fn rank_before_is_transitive(a: Seq<Seq<char>>, b: Seq<Seq<char>>, c: Seq<Seq<char>>)
    requires
        rank_before(a, b),
        rank_before(b, c),
    ensures
        rank_before(a, c),
{
    rank_before_chains(a, b, c, 0);
}

/// Of two different ranks one comes before the other.
pub proof fn rank_before_is_total(a: Seq<Seq<char>>, b: Seq<Seq<char>>)
    ensures
        rank_before(a, b) || rank_before(b, a) || a == b,
{
    one_rank_is_first(a, b, 0);
}

proof fn place_is_first<A>(e: Seq<Entry<A>>, key: Seq<Seq<char>>, at: int)
    requires
        0 <= at <= e.len(),
    ensures
        at <= place_from(e, key, at) <= e.len(),
        forall|k: int|
            at <= k < place_from(e, key, at) ==> rank_before((#[trigger] e[k]).0, key),
        place_from(e, key, at) < e.len() ==> !rank_before(e[place_from(e, key, at)].0, key),
    decreases e.len() - at,
{
    if at < e.len() && rank_before(e[at].0, key) {
        place_is_first(e, key, at + 1);
    }
}

proof fn position_is_first<A>(e: Seq<Entry<A>>, key: Seq<Seq<char>>, at: int)
    requires
        0 <= at <= e.len(),
    ensures
        match position_from(e, key, at) {
            Some(i) => at <= i < e.len() && e[i].0 == key && forall|k: int|
                at <= k < i ==> (#[trigger] e[k]).0 != key,
            None => forall|k: int| at <= k < e.len() ==> (#[trigger] e[k]).0 != key,
        },
    decreases e.len() - at,
{
    if at < e.len() && e[at].0 != key {
        position_is_first(e, key, at + 1);
    }
}

/// A key's place is in the list or right behind it.
pub proof fn place_is_in_range<A>(e: Seq<Entry<A>>, key: Seq<Seq<char>>)
    ensures
        0 <= place_from(e, key, 0) <= e.len(),
{
    place_is_first(e, key, 0);
}

/// The place a key stands at has the key.
pub proof fn position_has_key<A>(e: Seq<Entry<A>>, key: Seq<Seq<char>>)
    ensures
        position_from(e, key, 0) matches Some(i) ==> 0 <= i < e.len() && e[i].0 == key,
{
    position_is_first(e, key, 0);
}

/// Something stands under a key exactly where an entry has the key.
pub proof fn found_is_an_entry<A>(e: Seq<Entry<A>>, key: Seq<Seq<char>>)
    ensures
        match found(e, key) {
            Some(value) => exists|i: int| 0 <= i < e.len() && #[trigger] e[i] == (key, value),
            None => forall|i: int| 0 <= i < e.len() ==> (#[trigger] e[i]).0 != key,
        },
{
    position_is_first(e, key, 0);
    match position_from(e, key, 0) {
        Some(i) => {
            assert(e[i] == (key, e[i].1));
        },
        None => {},
    }
}

/// Putting an entry keeps the keys in order, finds what was put under its key,
/// and changes nothing under another.
pub proof fn put_is_a_map_insert<A>(e: Seq<Entry<A>>, key: Seq<Seq<char>>, value: A)
    requires
        ordered(e),
    ensures
        ordered(put(e, key, value)),
        found(put(e, key, value), key) == Some(value),
        forall|other: Seq<Seq<char>>|
            other != key ==> #[trigger] found(put(e, key, value), other) == found(e, other),
{
    let p = place_from(e, key, 0);
    let n = put(e, key, value);
    place_is_first(e, key, 0);
    let there = p < e.len() && e[p].0 == key;
    if !there && p < e.len() {
        rank_before_is_total(e[p].0, key);
    }
    assert forall|i: int, j: int| 0 <= i < j < n.len() implies rank_before(
        (#[trigger] n[i]).0,
        (#[trigger] n[j]).0,
    ) by {
        if there {
            assert(n[i].0 == e[i].0 && n[j].0 == e[j].0);
        } else if j < p {
            assert(n[i] == e[i] && n[j] == e[j]);
        } else if j == p {
            assert(n[i] == e[i]);
        } else if i == p {
            assert(n[j] == e[j - 1]);
            if j - 1 > p {
                rank_before_is_transitive(key, e[p].0, e[j - 1].0);
            }
        } else if i < p {
            assert(n[i] == e[i] && n[j] == e[j - 1]);
        } else {
            assert(n[i] == e[i - 1] && n[j] == e[j - 1]);
        }
    }
    assert forall|k: Seq<Seq<char>>| true implies #[trigger] found(n, k) == (if k == key {
        Some(value)
    } else {
        found(e, k)
    }) by {
        position_is_first(n, k, 0);
        position_is_first(e, k, 0);
        if k == key {
            assert(n[p] == (key, value));
            let i = position_from(n, k, 0)->0;
            if i < p {
                assert(rank_before(n[i].0, n[p].0));
                rank_before_is_strict(key);
            }
        } else {
            match position_from(e, k, 0) {
                Some(i) => {
                    let j = if there || i < p {
                        i
                    } else {
                        i + 1
                    };
                    assert(n[j] == e[i]);
                    let m = position_from(n, k, 0)->0;
                    if m < j {
                        assert(rank_before(n[m].0, n[j].0));
                        rank_before_is_strict(k);
                    }
                },
                None => {
                    match position_from(n, k, 0) {
                        Some(m) => {
                            if there || m < p {
                                assert(n[m].0 == e[m].0);
                            } else if m > p {
                                assert(n[m] == e[m - 1]);
                            }
                        },
                        None => {},
                    }
                },
            }
        }
    }
}

/// Putting an entry in the place of what stood under its key, or behind the
/// rest, finds it under its key and changes nothing under another.
pub proof fn put_behind_is_a_map_insert<A>(e: Seq<Entry<A>>, key: Seq<Seq<char>>, value: A)
    ensures
        found(put_behind(e, key, value), key) == Some(value),
        forall|other: Seq<Seq<char>>|
            other != key ==> #[trigger] found(put_behind(e, key, value), other) == found(e, other),
{
    let n = put_behind(e, key, value);
    position_is_first(e, key, 0);
    position_is_first(n, key, 0);
    let p = match position_from(e, key, 0) {
        Some(i) => i,
        None => e.len() as int,
    };
    assert(n[p] == (key, value));
    assert forall|k: int| 0 <= k < n.len() && k != p implies #[trigger] n[k] == e[k] by {}
    match position_from(n, key, 0) {
        Some(q) => {
            if q != p {
                assert(n[q] == e[q]);
            }
        },
        None => {},
    }
    assert forall|other: Seq<Seq<char>>| other != key implies #[trigger] found(n, other) == found(
        e,
        other,
    ) by {
        position_is_first(e, other, 0);
        position_is_first(n, other, 0);
        match (position_from(e, other, 0), position_from(n, other, 0)) {
            (Some(a), Some(b)) => {
                assert(n[a] == e[a] && n[b] == e[b]);
            },
            (Some(a), None) => {
                assert(n[a] == e[a]);
            },
            (None, Some(b)) => {
                assert(n[b] == e[b]);
            },
            (None, None) => {},
        }
    }
}

/// Putting an entry in a list puts its key among the list's keys.
pub proof fn a_key_is_put<K: Key + View, V: View>(v: Seq<(K, V)>, key: K, value: V)
    ensures
        keys(put_key(entries(v), v, key.rank(), (key, value))) == put_key(
            entries(v),
            keys(v),
            key.rank(),
            key@,
        ),
{
    place_is_in_range(entries(v), key.rank());
    assert(keys(put_key(entries(v), v, key.rank(), (key, value))) =~= put_key(
        entries(v),
        keys(v),
        key.rank(),
        key@,
    ));
}

/// Replacing what stands under a key keeps the order.
pub proof fn replacing_keeps_the_order<A>(e: Seq<Entry<A>>, key: Seq<Seq<char>>, value: A)
    requires
        ordered(e),
        found(e, key) is Some,
    ensures
        ordered(put_behind(e, key, value)),
{
    let n = put_behind(e, key, value);
    position_is_first(e, key, 0);
    assert forall|i: int, j: int| 0 <= i < j < n.len() implies rank_before(
        (#[trigger] n[i]).0,
        (#[trigger] n[j]).0,
    ) by {
        assert(n[i].0 == e[i].0);
        assert(n[j].0 == e[j].0);
    }
}

/// In an ordered list every entry is what stands under its key.
pub proof fn an_entry_is_found<A>(e: Seq<Entry<A>>, i: int)
    requires
        ordered(e),
        0 <= i < e.len(),
    ensures
        found(e, e[i].0) == Some(e[i].1),
{
    let key = e[i].0;
    position_is_first(e, key, 0);
    match position_from(e, key, 0) {
        Some(p) => {
            rank_before_is_strict(key);
            if p < i {
                assert(rank_before(e[p].0, e[i].0));
            }
        },
        None => {},
    }
}

/// Two ordered lists with the same under every key are the same list.
pub proof fn the_same_map_is_the_same_list<A>(a: Seq<Entry<A>>, b: Seq<Entry<A>>)
    requires
        ordered(a),
        ordered(b),
        forall|key: Seq<Seq<char>>| #[trigger] found(a, key) == found(b, key),
    ensures
        a == b,
    decreases a.len(),
{
    if a.len() == 0 {
        if b.len() > 0 {
            an_entry_is_found(b, 0);
            assert(found(a, b[0].0) == found(b, b[0].0));
            found_is_an_entry(a, b[0].0);
        }
        assert(a =~= b);
    } else {
        let k = a.last().0;
        an_entry_is_found(a, a.len() - 1);
        assert(found(a, k) == found(b, k));
        found_is_an_entry(b, k);
        let p = choose|p: int| 0 <= p < b.len() && #[trigger] b[p] == (k, a.last().1);
        let last = b.last().0;
        an_entry_is_found(b, b.len() - 1);
        assert(found(a, last) == found(b, last));
        found_is_an_entry(a, last);
        let q = choose|q: int| 0 <= q < a.len() && #[trigger] a[q] == (last, b.last().1);
        if p < b.len() - 1 {
            assert(rank_before(b[p].0, b[b.len() - 1].0));
            if q < a.len() - 1 {
                assert(rank_before(a[q].0, a[a.len() - 1].0));
                rank_before_is_transitive(k, last, k);
            }
            rank_before_is_strict(k);
        }
        assert(b.last() == a.last());
        let x = a.drop_last();
        let y = b.drop_last();
        assert forall|key: Seq<Seq<char>>| #[trigger] found(x, key) == found(y, key) by {
            without_the_last(a, key);
            without_the_last(b, key);
            assert(found(a, key) == found(b, key));
        }
        the_same_map_is_the_same_list(x, y);
        assert(a =~= x.push(a.last()));
        assert(b =~= y.push(b.last()));
    }
}

proof fn without_the_last<A>(e: Seq<Entry<A>>, key: Seq<Seq<char>>)
    requires
        ordered(e),
        e.len() > 0,
    ensures
        found(e.drop_last(), key) == if key == e.last().0 {
            None
        } else {
            found(e, key)
        },
{
    let x = e.drop_last();
    position_is_first(e, key, 0);
    position_is_first(x, key, 0);
    rank_before_is_strict(e.last().0);
    match position_from(x, key, 0) {
        Some(i) => {
            assert(e[i].0 == key);
            assert(rank_before(e[i].0, e[e.len() - 1].0));
            match position_from(e, key, 0) {
                Some(j) => {
                    if j < i {
                        assert(x[j].0 == key);
                    }
                },
                None => {},
            }
        },
        None => {
            match position_from(e, key, 0) {
                Some(j) => {
                    if j < e.len() - 1 {
                        assert(x[j].0 == key);
                    }
                },
                None => {},
            }
        },
    }
}

} // verus!
