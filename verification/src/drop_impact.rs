//! What blocks a drop: `DROP … RESTRICT` over catalog object addresses, not
//! over an enumeration of classes.
//!
//! An object that goes takes its automatic dependents along, and an internal
//! part that goes takes its owner. What is left that depends on something
//! going, and does not itself go before it, blocks the drop.
use vstd::prelude::*;

use crate::model;
use crate::model::{Change, ChangeSet, ModuleId, ModuleKind, TableName};
use crate::order;
use crate::text;

verus! {

// ---------------------------------------------------------------------------
// The graph

/// One object of the catalog, or one part of it. Part zero is the whole.
#[derive(Debug, Clone, Copy, PartialEq, Eq, Structural)]
pub struct Address {
    pub class: i64,
    pub object: i64,
    pub part: i64,
}

impl Address {
    /// Whether this is the other, or the whole that the other is a part of.
    pub open spec fn covers(self, other: Address) -> bool {
        self.class == other.class && self.object == other.object && (self.part == 0 || self.part
            == other.part)
    }

    /// Whether this is the other, or the whole that the other is a part of.
    pub fn contains(self, other: Address) -> (r: bool)
        ensures
            r == self.covers(other),
    {
        self.class == other.class && self.object == other.object && (self.part == 0 || self.part
            == other.part)
    }
}

/// One dependency: `dependent` needs `referenced`.
#[derive(Debug, Clone, PartialEq, Eq)]
pub struct Edge {
    pub dependent: Address,
    pub referenced: Address,
    pub kind: String,
    pub dependent_name: String,
    pub referenced_name: String,
}

impl Edge {
    /// Whether the dependent goes with what it references.
    pub open spec fn is_automatic(self) -> bool {
        let k = self.kind@;
        k == "a"@ || k == "i"@ || k == "x"@ || k == "P"@ || k == "S"@
    }

    /// Whether what is referenced owns the dependent.
    pub open spec fn is_owner(self) -> bool {
        self.kind@ == "i"@ || self.kind@ == "e"@
    }

    /// Whether the dependent goes with what it references.
    pub fn automatic(&self) -> (r: bool)
        ensures
            r == self.is_automatic(),
    {
        let k = self.kind.as_str();
        text::same(k, "a") || text::same(k, "i") || text::same(k, "x") || text::same(k, "P")
            || text::same(k, "S")
    }

    /// Whether what is referenced owns the dependent.
    pub fn owner(&self) -> (r: bool)
        ensures
            r == self.is_owner(),
    {
        let k = self.kind.as_str();
        text::same(k, "i") || text::same(k, "e")
    }
}

/// Whether one of `found` is `a`, or the whole that `a` is a part of.
pub open spec fn reaches(found: Set<Address>, a: Address) -> bool {
    exists|x: Address| found.contains(x) && #[trigger] x.covers(a)
}

/// Whether an edge brings its dependent in.
pub open spec fn brings_dependent(e: Edge, found: Set<Address>, automatic: bool) -> bool {
    (!automatic || e.is_automatic()) && reaches(found, e.referenced)
}

/// Whether an edge brings the owner in. Where only automatic removal counts,
/// the root itself does not: dropping a part does not authorize dropping what
/// owns it.
pub open spec fn brings_owner(e: Edge, found: Set<Address>, root: Address, automatic: bool) -> bool {
    e.is_owner() && reaches(found, e.dependent) && (!automatic || !root.covers(e.dependent))
}

/// Whether no edge brings anything more in.
pub open spec fn is_closed(
    edges: Seq<Edge>,
    found: Set<Address>,
    root: Address,
    automatic: bool,
) -> bool {
    forall|i: int|
        0 <= i < edges.len() ==> {
            let e = #[trigger] edges[i];
            (brings_dependent(e, found, automatic) ==> found.contains(e.dependent)) && (
            brings_owner(e, found, root, automatic) ==> found.contains(e.referenced))
        }
}

/// What follows from `root`: the smallest set that holds it and that no edge
/// adds to, which is what every such set has in common.
pub open spec fn closure_of(edges: Seq<Edge>, root: Address, automatic: bool) -> Set<Address> {
    Set::new(
        |a: Address|
            forall|s: Set<Address>|
                s.contains(root) && is_closed(edges, s, root, automatic) ==> #[trigger] s.contains(
                    a,
                ),
    )
}

/// Every address of a graph, and the root.
spec fn universe(edges: Seq<Edge>, root: Address) -> Seq<Address> {
    seq![root] + Seq::new(edges.len(), |i: int| edges[i].dependent) + Seq::new(
        edges.len(),
        |i: int| edges[i].referenced,
    )
}

/// Addresses without repetition, all of them of a graph, are no more than the
/// graph has.
proof fn found_is_bounded(edges: Seq<Edge>, root: Address, found: Seq<Address>)
    requires
        found.no_duplicates(),
        forall|i: int| 0 <= i < found.len() ==> universe(edges, root).contains(#[trigger] found[i]),
    ensures
        found.len() <= 1 + 2 * edges.len(),
{
    let all = universe(edges, root);
    found.unique_seq_to_set();
    all.lemma_cardinality_of_set();
    vstd::seq_lib::seq_to_set_is_finite(all);
    assert(found.to_set().subset_of(all.to_set())) by {
        assert forall|a: Address| found.to_set().contains(a) implies all.to_set().contains(a) by {
            let i = choose|i: int| 0 <= i < found.len() && found[i] == a;
            assert(all.contains(found[i]));
        }
    }
    vstd::set_lib::lemma_len_subset(found.to_set(), all.to_set());
}

/// A closed set that holds the root and lies in every other such set is the
/// closure.
proof fn least_is_closure(edges: Seq<Edge>, root: Address, automatic: bool, found: Set<Address>)
    requires
        found.contains(root),
        is_closed(edges, found, root, automatic),
        forall|s: Set<Address>|
            s.contains(root) && is_closed(edges, s, root, automatic) ==> #[trigger] found.subset_of(
                s,
            ),
    ensures
        found == closure_of(edges, root, automatic),
{
    let c = closure_of(edges, root, automatic);
    assert forall|a: Address| found.contains(a) implies c.contains(a) by {
        assert forall|s: Set<Address>|
            s.contains(root) && is_closed(edges, s, root, automatic) implies #[trigger] s.contains(
            a,
        ) by {
            assert(found.subset_of(s));
        }
    }
    assert forall|a: Address| c.contains(a) implies found.contains(a) by {}
    assert(found =~= c);
}

/// Whether one of `found` is `a`, or the whole that `a` is a part of.
fn any_covers(found: &Vec<Address>, a: Address) -> (r: bool)
    ensures
        r == reaches(found@.to_set(), a),
{
    let mut i: usize = 0;
    while i < found.len()
        invariant
            i <= found@.len(),
            forall|k: int| 0 <= k < i ==> !(#[trigger] found@[k]).covers(a),
        decreases found@.len() - i,
    {
        if found[i].contains(a) {
            assert(found@.to_set().contains(found@[i as int]));
            return true;
        }
        i += 1;
    }
    assert forall|x: Address| found@.to_set().contains(x) implies !#[trigger] x.covers(a) by {
        let k = choose|k: int| 0 <= k < found@.len() && found@[k] == x;
        assert(!found@[k].covers(a));
    }
    false
}

/// Whether `a` is one of `found`.
fn is_found(found: &Vec<Address>, a: Address) -> (r: bool)
    ensures
        r == found@.contains(a),
{
    let mut i: usize = 0;
    while i < found.len()
        invariant
            i <= found@.len(),
            forall|k: int| 0 <= k < i ==> found@[k] != a,
        decreases found@.len() - i,
    {
        if found[i] == a {
            return true;
        }
        i += 1;
    }
    false
}

/// What a search holds on to: it has the root, no address twice, addresses of
/// the graph only, and nothing that some closed set could do without.
spec fn searching(edges: Seq<Edge>, root: Address, automatic: bool, found: Seq<Address>) -> bool {
    &&& found.contains(root)
    &&& found.no_duplicates()
    &&& forall|i: int|
        0 <= i < found.len() ==> universe(edges, root).contains(#[trigger] found[i])
    &&& forall|s: Set<Address>|
        s.contains(root) && is_closed(edges, s, root, automatic)
            ==> #[trigger] found.to_set().subset_of(s)
}

/// One more address that an edge brings in keeps a search a search.
proof fn search_grows(
    edges: Seq<Edge>,
    root: Address,
    automatic: bool,
    found: Seq<Address>,
    i: int,
    a: Address,
)
    requires
        searching(edges, root, automatic, found),
        0 <= i < edges.len(),
        !found.contains(a),
        (a == edges[i].dependent && brings_dependent(edges[i], found.to_set(), automatic)) || (a
            == edges[i].referenced && brings_owner(edges[i], found.to_set(), root, automatic)),
    ensures
        searching(edges, root, automatic, found.push(a)),
{
    let next = found.push(a);
    let all = universe(edges, root);
    let r = choose|k: int| 0 <= k < found.len() && found[k] == root;
    assert(next[r] == root);
    assert(all[1 + i] == edges[i].dependent);
    assert(all[1 + edges.len() + i] == edges[i].referenced);
    assert forall|k: int| 0 <= k < next.len() implies all.contains(#[trigger] next[k]) by {
        if k < found.len() {
            assert(all.contains(found[k]));
        }
    }
    assert forall|s: Set<Address>|
        s.contains(root) && is_closed(
            edges,
            s,
            root,
            automatic,
        ) implies #[trigger] next.to_set().subset_of(s) by {
        assert(found.to_set().subset_of(s));
        let e = edges[i];
        if brings_dependent(e, found.to_set(), automatic) {
            let x = choose|x: Address| found.to_set().contains(x) && #[trigger] x.covers(
                e.referenced,
            );
            assert(s.contains(x) && x.covers(e.referenced));
            assert(brings_dependent(e, s, automatic));
        }
        if brings_owner(e, found.to_set(), root, automatic) {
            let x = choose|x: Address| found.to_set().contains(x) && #[trigger] x.covers(
                e.dependent,
            );
            assert(s.contains(x) && x.covers(e.dependent));
            assert(brings_owner(e, s, root, automatic));
        }
        assert(s.contains(a));
        assert forall|b: Address| next.to_set().contains(b) implies s.contains(b) by {
            let k = choose|k: int| 0 <= k < next.len() && next[k] == b;
            if k < found.len() {
                assert(found.to_set().contains(found[k]));
            }
        }
    }
}

/// The dependencies of some objects.
#[derive(Debug, Clone, PartialEq, Eq)]
pub struct Graph(pub Vec<Edge>);

impl Graph {
    /// Adds `a` to what was found, where it is not there yet.
    fn step(
        &self,
        found: &mut Vec<Address>,
        root: Address,
        automatic: bool,
        i: usize,
        a: Address,
    ) -> (grown: bool)
        requires
            i < self.0@.len(),
            searching(self.0@, root, automatic, old(found)@),
            (a == self.0@[i as int].dependent && brings_dependent(
                self.0@[i as int],
                old(found)@.to_set(),
                automatic,
            )) || (a == self.0@[i as int].referenced && brings_owner(
                self.0@[i as int],
                old(found)@.to_set(),
                root,
                automatic,
            )),
        ensures
            searching(self.0@, root, automatic, final(found)@),
            final(found)@.contains(a),
            grown ==> final(found)@.len() > old(found)@.len(),
            !grown ==> final(found)@ == old(found)@,
            final(found)@.len() >= old(found)@.len(),
    {
        if is_found(found, a) {
            return false;
        }
        proof {
            search_grows(self.0@, root, automatic, found@, i as int, a);
        }
        found.push(a);
        assert(found@[found@.len() - 1] == a);
        true
    }

    /// What follows from `root`, each address once: its dependents, the
    /// automatic ones alone where `automatic`, and the owners of its internal
    /// parts.
    pub fn closure(&self, root: Address, automatic: bool) -> (r: Vec<Address>)
        ensures
            r@.no_duplicates(),
            r@.to_set() == closure_of(self.0@, root, automatic),
    {
        let edges = &self.0;
        let mut found: Vec<Address> = Vec::new();
        found.push(root);
        proof {
            let all = universe(edges@, root);
            assert(all[0] == root);
            assert(found@[0] == root);
            assert forall|s: Set<Address>|
                s.contains(root) && is_closed(
                    edges@,
                    s,
                    root,
                    automatic,
                ) implies #[trigger] found@.to_set().subset_of(s) by {}
        }
        let mut grown = true;
        while grown
            invariant
                edges@ == self.0@,
                searching(edges@, root, automatic, found@),
                !grown ==> is_closed(edges@, found@.to_set(), root, automatic),
            decreases
                1 + 2 * edges@.len() - found@.len() + 1,
                if grown {
                    1int
                } else {
                    0int
                },
        {
            grown = false;
            let ghost start = found@;
            let mut i: usize = 0;
            while i < edges.len()
                invariant
                    i <= edges@.len(),
                    edges@ == self.0@,
                    searching(edges@, root, automatic, found@),
                    found@.len() >= start.len(),
                    grown ==> found@.len() > start.len(),
                    !grown ==> found@ == start,
                    !grown ==> forall|k: int|
                        0 <= k < i ==> {
                            let e = #[trigger] edges@[k];
                            (brings_dependent(e, found@.to_set(), automatic)
                                ==> found@.to_set().contains(e.dependent)) && (brings_owner(
                                e,
                                found@.to_set(),
                                root,
                                automatic,
                            ) ==> found@.to_set().contains(e.referenced))
                        },
                decreases edges@.len() - i,
            {
                if (!automatic || edges[i].automatic()) && any_covers(
                    &found,
                    edges[i].referenced,
                ) {
                    let added = self.step(&mut found, root, automatic, i, edges[i].dependent);
                    grown = grown || added;
                }
                if edges[i].owner() && any_covers(&found, edges[i].dependent) && (!automatic
                    || !root.contains(edges[i].dependent)) {
                    let added = self.step(&mut found, root, automatic, i, edges[i].referenced);
                    grown = grown || added;
                }
                i += 1;
            }
            proof {
                found_is_bounded(edges@, root, found@);
            }
        }
        proof {
            assert(found@.to_set().contains(root));
            least_is_closure(self.0@, root, automatic, found@.to_set());
        }
        found
    }
}

// ---------------------------------------------------------------------------
// Blockers

/// The smaller of two positions, where either is there.
pub open spec fn earlier(a: Option<int>, b: int) -> Option<int> {
    match a {
        Some(x) => if x < b {
            Some(x)
        } else {
            Some(b)
        },
        None => Some(b),
    }
}

/// When an address goes: the earliest of the first `n` removals whose
/// automatic closure reaches it.
pub open spec fn gone_at(
    edges: Seq<Edge>,
    removals: Seq<(usize, Address)>,
    n: int,
    a: Address,
) -> Option<int>
    decreases n,
{
    if n <= 0 {
        None
    } else {
        let rest = gone_at(edges, removals, n - 1, a);
        if reaches(closure_of(edges, removals[n - 1].1, true), a) {
            earlier(rest, removals[n - 1].0 as int)
        } else {
            rest
        }
    }
}

/// When an address goes, under all the removals.
pub open spec fn position(edges: Seq<Edge>, removals: Seq<(usize, Address)>, a: Address) -> Option<
    int,
> {
    gone_at(edges, removals, removals.len() as int, a)
}

/// Whether an edge's dependent is left behind by the drop of what it needs: it
/// does not go, or goes only later.
pub open spec fn blocks_as_dependent(
    edges: Seq<Edge>,
    removals: Seq<(usize, Address)>,
    root: Address,
    at_root: int,
    e: Edge,
) -> bool {
    reaches(closure_of(edges, root, false), e.referenced) && !e.is_automatic() && match position(
        edges,
        removals,
        e.dependent,
    ) {
        None => true,
        Some(before) => before > match position(edges, removals, e.referenced) {
            Some(at) => at,
            None => at_root,
        },
    }
}

/// Whether an edge's owner is left behind by the drop of its part.
pub open spec fn blocks_as_owner(
    edges: Seq<Edge>,
    removals: Seq<(usize, Address)>,
    root: Address,
    e: Edge,
) -> bool {
    e.is_owner() && reaches(closure_of(edges, root, false), e.dependent) && match position(
        edges,
        removals,
        e.dependent,
    ) {
        None => false,
        Some(at) => match position(edges, removals, e.referenced) {
            None => true,
            Some(before) => before > at,
        },
    }
}

/// An owner that blocks, in words.
pub const OWNER: &'static str = "{} (internal owner of {})";

/// An owner that blocks, in words.
pub open spec fn owner_text(e: Edge) -> Seq<char> {
    text::filled(OWNER@, seq![e.referenced_name@, e.dependent_name@])
}

/// Whether one of the first `n` edges is why `name` blocks.
pub open spec fn is_blocking(
    edges: Seq<Edge>,
    removals: Seq<(usize, Address)>,
    root: Address,
    at_root: int,
    n: int,
    name: Seq<char>,
) -> bool {
    exists|i: int|
        0 <= i < n && {
            let e = #[trigger] edges[i];
            (blocks_as_dependent(edges, removals, root, at_root, e) && e.dependent_name@ == name)
                || (blocks_as_owner(edges, removals, root, e) && owner_text(e) == name)
        }
}

fn position_in(
    removals: &[(usize, Address)],
    closures: &Vec<Vec<Address>>,
    Ghost(edges): Ghost<Seq<Edge>>,
    a: Address,
) -> (r: Option<usize>)
    requires
        closures@.len() == removals@.len(),
        forall|k: int|
            0 <= k < removals@.len() ==> (#[trigger] closures@[k])@.to_set() == closure_of(
                edges,
                removals@[k].1,
                true,
            ),
    ensures
        match r {
            Some(at) => position(edges, removals@, a) == Some(at as int),
            None => position(edges, removals@, a) is None,
        },
{
    let mut best: Option<usize> = None;
    let mut i: usize = 0;
    while i < removals.len()
        invariant
            i <= removals@.len(),
            closures@.len() == removals@.len(),
            forall|k: int|
                0 <= k < removals@.len() ==> (#[trigger] closures@[k])@.to_set() == closure_of(
                    edges,
                    removals@[k].1,
                    true,
                ),
            match best {
                Some(at) => gone_at(edges, removals@, i as int, a) == Some(at as int),
                None => gone_at(edges, removals@, i as int, a) is None,
            },
        decreases removals@.len() - i,
    {
        if any_covers(&closures[i], a) {
            let index: usize = removals[i].0;
            best = match best {
                Some(at) => if at < index {
                    Some(at)
                } else {
                    Some(index)
                },
                None => Some(index),
            };
        }
        i += 1;
    }
    best
}

impl Graph {
    fn closures(&self, removals: &[(usize, Address)]) -> (r: Vec<Vec<Address>>)
        ensures
            r@.len() == removals@.len(),
            forall|k: int|
                0 <= k < removals@.len() ==> (#[trigger] r@[k])@.to_set() == closure_of(
                    self.0@,
                    removals@[k].1,
                    true,
                ),
    {
        let mut out: Vec<Vec<Address>> = Vec::new();
        let mut i: usize = 0;
        while i < removals.len()
            invariant
                i <= removals@.len(),
                out@.len() == i,
                forall|k: int|
                    0 <= k < i ==> (#[trigger] out@[k])@.to_set() == closure_of(
                        self.0@,
                        removals@[k].1,
                        true,
                    ),
            decreases removals@.len() - i,
        {
            out.push(self.closure(removals[i].1, true));
            i += 1;
        }
        out
    }

    /// What blocks the drop of `root` at `at_root`, each name once and in
    /// order: everything left that needs something that goes, under the
    /// removals of the plan so far.
    pub fn blockers(&self, root: Address, at_root: usize, removals: &[(usize, Address)]) -> (r: Vec<
        String,
    >)
        ensures
            order::sorted(text::texts(r@)),
            forall|name: Seq<char>| #[trigger]
                text::texts(r@).contains(name) <==> is_blocking(
                    self.0@,
                    removals@,
                    root,
                    at_root as int,
                    self.0@.len() as int,
                    name,
                ),
    {
        let edges = &self.0;
        let reachable = self.closure(root, false);
        let closures = self.closures(removals);
        let mut out: Vec<String> = Vec::new();
        let mut i: usize = 0;
        assert(text::texts(out@) =~= Seq::empty());
        while i < edges.len()
            invariant
                i <= edges@.len(),
                edges@ == self.0@,
                reachable@.to_set() == closure_of(self.0@, root, false),
                closures@.len() == removals@.len(),
                forall|k: int|
                    0 <= k < removals@.len() ==> (#[trigger] closures@[k])@.to_set()
                        == closure_of(self.0@, removals@[k].1, true),
                order::sorted(text::texts(out@)),
                forall|name: Seq<char>| #[trigger]
                    text::texts(out@).contains(name) <==> is_blocking(
                        self.0@,
                        removals@,
                        root,
                        at_root as int,
                        i as int,
                        name,
                    ),
            decreases edges@.len() - i,
        {
            let e = &edges[i];
            let ghost start = text::texts(out@);
            let dependent_at = position_in(removals, &closures, Ghost(self.0@), e.dependent);
            let referenced_at = position_in(removals, &closures, Ghost(self.0@), e.referenced);
            if any_covers(&reachable, e.referenced) && !e.automatic() {
                let blocks = match dependent_at {
                    None => true,
                    Some(before) => before > match referenced_at {
                        Some(at) => at,
                        None => at_root,
                    },
                };
                assert(blocks == blocks_as_dependent(
                    self.0@,
                    removals@,
                    root,
                    at_root as int,
                    *e,
                ));
                if blocks {
                    order::insert(&mut out, e.dependent_name.clone());
                }
            }
            let ghost middle = text::texts(out@);
            if e.owner() && any_covers(&reachable, e.dependent) {
                let blocks = match dependent_at {
                    None => false,
                    Some(at) => match referenced_at {
                        None => true,
                        Some(before) => before > at,
                    },
                };
                assert(blocks == blocks_as_owner(self.0@, removals@, root, *e));
                if blocks {
                    order::insert(
                        &mut out,
                        text::fill2(OWNER, e.referenced_name.as_str(), e.dependent_name.as_str()),
                    );
                }
            }
            proof {
                let a = blocks_as_dependent(self.0@, removals@, root, at_root as int, *e);
                let b = blocks_as_owner(self.0@, removals@, root, *e);
                assert forall|name: Seq<char>| #[trigger]
                    text::texts(out@).contains(name) <==> is_blocking(
                        self.0@,
                        removals@,
                        root,
                        at_root as int,
                        i + 1,
                        name,
                    ) by {
                    assert(middle.contains(name) <==> start.contains(name) || (a && name
                        == e.dependent_name@));
                    assert(text::texts(out@).contains(name) <==> middle.contains(name) || (b && name
                        == owner_text(*e)));
                    if start.contains(name) {
                        assert(is_blocking(
                            self.0@,
                            removals@,
                            root,
                            at_root as int,
                            i as int,
                            name,
                        ));
                    }
                    if is_blocking(self.0@, removals@, root, at_root as int, i + 1, name) {
                        let k = choose|k: int|
                            0 <= k < i + 1 && {
                                let e = #[trigger] self.0@[k];
                                (blocks_as_dependent(
                                    self.0@,
                                    removals@,
                                    root,
                                    at_root as int,
                                    e,
                                ) && e.dependent_name@ == name) || (blocks_as_owner(
                                    self.0@,
                                    removals@,
                                    root,
                                    e,
                                ) && owner_text(e) == name)
                            };
                        if k < i {
                            assert(is_blocking(
                                self.0@,
                                removals@,
                                root,
                                at_root as int,
                                i as int,
                                name,
                            ));
                        }
                    }
                    assert(self.0@[i as int] == *e);
                }
            }
            i += 1;
        }
        out
    }
}

// ---------------------------------------------------------------------------
// The catalog's names

/// The name the catalog has for a table, and for a column of it, that the
/// `n`th change of a plan speaks of: only the changes before it are taken
/// back. `None` where one of them creates it.
pub open spec fn stored_at(
    changes: Seq<Change>,
    n: int,
    table: model::Qualified,
    column: Option<Seq<char>>,
) -> Option<(model::Qualified, Option<Seq<char>>)>
    decreases n,
{
    if n <= 0 {
        Some((table, column))
    } else {
        match changes[n - 1] {
            Change::RenameColumn { table: on, from, to } => if on@ == table && column == Some(to@) {
                stored_at(changes, n - 1, table, Some(from@))
            } else {
                stored_at(changes, n - 1, table, column)
            },
            Change::RenameTable { from, to } => if to@ == table {
                stored_at(changes, n - 1, from@, column)
            } else {
                stored_at(changes, n - 1, table, column)
            },
            Change::CreateTable { name, table: _ } => if name@ == table {
                None
            } else {
                stored_at(changes, n - 1, table, column)
            },
            Change::AddColumn { table: on, name, column: _ } => if on@ == table && column == Some(
                name@,
            ) {
                None
            } else {
                stored_at(changes, n - 1, table, column)
            },
            _ => stored_at(changes, n - 1, table, column),
        }
    }
}

/// The text of an optional borrowed string.
pub open spec fn text_of(o: Option<&str>) -> Option<Seq<char>> {
    match o {
        Some(s) => Some(s@),
        None => None,
    }
}

fn is_column(column: &Option<String>, name: &String) -> (r: bool)
    ensures
        r == (text::text_in(*column) == Some(name@)),
{
    match column {
        Some(column) => text::same(column.as_str(), name.as_str()),
        None => false,
    }
}

/// Takes back the renames in front of `index`: the names of a change are the
/// ones at the time its statement runs, and the catalog still has the earlier
/// ones. `None` for what an earlier change of the plan creates.
pub fn stored(changes: &ChangeSet, index: usize, table: &TableName, column: Option<&str>) -> (r:
    Option<(TableName, Option<String>)>)
    requires
        index <= changes.changes@.len(),
    ensures
        match r {
            Some((t, c)) => stored_at(
                changes.changes@,
                index as int,
                table@,
                text_of(column),
            ) == Some((t@, text::text_in(c))),
            None => stored_at(changes.changes@, index as int, table@, text_of(column)) is None,
        },
{
    let plan = &changes.changes;
    let mut at = table.again();
    let mut name = match column {
        Some(column) => Some(column.to_owned()),
        None => None,
    };
    let mut n: usize = index;
    while n > 0
        invariant
            n <= index <= plan@.len(),
            plan@ == changes.changes@,
            stored_at(plan@, index as int, table@, text_of(column)) == stored_at(
                plan@,
                n as int,
                at@,
                text::text_in(name),
            ),
        decreases n,
    {
        match &plan[n - 1] {
            Change::RenameColumn { table: on, from, to } => {
                if on.is(&at) && is_column(&name, to) {
                    name = Some(from.clone());
                }
            },
            Change::RenameTable { from, to } => {
                if to.is(&at) {
                    at = from.again();
                }
            },
            Change::CreateTable { name: created, .. } => {
                if created.is(&at) {
                    return None;
                }
            },
            Change::AddColumn { table: on, name: added, .. } => {
                if on.is(&at) && is_column(&name, added) {
                    return None;
                }
            },
            Change::DropTable { .. }
            | Change::DropColumn { .. }
            | Change::AlterColumnType { .. }
            | Change::AlterColumnNullability { .. }
            | Change::AlterColumnDefault { .. }
            | Change::SetColumnDeprecated { .. }
            | Change::SetPrimaryKey { .. }
            | Change::AddUnique { .. }
            | Change::DropUnique { .. }
            | Change::AddForeignKey { .. }
            | Change::DropForeignKey { .. }
            | Change::AddCheck { .. }
            | Change::DropCheck { .. }
            | Change::AddIndex { .. }
            | Change::DropIndex { .. }
            | Change::InsertRow { .. }
            | Change::UpdateRow { .. }
            | Change::DeleteRow { .. }
            | Change::SetDataMode { .. }
            | Change::CreateModule { .. }
            | Change::AlterModule { .. }
            | Change::DropModule { .. }
            | Change::CreateRole { .. }
            | Change::DropRole { .. }
            | Change::RenameRole { .. }
            | Change::Grant { .. }
            | Change::Revoke { .. }
            | Change::PublicExecution { .. } => {},
        }
        n -= 1;
    }
    Some((at, name))
}

// ---------------------------------------------------------------------------
// What a change removes

/// A part of a table that a change removes.
#[derive(Debug, Clone, PartialEq, Eq)]
pub enum Part {
    Constraint(String),
    Index(String),
    PrimaryKey,
}

/// What to look up for a change that removes something.
#[derive(Debug, Clone, PartialEq, Eq)]
pub enum Removal {
    /// It removes nothing that the catalog has.
    Nothing,
    /// A table, which has to be there.
    Table(TableName),
    /// A column, which has to be there: as the catalog names it, and as the
    /// plan does.
    Column { table: TableName, column: Option<String>, declared: model::ColumnRef },
    /// A module.
    Module(ModuleId, ModuleKind),
    /// A part of a table.
    Part(TableName, Part),
    /// The default of a column.
    Default { table: TableName, column: Option<String> },
}

/// What a part of a table is.
pub enum PartView {
    Constraint(Seq<char>),
    Index(Seq<char>),
    PrimaryKey,
}

/// What to look up for a change.
pub enum RemovalView {
    Nothing,
    Table(model::Qualified),
    Column {
        table: model::Qualified,
        column: Option<Seq<char>>,
        declared: (model::Qualified, Seq<char>),
    },
    Module(model::ModuleIdView, ModuleKind),
    Part(model::Qualified, PartView),
    Default { table: model::Qualified, column: Option<Seq<char>> },
}

impl View for Part {
    type V = PartView;

    open spec fn view(&self) -> PartView {
        match *self {
            Part::Constraint(name) => PartView::Constraint(name@),
            Part::Index(name) => PartView::Index(name@),
            Part::PrimaryKey => PartView::PrimaryKey,
        }
    }
}

impl View for Removal {
    type V = RemovalView;

    open spec fn view(&self) -> RemovalView {
        match *self {
            Removal::Nothing => RemovalView::Nothing,
            Removal::Table(table) => RemovalView::Table(table@),
            Removal::Column { table, column, declared } => RemovalView::Column {
                table: table@,
                column: text::text_in(column),
                declared: declared@,
            },
            Removal::Module(id, kind) => RemovalView::Module(id@, kind),
            Removal::Part(table, part) => RemovalView::Part(table@, part@),
            Removal::Default { table, column } => RemovalView::Default {
                table: table@,
                column: text::text_in(column),
            },
        }
    }
}

/// A part of a table, where the catalog has the table.
pub open spec fn part_removal(
    changes: Seq<Change>,
    index: int,
    table: model::Qualified,
    part: PartView,
) -> RemovalView {
    match stored_at(changes, index, table, None) {
        Some((table, _)) => RemovalView::Part(table, part),
        None => RemovalView::Nothing,
    }
}

/// What the `index`th change of a plan removes.
pub open spec fn removal_of(changes: Seq<Change>, index: int) -> RemovalView {
    match changes[index] {
        Change::DropTable { name } => match stored_at(changes, index, name@, None) {
            Some((table, _)) => RemovalView::Table(table),
            None => RemovalView::Nothing,
        },
        Change::DropColumn { column } => match stored_at(
            changes,
            index,
            column@.0,
            Some(column@.1),
        ) {
            Some((table, name)) => RemovalView::Column {
                table,
                column: name,
                declared: column@,
            },
            None => RemovalView::Nothing,
        },
        Change::DropModule { id, kind } => RemovalView::Module(id@, kind),
        Change::AlterModule { id, module } => RemovalView::Module(id@, module.kind),
        Change::DropCheck { table, name } => part_removal(
            changes,
            index,
            table@,
            PartView::Constraint(name@),
        ),
        Change::DropUnique { table, name } => part_removal(
            changes,
            index,
            table@,
            PartView::Constraint(name@),
        ),
        Change::DropForeignKey { table, name } => part_removal(
            changes,
            index,
            table@,
            PartView::Constraint(name@),
        ),
        Change::DropIndex { table, name } => part_removal(
            changes,
            index,
            table@,
            PartView::Index(name@),
        ),
        Change::SetPrimaryKey { table, from, to: _ } => match from {
            Some(_) => part_removal(changes, index, table@, PartView::PrimaryKey),
            None => RemovalView::Nothing,
        },
        Change::AlterColumnDefault { column, from, to: _ } => match from {
            Some(_) => match stored_at(changes, index, column@.0, Some(column@.1)) {
                Some((table, name)) => RemovalView::Default { table, column: name },
                None => RemovalView::Nothing,
            },
            None => RemovalView::Nothing,
        },
        _ => RemovalView::Nothing,
    }
}

fn table_part(changes: &ChangeSet, index: usize, table: &TableName, part: Part) -> (r: Removal)
    requires
        index < changes.changes@.len(),
    ensures
        r@ == part_removal(changes.changes@, index as int, table@, part@),
{
    match stored(changes, index, table, None) {
        Some((table, _)) => Removal::Part(table, part),
        None => Removal::Nothing,
    }
}

fn copy_column(column: &model::ColumnRef) -> (r: model::ColumnRef)
    ensures
        r@ == column@,
{
    column.table.column(column.name.as_str())
}

/// What the `index`th change of a plan removes, under the names the catalog
/// has: nothing where an earlier change of the plan creates it.
pub fn removal(changes: &ChangeSet, index: usize) -> (r: Removal)
    requires
        index < changes.changes@.len(),
    ensures
        r@ == removal_of(changes.changes@, index as int),
{
    match &changes.changes[index] {
        Change::DropTable { name } => match stored(changes, index, name, None) {
            Some((table, _)) => Removal::Table(table),
            None => Removal::Nothing,
        },
        Change::DropColumn { column } => match stored(
            changes,
            index,
            &column.table,
            Some(column.name.as_str()),
        ) {
            Some((table, name)) => Removal::Column {
                table,
                column: name,
                declared: copy_column(column),
            },
            None => Removal::Nothing,
        },
        Change::DropModule { id, kind } => Removal::Module(id.again(), *kind),
        Change::AlterModule { id, module } => Removal::Module(id.again(), module.kind),
        Change::DropCheck { table, name } => table_part(
            changes,
            index,
            table,
            Part::Constraint(name.clone()),
        ),
        Change::DropUnique { table, name } => table_part(
            changes,
            index,
            table,
            Part::Constraint(name.clone()),
        ),
        Change::DropForeignKey { table, name } => table_part(
            changes,
            index,
            table,
            Part::Constraint(name.clone()),
        ),
        Change::DropIndex { table, name } => table_part(
            changes,
            index,
            table,
            Part::Index(name.clone()),
        ),
        Change::SetPrimaryKey { table, from, to: _ } => match from {
            Some(_) => table_part(changes, index, table, Part::PrimaryKey),
            None => Removal::Nothing,
        },
        Change::AlterColumnDefault { column, from, to: _ } => match from {
            Some(_) => match stored(changes, index, &column.table, Some(column.name.as_str())) {
                Some((table, name)) => Removal::Default { table, column: name },
                None => Removal::Nothing,
            },
            None => Removal::Nothing,
        },
        Change::CreateTable { .. }
        | Change::RenameTable { .. }
        | Change::AddColumn { .. }
        | Change::RenameColumn { .. }
        | Change::AlterColumnType { .. }
        | Change::AlterColumnNullability { .. }
        | Change::SetColumnDeprecated { .. }
        | Change::AddUnique { .. }
        | Change::AddForeignKey { .. }
        | Change::AddCheck { .. }
        | Change::AddIndex { .. }
        | Change::InsertRow { .. }
        | Change::UpdateRow { .. }
        | Change::DeleteRow { .. }
        | Change::SetDataMode { .. }
        | Change::CreateModule { .. }
        | Change::CreateRole { .. }
        | Change::DropRole { .. }
        | Change::RenameRole { .. }
        | Change::Grant { .. }
        | Change::Revoke { .. }
        | Change::PublicExecution { .. } => Removal::Nothing,
    }
}

// ---------------------------------------------------------------------------
// What to ask

/// The catalogs whose rows can be removed, as the catalog numbers them.
pub const CLASSES: &'static str =
    "SELECT 'pg_catalog.pg_class'::regclass::int8 AS relation,
            'pg_catalog.pg_proc'::regclass::int8 AS routine,
            'pg_catalog.pg_trigger'::regclass::int8 AS trigger,
            'pg_catalog.pg_constraint'::regclass::int8 AS constraint,
            'pg_catalog.pg_attrdef'::regclass::int8 AS default";

/// A table or one of its columns: `$1` is the quoted, qualified table and `$2`
/// the column, or empty.
pub const RELATION: &'static str =
    "SELECT c.oid::int8 AS oid, COALESCE(a.attnum,0)::int8 AS part
           FROM pg_catalog.pg_class c
           LEFT JOIN pg_catalog.pg_attribute a ON a.attrelid=c.oid AND a.attname=$2
             AND a.attnum > 0 AND NOT a.attisdropped
          WHERE c.oid=pg_catalog.to_regclass($1) AND c.relkind IN ('r','p')
            AND ($2::text = '' OR a.attnum IS NOT NULL)";

/// The default of a column: `$1` is the table, `$2` the column's number.
pub const COLUMN_DEFAULT: &'static str =
    "SELECT oid::int8 AS oid FROM pg_catalog.pg_attrdef
                WHERE adrelid=($1::int8)::oid AND adnum=$2::int8";

/// An index of a table: `$1` is the table, `$2` the index's name.
pub const TABLE_INDEX: &'static str =
    "SELECT c.oid::int8 AS oid FROM pg_catalog.pg_index i
         JOIN pg_catalog.pg_class c ON c.oid=i.indexrelid
         WHERE i.indrelid=($1::int8)::oid AND c.relname=$2";

/// A constraint of a table: `$1` is the table, `$2` the constraint's name.
pub const TABLE_CONSTRAINT: &'static str =
    "SELECT oid::int8 AS oid FROM pg_catalog.pg_constraint
         WHERE conrelid=($1::int8)::oid AND conname=$2";

/// The primary key of a table: `$1` is the table, and `$2` is empty.
pub const TABLE_PRIMARY_KEY: &'static str =
    "SELECT oid::int8 AS oid FROM pg_catalog.pg_constraint
         WHERE conrelid=($1::int8)::oid AND contype='p' AND $2::text = ''";

/// Makes names resolve in the catalog alone for the rest of the transaction.
pub const SEARCH_PATH: &'static str =
    "SELECT pg_catalog.set_config('search_path', 'pg_catalog', true)";

/// Every edge that a removal of the seeds can reach.
pub const GRAPH: &'static str =
    "WITH RECURSIVE reached(classid,objid,objsubid) AS (
        VALUES {}
        UNION
        SELECT next.* FROM reached o CROSS JOIN LATERAL (
            SELECT d.classid,d.objid,d.objsubid FROM pg_catalog.pg_depend d
             WHERE d.refclassid=o.classid AND d.refobjid=o.objid
               AND (o.objsubid=0 OR d.refobjsubid=o.objsubid)
            UNION
            SELECT d.refclassid,d.refobjid,d.refobjsubid FROM pg_catalog.pg_depend d
             WHERE d.classid=o.classid AND d.objid=o.objid
               AND (o.objsubid=0 OR d.objsubid=o.objsubid) AND d.deptype IN ('i','e')
        ) next
    )
    SELECT DISTINCT d.classid::int8 AS dc,d.objid::int8 AS dob,d.objsubid::int8 AS dp,
           d.refclassid::int8 AS rc,d.refobjid::int8 AS rob,d.refobjsubid::int8 AS rp,
           d.deptype::text AS kind,
           pg_catalog.pg_describe_object(d.classid,d.objid,d.objsubid) AS dn,
           pg_catalog.pg_describe_object(d.refclassid,d.refobjid,d.refobjsubid) AS rn
      FROM pg_catalog.pg_depend d
     WHERE EXISTS (SELECT FROM reached o
        WHERE (d.refclassid=o.classid AND d.refobjid=o.objid
               AND (o.objsubid=0 OR d.refobjsubid=o.objsubid))
           OR (d.classid=o.classid AND d.objid=o.objid
               AND (o.objsubid=0 OR d.objsubid=o.objsubid) AND d.deptype IN ('i','e')))";

/// One seed of [`GRAPH`].
pub const SEED: &'static str = "({}::oid,{}::oid,{}::int4)";

/// Between two seeds.
pub const SEED_COMMA: &'static str = ",";

/// Why a row without a column cannot be read.
pub const OMITTED: &'static str = "drop_blockers: catalog omitted {}";

/// Why a table that is not there cannot be reported on.
pub const ABSENT_TABLE: &'static str = "drop_blockers: table {} is absent from the catalog";

/// Why a column that is not there cannot be reported on.
pub const ABSENT_COLUMN: &'static str = "drop_blockers: column {} is absent from the catalog";

/// The catalogs whose rows can be removed, as the catalog numbers them.
#[derive(Debug, Clone, Copy, PartialEq, Eq, Structural)]
pub struct Classes {
    pub relation: i64,
    pub routine: i64,
    pub trigger: i64,
    pub constraint: i64,
    pub default: i64,
}

/// The query for a part of a table, the catalog its rows are in, and the name
/// it is asked with.
pub fn part_query(classes: Classes, part: &Part) -> (r: (&'static str, i64, &str))
    ensures
        match part@ {
            PartView::Index(name) => r.0@ == TABLE_INDEX@ && r.1 == classes.relation && r.2@ == name,
            PartView::Constraint(name) => r.0@ == TABLE_CONSTRAINT@ && r.1 == classes.constraint
                && r.2@ == name,
            PartView::PrimaryKey => r.0@ == TABLE_PRIMARY_KEY@ && r.1 == classes.constraint && r.2@
                == ""@,
        },
{
    match part {
        Part::Index(name) => (TABLE_INDEX, classes.relation, name.as_str()),
        Part::Constraint(name) => (TABLE_CONSTRAINT, classes.constraint, name.as_str()),
        Part::PrimaryKey => (TABLE_PRIMARY_KEY, classes.constraint, ""),
    }
}

/// The catalog a module's row is in.
pub fn module_class(classes: Classes, kind: ModuleKind) -> (r: i64)
    ensures
        r == match kind {
            ModuleKind::View => classes.relation,
            ModuleKind::Function | ModuleKind::Procedure => classes.routine,
            ModuleKind::Trigger => classes.trigger,
        },
{
    match kind {
        ModuleKind::View => classes.relation,
        ModuleKind::Function | ModuleKind::Procedure => classes.routine,
        ModuleKind::Trigger => classes.trigger,
    }
}

/// Sets a token for the rest of the transaction: `$1` is one that nobody has
/// used before.
pub const SET_TOKEN: &'static str =
    "SELECT pg_catalog.set_config('pbps.in_a_transaction', $1, true) AS was_set";

/// Reads the token back: it is gone where there was no transaction.
pub const READ_TOKEN: &'static str =
    "SELECT pg_catalog.current_setting('pbps.in_a_transaction', true) AS probe";

/// Why a read outside the caller's transaction is refused.
pub const NO_TRANSACTION: &'static str = "drop_blockers requires the caller's transaction";

/// Whether the connection is inside the caller's transaction, from what the
/// token reads as.
pub fn holds_token(probe: Option<&str>, token: &str) -> (r: Result<(), String>)
    ensures
        if probe matches Some(p) && p@ == token@ {
            r is Ok
        } else {
            r matches Err(e) && e@ == NO_TRANSACTION@
        },
{
    if let Some(p) = probe {
        if text::same(p, token) {
            return Ok(());
        }
    }
    Err(NO_TRANSACTION.to_owned())
}

/// A column of a row that has to be there.
pub fn required(value: Option<i64>, name: &str) -> (r: Result<i64, String>)
    ensures
        match value {
            Some(n) => r == Ok::<i64, String>(n),
            None => r matches Err(e) && e@ == text::filled(OMITTED@, seq![name@]),
        },
{
    match value {
        Some(n) => Ok(n),
        None => Err(text::fill1(OMITTED, name)),
    }
}

fn required_text(value: &Option<String>, name: &str) -> (r: Result<String, String>)
    ensures
        match text::text_in(*value) {
            Some(s) => r matches Ok(t) && t@ == s,
            None => r matches Err(e) && e@ == text::filled(OMITTED@, seq![name@]),
        },
{
    match value {
        Some(s) => Ok(s.clone()),
        None => Err(text::fill1(OMITTED, name)),
    }
}

/// What is said of a table that has to be there and is not.
pub fn absent_table(table: &TableName) -> (r: String)
    ensures
        r@ == text::filled(ABSENT_TABLE@, seq![model::dotted(table@)]),
{
    let shown = table.show();
    text::fill1(ABSENT_TABLE, shown.as_str())
}

/// What is said of a column that has to be there and is not, as the plan names
/// it.
pub fn absent_column(column: &model::ColumnRef) -> (r: String)
    ensures
        r@ == text::filled(ABSENT_COLUMN@, seq![model::column_text(column@)]),
{
    let shown = column.show();
    text::fill1(ABSENT_COLUMN, shown.as_str())
}

/// One row of [`GRAPH`].
#[derive(Debug, Clone, PartialEq, Eq)]
pub struct EdgeRow {
    pub dc: Option<i64>,
    pub dob: Option<i64>,
    pub dp: Option<i64>,
    pub rc: Option<i64>,
    pub rob: Option<i64>,
    pub rp: Option<i64>,
    pub kind: Option<String>,
    pub dn: Option<String>,
    pub rn: Option<String>,
}

/// The first column that a row leaves out.
pub open spec fn omitted(row: EdgeRow) -> Option<Seq<char>> {
    if row.dc is None {
        Some("dc"@)
    } else if row.dob is None {
        Some("dob"@)
    } else if row.dp is None {
        Some("dp"@)
    } else if row.rc is None {
        Some("rc"@)
    } else if row.rob is None {
        Some("rob"@)
    } else if row.rp is None {
        Some("rp"@)
    } else if row.kind is None {
        Some("kind"@)
    } else if row.dn is None {
        Some("dn"@)
    } else if row.rn is None {
        Some("rn"@)
    } else {
        None
    }
}

/// The edge a row holds, or what it leaves out.
pub fn edge(row: &EdgeRow) -> (r: Result<Edge, String>)
    ensures
        match omitted(*row) {
            Some(name) => r matches Err(e) && e@ == text::filled(OMITTED@, seq![name]),
            None => r matches Ok(e) && e.dependent == (Address {
                class: row.dc->0,
                object: row.dob->0,
                part: row.dp->0,
            }) && e.referenced == (Address {
                class: row.rc->0,
                object: row.rob->0,
                part: row.rp->0,
            }) && e.kind@ == row.kind->0@ && e.dependent_name@ == row.dn->0@ && e.referenced_name@
                == row.rn->0@,
        },
{
    let dependent = Address {
        class: required(row.dc, "dc")?,
        object: required(row.dob, "dob")?,
        part: required(row.dp, "dp")?,
    };
    let referenced = Address {
        class: required(row.rc, "rc")?,
        object: required(row.rob, "rob")?,
        part: required(row.rp, "rp")?,
    };
    let kind = required_text(&row.kind, "kind")?;
    let dependent_name = required_text(&row.dn, "dn")?;
    let referenced_name = required_text(&row.rn, "rn")?;
    Ok(Edge { dependent, referenced, kind, dependent_name, referenced_name })
}

// ---------------------------------------------------------------------------
// Seeds

/// Whether one address comes before another.
pub open spec fn address_before(a: Address, b: Address) -> bool {
    ||| a.class < b.class
    ||| a.class == b.class && a.object < b.object
    ||| a.class == b.class && a.object == b.object && a.part < b.part
}

/// Whether each address comes before every later one.
pub open spec fn addresses_sorted(v: Seq<Address>) -> bool {
    forall|i: int, j: int| 0 <= i < j < v.len() ==> address_before(#[trigger] v[i], #[trigger] v[j])
}

/// The addresses of some removals, each once and in order.
pub open spec fn are_roots(roots: Seq<Address>, removals: Seq<(usize, Address)>) -> bool {
    addresses_sorted(roots) && forall|a: Address|
        #[trigger] roots.contains(a) <==> exists|i: int|
            0 <= i < removals.len() && (#[trigger] removals[i]).1 == a
}

fn put(list: &mut Vec<Address>, a: Address)
    requires
        addresses_sorted(old(list)@),
    ensures
        addresses_sorted(final(list)@),
        forall|x: Address| #[trigger]
            final(list)@.contains(x) <==> old(list)@.contains(x) || x == a,
{
    let mut at: usize = 0;
    while at < list.len() && (list[at].class < a.class || (list[at].class == a.class && (
    list[at].object < a.object || (list[at].object == a.object && list[at].part < a.part))))
        invariant
            at <= list@.len(),
            list@ == old(list)@,
            forall|k: int| 0 <= k < at ==> address_before(#[trigger] list@[k], a),
        decreases list@.len() - at,
    {
        at += 1;
    }
    let ghost start = list@;
    if at < list.len() && list[at] == a {
        assert(start[at as int] == a);
        return ;
    }
    list.insert(at, a);
    proof {
        let next = list@;
        assert(next =~= start.insert(at as int, a));
        assert forall|i: int, j: int| 0 <= i < j < next.len() implies address_before(
            #[trigger] next[i],
            #[trigger] next[j],
        ) by {
            if i < at && j == at {
                assert(address_before(start[i], a));
            } else if i == at {
                if j - 1 > at {
                    assert(address_before(start[at as int], start[j - 1]));
                }
                assert(!address_before(start[at as int], a));
            } else if j < at {
                assert(address_before(start[i], start[j]));
            } else if i < at {
                assert(address_before(start[i], start[j - 1]));
            } else {
                assert(address_before(start[i - 1], start[j - 1]));
            }
        }
        assert forall|x: Address| #[trigger]
            next.contains(x) <==> start.contains(x) || x == a by {
            if next.contains(x) {
                let k = choose|k: int| 0 <= k < next.len() && next[k] == x;
                if k < at {
                    assert(start[k] == x);
                } else if k > at {
                    assert(start[k - 1] == x);
                }
            }
            if start.contains(x) {
                let k = choose|k: int| 0 <= k < start.len() && start[k] == x;
                if k < at {
                    assert(next[k] == x);
                } else {
                    assert(next[k + 1] == x);
                }
            }
            if x == a {
                assert(next[at as int] == x);
            }
        }
    }
}

fn roots(removals: &[(usize, Address)]) -> (r: Vec<Address>)
    ensures
        are_roots(r@, removals@),
{
    let mut out: Vec<Address> = Vec::new();
    let mut i: usize = 0;
    while i < removals.len()
        invariant
            i <= removals@.len(),
            addresses_sorted(out@),
            forall|a: Address|
                #[trigger] out@.contains(a) <==> exists|k: int|
                    0 <= k < i && (#[trigger] removals@[k]).1 == a,
        decreases removals@.len() - i,
    {
        let ghost before = out@;
        put(&mut out, removals[i].1);
        proof {
            assert forall|a: Address|
                #[trigger] out@.contains(a) <==> exists|k: int|
                    0 <= k < i + 1 && (#[trigger] removals@[k]).1 == a by {
                if out@.contains(a) {
                    if before.contains(a) {
                        let k = choose|k: int| 0 <= k < i && (#[trigger] removals@[k]).1 == a;
                        assert(removals@[k].1 == a);
                    } else {
                        assert(removals@[i as int].1 == a);
                    }
                }
                if exists|k: int| 0 <= k < i + 1 && (#[trigger] removals@[k]).1 == a {
                    let k = choose|k: int| 0 <= k < i + 1 && (#[trigger] removals@[k]).1 == a;
                    if k < i {
                        assert(before.contains(a));
                    }
                }
            }
        }
        i += 1;
    }
    out
}

/// One seed.
pub open spec fn seed_text(a: Address) -> Seq<char> {
    text::filled(
        SEED@,
        seq![
            text::decimal_int(a.class as int),
            text::decimal_int(a.object as int),
            text::decimal_int(a.part as int),
        ],
    )
}

/// The query for everything a removal of some roots can reach.
pub open spec fn graph_text(roots: Seq<Address>) -> Seq<char> {
    text::filled(
        GRAPH@,
        seq![text::joined(Seq::new(roots.len(), |i: int| seed_text(roots[i])), SEED_COMMA@)],
    )
}

/// The query for every edge that the removals can reach, or `None` where
/// nothing is removed. Numbers alone enter the query.
pub fn graph_query(removals: &[(usize, Address)]) -> (r: Option<String>)
    ensures
        match r {
            None => removals@.len() == 0,
            Some(query) => removals@.len() > 0 && exists|v: Seq<Address>|
                are_roots(v, removals@) && query@ == #[trigger] graph_text(v),
        },
{
    if removals.len() == 0 {
        return None;
    }
    let list = roots(removals);
    let mut seeds: Vec<String> = Vec::new();
    let mut i: usize = 0;
    while i < list.len()
        invariant
            i <= list@.len(),
            seeds@.len() == i,
            forall|k: int| 0 <= k < i ==> (#[trigger] seeds@[k])@ == seed_text(list@[k]),
        decreases list@.len() - i,
    {
        let class = text::show_int(list[i].class);
        let object = text::show_int(list[i].object);
        let part = text::show_int(list[i].part);
        seeds.push(text::fill3(SEED, class.as_str(), object.as_str(), part.as_str()));
        i += 1;
    }
    let joined = text::join(&seeds, SEED_COMMA);
    assert(text::texts(seeds@) =~= Seq::new(list@.len(), |k: int| seed_text(list@[k])));
    let query = text::fill1(GRAPH, joined.as_str());
    assert(query@ == graph_text(list@));
    Some(query)
}

// ---------------------------------------------------------------------------
// Reports

/// What blocks one drop of a plan.
#[derive(Debug, Clone, PartialEq, Eq)]
pub struct DropReport {
    pub change_index: usize,
    pub target: String,
    pub blocking: Vec<String>,
}

/// A dropped table, in words.
pub const TABLE: &'static str = "table {}";

/// A dropped column, in words.
pub const COLUMN: &'static str = "column {}";

/// What a change drops, in words, where it drops a table or a column.
pub open spec fn dropped(change: Change) -> Option<Seq<char>> {
    match change {
        Change::DropTable { name } => Some(text::filled(TABLE@, seq![model::dotted(name@)])),
        Change::DropColumn { column } => Some(
            text::filled(COLUMN@, seq![model::column_text(column@)]),
        ),
        _ => None,
    }
}

/// The drops among the first `n` changes: which change, and what it drops.
pub open spec fn drops_of(changes: Seq<Change>, n: int) -> Seq<(int, Seq<char>)>
    decreases n,
{
    if n <= 0 {
        Seq::empty()
    } else {
        let rest = drops_of(changes, n - 1);
        match dropped(changes[n - 1]) {
            Some(target) => rest.push((n - 1, target)),
            None => rest,
        }
    }
}

/// What some targets are.
pub open spec fn target_views(v: Seq<(usize, String)>) -> Seq<(int, Seq<char>)> {
    Seq::new(v.len(), |i: int| (v[i].0 as int, v[i].1@))
}

/// The tables and columns a plan drops, in order: which change, and what it
/// drops.
pub fn drop_targets(changes: &ChangeSet) -> (r: Vec<(usize, String)>)
    ensures
        target_views(r@) == drops_of(changes.changes@, changes.changes@.len() as int),
{
    let plan = &changes.changes;
    let mut out: Vec<(usize, String)> = Vec::new();
    let mut i: usize = 0;
    assert(target_views(out@) =~= Seq::empty());
    while i < plan.len()
        invariant
            i <= plan@.len(),
            plan@ == changes.changes@,
            target_views(out@) == drops_of(plan@, i as int),
        decreases plan@.len() - i,
    {
        let target = match &plan[i] {
            Change::DropTable { name } => {
                let shown = name.show();
                Some(text::fill1(TABLE, shown.as_str()))
            },
            Change::DropColumn { column } => {
                let shown = column.show();
                Some(text::fill1(COLUMN, shown.as_str()))
            },
            Change::CreateTable { .. }
            | Change::RenameTable { .. }
            | Change::AddColumn { .. }
            | Change::RenameColumn { .. }
            | Change::AlterColumnType { .. }
            | Change::AlterColumnNullability { .. }
            | Change::AlterColumnDefault { .. }
            | Change::SetColumnDeprecated { .. }
            | Change::SetPrimaryKey { .. }
            | Change::AddUnique { .. }
            | Change::DropUnique { .. }
            | Change::AddForeignKey { .. }
            | Change::DropForeignKey { .. }
            | Change::AddCheck { .. }
            | Change::DropCheck { .. }
            | Change::AddIndex { .. }
            | Change::DropIndex { .. }
            | Change::InsertRow { .. }
            | Change::UpdateRow { .. }
            | Change::DeleteRow { .. }
            | Change::SetDataMode { .. }
            | Change::CreateModule { .. }
            | Change::AlterModule { .. }
            | Change::DropModule { .. }
            | Change::CreateRole { .. }
            | Change::DropRole { .. }
            | Change::RenameRole { .. }
            | Change::Grant { .. }
            | Change::Revoke { .. }
            | Change::PublicExecution { .. } => None,
        };
        if let Some(target) = target {
            let ghost before = out@;
            out.push((i, target));
            assert(target_views(out@) =~= target_views(before).push((i as int, target@)));
        }
        i += 1;
    }
    out
}

/// The removal of one change, from the `at`th on.
pub open spec fn removal_at(removals: Seq<(usize, Address)>, index: int, at: int) -> Option<Address>
    decreases removals.len() - at,
{
    if at < 0 || at >= removals.len() {
        None
    } else if removals[at].0 == index {
        Some(removals[at].1)
    } else {
        removal_at(removals, index, at + 1)
    }
}

/// The removals of the changes up to `index`, among the first `n`.
pub open spec fn removals_to(removals: Seq<(usize, Address)>, index: int, n: int) -> Seq<
    (usize, Address),
>
    decreases n,
{
    if n <= 0 {
        Seq::empty()
    } else {
        let rest = removals_to(removals, index, n - 1);
        if removals[n - 1].0 <= index {
            rest.push(removals[n - 1])
        } else {
            rest
        }
    }
}

/// Whether a report says exactly what blocks one drop: nothing where the plan
/// itself creates what it drops, and otherwise every blocker, under the
/// removals up to it.
pub open spec fn reports_drop(
    report: DropReport,
    target: (usize, String),
    removals: Seq<(usize, Address)>,
    edges: Seq<Edge>,
) -> bool {
    &&& report.change_index == target.0
    &&& report.target@ == target.1@
    &&& order::sorted(text::texts(report.blocking@))
    &&& match removal_at(removals, target.0 as int, 0) {
        None => report.blocking@.len() == 0,
        Some(root) => forall|name: Seq<char>| #[trigger]
            text::texts(report.blocking@).contains(name) <==> is_blocking(
                edges,
                removals_to(removals, target.0 as int, removals.len() as int),
                root,
                target.0 as int,
                edges.len() as int,
                name,
            ),
    }
}

fn find_removal(removals: &[(usize, Address)], index: usize) -> (r: Option<Address>)
    ensures
        r == removal_at(removals@, index as int, 0),
{
    let mut i: usize = 0;
    while i < removals.len()
        invariant
            i <= removals@.len(),
            removal_at(removals@, index as int, 0) == removal_at(
                removals@,
                index as int,
                i as int,
            ),
        decreases removals@.len() - i,
    {
        if removals[i].0 == index {
            return Some(removals[i].1);
        }
        i += 1;
    }
    None
}

fn prior(removals: &[(usize, Address)], index: usize) -> (r: Vec<(usize, Address)>)
    ensures
        r@ == removals_to(removals@, index as int, removals@.len() as int),
{
    let mut out: Vec<(usize, Address)> = Vec::new();
    let mut i: usize = 0;
    while i < removals.len()
        invariant
            i <= removals@.len(),
            out@ == removals_to(removals@, index as int, i as int),
        decreases removals@.len() - i,
    {
        if removals[i].0 <= index {
            out.push(removals[i]);
        }
        i += 1;
    }
    out
}

/// What blocks each drop of a plan, from the removals that were looked up and
/// the edges they reach.
pub fn drop_blockers(
    targets: &Vec<(usize, String)>,
    removals: &[(usize, Address)],
    graph: &Graph,
) -> (r: Vec<DropReport>)
    ensures
        r@.len() == targets@.len(),
        forall|i: int|
            0 <= i < r@.len() ==> reports_drop(
                #[trigger] r@[i],
                targets@[i],
                removals@,
                graph.0@,
            ),
{
    let mut out: Vec<DropReport> = Vec::new();
    let mut i: usize = 0;
    while i < targets.len()
        invariant
            i <= targets@.len(),
            out@.len() == i,
            forall|k: int|
                0 <= k < i ==> reports_drop(
                    #[trigger] out@[k],
                    targets@[k],
                    removals@,
                    graph.0@,
                ),
        decreases targets@.len() - i,
    {
        let index: usize = targets[i].0;
        let blocking = match find_removal(removals, index) {
            Some(root) => {
                let before = prior(removals, index);
                graph.blockers(root, index, before.as_slice())
            },
            None => {
                let none: Vec<String> = Vec::new();
                assert(text::texts(none@) =~= Seq::empty());
                none
            },
        };
        out.push(
            DropReport { change_index: index, target: targets[i].1.clone(), blocking },
        );
        i += 1;
    }
    out
}

// ---------------------------------------------------------------------------
// Laws

/// A closure holds its root, no edge adds to it, and it lies in every set of
/// which both are true.
pub proof fn a_closure_is_the_least_closed_set(edges: Seq<Edge>, root: Address, automatic: bool)
    ensures
        closure_of(edges, root, automatic).contains(root),
        is_closed(edges, closure_of(edges, root, automatic), root, automatic),
        forall|s: Set<Address>|
            s.contains(root) && is_closed(edges, s, root, automatic) ==> #[trigger] closure_of(
                edges,
                root,
                automatic,
            ).subset_of(s),
{
    let c = closure_of(edges, root, automatic);
    assert forall|i: int| 0 <= i < edges.len() implies {
        let e = #[trigger] edges[i];
        (brings_dependent(e, c, automatic) ==> c.contains(e.dependent)) && (brings_owner(
            e,
            c,
            root,
            automatic,
        ) ==> c.contains(e.referenced))
    } by {
        let e = edges[i];
        if brings_dependent(e, c, automatic) {
            assert forall|s: Set<Address>|
                s.contains(root) && is_closed(
                    edges,
                    s,
                    root,
                    automatic,
                ) implies #[trigger] s.contains(e.dependent) by {
                let x = choose|x: Address| c.contains(x) && #[trigger] x.covers(e.referenced);
                assert(s.contains(x) && x.covers(e.referenced));
                assert(brings_dependent(e, s, automatic));
            }
        }
        if brings_owner(e, c, root, automatic) {
            assert forall|s: Set<Address>|
                s.contains(root) && is_closed(
                    edges,
                    s,
                    root,
                    automatic,
                ) implies #[trigger] s.contains(e.referenced) by {
                let x = choose|x: Address| c.contains(x) && #[trigger] x.covers(e.dependent);
                assert(s.contains(x) && x.covers(e.dependent));
                assert(brings_owner(e, s, root, automatic));
            }
        }
    }
}

/// What goes automatically with a drop is among what the drop reaches: every
/// automatic removal is looked at when blockers are.
pub proof fn automatic_removal_is_reached(edges: Seq<Edge>, root: Address)
    ensures
        closure_of(edges, root, true).subset_of(closure_of(edges, root, false)),
{
    let full = closure_of(edges, root, false);
    a_closure_is_the_least_closed_set(edges, root, false);
    a_closure_is_the_least_closed_set(edges, root, true);
    assert forall|i: int| 0 <= i < edges.len() implies {
        let e = #[trigger] edges[i];
        (brings_dependent(e, full, true) ==> full.contains(e.dependent)) && (brings_owner(
            e,
            full,
            root,
            true,
        ) ==> full.contains(e.referenced))
    } by {
        let e = edges[i];
        assert(brings_dependent(e, full, true) ==> brings_dependent(e, full, false));
        assert(brings_owner(e, full, root, true) ==> brings_owner(e, full, root, false));
    }
    assert(is_closed(edges, full, root, true));
}

/// A dependency that goes automatically with what it needs never blocks as a
/// dependent.
pub proof fn an_automatic_edge_never_blocks_as_a_dependent(
    edges: Seq<Edge>,
    removals: Seq<(usize, Address)>,
    root: Address,
    at_root: int,
    e: Edge,
)
    requires
        e.is_automatic(),
    ensures
        !blocks_as_dependent(edges, removals, root, at_root, e),
{
}

/// Only the changes in front of a drop decide the name it is looked up under:
/// whatever follows it in the plan leaves the answer as it is.
pub proof fn only_the_prefix_decides_a_stored_name(
    changes: Seq<Change>,
    more: Seq<Change>,
    n: int,
    table: model::Qualified,
    column: Option<Seq<char>>,
)
    requires
        0 <= n <= changes.len(),
    ensures
        stored_at(changes + more, n, table, column) == stored_at(changes, n, table, column),
    decreases n,
{
    if n > 0 {
        assert((changes + more)[n - 1] == changes[n - 1]);
        only_the_prefix_decides_a_stored_name(changes, more, n - 1, table, column);
        match changes[n - 1] {
            Change::RenameColumn { table: on, from, to } => {
                only_the_prefix_decides_a_stored_name(changes, more, n - 1, table, Some(from@));
            },
            Change::RenameTable { from, to } => {
                only_the_prefix_decides_a_stored_name(changes, more, n - 1, from@, column);
            },
            _ => {},
        }
    }
}

} // verus!
