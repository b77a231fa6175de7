//! Ephemeral layer: the byte-level state graph that grows on unmapped input.
//!
//! Nodes are numbered positionally from the root `0`; an edge maps a
//! `(source node, byte)` pair to a target node and carries a score. The
//! score type is a parameter: the graph only stores and hands scores back,
//! it never computes with them.

use vstd::prelude::*;
use std::collections::{BTreeSet, HashMap};
use vstd::std_specs::btree::spec_btree_keys_iter;
use vstd::std_specs::hash::spec_keys_iter;
use vstd::std_specs::iter::IteratorSpec;

verus! {

broadcast use vstd::std_specs::hash::group_hash_axioms;

pub type NodeId = u32;

/// The root node every traversal starts from.
pub const ROOT: NodeId = 0;

#[derive(Debug, Clone, Copy, Default)]
pub struct Node {
    pub visits: u64,
}

/// Per-edge data: the node the edge leads to and its score.
#[derive(Debug, Clone)]
pub struct Edge<S> {
    pub target: NodeId,
    pub score: S,
}

/// Returned by traversal when no edge exists for the next byte: the offset
/// of that byte in the input, and the byte itself.
#[derive(Debug, Clone, Copy, PartialEq, Eq, Structural)]
pub struct Unmapped {
    pub offset: usize,
    pub byte: u8,
}

/// The key under which the edge `(from, byte)` is stored.
pub open spec fn edge_key(from: NodeId, byte: u8) -> u64 {
    (from as u64 * 256 + byte as u64) as u64
}

/// The edge pair stored under `key`.
pub open spec fn key_edge(key: u64) -> (NodeId, u8) {
    ((key / 256) as NodeId, (key % 256) as u8)
}

/// Abstract state of a [`StateGraph`].
pub struct GraphView<S> {
    /// The node table; node ids index into it.
    pub nodes: Seq<Node>,
    /// The edges, by `(source node, byte)`.
    pub edges: Map<(NodeId, u8), Edge<S>>,
}

/// The mutable directed state graph that lives in RAM.
pub struct StateGraph<S> {
    nodes: Vec<Node>,
    edges: HashMap<u64, Edge<S>>,
}

/// The result of walking `bytes[i..]` from node `cur`: the node reached, or
/// the first position that has no edge.
pub open spec fn walk<S>(
    edges: Map<(NodeId, u8), Edge<S>>,
    cur: NodeId,
    bytes: Seq<u8>,
    i: int,
) -> Result<NodeId, Unmapped>
    decreases bytes.len() - i,
{
    if i < 0 || i >= bytes.len() {
        Ok(cur)
    } else if edges.contains_key((cur, bytes[i])) {
        walk(edges, edges[(cur, bytes[i])].target, bytes, i + 1)
    } else {
        Err(Unmapped { offset: i as usize, byte: bytes[i] })
    }
}

/// The edges followed when walking `bytes[i..]` from `cur`, up to the first
/// position that has no edge.
pub open spec fn walked_edges<S>(
    edges: Map<(NodeId, u8), Edge<S>>,
    cur: NodeId,
    bytes: Seq<u8>,
    i: int,
) -> Seq<(NodeId, u8)>
    decreases bytes.len() - i,
{
    if i < 0 || i >= bytes.len() || !edges.contains_key((cur, bytes[i])) {
        Seq::empty()
    } else {
        seq![(cur, bytes[i])] + walked_edges(edges, edges[(cur, bytes[i])].target, bytes, i + 1)
    }
}

/// The node reached by a traversal of `bytes`, or the root when it stops
/// at an unmapped byte.
pub open spec fn landing_node<S>(edges: Map<(NodeId, u8), Edge<S>>, bytes: Seq<u8>) -> NodeId {
    match walk(edges, ROOT, bytes, 0) {
        Ok(n) => n,
        Err(_) => ROOT,
    }
}

impl<S> StateGraph<S> {
    pub closed spec fn view(&self) -> GraphView<S> {
        GraphView {
            nodes: self.nodes@,
            edges: Map::new(
                |k: (NodeId, u8)| self.edges@.contains_key(edge_key(k.0, k.1)),
                |k: (NodeId, u8)| self.edges@[edge_key(k.0, k.1)],
            ),
        }
    }

    /// The graph's invariant, kept by every operation: node ids fit a
    /// `NodeId`, and every stored key is the key of some edge pair.
    #[verifier::type_invariant]
    spec fn wf(&self) -> bool {
        &&& self.nodes@.len() <= u32::MAX as nat + 1
        &&& forall|k: u64| #[trigger] self.edges@.contains_key(k) ==> k < 0x100_0000_0000
    }

    /// What the invariant implies of the view: node ids fit a `NodeId` and
    /// the edge map is finite.
    spec fn wf_view(v: GraphView<S>) -> bool {
        &&& v.nodes.len() <= u32::MAX as nat + 1
        &&& v.edges.dom().finite()
    }

    proof fn lemma_view_facts(&self)
        requires
            self.wf(),
        ensures
            Self::wf_view(self.view()),
            self.view().edges.dom().len() == self.edges@.dom().len(),
    {
        lemma_key_roundtrip();
        let m = self.edges@;
        let e = self.view().edges;
        let f = |k: (NodeId, u8)| edge_key(k.0, k.1);
        assert(m.dom().finite());
        assert(e.dom() =~= m.dom().map(|k: u64| key_edge(k))) by {
            assert forall|p: (NodeId, u8)| e.dom().contains(p) implies m.dom().map(
                |k: u64| key_edge(k),
            ).contains(p) by {
                assert(key_edge(edge_key(p.0, p.1)) == p);
            }
        }
        m.dom().lemma_map_finite(|k: u64| key_edge(k));
        assert(e.dom().map(f) =~= m.dom()) by {
            assert forall|k: u64| m.dom().contains(k) implies e.dom().map(f).contains(k) by {
                let p = key_edge(k);
                assert(edge_key(p.0, p.1) == k);
                assert(e.dom().contains(p));
                assert(f(p) == k);
            }
        }
        assert forall|a1: (NodeId, u8), a2: (NodeId, u8)| #[trigger] f(a1) == #[trigger] f(a2)
            implies a1 == a2 by {
            assert(key_edge(edge_key(a1.0, a1.1)) == a1);
            assert(key_edge(edge_key(a2.0, a2.1)) == a2);
        }
        lemma_injective_map_len(e.dom(), f);
    }

    /// A graph holding only the root node and no edges.
    pub fn new() -> (r: Self)
        ensures
            r.view().nodes == seq![Node { visits: 0 }],
            r.view().edges == Map::<(NodeId, u8), Edge<S>>::empty(),
    {
        let mut nodes: Vec<Node> = Vec::new();
        nodes.push(Node { visits: 0 });
        let r = StateGraph { nodes, edges: HashMap::new() };
        assert(r.view().edges =~= Map::<(NodeId, u8), Edge<S>>::empty());
        assert(r.view().nodes =~= seq![Node { visits: 0 }]);
        r
    }

    /// Move the node table and the edge map out, leaving an empty graph
    /// behind until they are put back.
    fn take_parts(&mut self) -> (r: (Vec<Node>, HashMap<u64, Edge<S>>))
        ensures
            r.0@ == old(self).nodes@,
            r.1@ == old(self).edges@,
            r.0@.len() <= u32::MAX as nat + 1,
            forall|k: u64| #[trigger] r.1@.contains_key(k) ==> k < 0x100_0000_0000,
    {
        proof {
            use_type_invariant(&*self);
        }
        let mut parts = StateGraph { nodes: Vec::new(), edges: HashMap::new() };
        std::mem::swap(self, &mut parts);
        let StateGraph { nodes, edges } = parts;
        (nodes, edges)
    }

    /// Number of nodes.
    pub fn node_count(&self) -> (r: usize)
        ensures
            r == self.view().nodes.len(),
    {
        self.nodes.len()
    }

    /// Number of edges.
    pub fn edge_count(&self) -> (r: usize)
        ensures
            r == self.view().edges.len(),
    {
        proof {
            use_type_invariant(self);
            self.lemma_view_facts();
        }
        self.edges.len()
    }

    /// The edge `(from, byte)`, if present.
    pub fn edge(&self, from: NodeId, byte: u8) -> (r: Option<&Edge<S>>)
        ensures
            match r {
                Some(e) => self.view().edges.contains_key((from, byte)) && *e == self.view().edges[(
                    from,
                    byte,
                )],
                None => !self.view().edges.contains_key((from, byte)),
            },
    {
        let key = pack_key(from, byte);
        self.edges.get(&key)
    }

    /// Walk the graph one byte at a time starting from [`ROOT`]. On the
    /// first missing edge, returns the offset and value of that byte.
    pub fn traverse(&self, bytes: &[u8]) -> (r: Result<NodeId, Unmapped>)
        ensures
            r == walk(self.view().edges, ROOT, bytes@, 0),
    {
        proof {
            lemma_take_full(bytes@);
        }
        self.traverse_prefix(bytes, bytes.len())
    }

    /// [`Self::traverse`] on `bytes[..n]`.
    pub fn traverse_prefix(&self, bytes: &[u8], n: usize) -> (r: Result<NodeId, Unmapped>)
        requires
            n <= bytes@.len(),
        ensures
            r == walk(self.view().edges, ROOT, bytes@.take(n as int), 0),
    {
        let ghost edges = self.view().edges;
        let ghost s = bytes@.take(n as int);
        let mut cur: NodeId = ROOT;
        let mut i: usize = 0;
        while i < n
            invariant
                0 <= i <= n <= bytes@.len(),
                s == bytes@.take(n as int),
                edges == self.view().edges,
                walk(edges, cur, s, i as int) == walk(edges, ROOT, s, 0),
            decreases n - i,
        {
            let byte = bytes[i];
            match self.edge(cur, byte) {
                Some(e) => {
                    cur = e.target;
                },
                None => {
                    return Err(Unmapped { offset: i, byte });
                },
            }
            i = i + 1;
        }
        Ok(cur)
    }

    /// The edges followed by a traversal of `bytes`, up to the first byte
    /// that has no edge.
    pub fn walked(&self, bytes: &[u8]) -> (r: Vec<(NodeId, u8)>)
        ensures
            r@ == walked_edges(self.view().edges, ROOT, bytes@, 0),
    {
        let ghost edges = self.view().edges;
        let mut out: Vec<(NodeId, u8)> = Vec::new();
        let mut cur: NodeId = ROOT;
        let mut i: usize = 0;
        while i < bytes.len()
            invariant
                0 <= i <= bytes@.len(),
                edges == self.view().edges,
                out@ + walked_edges(edges, cur, bytes@, i as int) == walked_edges(
                    edges,
                    ROOT,
                    bytes@,
                    0,
                ),
            decreases bytes.len() - i,
        {
            let byte = bytes[i];
            match self.edge(cur, byte) {
                Some(e) => {
                    proof {
                        assert(out@.push((cur, byte)) + walked_edges(edges, e.target, bytes@, i + 1)
                            =~= out@ + walked_edges(edges, cur, bytes@, i as int));
                    }
                    out.push((cur, byte));
                    cur = e.target;
                },
                None => {
                    assert(out@ + walked_edges(edges, cur, bytes@, i as int) =~= out@);
                    return out;
                },
            }
            i = i + 1;
        }
        assert(out@ + walked_edges(edges, cur, bytes@, i as int) =~= out@);
        out
    }

    /// Allocate a new node reachable from `from` via `byte`, carrying
    /// `score`. An edge already stored for `(from, byte)` is replaced.
    pub fn grow(&mut self, from: NodeId, byte: u8, score: S) -> (r: NodeId)
        requires
            old(self).view().nodes.len() <= u32::MAX,
        ensures
            r == old(self).view().nodes.len(),
            final(self).view().nodes == old(self).view().nodes.push(Node { visits: 0 }),
            final(self).view().edges == old(self).view().edges.insert(
                (from, byte),
                Edge { target: r, score },
            ),
    {
        proof {
            lemma_key_roundtrip();
        }
        let new_id: NodeId = self.nodes.len() as NodeId;
        let key = pack_key(from, byte);
        let ghost old_view = self.view();
        let (mut nodes, mut edges) = self.take_parts();
        nodes.push(Node { visits: 0 });
        edges.insert(key, Edge { target: new_id, score });
        *self = StateGraph { nodes, edges };
        proof {
            assert(self.view().edges =~= old_view.edges.insert(
                (from, byte),
                Edge { target: new_id, score },
            ));
        }
        new_id
    }

    /// Replace the score of the edge `(from, byte)`, keeping its target.
    /// Returns `false`, changing nothing, when there is no such edge.
    pub fn set_score(&mut self, from: NodeId, byte: u8, score: S) -> (r: bool)
        ensures
            r == old(self).view().edges.contains_key((from, byte)),
            final(self).view().nodes == old(self).view().nodes,
            r ==> final(self).view().edges == old(self).view().edges.insert(
                (from, byte),
                Edge { target: old(self).view().edges[(from, byte)].target, score },
            ),
            !r ==> final(self).view().edges == old(self).view().edges,
    {
        proof {
            lemma_key_roundtrip();
        }
        let key = pack_key(from, byte);
        let target = match self.edges.get(&key) {
            Some(e) => e.target,
            None => return false,
        };
        let ghost old_view = self.view();
        let (nodes, mut edges) = self.take_parts();
        edges.insert(key, Edge { target, score });
        *self = StateGraph { nodes, edges };
        proof {
            assert(self.view().edges =~= old_view.edges.insert(
                (from, byte),
                Edge { target, score },
            ));
        }
        true
    }

    /// Remove the edge `(from, byte)`, returning it if it was present.
    pub fn remove_edge(&mut self, from: NodeId, byte: u8) -> (r: Option<Edge<S>>)
        ensures
            final(self).view().nodes == old(self).view().nodes,
            final(self).view().edges == old(self).view().edges.remove((from, byte)),
            match r {
                Some(e) => old(self).view().edges.contains_key((from, byte)) && e == old(
                    self,
                ).view().edges[(from, byte)],
                None => !old(self).view().edges.contains_key((from, byte)),
            },
    {
        proof {
            lemma_key_roundtrip();
        }
        let key = pack_key(from, byte);
        let ghost old_view = self.view();
        let (nodes, mut edges) = self.take_parts();
        let r = edges.remove(&key);
        *self = StateGraph { nodes, edges };
        proof {
            assert(self.view().edges =~= old_view.edges.remove((from, byte)));
        }
        r
    }

    /// Every edge pair of the graph, each once, in the hash map's order.
    pub fn edge_pairs(&self) -> (r: Vec<(NodeId, u8)>)
        ensures
            r@.no_duplicates(),
            r@.to_set() == self.view().edges.dom(),
    {
        proof {
            use_type_invariant(self);
            lemma_key_roundtrip();
        }
        let mut out: Vec<(NodeId, u8)> = Vec::new();
        let ghost edges = self.view().edges;
        let ghost ks = spec_keys_iter(&self.edges).remaining();
        for k in it: self.edges.keys()
            invariant
                edges == self.view().edges,
                forall|k: u64| #[trigger] self.edges@.contains_key(k) ==> k < 0x100_0000_0000,
                it.seq() == ks,
                ks == spec_keys_iter(&self.edges).remaining(),
                out@ == it.seq().take(it.index()).map_values(|k: &u64| key_edge(*k)),
        {
            proof {
                assert(it.seq().unref().to_set().contains(*k));
            }
            out.push(unpack_key(*k));
            proof {
                assert(it.seq().take(it.index() + 1).map_values(|k: &u64| key_edge(*k))
                    =~= out@);
            }
        }
        proof {
            lemma_take_full(ks);
            assert(out@ == ks.map_values(|k: &u64| key_edge(*k)));
            assert forall|i: int, j: int| 0 <= i < out@.len() && 0 <= j < out@.len() && i != j
                implies out@[i] != out@[j] by {
                assert(ks.unref()[i] == *ks[i]);
                assert(ks.unref()[j] == *ks[j]);
                assert(ks.unref().contains(*ks[i]));
                assert(ks.unref().contains(*ks[j]));
                assert(ks.unref().to_set().contains(*ks[i]));
                assert(ks.unref().to_set().contains(*ks[j]));
                assert(*ks[i] != *ks[j]);
                assert(edge_key(key_edge(*ks[i]).0, key_edge(*ks[i]).1) == *ks[i]);
                assert(edge_key(key_edge(*ks[j]).0, key_edge(*ks[j]).1) == *ks[j]);
            }
            assert forall|p: (NodeId, u8)| #[trigger] out@.to_set().contains(p) <==> edges.dom().contains(p) by {
                if out@.to_set().contains(p) {
                    let i = choose|i: int| 0 <= i < out@.len() && out@[i] == p;
                    assert(ks.unref()[i] == *ks[i]);
                    assert(ks.unref().to_set().contains(*ks[i]));
                }
                if edges.dom().contains(p) {
                    let k = edge_key(p.0, p.1);
                    assert(self.edges@.dom().contains(k));
                    assert(ks.unref().to_set().contains(k));
                    let i = choose|i: int| 0 <= i < ks.unref().len() && ks.unref()[i] == k;
                    assert(out@[i] == p);
                    assert(out@.contains(p));
                }
            }
            assert(out@.to_set() =~= edges.dom());
        }
        out
    }
}

impl<S: Clone> Clone for StateGraph<S> {
    /// A copy with the same nodes and the same edge map.
    fn clone(&self) -> (r: Self)
        ensures
            r.view() == self.view(),
    {
        proof {
            use_type_invariant(self);
        }
        let nodes = self.nodes.clone();
        proof {
            assert forall|i: int| 0 <= i < nodes@.len() implies nodes@[i] == self.nodes@[i] by {
                assert(cloned::<Node>(self.nodes[i], nodes[i]));
            }
            assert(nodes@ =~= self.nodes@);
        }
        StateGraph { nodes, edges: self.edges.clone() }
    }
}

/// `edge_key` computed.
fn pack_key(from: NodeId, byte: u8) -> (r: u64)
    ensures
        r == edge_key(from, byte),
        r < 0x100_0000_0000,
{
    assert(from as u64 * 256 + byte as u64 <= 0xffff_ffff * 256 + 255) by (nonlinear_arith)
        requires
            from <= 0xffff_ffff,
            byte <= 255,
    ;
    from as u64 * 256 + byte as u64
}

/// `key_edge` computed, for keys in range.
fn unpack_key(key: u64) -> (r: (NodeId, u8))
    requires
        key < 0x100_0000_0000,
    ensures
        r == key_edge(key),
{
    ((key / 256) as NodeId, (key % 256) as u8)
}

/// Taking a whole sequence gives it back.
pub proof fn lemma_take_full<A>(s: Seq<A>)
    ensures
        s.take(s.len() as int) == s,
{
    assert(s.take(s.len() as int) =~= s);
}

/// Packing and unpacking edge keys are inverse.
pub proof fn lemma_key_roundtrip()
    ensures
        forall|from: NodeId, byte: u8| #[trigger]
            key_edge(edge_key(from, byte)) == (from, byte),
        forall|k: u64| k < 0x100_0000_0000 ==> #[trigger] edge_key(key_edge(k).0, key_edge(k).1)
            == k,
{
    assert forall|from: NodeId, byte: u8| #[trigger]
        key_edge(edge_key(from, byte)) == (from, byte) by {
        let k = from as u64 * 256 + byte as u64;
        assert(k == from * 256 + byte) by (nonlinear_arith)
            requires
                from <= 0xffff_ffff,
                byte <= 255,
                k == from as u64 * 256 + byte as u64,
        ;
        assert(k / 256 == from && k % 256 == byte) by (nonlinear_arith)
            requires
                k == from * 256 + byte,
                byte < 256,
        ;
    }
    assert forall|k: u64| k < 0x100_0000_0000 implies #[trigger] edge_key(
        key_edge(k).0,
        key_edge(k).1,
    ) == k by {
        assert(k == (k / 256) * 256 + k % 256) by (nonlinear_arith);
        assert(k / 256 <= 0xffff_ffff) by (nonlinear_arith)
            requires
                k < 0x100_0000_0000,
        ;
    }
}

/// An injective map keeps the size of a finite set.
pub proof fn lemma_injective_map_len<A, B>(s: Set<A>, f: spec_fn(A) -> B)
    requires
        s.finite(),
        forall|a1: A, a2: A| #[trigger] f(a1) == #[trigger] f(a2) ==> a1 == a2,
    ensures
        s.map(f).finite(),
        s.map(f).len() == s.len(),
    decreases s.len(),
{
    s.lemma_map_finite(f);
    if s.len() > 0 {
        let a = s.choose();
        lemma_injective_map_len(s.remove(a), f);
        assert(s.remove(a).map(f) =~= s.map(f).remove(f(a)));
    } else {
        assert(s.map(f) =~= Set::empty());
    }
}

/// Remove every listed edge from `graph`. Nodes are left in place, so node
/// ids stay stable. Returns the number of edges removed.
pub fn purge_institutionalized<S>(
    graph: &mut StateGraph<S>,
    edges: &BTreeSet<(NodeId, u8)>,
) -> (r: usize)
    ensures
        final(graph).view().nodes == old(graph).view().nodes,
        final(graph).view().edges == old(graph).view().edges.remove_keys(edges@),
        r == old(graph).view().edges.len() - final(graph).view().edges.len(),
{
    broadcast use vstd::std_specs::btree::group_btree_axioms, vstd::laws_cmp::group_laws_cmp;
    let before = graph.edge_count();
    let ghost old_edges = graph.view().edges;
    proof {
        use_type_invariant(&*graph);
        graph.lemma_view_facts();
    }
    let ghost ks = spec_btree_keys_iter(edges).remaining();
    for e in it: edges.iter()
        invariant
            graph.view().nodes == old(graph).view().nodes,
            old_edges == old(graph).view().edges,
            it.seq() == ks,
            ks == spec_btree_keys_iter(edges).remaining(),
            graph.view().edges == old_edges.remove_keys(it.seq().take(it.index()).unref().to_set()),
    {
        let ghost before_edges = graph.view().edges;
        graph.remove_edge(e.0, e.1);
        proof {
            let ks = it.seq();
            assert(ks.take(it.index() + 1).unref() =~= ks.take(it.index()).unref().push(*e));
            ks.take(it.index()).unref().lemma_push_to_set_commute(*e);
            assert(graph.view().edges =~= old_edges.remove_keys(ks.take(it.index() + 1).unref().to_set()));
        }
    }
    proof {
        lemma_take_full(ks);
        assert(graph.view().edges =~= old_edges.remove_keys(edges@));
    }
    let after = graph.edge_count();
    proof {
        vstd::set_lib::lemma_len_subset(graph.view().edges.dom(), old_edges.dom());
    }
    before - after
}

/// Walking with an edge added that the walk never needed gives the same
/// result.
pub proof fn lemma_walk_insert_unused<S>(
    edges: Map<(NodeId, u8), Edge<S>>,
    k: (NodeId, u8),
    e: Edge<S>,
    cur: NodeId,
    bytes: Seq<u8>,
    i: int,
)
    requires
        !edges.contains_key(k),
        walk(edges, cur, bytes, i) is Ok,
        0 <= i,
    ensures
        walk(edges.insert(k, e), cur, bytes, i) == walk(edges, cur, bytes, i),
    decreases bytes.len() - i,
{
    if i < bytes.len() {
        assert(edges.contains_key((cur, bytes[i])));
        lemma_walk_insert_unused(edges, k, e, edges[(cur, bytes[i])].target, bytes, i + 1);
    }
}

/// Walking `bytes` followed by one more byte: the walk of `bytes`, then
/// one step.
pub proof fn lemma_walk_push<S>(
    edges: Map<(NodeId, u8), Edge<S>>,
    cur: NodeId,
    bytes: Seq<u8>,
    b: u8,
    i: int,
)
    requires
        0 <= i <= bytes.len(),
    ensures
        walk(edges, cur, bytes.push(b), i) == match walk(edges, cur, bytes, i) {
            Ok(n) => if edges.contains_key((n, b)) {
                Ok(edges[(n, b)].target)
            } else {
                Err(Unmapped { offset: bytes.len() as usize, byte: b })
            },
            Err(u) => Err(u),
        },
    decreases bytes.len() - i,
{
    let ext = bytes.push(b);
    if i < bytes.len() {
        assert(ext[i] == bytes[i]);
        if edges.contains_key((cur, bytes[i])) {
            lemma_walk_push(edges, edges[(cur, bytes[i])].target, bytes, b, i + 1);
        }
    } else {
        assert(ext[i] == b);
        if edges.contains_key((cur, b)) {
            let t = edges[(cur, b)].target;
            assert(walk(edges, t, ext, i + 1) == Ok::<NodeId, Unmapped>(t));
        }
    }
}

/// Growth makes the grown byte reachable: when `bytes` is mapped up to node
/// `from` and `(from, byte)` has no edge yet, growing that edge maps
/// `bytes` followed by `byte` to the new node.
pub proof fn lemma_growth_maps_extended_input<S>(
    edges: Map<(NodeId, u8), Edge<S>>,
    bytes: Seq<u8>,
    from: NodeId,
    byte: u8,
    e: Edge<S>,
)
    requires
        walk(edges, ROOT, bytes, 0) == Ok::<NodeId, Unmapped>(from),
        !edges.contains_key((from, byte)),
    ensures
        walk(edges.insert((from, byte), e), ROOT, bytes.push(byte), 0) == Ok::<NodeId, Unmapped>(
            e.target,
        ),
{
    lemma_walk_insert_unused(edges, (from, byte), e, ROOT, bytes, 0);
    lemma_walk_push(edges.insert((from, byte), e), ROOT, bytes, byte, 0);
}

/// A traversal that stops reports the first unmapped byte: its offset is
/// inside the input, it names the byte found there, and every byte before
/// it is mapped.
pub proof fn lemma_unmapped_is_first<S>(
    edges: Map<(NodeId, u8), Edge<S>>,
    bytes: Seq<u8>,
)
    requires
        bytes.len() <= usize::MAX,
        walk(edges, ROOT, bytes, 0) is Err,
    ensures
        ({
            let u = walk(edges, ROOT, bytes, 0)->Err_0;
            &&& u.offset < bytes.len()
            &&& u.byte == bytes[u.offset as int]
            &&& walk(edges, ROOT, bytes.take(u.offset as int), 0) matches Ok(n)
                && !edges.contains_key((n, u.byte))
        }),
{
    lemma_unmapped_is_first_from(edges, ROOT, bytes, 0);
}

proof fn lemma_unmapped_is_first_from<S>(
    edges: Map<(NodeId, u8), Edge<S>>,
    cur: NodeId,
    bytes: Seq<u8>,
    i: int,
)
    requires
        0 <= i,
        bytes.len() <= usize::MAX,
        walk(edges, cur, bytes, i) is Err,
    ensures
        ({
            let u = walk(edges, cur, bytes, i)->Err_0;
            &&& i <= u.offset < bytes.len()
            &&& u.byte == bytes[u.offset as int]
            &&& walk(edges, cur, bytes.take(u.offset as int), i) matches Ok(n)
                && !edges.contains_key((n, u.byte))
        }),
    decreases bytes.len() - i,
{
    let u = walk(edges, cur, bytes, i)->Err_0;
    if edges.contains_key((cur, bytes[i])) {
        let t = edges[(cur, bytes[i])].target;
        lemma_unmapped_is_first_from(edges, t, bytes, i + 1);
        let o = u.offset as int;
        let pre = bytes.take(o);
        assert(walk(edges, cur, bytes, i) == walk(edges, t, bytes, i + 1));
        assert(i + 1 <= o);
        assert(pre[i] == bytes[i]);
        assert(walk(edges, cur, pre, i) == walk(edges, t, pre, i + 1));
    } else {
        assert(i < bytes.len());
        assert(u == Unmapped { offset: i as usize, byte: bytes[i] });
        let pre = bytes.take(i);
        assert(walk(edges, cur, pre, i) == Ok::<NodeId, Unmapped>(cur));
    }
}

/// Walking `bytes` from `cur` passes through the node that its prefix of
/// length `k` maps to.
pub proof fn lemma_walk_prefix<S>(
    edges: Map<(NodeId, u8), Edge<S>>,
    cur: NodeId,
    bytes: Seq<u8>,
    k: int,
    i: int,
    n: NodeId,
)
    requires
        0 <= i <= k <= bytes.len(),
        walk(edges, cur, bytes.take(k), i) == Ok::<NodeId, Unmapped>(n),
    ensures
        walk(edges, cur, bytes, i) == walk(edges, n, bytes, k),
    decreases k - i,
{
    if i < k {
        let pre = bytes.take(k);
        assert(pre[i] == bytes[i]);
        assert(edges.contains_key((cur, bytes[i])));
        lemma_walk_prefix(edges, edges[(cur, bytes[i])].target, bytes, k, i + 1, n);
    }
}

/// Irritation resolved by growth: when a traversal of `bytes` stops at an
/// unmapped byte, the edge that growth adds for it (from the node the mapped
/// prefix lands on) is new; once it is added the input maps one byte
/// further, to that edge's target, and a traversal of the whole input gets
/// past the offset where it stopped before.
pub proof fn lemma_growth_resolves_irritation<S>(
    edges: Map<(NodeId, u8), Edge<S>>,
    bytes: Seq<u8>,
    e: Edge<S>,
)
    requires
        bytes.len() <= usize::MAX,
        walk(edges, ROOT, bytes, 0) is Err,
    ensures
        ({
            let u = walk(edges, ROOT, bytes, 0)->Err_0;
            let from = landing_node(edges, bytes.take(u.offset as int));
            let grown = edges.insert((from, u.byte), e);
            &&& u.offset < bytes.len()
            &&& u.byte == bytes[u.offset as int]
            &&& !edges.contains_key((from, u.byte))
            &&& walk(grown, ROOT, bytes.take(u.offset + 1), 0) == Ok::<NodeId, Unmapped>(e.target)
            &&& walk(grown, ROOT, bytes, 0) matches Err(v) ==> v.offset > u.offset
        }),
{
    lemma_unmapped_is_first(edges, bytes);
    let u = walk(edges, ROOT, bytes, 0)->Err_0;
    let pre = bytes.take(u.offset as int);
    let from = landing_node(edges, pre);
    let grown = edges.insert((from, u.byte), e);
    lemma_growth_maps_extended_input(edges, pre, from, u.byte, e);
    assert(pre.push(u.byte) =~= bytes.take(u.offset + 1));
    lemma_walk_prefix(grown, ROOT, bytes, u.offset + 1, 0, e.target);
    if walk(grown, e.target, bytes, u.offset + 1) is Err {
        lemma_unmapped_is_first_from(grown, e.target, bytes, u.offset + 1);
    }
}

/// The node a chain of edges `w` followed from `cur` ends at.
pub open spec fn chain_end<S>(edges: Map<(NodeId, u8), Edge<S>>, cur: NodeId, w: Seq<(NodeId, u8)>) -> NodeId {
    if w.len() == 0 {
        cur
    } else {
        edges[w.last()].target
    }
}

/// The edges a traversal follows, and where it stops: they form a chain
/// from the root in which the `k`-th edge consumes `bytes[k]`, and the
/// chain stops exactly at the first byte that has no edge from where it
/// has arrived (or at the end of the input).
pub proof fn lemma_walked_is_chain_to_first_miss<S>(
    edges: Map<(NodeId, u8), Edge<S>>,
    bytes: Seq<u8>,
)
    ensures
        ({
            let w = walked_edges(edges, ROOT, bytes, 0);
            &&& w.len() <= bytes.len()
            &&& w.len() > 0 ==> w[0].0 == ROOT
            &&& forall|k: int|
                0 <= k < w.len() ==> edges.contains_key(#[trigger] w[k]) && w[k].1 == bytes[k]
            &&& forall|k: int| 0 < k < w.len() ==> (#[trigger] w[k]).0 == edges[w[k - 1]].target
            &&& w.len() < bytes.len() ==> !edges.contains_key(
                (chain_end(edges, ROOT, w), bytes[w.len() as int]),
            )
        }),
{
    lemma_walked_chain_from(edges, ROOT, bytes, 0);
}

proof fn lemma_walked_chain_from<S>(
    edges: Map<(NodeId, u8), Edge<S>>,
    cur: NodeId,
    bytes: Seq<u8>,
    i: int,
)
    requires
        0 <= i <= bytes.len(),
    ensures
        ({
            let w = walked_edges(edges, cur, bytes, i);
            &&& w.len() <= bytes.len() - i
            &&& w.len() > 0 ==> w[0].0 == cur
            &&& forall|k: int|
                0 <= k < w.len() ==> edges.contains_key(#[trigger] w[k]) && w[k].1 == bytes[i + k]
            &&& forall|k: int| 0 < k < w.len() ==> (#[trigger] w[k]).0 == edges[w[k - 1]].target
            &&& i + w.len() < bytes.len() ==> !edges.contains_key(
                (chain_end(edges, cur, w), bytes[i + w.len()]),
            )
        }),
    decreases bytes.len() - i,
{
    let w = walked_edges(edges, cur, bytes, i);
    if i < bytes.len() && edges.contains_key((cur, bytes[i])) {
        let t = edges[(cur, bytes[i])].target;
        lemma_walked_chain_from(edges, t, bytes, i + 1);
        let w2 = walked_edges(edges, t, bytes, i + 1);
        assert(w == seq![(cur, bytes[i])] + w2);
        assert forall|k: int| 0 < k < w.len() implies (#[trigger] w[k]).0 == edges[w[k - 1]].target by {
            assert(w[k] == w2[k - 1]);
            if k > 1 {
                assert(w[k - 1] == w2[k - 2]);
            }
        }
        assert forall|k: int| 0 <= k < w.len() implies edges.contains_key(#[trigger] w[k]) && w[k].1
            == bytes[i + k] by {
            if k > 0 {
                assert(w[k] == w2[k - 1]);
            }
        }
        if w2.len() > 0 {
            assert(w.last() == w2.last());
        }
    }
}

/// A fresh graph maps the empty input to the root and reports the first
/// byte of any other input as unmapped.
pub proof fn lemma_empty_graph_unmaps_first_byte<S>(bytes: Seq<u8>)
    ensures
        bytes.len() == 0 ==> walk(Map::<(NodeId, u8), Edge<S>>::empty(), ROOT, bytes, 0) == Ok::<
            NodeId,
            Unmapped,
        >(ROOT),
        bytes.len() > 0 ==> walk(Map::<(NodeId, u8), Edge<S>>::empty(), ROOT, bytes, 0) == Err::<
            NodeId,
            Unmapped,
        >(Unmapped { offset: 0, byte: bytes[0] }),
{
}

} // verus!
