//! The graph store: nodes, a multiset of edges with endpoints, and the
//! directedness flag. Its invariant keeps every edge's order index equal to
//! its creation-time rank among the edges sharing the same unordered endpoint
//! pair, so the rank stays dense and stable whatever order later passes
//! iterate in.

use vstd::prelude::*;
use crate::computed::ComputedNode;
use crate::edge::Edge;
use crate::node::Node;
use crate::vec2::V2;

verus! {

/// An edge together with its endpoints.
#[derive(Clone, Debug)]
pub struct EdgeRecord<E> {
    pub source: usize,
    pub target: usize,
    pub edge: Edge<E>,
}

/// Does the record connect the unordered endpoint pair `{a, b}`?
pub open spec fn pair_matches<E>(e: EdgeRecord<E>, a: int, b: int) -> bool {
    (e.source == a && e.target == b) || (e.source == b && e.target == a)
}

/// How many records in `s` connect the unordered pair `{a, b}`.
pub open spec fn bucket_count<E>(s: Seq<EdgeRecord<E>>, a: int, b: int) -> nat
    decreases s.len(),
{
    if s.len() == 0 {
        0
    } else {
        bucket_count(s.drop_last(), a, b) + if pair_matches(s.last(), a, b) {
            1nat
        } else {
            0nat
        }
    }
}

/// How many records in `s` touch node `i` (a self-loop counts once).
pub open spec fn incident_count<E>(s: Seq<EdgeRecord<E>>, i: int) -> nat
    decreases s.len(),
{
    if s.len() == 0 {
        0
    } else {
        incident_count(s.drop_last(), i) + if s.last().source == i || s.last().target == i {
            1nat
        } else {
            0nat
        }
    }
}

/// Both counts never exceed the sequence length.
pub proof fn lemma_counts_le_len<E>(s: Seq<EdgeRecord<E>>, a: int, b: int, i: int)
    ensures
        bucket_count(s, a, b) <= s.len(),
        incident_count(s, i) <= s.len(),
    decreases s.len(),
{
    if s.len() > 0 {
        lemma_counts_le_len(s.drop_last(), a, b, i);
    }
}

/// The bucket count only reads endpoints, so it agrees on two sequences whose
/// records have the same endpoints pointwise.
pub proof fn lemma_bucket_count_same_endpoints<E>(
    s1: Seq<EdgeRecord<E>>,
    s2: Seq<EdgeRecord<E>>,
    a: int,
    b: int,
)
    requires
        s1.len() == s2.len(),
        forall|t: int|
            0 <= t < s1.len() ==> (#[trigger] s1[t]).source == s2[t].source && s1[t].target
                == s2[t].target,
    ensures
        bucket_count(s1, a, b) == bucket_count(s2, a, b),
    decreases s1.len(),
{
    if s1.len() > 0 {
        lemma_bucket_count_same_endpoints(s1.drop_last(), s2.drop_last(), a, b);
    }
}

/// The graph store.
#[derive(Clone, Debug)]
pub struct Graph<N, E> {
    nodes: Vec<Node<N>>,
    edges: Vec<EdgeRecord<E>>,
    directed: bool,
}

impl<N, E> Graph<N, E> {
    /// The nodes, as a sequence indexed by node identity.
    pub closed spec fn spec_nodes(self) -> Seq<Node<N>> {
        self.nodes@
    }

    /// The edge records, as a sequence indexed by edge identity.
    pub closed spec fn spec_edges(self) -> Seq<EdgeRecord<E>> {
        self.edges@
    }

    /// The directedness flag.
    pub closed spec fn spec_directed(self) -> bool {
        self.directed
    }

    /// The store's invariant: endpoints in range, every node well formed, and
    /// every edge's order index equal to the number of earlier edges on the
    /// same unordered endpoint pair.
    pub open spec fn wf(self) -> bool {
        &&& forall|i: int|
            0 <= i < self.spec_edges().len() ==> (#[trigger] self.spec_edges()[i]).source
                < self.spec_nodes().len() && self.spec_edges()[i].target < self.spec_nodes().len()
        &&& forall|i: int|
            0 <= i < self.spec_edges().len() ==> (#[trigger] self.spec_edges()[i]).edge.props.order
                == bucket_count(
                self.spec_edges().take(i),
                self.spec_edges()[i].source as int,
                self.spec_edges()[i].target as int,
            )
        &&& forall|i: int|
            0 <= i < self.spec_edges().len() ==> (#[trigger] self.spec_edges()[i]).edge.id == Some(
                i as usize,
            )
        &&& forall|i: int| 0 <= i < self.spec_nodes().len() ==> (#[trigger] self.spec_nodes()[i]).wf()
    }

    /// An empty graph.
    pub fn new(directed: bool) -> (r: Graph<N, E>)
        ensures
            r.spec_nodes().len() == 0,
            r.spec_edges().len() == 0,
            r.spec_directed() == directed,
            r.wf(),
    {
        Graph { nodes: Vec::new(), edges: Vec::new(), directed }
    }

    /// Number of nodes.
    pub fn node_count(&self) -> (r: usize)
        ensures
            r == self.spec_nodes().len(),
    {
        self.nodes.len()
    }

    /// Number of edges.
    pub fn edge_count(&self) -> (r: usize)
        ensures
            r == self.spec_edges().len(),
    {
        self.edges.len()
    }

    /// Directedness flag.
    pub fn is_directed(&self) -> (r: bool)
        ensures
            r == self.spec_directed(),
    {
        self.directed
    }

    /// The node with identity `i`; `None` exactly when there is none.
    pub fn node(&self, i: usize) -> (r: Option<&Node<N>>)
        ensures
            r is Some <==> i < self.spec_nodes().len(),
            r matches Some(n) ==> *n == self.spec_nodes()[i as int],
    {
        if i < self.nodes.len() {
            Some(&self.nodes[i])
        } else {
            None
        }
    }

    /// The edge with identity `i`; `None` exactly when there is none.
    pub fn edge(&self, i: usize) -> (r: Option<&Edge<E>>)
        ensures
            r is Some <==> i < self.spec_edges().len(),
            r matches Some(e) ==> *e == self.spec_edges()[i as int].edge,
    {
        if i < self.edges.len() {
            Some(&self.edges[i].edge)
        } else {
            None
        }
    }

    /// The endpoints of edge `i`; `None` exactly when there is no such edge.
    pub fn edge_endpoints(&self, i: usize) -> (r: Option<(usize, usize)>)
        ensures
            r is Some <==> i < self.spec_edges().len(),
            r matches Some(p) ==> p.0 == self.spec_edges()[i as int].source && p.1
                == self.spec_edges()[i as int].target,
    {
        if i < self.edges.len() {
            Some((self.edges[i].source, self.edges[i].target))
        } else {
            None
        }
    }

    /// Appends a node; its identity is the previous node count.
    pub fn add_node(&mut self, node: Node<N>) -> (idx: usize)
        requires
            old(self).wf(),
            node.wf(),
        ensures
            final(self).wf(),
            idx == old(self).spec_nodes().len(),
            final(self).spec_nodes() == old(self).spec_nodes().push(node),
            final(self).spec_edges() == old(self).spec_edges(),
            final(self).spec_directed() == old(self).spec_directed(),
    {
        let idx = self.nodes.len();
        self.nodes.push(node);
        proof {
            let news = self.spec_nodes();
            let olds = old(self).spec_nodes();
            assert forall|i: int| 0 <= i < news.len() implies (#[trigger] news[i]).wf() by {
                if i < olds.len() {
                    assert(news[i] == olds[i]);
                } else {
                    assert(news[i] == node);
                }
            }
            assert forall|i: int|
                0 <= i < self.spec_edges().len() implies (#[trigger] self.spec_edges()[i]).source
                < news.len() && self.spec_edges()[i].target < news.len() by {
                assert(old(self).spec_edges()[i].source < olds.len());
                assert(old(self).spec_edges()[i].target < olds.len());
            }
        }
        idx
    }

    /// Appends an edge between existing nodes, binding it to its identity and
    /// to its creation-time rank among the edges already on the same
    /// unordered endpoint pair: the first parallel edge gets order 0, the
    /// next order 1, and so on. The selected flag starts as given. Returns
    /// `None`, changing nothing, exactly when an endpoint does not exist.
    #[verifier::spinoff_prover]
    pub fn add_edge(&mut self, source: usize, target: usize, payload: E, selected: bool) -> (r:
        Option<usize>)
        requires
            old(self).wf(),
        ensures
            final(self).wf(),
            r is Some <==> source < old(self).spec_nodes().len()
                && target < old(self).spec_nodes().len(),
            r matches Some(idx) ==> idx == old(self).spec_edges().len()
                && final(self).spec_edges().len() == old(self).spec_edges().len() + 1
                && final(self).spec_edges().drop_last() == old(self).spec_edges() && {
                let rec = final(self).spec_edges().last();
                rec.source == source && rec.target == target && rec.edge.props.payload == payload
                    && rec.edge.props.order == bucket_count(
                    old(self).spec_edges(),
                    source as int,
                    target as int,
                ) && rec.edge.props.selected == selected && rec.edge.id == Some(idx)
            } && final(self).spec_nodes() == old(self).spec_nodes() && final(self).spec_directed()
                == old(self).spec_directed(),
            r is None ==> *final(self) == *old(self),
    {
        if source >= self.nodes.len() || target >= self.nodes.len() {
            return None;
        }
        let idx = self.edges.len();
        let mut count: usize = 0;
        let mut k: usize = 0;
        proof {
            lemma_counts_le_len(self.edges@, source as int, target as int, 0);
        }
        while k < self.edges.len()
            invariant
                k <= self.edges@.len(),
                count == bucket_count(self.edges@.take(k as int), source as int, target as int),
                count <= k,
            decreases self.edges@.len() - k,
        {
            let e = &self.edges[k];
            let hit = (e.source == source && e.target == target) || (e.source == target && e.target
                == source);
            proof {
                assert(self.edges@.take(k + 1int).drop_last() =~= self.edges@.take(k as int));
                assert(self.edges@.take(k + 1int).last() == self.edges@[k as int]);
            }
            if hit {
                count = count + 1;
            }
            k = k + 1;
        }
        proof {
            assert(self.edges@.take(self.edges@.len() as int) =~= self.edges@);
        }
        let mut edge = Edge::new(payload);
        edge.bind(idx, count);
        edge.props.selected = selected;
        let ghost olds = self.edges@;
        self.edges.push(EdgeRecord { source, target, edge });
        proof {
            let news = self.edges@;
            assert forall|i: int| 0 <= i < news.len() implies (#[trigger] news[i]).edge.props.order
                == bucket_count(news.take(i), news[i].source as int, news[i].target as int)
                && news[i].edge.id == Some(i as usize) by {
                if i < olds.len() {
                    assert(news[i] == olds[i]);
                    assert(news.take(i) =~= olds.take(i));
                } else {
                    assert(news.take(i) =~= olds);
                }
            }
            assert(news.drop_last() =~= olds);
        }
        Some(idx)
    }

    /// How many edges touch node `idx` (a self-loop counts once).
    pub fn edges_num(&self, idx: usize) -> (r: usize)
        ensures
            r == incident_count(self.spec_edges(), idx as int),
    {
        let mut count: usize = 0;
        let mut k: usize = 0;
        while k < self.edges.len()
            invariant
                k <= self.edges@.len(),
                count == incident_count(self.edges@.take(k as int), idx as int),
                count <= k,
            decreases self.edges@.len() - k,
        {
            let e = &self.edges[k];
            proof {
                assert(self.edges@.take(k + 1int).drop_last() =~= self.edges@.take(k as int));
                assert(self.edges@.take(k + 1int).last() == self.edges@[k as int]);
            }
            if e.source == idx || e.target == idx {
                count = count + 1;
            }
            k = k + 1;
        }
        proof {
            assert(self.edges@.take(self.edges@.len() as int) =~= self.edges@);
        }
        count
    }

    /// How many edges connect the unordered endpoint pair `{a, b}`.
    pub fn pair_count(&self, a: usize, b: usize) -> (r: usize)
        ensures
            r == bucket_count(self.spec_edges(), a as int, b as int),
    {
        let mut count: usize = 0;
        let mut k: usize = 0;
        while k < self.edges.len()
            invariant
                k <= self.edges@.len(),
                count == bucket_count(self.edges@.take(k as int), a as int, b as int),
                count <= k,
            decreases self.edges@.len() - k,
        {
            let e = &self.edges[k];
            proof {
                assert(self.edges@.take(k + 1int).drop_last() =~= self.edges@.take(k as int));
                assert(self.edges@.take(k + 1int).last() == self.edges@[k as int]);
            }
            if (e.source == a && e.target == b) || (e.source == b && e.target == a) {
                count = count + 1;
            }
            k = k + 1;
        }
        proof {
            assert(self.edges@.take(self.edges@.len() as int) =~= self.edges@);
        }
        count
    }

    /// Moves node `i` to `loc`; a no-op returning false when there is no such
    /// node.
    pub fn set_node_location(&mut self, i: usize, loc: V2) -> (ok: bool)
        requires
            old(self).wf(),
            loc.wf(),
        ensures
            final(self).wf(),
            ok <==> i < old(self).spec_nodes().len(),
            ok ==> final(self).spec_nodes() == old(self).spec_nodes().update(
                i as int,
                Node { location: loc, ..old(self).spec_nodes()[i as int] },
            ),
            !ok ==> *final(self) == *old(self),
            final(self).spec_edges() == old(self).spec_edges(),
            final(self).spec_directed() == old(self).spec_directed(),
    {
        if i < self.nodes.len() {
            let n = &mut self.nodes[i];
            n.set_location(loc);
            true
        } else {
            false
        }
    }

    /// Sets the selected flag of node `i`; a no-op returning false when there
    /// is no such node.
    pub fn set_node_selected(&mut self, i: usize, selected: bool) -> (ok: bool)
        requires
            old(self).wf(),
        ensures
            final(self).wf(),
            ok <==> i < old(self).spec_nodes().len(),
            ok ==> final(self).spec_nodes() == old(self).spec_nodes().update(
                i as int,
                Node { selected: selected, ..old(self).spec_nodes()[i as int] },
            ),
            !ok ==> *final(self) == *old(self),
            final(self).spec_edges() == old(self).spec_edges(),
            final(self).spec_directed() == old(self).spec_directed(),
    {
        if i < self.nodes.len() {
            let n = &mut self.nodes[i];
            n.set_selected(selected);
            true
        } else {
            false
        }
    }

    /// Sets the dragged flag of node `i`; a no-op returning false when there
    /// is no such node.
    pub fn set_node_dragged(&mut self, i: usize, dragged: bool) -> (ok: bool)
        requires
            old(self).wf(),
        ensures
            final(self).wf(),
            ok <==> i < old(self).spec_nodes().len(),
            ok ==> final(self).spec_nodes() == old(self).spec_nodes().update(
                i as int,
                Node { dragged: dragged, ..old(self).spec_nodes()[i as int] },
            ),
            !ok ==> *final(self) == *old(self),
            final(self).spec_edges() == old(self).spec_edges(),
            final(self).spec_directed() == old(self).spec_directed(),
    {
        if i < self.nodes.len() {
            let n = &mut self.nodes[i];
            n.set_dragged(dragged);
            true
        } else {
            false
        }
    }

    /// Installs node `i`'s per-frame computed values; a no-op returning false
    /// when there is no such node.
    pub fn set_node_computed(&mut self, i: usize, comp: ComputedNode) -> (ok: bool)
        requires
            old(self).wf(),
        ensures
            final(self).wf(),
            ok <==> i < old(self).spec_nodes().len(),
            ok ==> final(self).spec_nodes() == old(self).spec_nodes().update(
                i as int,
                Node { computed: comp, ..old(self).spec_nodes()[i as int] },
            ),
            !ok ==> *final(self) == *old(self),
            final(self).spec_edges() == old(self).spec_edges(),
            final(self).spec_directed() == old(self).spec_directed(),
    {
        if i < self.nodes.len() {
            let n = &mut self.nodes[i];
            n.computed = comp;
            true
        } else {
            false
        }
    }

    /// Sets the selected flag of edge `i`; a no-op returning false when there
    /// is no such edge.
    #[verifier::spinoff_prover]
    pub fn set_edge_selected(&mut self, i: usize, selected: bool) -> (ok: bool)
        requires
            old(self).wf(),
        ensures
            final(self).wf(),
            ok <==> i < old(self).spec_edges().len(),
            ok ==> final(self).spec_edges() == old(self).spec_edges().update(
                i as int,
                EdgeRecord {
                    edge: Edge {
                        props: crate::edge::EdgeProps {
                            selected: selected,
                            ..old(self).spec_edges()[i as int].edge.props
                        },
                        ..old(self).spec_edges()[i as int].edge
                    },
                    ..old(self).spec_edges()[i as int]
                },
            ),
            !ok ==> *final(self) == *old(self),
            final(self).spec_nodes() == old(self).spec_nodes(),
            final(self).spec_directed() == old(self).spec_directed(),
    {
        if i < self.edges.len() {
            let ghost olds = self.edges@;
            let rec = &mut self.edges[i];
            rec.edge.set_selected(selected);
            proof {
                let news = self.edges@;
                assert forall|j: int| 0 <= j < news.len() implies (#[trigger] news[j]).edge.props.order
                    == bucket_count(news.take(j), news[j].source as int, news[j].target as int) by {
                    lemma_bucket_count_same_endpoints(
                        news.take(j),
                        olds.take(j),
                        news[j].source as int,
                        news[j].target as int,
                    );
                }
            }
            true
        } else {
            false
        }
    }
}

} // verus!
