//! Per-frame derived state, rebuilt from the authoritative node and edge
//! flags at the start of every frame and discarded at its end.

use vstd::prelude::*;
use crate::graph::{Graph, EdgeRecord, incident_count};
use crate::node::Node;
use crate::rat::{rle, rlt, lemma_rle_trans};
use crate::vec2::{V2, RectR};

verus! {

/// Pushing keeps every element reachable by `contains`, and adds the new one.
proof fn lemma_push_contains<A>(s: Seq<A>, v: A, x: A)
    ensures
        s.contains(x) ==> s.push(v).contains(x),
        s.push(v).contains(v),
{
    if s.contains(x) {
        let k = choose|k: int| 0 <= k < s.len() && s[k] == x;
        assert(s.push(v)[k] == x);
    }
    assert(s.push(v)[s.len() as int] == v);
}

/// The nodes with their per-frame connection counts refreshed: what the
/// computed-state pass leaves in the store.
pub open spec fn counted<N, E>(nodes: Seq<Node<N>>, edges: Seq<EdgeRecord<E>>) -> Seq<Node<N>> {
    nodes.map(
        |i: int, n: Node<N>|
            Node {
                computed: ComputedNode { num_connections: incident_count(edges, i) as usize },
                ..n
            },
    )
}

/// The bounding box over the first `i` node locations, as the per-frame pass
/// accumulates it: seeded at the first location, stretched by each strictly
/// smaller or larger coordinate; the zero rectangle with no nodes.
pub open spec fn bounds_fold<N>(nodes: Seq<Node<N>>, i: int) -> (V2, V2)
    decreases i,
{
    if i <= 0 {
        (V2::spec_zero(), V2::spec_zero())
    } else if i == 1 {
        (nodes[0].location, nodes[0].location)
    } else {
        let prev = bounds_fold(nodes, i - 1);
        let l = nodes[i - 1].location;
        (
            V2 {
                x: if rlt(l.x@, prev.0.x@) {
                    l.x
                } else {
                    prev.0.x
                },
                y: if rlt(l.y@, prev.0.y@) {
                    l.y
                } else {
                    prev.0.y
                },
            },
            V2 {
                x: if rlt(prev.1.x@, l.x@) {
                    l.x
                } else {
                    prev.1.x
                },
                y: if rlt(prev.1.y@, l.y@) {
                    l.y
                } else {
                    prev.1.y
                },
            },
        )
    }
}

/// The bounding-box fold reads only the first `i` nodes, so it agrees on two
/// sequences that agree there.
pub proof fn lemma_bounds_fold_prefix<N>(s1: Seq<Node<N>>, s2: Seq<Node<N>>, i: int)
    requires
        forall|j: int| 0 <= j < i ==> s1[j] == s2[j],
    ensures
        bounds_fold(s1, i) == bounds_fold(s2, i),
    decreases i,
{
    if i > 1 {
        lemma_bounds_fold_prefix(s1, s2, i - 1);
    }
}

/// The indices of the selected nodes, in increasing order.
pub open spec fn selected_list<N>(nodes: Seq<Node<N>>) -> Seq<usize>
    decreases nodes.len(),
{
    if nodes.len() == 0 {
        Seq::empty()
    } else {
        selected_list(nodes.drop_last()) + if nodes.last().selected {
            seq![(nodes.len() - 1) as usize]
        } else {
            Seq::empty()
        }
    }
}

/// The first node whose dragged flag is set, if any.
pub open spec fn first_dragged<N>(nodes: Seq<Node<N>>) -> Option<usize>
    decreases nodes.len(),
{
    if nodes.len() == 0 {
        None
    } else {
        match first_dragged(nodes.drop_last()) {
            Some(i) => Some(i),
            None => if nodes.last().dragged {
                Some((nodes.len() - 1) as usize)
            } else {
                None
            },
        }
    }
}

/// Values derived for one node by the per-frame pass.
#[derive(Clone, Copy, Debug, PartialEq, Eq, Structural)]
pub struct ComputedNode {
    /// Number of incident edges (a self-loop counts once).
    pub num_connections: usize,
}

impl Default for ComputedNode {
    /// No connections.
    fn default() -> (r: Self)
        ensures
            r.num_connections == 0,
    {
        ComputedNode { num_connections: 0 }
    }
}

/// Extends running bounds to cover `loc`: every new bound is either the old
/// bound or `loc`'s own coordinate, the new box covers `loc`, and it contains
/// the old box.
fn stretch_bounds(min: &mut V2, max: &mut V2, loc: V2)
    requires
        old(min).wf(),
        old(max).wf(),
        loc.wf(),
    ensures
        final(min).wf(),
        final(max).wf(),
        final(min).x == (if rlt(loc.x@, old(min).x@) {
            loc.x
        } else {
            old(min).x
        }),
        final(min).y == (if rlt(loc.y@, old(min).y@) {
            loc.y
        } else {
            old(min).y
        }),
        final(max).x == (if rlt(old(max).x@, loc.x@) {
            loc.x
        } else {
            old(max).x
        }),
        final(max).y == (if rlt(old(max).y@, loc.y@) {
            loc.y
        } else {
            old(max).y
        }),
        rle(final(min).x@, loc.x@),
        rle(final(min).y@, loc.y@),
        rle(loc.x@, final(max).x@),
        rle(loc.y@, final(max).y@),
        rle(final(min).x@, old(min).x@),
        rle(final(min).y@, old(min).y@),
        rle(old(max).x@, final(max).x@),
        rle(old(max).y@, final(max).y@),
{
    if loc.x.lt(min.x) {
        min.x = loc.x;
    }
    if loc.y.lt(min.y) {
        min.y = loc.y;
    }
    if max.x.lt(loc.x) {
        max.x = loc.x;
    }
    if max.y.lt(loc.y) {
        max.y = loc.y;
    }
}

/// The per-frame read cache: dragged node, selections and graph bounds.
/// Never a source of truth; the flags on the nodes and edges are.
#[derive(Clone, Debug)]
pub struct ComputedState {
    /// The first node whose dragged flag is set, if any.
    pub dragged: Option<usize>,
    /// Indices of the selected nodes, in increasing order.
    pub selected_nodes: Vec<usize>,
    /// Indices of the selected edges, in increasing order.
    pub selected_edges: Vec<usize>,
    /// Bounding box over all node locations; the zero rectangle for an empty
    /// graph, so that fit-to-screen sees a degenerate diagonal.
    pub bounds: RectR,
}

impl ComputedState {
    /// The selection cache is valid, ordered and complete with respect to the
    /// nodes' own selected flags. This is all the click handlers rely on, and
    /// it only reads those flags, so drag handling cannot break it.
    pub open spec fn sel_inv<N, E>(self, g: Graph<N, E>) -> bool {
        &&& forall|k: int|
            0 <= k < self.selected_nodes@.len() ==> (#[trigger] self.selected_nodes@[k]) < g.spec_nodes().len()
                && g.spec_nodes()[self.selected_nodes@[k] as int].selected
        &&& forall|i: int|
            0 <= i < g.spec_nodes().len() && (#[trigger] g.spec_nodes()[i]).selected
                ==> self.selected_nodes@.contains(i as usize)
        &&& forall|k1: int, k2: int|
            0 <= k1 < k2 < self.selected_nodes@.len() ==> (#[trigger] self.selected_nodes@[k1])
                < (#[trigger] self.selected_nodes@[k2])
    }

    /// Everything the frame handlers rely on: entries valid, ordered and
    /// complete with respect to the graph's own flags, and well-formed
    /// bounds.
    pub open spec fn inv<N, E>(self, g: Graph<N, E>) -> bool {
        &&& match self.dragged {
            Some(i) => i < g.spec_nodes().len() && g.spec_nodes()[i as int].dragged && forall|
                j: int,
            |
                0 <= j < i ==> !(#[trigger] g.spec_nodes()[j]).dragged,
            None => forall|j: int|
                0 <= j < g.spec_nodes().len() ==> !(#[trigger] g.spec_nodes()[j]).dragged,
        }
        &&& self.sel_inv(g)
        &&& forall|k: int|
            0 <= k < self.selected_edges@.len() ==> (#[trigger] self.selected_edges@[k]) < g.spec_edges().len()
                && g.spec_edges()[self.selected_edges@[k] as int].edge.props.selected
        &&& forall|i: int|
            0 <= i < g.spec_edges().len() && (#[trigger] g.spec_edges()[i]).edge.props.selected
                ==> self.selected_edges@.contains(i as usize)
        &&& forall|k1: int, k2: int|
            0 <= k1 < k2 < self.selected_edges@.len() ==> (#[trigger] self.selected_edges@[k1])
                < (#[trigger] self.selected_edges@[k2])
        &&& self.bounds.wf()
        &&& g.spec_nodes().len() > 0 ==> forall|i: int|
            0 <= i < g.spec_nodes().len() ==> rle(
                self.bounds.min.x@,
                (#[trigger] g.spec_nodes()[i]).location.x@,
            ) && rle(self.bounds.min.y@, g.spec_nodes()[i].location.y@) && rle(
                g.spec_nodes()[i].location.x@,
                self.bounds.max.x@,
            ) && rle(g.spec_nodes()[i].location.y@, self.bounds.max.y@)
        &&& g.spec_nodes().len() > 0 ==> (exists|i: int|
            0 <= i < g.spec_nodes().len() && (#[trigger] g.spec_nodes()[i]).location.x
                == self.bounds.min.x) && (exists|i: int|
            0 <= i < g.spec_nodes().len() && (#[trigger] g.spec_nodes()[i]).location.y
                == self.bounds.min.y) && (exists|i: int|
            0 <= i < g.spec_nodes().len() && (#[trigger] g.spec_nodes()[i]).location.x
                == self.bounds.max.x) && (exists|i: int|
            0 <= i < g.spec_nodes().len() && (#[trigger] g.spec_nodes()[i]).location.y
                == self.bounds.max.y)
        &&& g.spec_nodes().len() == 0 ==> self.bounds.min == V2::spec_zero()
            && self.bounds.max == V2::spec_zero()
    }

    /// The selection cache keeps its meaning across any change that leaves
    /// every node's selected flag alone, such as dragging or moving nodes.
    pub proof fn lemma_sel_inv_preserved<N, E>(self, g1: Graph<N, E>, g2: Graph<N, E>)
        requires
            self.sel_inv(g1),
            g1.spec_nodes().len() == g2.spec_nodes().len(),
            forall|i: int|
                0 <= i < g1.spec_nodes().len() ==> (#[trigger] g2.spec_nodes()[i]).selected == (
                #[trigger] g1.spec_nodes()[i]).selected,
        ensures
            self.sel_inv(g2),
    {
        assert forall|k: int|
            0 <= k < self.selected_nodes@.len() implies (#[trigger] self.selected_nodes@[k])
            < g2.spec_nodes().len() && g2.spec_nodes()[self.selected_nodes@[k] as int].selected by {
            assert(g1.spec_nodes()[self.selected_nodes@[k] as int].selected);
            assert(g2.spec_nodes()[self.selected_nodes@[k] as int].selected == g1.spec_nodes()[self.selected_nodes@[k] as int].selected);
        }
        assert forall|i: int|
            0 <= i < g2.spec_nodes().len() && (#[trigger] g2.spec_nodes()[i]).selected implies self.selected_nodes@.contains(
            i as usize,
        ) by {
            assert(g1.spec_nodes()[i].selected == g2.spec_nodes()[i].selected);
        }
    }

    /// A bounding box gathered over the graph is sorted: for a nonempty graph
    /// both bounds are attained and cover every location; for an empty one
    /// they coincide.
    pub proof fn lemma_bounds_sorted<N, E>(self, g: Graph<N, E>)
        requires
            self.inv(g),
            g.wf(),
        ensures
            rle(self.bounds.min.x@, self.bounds.max.x@),
            rle(self.bounds.min.y@, self.bounds.max.y@),
    {
        if g.spec_nodes().len() > 0 {
            let n0 = g.spec_nodes()[0];
            lemma_rle_trans(self.bounds.min.x@, n0.location.x@, self.bounds.max.x@);
            lemma_rle_trans(self.bounds.min.y@, n0.location.y@, self.bounds.max.y@);
        }
    }

    /// The graph bounding box accumulated by the pass.
    pub fn graph_bounds(&self) -> (r: RectR)
        ensures
            r == self.bounds,
    {
        self.bounds
    }

    /// One pass over the graph: refreshes every node's connection count and
    /// gathers the bounds, the selections and the dragged node from the
    /// authoritative flags. Flags, locations and edges are not changed.
    #[verifier::rlimit(100)]
    #[verifier::spinoff_prover]
    pub fn compute<N, E>(g: &mut Graph<N, E>) -> (r: ComputedState)
        requires
            old(g).wf(),
        ensures
            final(g).wf(),
            final(g).spec_edges() == old(g).spec_edges(),
            final(g).spec_directed() == old(g).spec_directed(),
            final(g).spec_nodes().len() == old(g).spec_nodes().len(),
            forall|i: int|
                0 <= i < old(g).spec_nodes().len() ==> #[trigger] final(g).spec_nodes()[i]
                    == (Node {
                    computed: ComputedNode {
                        num_connections: incident_count(old(g).spec_edges(), i) as usize,
                    },
                    ..old(g).spec_nodes()[i]
                }),
            final(g).spec_nodes() == counted(old(g).spec_nodes(), old(g).spec_edges()),
            r.selected_nodes@ == selected_list(final(g).spec_nodes()),
            r.dragged == first_dragged(final(g).spec_nodes()),
            r.bounds == (RectR {
                min: bounds_fold(final(g).spec_nodes(), final(g).spec_nodes().len() as int).0,
                max: bounds_fold(final(g).spec_nodes(), final(g).spec_nodes().len() as int).1,
            }),
            r.inv(*final(g)),
    {
        let mut dragged: Option<usize> = None;
        let mut selected_nodes: Vec<usize> = Vec::new();
        let mut selected_edges: Vec<usize> = Vec::new();
        let mut min = V2::zero();
        let mut max = V2::zero();
        let ghost mut wnx: int = 0;
        let ghost mut wny: int = 0;
        let ghost mut wxx: int = 0;
        let ghost mut wxy: int = 0;
        let n = g.node_count();
        let ghost nodes0 = g.spec_nodes();
        let mut i: usize = 0;
        while i < n
            invariant
                old(g).wf(),
                g.wf(),
                n == g.spec_nodes().len(),
                nodes0 == old(g).spec_nodes(),
                i <= n,
                g.spec_edges() == old(g).spec_edges(),
                g.spec_directed() == old(g).spec_directed(),
                g.spec_nodes().len() == nodes0.len(),
                forall|j: int|
                    0 <= j < i ==> #[trigger] g.spec_nodes()[j] == (Node {
                        computed: ComputedNode {
                            num_connections: incident_count(g.spec_edges(), j) as usize,
                        },
                        ..nodes0[j]
                    }),
                forall|j: int| i <= j < n ==> #[trigger] g.spec_nodes()[j] == nodes0[j],
                match dragged {
                    Some(k) => k < i && g.spec_nodes()[k as int].dragged && forall|j: int|
                        0 <= j < k ==> !(#[trigger] g.spec_nodes()[j]).dragged,
                    None => forall|j: int|
                        0 <= j < i ==> !(#[trigger] g.spec_nodes()[j]).dragged,
                },
                dragged == first_dragged(g.spec_nodes().take(i as int)),
                selected_nodes@ == selected_list(g.spec_nodes().take(i as int)),
                (min, max) == bounds_fold(g.spec_nodes().take(i as int), i as int),
                forall|k: int|
                    0 <= k < selected_nodes@.len() ==> (#[trigger] selected_nodes@[k]) < i
                        && g.spec_nodes()[selected_nodes@[k] as int].selected,
                forall|j: int|
                    0 <= j < i && (#[trigger] g.spec_nodes()[j]).selected ==> selected_nodes@.contains(
                        j as usize,
                    ),
                forall|k1: int, k2: int|
                    0 <= k1 < k2 < selected_nodes@.len() ==> (#[trigger] selected_nodes@[k1])
                        < (#[trigger] selected_nodes@[k2]),
                min.wf(),
                max.wf(),
                i > 0 ==> forall|j: int|
                    0 <= j < i ==> rle(min.x@, (#[trigger] g.spec_nodes()[j]).location.x@) && rle(
                        min.y@,
                        g.spec_nodes()[j].location.y@,
                    ) && rle(g.spec_nodes()[j].location.x@, max.x@) && rle(
                        g.spec_nodes()[j].location.y@,
                        max.y@,
                    ),
                i > 0 ==> 0 <= wnx < i && g.spec_nodes()[wnx].location.x == min.x && 0 <= wny < i
                    && g.spec_nodes()[wny].location.y == min.y && 0 <= wxx < i
                    && g.spec_nodes()[wxx].location.x == max.x && 0 <= wxy < i
                    && g.spec_nodes()[wxy].location.y == max.y,
                i == 0 ==> min == V2::spec_zero() && max == V2::spec_zero(),
            decreases n - i,
        {
            let ghost gpre = g.spec_nodes();
            let conn = g.edges_num(i);
            let loc: V2;
            let is_selected: bool;
            let is_dragged: bool;
            match g.node(i) {
                Some(node) => {
                    loc = node.location();
                    is_selected = node.selected();
                    is_dragged = node.dragged();
                },
                None => {
                    proof {
                        assert(false);
                    }
                    loc = V2::zero();
                    is_selected = false;
                    is_dragged = false;
                },
            }
            g.set_node_computed(i, ComputedNode { num_connections: conn });
            proof {
                assert(g.spec_nodes()[i as int].location == loc);
                assert(g.spec_nodes()[i as int].selected == is_selected);
                assert(g.spec_nodes()[i as int].dragged == is_dragged);
            }
            if i == 0 {
                min = loc;
                max = loc;
                proof {
                    wnx = 0;
                    wny = 0;
                    wxx = 0;
                    wxy = 0;
                }
            } else {
                let ghost min0 = min;
                let ghost max0 = max;
                stretch_bounds(&mut min, &mut max, loc);
                proof {
                    if min.x != min0.x {
                        wnx = i as int;
                    }
                    if min.y != min0.y {
                        wny = i as int;
                    }
                    if max.x != max0.x {
                        wxx = i as int;
                    }
                    if max.y != max0.y {
                        wxy = i as int;
                    }
                    assert forall|j: int| 0 <= j < i implies rle(
                        min.x@,
                        (#[trigger] g.spec_nodes()[j]).location.x@,
                    ) && rle(min.y@, g.spec_nodes()[j].location.y@) && rle(
                        g.spec_nodes()[j].location.x@,
                        max.x@,
                    ) && rle(g.spec_nodes()[j].location.y@, max.y@) by {
                        lemma_rle_trans(min.x@, min0.x@, g.spec_nodes()[j].location.x@);
                        lemma_rle_trans(min.y@, min0.y@, g.spec_nodes()[j].location.y@);
                        lemma_rle_trans(g.spec_nodes()[j].location.x@, max0.x@, max.x@);
                        lemma_rle_trans(g.spec_nodes()[j].location.y@, max0.y@, max.y@);
                    }
                }
            }
            if is_dragged && dragged.is_none() {
                dragged = Some(i);
            }
            if is_selected {
                let ghost sel0 = selected_nodes@;
                selected_nodes.push(i);
                proof {
                    assert forall|x: usize| sel0.contains(x) implies selected_nodes@.contains(
                        x,
                    ) by {
                        lemma_push_contains(sel0, i, x);
                    }
                    assert(selected_nodes@[sel0.len() as int] == i);
                    assert(selected_nodes@.contains(i));
                }
            }
            proof {
                let cur = g.spec_nodes();
                assert(cur.take(i as int) =~= gpre.take(i as int));
                assert(cur.take(i + 1).drop_last() =~= cur.take(i as int));
                assert(cur.take(i + 1).last() == cur[i as int]);
                assert(dragged == first_dragged(cur.take(i + 1)));
                if is_selected {
                    assert(selected_nodes@ =~= selected_list(cur.take(i as int)) + seq![i]);
                } else {
                    assert(selected_nodes@ =~= selected_list(cur.take(i as int)) + Seq::empty());
                }
                assert(selected_nodes@ == selected_list(cur.take(i + 1)));
                if i == 0 {
                    assert(bounds_fold(cur.take(1), 1) == (min, max));
                } else {
                    lemma_bounds_fold_prefix(cur.take(i + 1), cur.take(i as int), i as int);
                    assert(bounds_fold(cur.take(i + 1), i + 1) == (min, max));
                }
            }
            i = i + 1;
        }
        let m = g.edge_count();
        let mut k: usize = 0;
        while k < m
            invariant
                g.wf(),
                m == g.spec_edges().len(),
                k <= m,
                forall|j: int|
                    0 <= j < selected_edges@.len() ==> (#[trigger] selected_edges@[j]) < k
                        && g.spec_edges()[selected_edges@[j] as int].edge.props.selected,
                forall|j: int|
                    0 <= j < k && (#[trigger] g.spec_edges()[j]).edge.props.selected
                        ==> selected_edges@.contains(j as usize),
                forall|k1: int, k2: int|
                    0 <= k1 < k2 < selected_edges@.len() ==> (#[trigger] selected_edges@[k1])
                        < (#[trigger] selected_edges@[k2]),
            decreases m - k,
        {
            let sel = match g.edge(k) {
                Some(e) => e.selected(),
                None => {
                    proof {
                        assert(false);
                    }
                    false
                },
            };
            if sel {
                let ghost sel0 = selected_edges@;
                selected_edges.push(k);
                proof {
                    assert forall|x: usize| sel0.contains(x) implies selected_edges@.contains(
                        x,
                    ) by {
                        lemma_push_contains(sel0, k, x);
                    }
                    assert(selected_edges@[sel0.len() as int] == k);
                    assert(selected_edges@.contains(k));
                }
            }
            k = k + 1;
        }
        proof {
            if n > 0 {
                assert(g.spec_nodes()[wnx].location.x == min.x);
                assert(g.spec_nodes()[wny].location.y == min.y);
                assert(g.spec_nodes()[wxx].location.x == max.x);
                assert(g.spec_nodes()[wxy].location.y == max.y);
            }
            assert(g.spec_nodes().take(n as int) =~= g.spec_nodes());
            assert forall|i: int| 0 <= i < g.spec_nodes().len() implies g.spec_nodes()[i]
                == counted(old(g).spec_nodes(), old(g).spec_edges())[i] by {
            }
            assert(g.spec_nodes() =~= counted(old(g).spec_nodes(), old(g).spec_edges()));
        }
        ComputedState { dragged, selected_nodes, selected_edges, bounds: RectR { min, max } }
    }
}

} // verus!
