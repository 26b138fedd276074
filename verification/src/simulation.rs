//! The force-directed layout step. Self-loop edges are left out of the
//! working topology (the spring relaxation cannot use them) and the store's
//! edges are never touched, so they survive every step unchanged. A step
//! pulls each node toward its neighbors along non-loop edges by an exact
//! rational coupling factor; a graph with zero or one nodes performs no work.
//! The step advances until the iteration cap is reached and can be restarted,
//! for instance when a drag begins. Screen positions are not stored: after a
//! step they are recomputed from the node locations through the viewport.

use vstd::prelude::*;
use crate::graph::{Graph, EdgeRecord};
use crate::node::Node;
use crate::rat::{Rat, radd, rsub, rmul, fits};
use crate::vec2::V2;

verus! {

/// Progress of the layout relaxation.
#[derive(Clone, Copy, Debug, PartialEq, Eq, Structural)]
pub struct SimulationState {
    /// Steps taken since the last restart.
    pub iterations: u64,
    /// Cap after which the layout counts as converged and stops advancing.
    pub max_iterations: u64,
}

impl SimulationState {
    /// A fresh state with the given cap.
    pub fn new(max_iterations: u64) -> (r: SimulationState)
        ensures
            r.iterations == 0,
            r.max_iterations == max_iterations,
    {
        SimulationState { iterations: 0, max_iterations }
    }

    /// Has the cap been reached?
    pub fn converged(&self) -> (r: bool)
        ensures
            r == (self.iterations >= self.max_iterations),
    {
        self.iterations >= self.max_iterations
    }

    /// Resets the step counter, so stepping resumes.
    pub fn restart(&mut self)
        ensures
            final(self).iterations == 0,
            final(self).max_iterations == old(self).max_iterations,
    {
        self.iterations = 0;
    }

    /// Resets the counter when a drag begins and the restart-on-drag setting
    /// is enabled; otherwise leaves the state alone.
    pub fn maybe_restart_on_drag(&mut self, drag_started: bool, restart_on_drag: bool)
        ensures
            drag_started && restart_on_drag ==> final(self).iterations == 0 && final(self).max_iterations == old(self).max_iterations,
            !(drag_started && restart_on_drag) ==> *final(self) == *old(self),
    {
        if drag_started && restart_on_drag {
            self.restart();
        }
    }
}

/// The exact spring displacement of node `i`: the sum, over the non-loop
/// edges touching `i`, of the vector toward the other endpoint scaled by the
/// coupling `kc`. `None` when a step would not fit in `i64` fields.
pub open spec fn disp_opt<N, E>(
    edges: Seq<EdgeRecord<E>>,
    nodes: Seq<Node<N>>,
    i: int,
    kc: Rat,
) -> Option<((int, int), (int, int))>
    decreases edges.len(),
{
    if edges.len() == 0 {
        Some(((0int, 1int), (0int, 1int)))
    } else {
        match disp_opt(edges.drop_last(), nodes, i, kc) {
            None => None,
            Some(acc) => {
                let e = edges.last();
                if e.source == e.target || (e.source != i && e.target != i) {
                    Some(acc)
                } else {
                    let other = if e.source == i {
                        e.target as int
                    } else {
                        e.source as int
                    };
                    let dx = rsub(nodes[other].location.x@, nodes[i].location.x@);
                    let dy = rsub(nodes[other].location.y@, nodes[i].location.y@);
                    let px = rmul(dx, kc@);
                    let py = rmul(dy, kc@);
                    if !fits(dx) || !fits(dy) || !fits(px) || !fits(py) || !fits(radd(acc.0, px))
                        || !fits(radd(acc.1, py)) {
                        None
                    } else {
                        Some((radd(acc.0, px), radd(acc.1, py)))
                    }
                }
            },
        }
    }
}

/// Once the displacement fold has failed on a prefix, it fails on the whole.
proof fn lemma_disp_none<N, E>(
    edges: Seq<EdgeRecord<E>>,
    nodes: Seq<Node<N>>,
    i: int,
    kc: Rat,
    j: int,
)
    requires
        0 <= j <= edges.len(),
        disp_opt(edges.take(j), nodes, i, kc) is None,
    ensures
        disp_opt(edges, nodes, i, kc) is None,
    decreases edges.len() - j,
{
    if j < edges.len() {
        assert(edges.take(j + 1).drop_last() =~= edges.take(j));
        lemma_disp_none(edges, nodes, i, kc, j + 1);
    } else {
        assert(edges.take(j) =~= edges);
    }
}

/// Computes node `i`'s spring displacement: exactly `disp_opt`.
#[verifier::spinoff_prover]
fn node_disp<N, E>(g: &Graph<N, E>, i: usize, kc: Rat) -> (r: Option<V2>)
    requires
        g.wf(),
        kc.wf(),
        i < g.spec_nodes().len(),
    ensures
        r is Some <==> disp_opt(g.spec_edges(), g.spec_nodes(), i as int, kc) is Some,
        r matches Some(v) ==> disp_opt(g.spec_edges(), g.spec_nodes(), i as int, kc) == Some(
            (v.x@, v.y@),
        ) && v.wf(),
{
    let mut acc = V2::zero();
    let m = g.edge_count();
    let mut k: usize = 0;
    while k < m
        invariant
            g.wf(),
            kc.wf(),
            i < g.spec_nodes().len(),
            m == g.spec_edges().len(),
            k <= m,
            acc.wf(),
            disp_opt(g.spec_edges().take(k as int), g.spec_nodes(), i as int, kc) == Some(
                (acc.x@, acc.y@),
            ),
        decreases m - k,
    {
        proof {
            assert(g.spec_edges().take(k + 1int).drop_last() =~= g.spec_edges().take(k as int));
            assert(g.spec_edges().take(k + 1int).last() == g.spec_edges()[k as int]);
        }
        let (src, tgt) = match g.edge_endpoints(k) {
            Some(p) => p,
            None => {
                proof {
                    assert(false);
                }
                (0, 0)
            },
        };
        if src != tgt && (src == i || tgt == i) {
            let other = if src == i {
                tgt
            } else {
                src
            };
            let other_loc = match g.node(other) {
                Some(n) => n.location(),
                None => {
                    proof {
                        assert(false);
                    }
                    V2::zero()
                },
            };
            let my_loc = match g.node(i) {
                Some(n) => n.location(),
                None => {
                    proof {
                        assert(false);
                    }
                    V2::zero()
                },
            };
            let d = match other_loc.try_sub(my_loc) {
                Some(d) => d,
                None => {
                    proof {
                        lemma_disp_none(g.spec_edges(), g.spec_nodes(), i as int, kc, k + 1int);
                    }
                    return None;
                },
            };
            let p = match d.try_scale(kc) {
                Some(p) => p,
                None => {
                    proof {
                        lemma_disp_none(g.spec_edges(), g.spec_nodes(), i as int, kc, k + 1int);
                    }
                    return None;
                },
            };
            acc = match acc.try_add(p) {
                Some(a) => a,
                None => {
                    proof {
                        lemma_disp_none(g.spec_edges(), g.spec_nodes(), i as int, kc, k + 1int);
                    }
                    return None;
                },
            };
        }
        k = k + 1;
    }
    proof {
        assert(g.spec_edges().take(m as int) =~= g.spec_edges());
    }
    Some(acc)
}

/// One simulation step. Converged state (iteration cap reached) changes
/// nothing. Otherwise the counter advances and, for a graph with more than
/// one node, every node whose exact displacement and new location fit moves
/// by exactly its spring displacement; every other node, including every node
/// without a non-loop incident edge, keeps its location. Edges, flags, labels
/// and payloads are never touched, so a self-loop survives any number of
/// steps unchanged.
#[verifier::spinoff_prover]
pub fn step<N, E>(g: &mut Graph<N, E>, sim: &mut SimulationState, kc: Rat)
    requires
        old(g).wf(),
        kc.wf(),
    ensures
        final(g).wf(),
        final(g).spec_edges() == old(g).spec_edges(),
        final(g).spec_directed() == old(g).spec_directed(),
        final(g).spec_nodes().len() == old(g).spec_nodes().len(),
        forall|i: int|
            0 <= i < old(g).spec_nodes().len() ==> #[trigger] final(g).spec_nodes()[i] == (Node {
                location: final(g).spec_nodes()[i].location,
                ..old(g).spec_nodes()[i]
            }),
        old(sim).iterations >= old(sim).max_iterations ==> *final(g) == *old(g) && *final(sim)
            == *old(sim),
        old(sim).iterations < old(sim).max_iterations ==> final(sim).iterations == old(sim).iterations + 1 && final(sim).max_iterations == old(sim).max_iterations,
        old(sim).iterations < old(sim).max_iterations && old(g).spec_nodes().len() <= 1 ==> final(g).spec_nodes() == old(g).spec_nodes(),
        old(sim).iterations < old(sim).max_iterations && old(g).spec_nodes().len() > 1 ==> forall|
            i: int,
        |
            0 <= i < old(g).spec_nodes().len() ==> #[trigger] final(g).spec_nodes()[i].location
                == ({
                let loc = old(g).spec_nodes()[i].location;
                match disp_opt(old(g).spec_edges(), old(g).spec_nodes(), i, kc) {
                    Some(d) => if fits(radd(loc.x@, d.0)) && fits(radd(loc.y@, d.1)) {
                        V2 {
                            x: crate::view::rat_of(radd(loc.x@, d.0)),
                            y: crate::view::rat_of(radd(loc.y@, d.1)),
                        }
                    } else {
                        loc
                    },
                    None => loc,
                }
            }),
{
    if sim.iterations >= sim.max_iterations {
        return ;
    }
    let n = g.node_count();
    sim.iterations = sim.iterations + 1;
    if n <= 1 {
        return ;
    }
    let mut disps: Vec<Option<V2>> = Vec::new();
    let mut i: usize = 0;
    while i < n
        invariant
            g.wf(),
            kc.wf(),
            n == g.spec_nodes().len(),
            i <= n,
            disps@.len() == i,
            forall|j: int|
                0 <= j < i ==> ((#[trigger] disps@[j]) matches Some(nl) ==> nl.wf()),
            forall|j: int|
                0 <= j < i ==> #[trigger] disps@[j] == ({
                    match disp_opt(g.spec_edges(), g.spec_nodes(), j, kc) {
                        Some(d) => {
                            let loc = g.spec_nodes()[j].location;
                            if fits(radd(loc.x@, d.0)) && fits(radd(loc.y@, d.1)) {
                                Some(
                                    V2 {
                                        x: crate::view::rat_of(radd(loc.x@, d.0)),
                                        y: crate::view::rat_of(radd(loc.y@, d.1)),
                                    },
                                )
                            } else {
                                None
                            }
                        },
                        None => None,
                    }
                }),
        decreases n - i,
    {
        let d = node_disp(g, i, kc);
        let entry: Option<V2>;
        match d {
            Some(dv) => {
                let loc = match g.node(i) {
                    Some(nd) => nd.location(),
                    None => {
                        proof {
                            assert(false);
                        }
                        V2::zero()
                    },
                };
                match loc.try_add(dv) {
                    Some(nl) => {
                        entry = Some(nl);
                    },
                    None => {
                        entry = None;
                    },
                }
            },
            None => {
                entry = None;
            },
        }
        disps.push(entry);
        i = i + 1;
    }
    let ghost nodes0 = g.spec_nodes();
    let ghost edges0 = g.spec_edges();
    let mut j: usize = 0;
    while j < n
        invariant
            g.wf(),
            n == g.spec_nodes().len(),
            nodes0.len() == n,
            j <= n,
            disps@.len() == n,
            g.spec_edges() == edges0,
            g.spec_directed() == old(g).spec_directed(),
            forall|t: int|
                0 <= t < n ==> ((#[trigger] disps@[t]) matches Some(nl) ==> nl.wf()),
            forall|t: int|
                0 <= t < n ==> #[trigger] disps@[t] == ({
                    match disp_opt(edges0, nodes0, t, kc) {
                        Some(d) => {
                            let loc = nodes0[t].location;
                            if fits(radd(loc.x@, d.0)) && fits(radd(loc.y@, d.1)) {
                                Some(
                                    V2 {
                                        x: crate::view::rat_of(radd(loc.x@, d.0)),
                                        y: crate::view::rat_of(radd(loc.y@, d.1)),
                                    },
                                )
                            } else {
                                None
                            }
                        },
                        None => None,
                    }
                }),
            forall|t: int|
                0 <= t < j ==> #[trigger] g.spec_nodes()[t] == (Node {
                    location: match disps@[t] {
                        Some(nl) => nl,
                        None => nodes0[t].location,
                    },
                    ..nodes0[t]
                }),
            forall|t: int| j <= t < n ==> #[trigger] g.spec_nodes()[t] == nodes0[t],
        decreases n - j,
    {
        match disps[j] {
            Some(nl) => {
                g.set_node_location(j, nl);
            },
            None => {},
        }
        j = j + 1;
    }
}

} // verus!
