//! Building the renderable graph from plain topology: nodes get a default
//! random location inside a fixed square and a label equal to their index;
//! edges get their stable order index among parallel siblings.

use vstd::prelude::*;
use crate::edge::Edge;
use crate::graph::{Graph, bucket_count};
use crate::node::Node;
use crate::rat::Rat;
use crate::vec2::V2;

verus! {

/// Side length of the square in which fresh nodes are spawned.
pub const DEFAULT_SPAWN_SIZE: i64 = 250;

/// The decimal digit character for a value below ten.
pub open spec fn digit_char(d: nat) -> char {
    if d == 0 {
        '0'
    } else if d == 1 {
        '1'
    } else if d == 2 {
        '2'
    } else if d == 3 {
        '3'
    } else if d == 4 {
        '4'
    } else if d == 5 {
        '5'
    } else if d == 6 {
        '6'
    } else if d == 7 {
        '7'
    } else if d == 8 {
        '8'
    } else {
        '9'
    }
}

/// The decimal digits of a nonnegative integer, most significant first.
pub open spec fn dec_digits(n: nat) -> Seq<char>
    decreases n,
{
    if n < 10 {
        seq![digit_char(n)]
    } else {
        dec_digits(n / 10) + seq![digit_char(n % 10)]
    }
}

/// Relies on `rand::Rng::gen_range` over `0..bound` on `thread_rng`: the
/// result is uniform in the half-open range, so it is strictly below `bound`;
/// the range is nonempty, so the call does not panic.
#[verifier::external_body]
fn random_below(bound: u32) -> (r: u32)
    requires
        bound > 0,
    ensures
        r < bound,
{
    let mut rng = rand::thread_rng();
    rand::Rng::gen_range(&mut rng, 0..bound)
}

/// Relies on `usize`'s `Display` implementation through `to_string`, which
/// the standard library documents as the decimal digits of the value.
#[verifier::external_body]
fn usize_to_string(n: usize) -> (s: String)
    ensures
        s@ == dec_digits(n as nat),
{
    n.to_string()
}

/// A uniformly random point inside the square `[0, size) x [0, size)`, with
/// integer coordinates.
pub fn random_location(size: u32) -> (r: V2)
    requires
        size > 0,
    ensures
        r.wf(),
        r.x.d == 1 && 0 <= r.x.n < size,
        r.y.d == 1 && 0 <= r.y.n < size,
{
    let x = random_below(size);
    let y = random_below(size);
    V2 { x: Rat { n: x as i64, d: 1 }, y: Rat { n: y as i64, d: 1 } }
}

/// The default node transform: keeps the payload, spawns the node at a random
/// location inside the default square, and labels it with its decimal index.
pub fn default_node_transform<N>(idx: usize, data: N) -> (r: Node<N>)
    ensures
        r.wf(),
        r.data == data,
        r.label@ == dec_digits(idx as nat),
        !r.selected,
        !r.dragged,
        r.style.radius@ == (5int, 1int),
        r.computed.num_connections == 0,
        0 <= r.location.x.n < DEFAULT_SPAWN_SIZE && r.location.x.d == 1,
        0 <= r.location.y.n < DEFAULT_SPAWN_SIZE && r.location.y.d == 1,
{
    let loc = random_location(DEFAULT_SPAWN_SIZE as u32);
    Node::new(loc, data).with_label(usize_to_string(idx))
}

/// The default edge transform: keeps the payload on a fresh unbound edge.
pub fn default_edge_transform<E>(_idx: usize, data: E) -> (r: Edge<E>)
    ensures
        r.props.payload == data,
        r.props.order == 0,
        !r.props.selected,
        r.id is None,
{
    Edge::new(data)
}

/// Everything the default node transform promises of a freshly spawned node
/// with identity `idx` and payload `data`.
pub open spec fn spawned_node<N>(node: Node<N>, idx: int, data: N) -> bool {
    node.data == data && node.label@ == dec_digits(idx as nat) && !node.selected && !node.dragged
        && node.style.radius@ == (5int, 1int) && node.computed.num_connections == 0 && 0
        <= node.location.x.n < DEFAULT_SPAWN_SIZE && node.location.x.d == 1 && 0
        <= node.location.y.n < DEFAULT_SPAWN_SIZE && node.location.y.d == 1
}

/// Adds a payload as a node with the default transform; returns its identity.
pub fn add_node<N, E>(g: &mut Graph<N, E>, n: N) -> (idx: usize)
    requires
        old(g).wf(),
    ensures
        final(g).wf(),
        idx == old(g).spec_nodes().len(),
        final(g).spec_nodes().len() == old(g).spec_nodes().len() + 1,
        spawned_node(final(g).spec_nodes()[idx as int], idx as int, n),
        final(g).spec_edges() == old(g).spec_edges(),
        final(g).spec_directed() == old(g).spec_directed(),
        forall|i: int|
            0 <= i < old(g).spec_nodes().len() ==> final(g).spec_nodes()[i] == old(
                g,
            ).spec_nodes()[i],
{
    let idx = g.node_count();
    let node = default_node_transform(idx, n);
    add_node_custom(g, node)
}

/// Adds an already-built node; returns its identity.
pub fn add_node_custom<N, E>(g: &mut Graph<N, E>, node: Node<N>) -> (idx: usize)
    requires
        old(g).wf(),
        node.wf(),
    ensures
        final(g).wf(),
        idx == old(g).spec_nodes().len(),
        final(g).spec_nodes() == old(g).spec_nodes().push(node),
        final(g).spec_edges() == old(g).spec_edges(),
        final(g).spec_directed() == old(g).spec_directed(),
{
    g.add_node(node)
}

/// Adds a payload as an edge between existing nodes; the new edge's order
/// index is its creation rank among the edges already sharing the unordered
/// endpoint pair. `None`, changing nothing, exactly when an endpoint does not
/// exist.
pub fn add_edge<N, E>(g: &mut Graph<N, E>, start: usize, end: usize, e: E) -> (r: Option<usize>)
    requires
        old(g).wf(),
    ensures
        final(g).wf(),
        r is Some <==> start < old(g).spec_nodes().len() && end < old(g).spec_nodes().len(),
        r matches Some(idx) ==> idx == old(g).spec_edges().len()
            && final(g).spec_edges().len() == old(g).spec_edges().len() + 1
            && final(g).spec_edges().drop_last() == old(g).spec_edges() && {
            let rec = final(g).spec_edges().last();
            rec.source == start && rec.target == end && rec.edge.props.payload == e
                && rec.edge.props.order == bucket_count(
                old(g).spec_edges(),
                start as int,
                end as int,
            ) && !rec.edge.props.selected && rec.edge.id == Some(idx)
        } && final(g).spec_nodes() == old(g).spec_nodes() && final(g).spec_directed() == old(
            g,
        ).spec_directed(),
        r is None ==> *final(g) == *old(g),
{
    g.add_edge(start, end, e, false)
}

/// Adds an already-built edge between existing nodes, keeping its payload and
/// selected flag; the stable order index and the identity are assigned by the
/// store, as for any other edge. `None`, changing nothing, exactly when an
/// endpoint does not exist.
pub fn add_edge_custom<N, E>(g: &mut Graph<N, E>, start: usize, end: usize, e: Edge<E>) -> (r:
    Option<usize>)
    requires
        old(g).wf(),
    ensures
        final(g).wf(),
        r is Some <==> start < old(g).spec_nodes().len() && end < old(g).spec_nodes().len(),
        r matches Some(idx) ==> idx == old(g).spec_edges().len()
            && final(g).spec_edges().len() == old(g).spec_edges().len() + 1
            && final(g).spec_edges().drop_last() == old(g).spec_edges() && {
            let rec = final(g).spec_edges().last();
            rec.source == start && rec.target == end && rec.edge.props.payload == e.props.payload
                && rec.edge.props.selected == e.props.selected && rec.edge.props.order
                == bucket_count(old(g).spec_edges(), start as int, end as int) && rec.edge.id
                == Some(idx)
        } && final(g).spec_nodes() == old(g).spec_nodes() && final(g).spec_directed() == old(
            g,
        ).spec_directed(),
        r is None ==> *final(g) == *old(g),
{
    g.add_edge(start, end, e.props.payload, e.props.selected)
}

/// The input triples whose endpoints both name one of the `n` nodes, in input
/// order: exactly the edges ingestion keeps.
pub open spec fn kept_triples<E>(ts: Seq<(usize, usize, E)>, n: int) -> Seq<(usize, usize, E)>
    decreases ts.len(),
{
    if ts.len() == 0 {
        Seq::empty()
    } else {
        kept_triples(ts.drop_last(), n) + if ts.last().0 < n && ts.last().1 < n {
            seq![ts.last()]
        } else {
            Seq::empty()
        }
    }
}

/// Builds the renderable graph from a plain topology: one node per payload,
/// in order, through the default node transform (payload kept, decimal-index
/// label, random spawn location, clear flags), and one edge per
/// `(source, target, payload)` triple, in order, unselected, with its stable
/// order index. A triple whose endpoint does not exist is skipped.
#[verifier::rlimit(100)]
#[verifier::spinoff_prover]
pub fn to_graph<N, E>(nodes: Vec<N>, edges: Vec<(usize, usize, E)>, directed: bool) -> (g: Graph<
    N,
    E,
>)
    ensures
        g.wf(),
        g.spec_directed() == directed,
        g.spec_nodes().len() == nodes@.len(),
        forall|i: int|
            0 <= i < nodes@.len() ==> spawned_node(#[trigger] g.spec_nodes()[i], i, nodes@[i]),
        ({
            let kept = kept_triples(edges@, nodes@.len() as int);
            g.spec_edges().len() == kept.len() && forall|j: int|
                0 <= j < kept.len() ==> (#[trigger] g.spec_edges()[j]).source == kept[j].0
                    && g.spec_edges()[j].target == kept[j].1 && g.spec_edges()[j].edge.props.payload
                    == kept[j].2 && !g.spec_edges()[j].edge.props.selected
        }),
{
    let mut g: Graph<N, E> = Graph::new(directed);
    let mut ns = nodes;
    let ghost nodes0 = ns@;
    let n_total = ns.len();
    while ns.len() > 0
        invariant
            g.wf(),
            g.spec_directed() == directed,
            nodes0.len() == n_total,
            g.spec_nodes().len() + ns@.len() == n_total,
            ns@ =~= nodes0.skip(g.spec_nodes().len() as int),
            forall|i: int|
                0 <= i < g.spec_nodes().len() ==> spawned_node(
                    #[trigger] g.spec_nodes()[i],
                    i,
                    nodes0[i],
                ),
            g.spec_edges().len() == 0,
        decreases ns.len(),
    {
        let ghost done = g.spec_nodes().len() as int;
        let data = ns.remove(0);
        proof {
            assert(data == nodes0[done]);
            assert(ns@ =~= nodes0.skip(done + 1));
        }
        add_node(&mut g, data);
    }
    let mut es = edges;
    let ghost edges0 = es@;
    while es.len() > 0
        invariant
            g.wf(),
            g.spec_directed() == directed,
            g.spec_nodes().len() == n_total,
            nodes0.len() == n_total,
            forall|i: int|
                0 <= i < g.spec_nodes().len() ==> spawned_node(
                    #[trigger] g.spec_nodes()[i],
                    i,
                    nodes0[i],
                ),
            es@.len() <= edges0.len(),
            es@ =~= edges0.skip(edges0.len() - es@.len()),
            ({
                let kept = kept_triples(
                    edges0.take(edges0.len() - es@.len()),
                    n_total as int,
                );
                g.spec_edges().len() == kept.len() && forall|j: int|
                    0 <= j < kept.len() ==> (#[trigger] g.spec_edges()[j]).source == kept[j].0
                        && g.spec_edges()[j].target == kept[j].1
                        && g.spec_edges()[j].edge.props.payload == kept[j].2
                        && !g.spec_edges()[j].edge.props.selected
            }),
        decreases es.len(),
    {
        let ghost k = edges0.len() - es@.len();
        let triple = es.remove(0);
        proof {
            assert(triple == edges0[k]);
            assert(es@ =~= edges0.skip(k + 1));
            assert(edges0.take(k + 1).drop_last() =~= edges0.take(k));
            assert(edges0.take(k + 1).last() == edges0[k]);
        }
        let ghost pre_edges = g.spec_edges();
        add_edge(&mut g, triple.0, triple.1, triple.2);
        proof {
            let kept_pre = kept_triples(edges0.take(k), n_total as int);
            let kept_post = kept_triples(edges0.take(k + 1), n_total as int);
            if triple.0 < n_total && triple.1 < n_total {
                assert(kept_post =~= kept_pre.push(edges0[k]));
            } else {
                assert(kept_post =~= kept_pre);
            }
            assert forall|j: int|
                0 <= j < kept_post.len() implies (#[trigger] g.spec_edges()[j]).source
                == kept_post[j].0 && g.spec_edges()[j].target == kept_post[j].1
                && g.spec_edges()[j].edge.props.payload == kept_post[j].2
                && !g.spec_edges()[j].edge.props.selected by {
                if j < kept_pre.len() {
                    assert(g.spec_edges()[j] == pre_edges[j]);
                    assert(kept_post[j] == kept_pre[j]);
                } else {
                    assert(g.spec_edges()[j] == g.spec_edges().last());
                    assert(kept_post[j] == edges0[k]);
                }
            }
        }
    }
    proof {
        assert(edges0.take(edges0.len() - es@.len()) =~= edges0);
        assert(edges0 == edges@);
        assert(nodes0 == nodes@);
    }
    g
}

/// Builds the renderable graph from already-transformed parts: the nodes are
/// taken as handed in, in order, and each `(source, target, edge)` triple
/// adds its edge with payload and selected flag kept, the stable order index
/// assigned by the store. A triple whose endpoint does not exist is skipped.
#[verifier::rlimit(100)]
#[verifier::spinoff_prover]
pub fn to_graph_custom<N, E>(
    nodes: Vec<Node<N>>,
    edges: Vec<(usize, usize, Edge<E>)>,
    directed: bool,
) -> (g: Graph<N, E>)
    requires
        forall|i: int| 0 <= i < nodes@.len() ==> (#[trigger] nodes@[i]).wf(),
    ensures
        g.wf(),
        g.spec_directed() == directed,
        g.spec_nodes() == nodes@,
        ({
            let kept = kept_triples(edges@, nodes@.len() as int);
            g.spec_edges().len() == kept.len() && forall|j: int|
                0 <= j < kept.len() ==> (#[trigger] g.spec_edges()[j]).source == kept[j].0
                    && g.spec_edges()[j].target == kept[j].1 && g.spec_edges()[j].edge.props.payload
                    == kept[j].2.props.payload && g.spec_edges()[j].edge.props.selected
                    == kept[j].2.props.selected
        }),
{
    let mut g: Graph<N, E> = Graph::new(directed);
    let mut ns = nodes;
    let ghost nodes0 = ns@;
    let n_total = ns.len();
    while ns.len() > 0
        invariant
            g.wf(),
            g.spec_directed() == directed,
            nodes0.len() == n_total,
            forall|i: int| 0 <= i < nodes0.len() ==> (#[trigger] nodes0[i]).wf(),
            g.spec_nodes().len() + ns@.len() == n_total,
            ns@ =~= nodes0.skip(g.spec_nodes().len() as int),
            g.spec_nodes() =~= nodes0.take(g.spec_nodes().len() as int),
            g.spec_edges().len() == 0,
        decreases ns.len(),
    {
        let ghost done = g.spec_nodes().len() as int;
        let node = ns.remove(0);
        proof {
            assert(node == nodes0[done]);
            assert(ns@ =~= nodes0.skip(done + 1));
        }
        add_node_custom(&mut g, node);
        proof {
            assert(g.spec_nodes() =~= nodes0.take(done + 1));
        }
    }
    proof {
        assert(g.spec_nodes() =~= nodes0);
    }
    let mut es = edges;
    let ghost edges0 = es@;
    while es.len() > 0
        invariant
            g.wf(),
            g.spec_directed() == directed,
            g.spec_nodes() == nodes0,
            nodes0.len() == n_total,
            es@.len() <= edges0.len(),
            es@ =~= edges0.skip(edges0.len() - es@.len()),
            ({
                let kept = kept_triples(edges0.take(edges0.len() - es@.len()), n_total as int);
                g.spec_edges().len() == kept.len() && forall|j: int|
                    0 <= j < kept.len() ==> (#[trigger] g.spec_edges()[j]).source == kept[j].0
                        && g.spec_edges()[j].target == kept[j].1
                        && g.spec_edges()[j].edge.props.payload == kept[j].2.props.payload
                        && g.spec_edges()[j].edge.props.selected == kept[j].2.props.selected
            }),
        decreases es.len(),
    {
        let ghost k = edges0.len() - es@.len();
        let triple = es.remove(0);
        proof {
            assert(triple == edges0[k]);
            assert(es@ =~= edges0.skip(k + 1));
            assert(edges0.take(k + 1).drop_last() =~= edges0.take(k));
            assert(edges0.take(k + 1).last() == edges0[k]);
        }
        let ghost pre_edges = g.spec_edges();
        add_edge_custom(&mut g, triple.0, triple.1, triple.2);
        proof {
            let kept_pre = kept_triples(edges0.take(k), n_total as int);
            let kept_post = kept_triples(edges0.take(k + 1), n_total as int);
            if triple.0 < n_total && triple.1 < n_total {
                assert(kept_post =~= kept_pre.push(edges0[k]));
            } else {
                assert(kept_post =~= kept_pre);
            }
            assert forall|j: int|
                0 <= j < kept_post.len() implies (#[trigger] g.spec_edges()[j]).source
                == kept_post[j].0 && g.spec_edges()[j].target == kept_post[j].1
                && g.spec_edges()[j].edge.props.payload == kept_post[j].2.props.payload
                && g.spec_edges()[j].edge.props.selected == kept_post[j].2.props.selected by {
                if j < kept_pre.len() {
                    assert(g.spec_edges()[j] == pre_edges[j]);
                    assert(kept_post[j] == kept_pre[j]);
                } else {
                    assert(g.spec_edges()[j] == g.spec_edges().last());
                    assert(kept_post[j] == edges0[k]);
                }
            }
        }
    }
    proof {
        assert(edges0.take(edges0.len() - es@.len()) =~= edges0);
        assert(edges0 == edges@);
    }
    g
}

} // verus!
