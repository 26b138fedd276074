//! The layer compositor and the default draw passes. Shapes are queued into
//! two ordered layers: everything selected or dragged goes to the top layer
//! and paints over the base layer; within a frame, edges are queued before
//! nodes, so edges render under nodes.

use vstd::prelude::*;
use crate::geometry::{
    Shape, self_loop_spec, self_loop_ok, self_loop_shape, straight_spec, straight_edge_shapes,
    curved_spec, curved_edge_shapes, rat_of_pair,
};
use crate::graph::{Graph, bucket_count};
use crate::metadata::{Metadata, c2s_c};
use crate::node::{Node, canvas_radius_spec};
use crate::rat::{Rat, rmul, fits};
use crate::settings::SettingsStyle;
use crate::vec2::V2;

verus! {

/// The screen-space position of a node under the viewport.
pub open spec fn spos<N>(n: Node<N>, m: Metadata) -> V2 {
    V2 {
        x: rat_of_pair(c2s_c(n.location.x@, m.pan.x@, m.zoom@)),
        y: rat_of_pair(c2s_c(n.location.y@, m.pan.y@, m.zoom@)),
    }
}

/// Does mapping the node's location to the screen fit?
pub open spec fn spos_ok<N>(n: Node<N>, m: Metadata) -> bool {
    fits(rmul(n.location.x@, m.zoom@)) && fits(rmul(n.location.y@, m.zoom@)) && fits(
        c2s_c(n.location.x@, m.pan.x@, m.zoom@),
    ) && fits(c2s_c(n.location.y@, m.pan.y@, m.zoom@))
}

/// The screen-space radius of a node: the canvas hit radius scaled by the
/// zoom.
pub open spec fn srad<N>(n: Node<N>, m: Metadata, style: SettingsStyle) -> Rat {
    rat_of_pair(
        rmul(
            canvas_radius_spec(
                n.style.radius@,
                n.computed.num_connections as int,
                style.edge_radius_weight@,
            ),
            m.zoom@,
        ),
    )
}

/// Does the screen radius computation fit?
pub open spec fn srad_ok<N>(n: Node<N>, m: Metadata, style: SettingsStyle) -> bool {
    n.computed.num_connections <= 0x7fff_ffff_ffff_ffff && fits(
        rmul((n.computed.num_connections as int, 1int), style.edge_radius_weight@),
    ) && fits(
        canvas_radius_spec(
            n.style.radius@,
            n.computed.num_connections as int,
            style.edge_radius_weight@,
        ),
    ) && fits(
        rmul(
            canvas_radius_spec(
                n.style.radius@,
                n.computed.num_connections as int,
                style.edge_radius_weight@,
            ),
            m.zoom@,
        ),
    )
}

/// The circle drawn for a node, when its screen mapping fits.
pub open spec fn node_draw_spec<N>(n: Node<N>, m: Metadata, style: SettingsStyle) -> Option<
    Shape,
> {
    if !spos_ok(n, m) || !srad_ok(n, m, style) {
        None
    } else {
        Some(Shape::Circle { center: spos(n, m), radius: srad(n, m, style) })
    }
}

/// The shapes drawn for edge `i`: a self-loop for equal endpoints, a straight
/// segment with arrowhead for a lone edge, and a quadratic curve at the
/// edge's stable rank for parallel edges. `None` when the edge does not
/// exist, a screen mapping does not fit, or the branch itself skips.
#[verifier::opaque]
pub open spec fn edge_draw_spec<N, E>(
    g: Graph<N, E>,
    m: Metadata,
    style: SettingsStyle,
    i: int,
) -> Option<Seq<Shape>> {
    if i < 0 || i >= g.spec_edges().len() {
        None
    } else {
        let e = g.spec_edges()[i];
        let sn = g.spec_nodes()[e.source as int];
        let tn = g.spec_nodes()[e.target as int];
        if !spos_ok(sn, m) || !srad_ok(sn, m, style) {
            None
        } else if e.source == e.target {
            if !self_loop_ok(spos(sn, m), srad(sn, m, style)) {
                None
            } else {
                Some(seq![self_loop_spec(spos(sn, m), srad(sn, m, style), style.edge_width)])
            }
        } else if !spos_ok(tn, m) || !srad_ok(tn, m, style) {
            None
        } else if bucket_count(g.spec_edges(), e.source as int, e.target as int) == 1 {
            straight_spec(
                spos(sn, m),
                srad(sn, m, style),
                spos(tn, m),
                srad(tn, m, style),
                style.edge_width,
                style.edge_tip_size,
                style.edge_tip_cos,
                style.edge_tip_sin,
                g.spec_directed(),
            )
        } else if e.edge.props.order + 1 > 0x7fff_ffff_ffff_ffff {
            None
        } else {
            curved_spec(
                spos(sn, m),
                srad(sn, m, style),
                spos(tn, m),
                srad(tn, m, style),
                e.edge.props.order + 1,
                style.edge_width,
                style.edge_curve_size,
                style.edge_tip_size,
                style.edge_tip_cos,
                style.edge_tip_sin,
                g.spec_directed(),
            )
        }
    }
}

/// Draws a node: exactly `node_draw_spec`.
pub fn default_node_draw<N>(n: &Node<N>, meta: &Metadata, style: &SettingsStyle) -> (r: Option<
    Shape,
>)
    requires
        n.wf(),
        meta.wf(),
        style.wf(),
    ensures
        r == node_draw_spec(*n, *meta, *style),
{
    if n.num_connections() as u64 > 0x7fff_ffff_ffff_ffffu64 {
        return None;
    }
    let center = match n.screen_location(meta) {
        Some(c) => c,
        None => {
            return None;
        },
    };
    let radius = match n.screen_radius(meta, style) {
        Some(rr) => rr,
        None => {
            return None;
        },
    };
    Some(Shape::Circle { center, radius })
}

/// Draws an edge: exactly `edge_draw_spec`.
#[verifier::spinoff_prover]
pub fn default_edges_draw<N, E>(
    g: &Graph<N, E>,
    meta: &Metadata,
    style: &SettingsStyle,
    i: usize,
) -> (r: Option<Vec<Shape>>)
    requires
        g.wf(),
        meta.wf(),
        style.wf(),
    ensures
        r matches Some(v) ==> edge_draw_spec(*g, *meta, *style, i as int) == Some(v@),
        r is None ==> edge_draw_spec(*g, *meta, *style, i as int) is None,
{
    proof {
        reveal(edge_draw_spec);
    }
    let (src, tgt) = match g.edge_endpoints(i) {
        Some(p) => p,
        None => {
            return None;
        },
    };
    let order = match g.edge(i) {
        Some(e) => e.order(),
        None => {
            proof {
                assert(false);
            }
            0
        },
    };
    let s_pos: V2;
    let s_rad: Rat;
    match g.node(src) {
        Some(sn) => {
            if sn.num_connections() as u64 > 0x7fff_ffff_ffff_ffffu64 {
                return None;
            }
            s_pos = match sn.screen_location(meta) {
                Some(p) => p,
                None => {
                    return None;
                },
            };
            s_rad = match sn.screen_radius(meta, style) {
                Some(p) => p,
                None => {
                    return None;
                },
            };
        },
        None => {
            proof {
                assert(false);
            }
            return None;
        },
    }
    if src == tgt {
        return match self_loop_shape(s_pos, s_rad, style.edge_width) {
            Some(sh) => {
                let mut v: Vec<Shape> = Vec::new();
                v.push(sh);
                proof {
                    assert(v@ =~= seq![sh]);
                }
                Some(v)
            },
            None => None,
        };
    }
    let t_pos: V2;
    let t_rad: Rat;
    match g.node(tgt) {
        Some(tn) => {
            if tn.num_connections() as u64 > 0x7fff_ffff_ffff_ffffu64 {
                return None;
            }
            t_pos = match tn.screen_location(meta) {
                Some(p) => p,
                None => {
                    return None;
                },
            };
            t_rad = match tn.screen_radius(meta, style) {
                Some(p) => p,
                None => {
                    return None;
                },
            };
        },
        None => {
            proof {
                assert(false);
            }
            return None;
        },
    }
    let siblings = g.pair_count(src, tgt);
    if siblings == 1 {
        straight_edge_shapes(
            s_pos,
            s_rad,
            t_pos,
            t_rad,
            style.edge_width,
            style.edge_tip_size,
            style.edge_tip_cos,
            style.edge_tip_sin,
            g.is_directed(),
        )
    } else {
        if order as u64 >= 0x7fff_ffff_ffff_ffffu64 {
            return None;
        }
        let k: i64 = order as i64 + 1;
        curved_edge_shapes(
            s_pos,
            s_rad,
            t_pos,
            t_rad,
            k,
            style.edge_width,
            style.edge_curve_size,
            style.edge_tip_size,
            style.edge_tip_cos,
            style.edge_tip_sin,
            g.is_directed(),
        )
    }
}

/// Two ordered draw layers: the base layer paints first, the top layer over
/// it.
#[derive(Clone, Debug)]
pub struct Layers {
    pub base: Vec<Shape>,
    pub top: Vec<Shape>,
}

impl Layers {
    /// Empty layers.
    pub fn new() -> (r: Layers)
        ensures
            r.base@.len() == 0,
            r.top@.len() == 0,
    {
        Layers { base: Vec::new(), top: Vec::new() }
    }

    /// Queues a shape into the base layer.
    pub fn add(&mut self, s: Shape)
        ensures
            final(self).base@ == old(self).base@.push(s),
            final(self).top@ == old(self).top@,
    {
        self.base.push(s);
    }

    /// Queues a shape into the top layer.
    pub fn add_top(&mut self, s: Shape)
        ensures
            final(self).top@ == old(self).top@.push(s),
            final(self).base@ == old(self).base@,
    {
        self.top.push(s);
    }

    /// Queues every shape of `shapes`, in order, into one layer.
    pub fn add_many(&mut self, shapes: &Vec<Shape>, top: bool)
        ensures
            top ==> final(self).top@ == old(self).top@ + shapes@ && final(self).base@ == old(
                self,
            ).base@,
            !top ==> final(self).base@ == old(self).base@ + shapes@ && final(self).top@ == old(
                self,
            ).top@,
    {
        let mut k: usize = 0;
        while k < shapes.len()
            invariant
                k <= shapes@.len(),
                top ==> self.top@ == old(self).top@ + shapes@.take(k as int) && self.base@ == old(
                    self,
                ).base@,
                !top ==> self.base@ == old(self).base@ + shapes@.take(k as int) && self.top@
                    == old(self).top@,
            decreases shapes@.len() - k,
        {
            proof {
                assert(shapes@.take(k + 1int) =~= shapes@.take(k as int).push(shapes@[k as int]));
            }
            if top {
                self.top.push(shapes[k]);
            } else {
                self.base.push(shapes[k]);
            }
            k = k + 1;
        }
        proof {
            assert(shapes@.take(shapes@.len() as int) =~= shapes@);
        }
    }

    /// The paint order: the whole base layer, then the whole top layer, so
    /// highlighted elements paint over everything else.
    pub fn draw_order(self) -> (r: Vec<Shape>)
        ensures
            r@ == self.base@ + self.top@,
    {
        let mut b = self.base;
        let mut t = self.top;
        b.append(&mut t);
        b
    }
}

/// The base and top contributions of the first `i` edges, in edge order:
/// shapes of a selected edge go to the top layer.
pub open spec fn edges_layers<N, E>(
    g: Graph<N, E>,
    m: Metadata,
    style: SettingsStyle,
    i: int,
) -> (Seq<Shape>, Seq<Shape>)
    decreases i,
{
    if i <= 0 {
        (Seq::empty(), Seq::empty())
    } else {
        let (b, t) = edges_layers(g, m, style, i - 1);
        match edge_draw_spec(g, m, style, i - 1) {
            None => (b, t),
            Some(ss) => if g.spec_edges()[i - 1].edge.props.selected {
                (b, t + ss)
            } else {
                (b + ss, t)
            },
        }
    }
}

/// The base and top contributions of the first `i` nodes, in identity order:
/// the circle of a selected or dragged node goes to the top layer.
pub open spec fn nodes_layers<N>(
    nodes: Seq<Node<N>>,
    m: Metadata,
    style: SettingsStyle,
    i: int,
) -> (Seq<Shape>, Seq<Shape>)
    decreases i,
{
    if i <= 0 {
        (Seq::empty(), Seq::empty())
    } else {
        let (b, t) = nodes_layers(nodes, m, style, i - 1);
        match node_draw_spec(nodes[i - 1], m, style) {
            None => (b, t),
            Some(s) => if nodes[i - 1].selected || nodes[i - 1].dragged {
                (b, t.push(s))
            } else {
                (b.push(s), t)
            },
        }
    }
}

/// Queues every edge's shapes, in edge order, selected edges into the top
/// layer.
#[verifier::rlimit(100)]
#[verifier::spinoff_prover]
pub fn fill_layers_edges<N, E>(
    g: &Graph<N, E>,
    meta: &Metadata,
    style: &SettingsStyle,
    l: &mut Layers,
)
    requires
        g.wf(),
        meta.wf(),
        style.wf(),
    ensures
        final(l).base@ == old(l).base@ + edges_layers(
            *g,
            *meta,
            *style,
            g.spec_edges().len() as int,
        ).0,
        final(l).top@ == old(l).top@ + edges_layers(
            *g,
            *meta,
            *style,
            g.spec_edges().len() as int,
        ).1,
{
    let m = g.edge_count();
    let mut k: usize = 0;
    proof {
        assert(old(l).base@ + edges_layers(*g, *meta, *style, 0).0 =~= old(l).base@);
        assert(old(l).top@ + edges_layers(*g, *meta, *style, 0).1 =~= old(l).top@);
    }
    while k < m
        invariant
            g.wf(),
            meta.wf(),
            style.wf(),
            m == g.spec_edges().len(),
            k <= m,
            l.base@ == old(l).base@ + edges_layers(*g, *meta, *style, k as int).0,
            l.top@ == old(l).top@ + edges_layers(*g, *meta, *style, k as int).1,
        decreases m - k,
    {
        let selected = match g.edge(k) {
            Some(e) => e.selected(),
            None => {
                proof {
                    assert(false);
                }
                false
            },
        };
        match default_edges_draw(g, meta, style, k) {
            Some(v) => {
                l.add_many(&v, selected);
                proof {
                    assert(l.base@ =~= old(l).base@ + edges_layers(
                        *g,
                        *meta,
                        *style,
                        k + 1int,
                    ).0);
                    assert(l.top@ =~= old(l).top@ + edges_layers(*g, *meta, *style, k + 1int).1);
                }
            },
            None => {},
        }
        k = k + 1;
    }
}

/// Queues every node's circle, in identity order, selected or dragged nodes
/// into the top layer. Runs after the edge pass, so edges render under nodes.
#[verifier::rlimit(100)]
#[verifier::spinoff_prover]
pub fn fill_layers_nodes<N, E>(
    g: &Graph<N, E>,
    meta: &Metadata,
    style: &SettingsStyle,
    l: &mut Layers,
)
    requires
        g.wf(),
        meta.wf(),
        style.wf(),
    ensures
        final(l).base@ == old(l).base@ + nodes_layers(
            g.spec_nodes(),
            *meta,
            *style,
            g.spec_nodes().len() as int,
        ).0,
        final(l).top@ == old(l).top@ + nodes_layers(
            g.spec_nodes(),
            *meta,
            *style,
            g.spec_nodes().len() as int,
        ).1,
{
    let n = g.node_count();
    let mut k: usize = 0;
    proof {
        assert(old(l).base@ + nodes_layers(g.spec_nodes(), *meta, *style, 0).0 =~= old(l).base@);
        assert(old(l).top@ + nodes_layers(g.spec_nodes(), *meta, *style, 0).1 =~= old(l).top@);
    }
    while k < n
        invariant
            g.wf(),
            meta.wf(),
            style.wf(),
            n == g.spec_nodes().len(),
            k <= n,
            l.base@ == old(l).base@ + nodes_layers(g.spec_nodes(), *meta, *style, k as int).0,
            l.top@ == old(l).top@ + nodes_layers(g.spec_nodes(), *meta, *style, k as int).1,
        decreases n - k,
    {
        let highlighted: bool;
        let shape: Option<Shape>;
        match g.node(k) {
            Some(node) => {
                highlighted = node.selected() || node.dragged();
                shape = default_node_draw(node, meta, style);
            },
            None => {
                proof {
                    assert(false);
                }
                highlighted = false;
                shape = None;
            },
        }
        match shape {
            Some(s) => {
                if highlighted {
                    l.add_top(s);
                } else {
                    l.add(s);
                }
                proof {
                    assert(l.base@ =~= old(l).base@ + nodes_layers(
                        g.spec_nodes(),
                        *meta,
                        *style,
                        k + 1int,
                    ).0);
                    assert(l.top@ =~= old(l).top@ + nodes_layers(
                        g.spec_nodes(),
                        *meta,
                        *style,
                        k + 1int,
                    ).1);
                }
            },
            None => {},
        }
        k = k + 1;
    }
}

/// One draw pass: edges first, then nodes, then the layer order, so edges
/// render under nodes and highlighted elements paint last.
pub fn draw<N, E>(g: &Graph<N, E>, meta: &Metadata, style: &SettingsStyle) -> (r: Vec<Shape>)
    requires
        g.wf(),
        meta.wf(),
        style.wf(),
    ensures
        ({
            let (eb, et) = edges_layers(*g, *meta, *style, g.spec_edges().len() as int);
            let (nb, nt) = nodes_layers(
                g.spec_nodes(),
                *meta,
                *style,
                g.spec_nodes().len() as int,
            );
            r@ == eb + nb + (et + nt)
        }),
{
    let mut l = Layers::new();
    fill_layers_edges(g, meta, style, &mut l);
    fill_layers_nodes(g, meta, style, &mut l);
    proof {
        let (eb, et) = edges_layers(*g, *meta, *style, g.spec_edges().len() as int);
        let (nb, nt) = nodes_layers(g.spec_nodes(), *meta, *style, g.spec_nodes().len() as int);
        assert(l.base@ =~= eb + nb);
        assert(l.top@ =~= et + nt);
    }
    l.draw_order()
}

} // verus!
