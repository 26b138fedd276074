//! The interaction controller: per-frame pointer handling over the graph
//! store and the viewport, emitting one event per interaction outcome.
//!
//! Priority order within a frame: fit-to-screen, then zoom, then pan, then
//! drag, then click. Every settings combination is handled; disabled features
//! are silent no-ops.

use vstd::prelude::*;
use crate::computed::ComputedState;
use crate::events::{
    Event, PayloadNodeClick, PayloadNodeDeselect, PayloadNodeDoubleClick, PayloadNodeDragEnd,
    PayloadNodeDragStart, PayloadNodeMove, PayloadNodeSelect, PayloadPan, PyaloadZoom,
};
use crate::graph::Graph;
use crate::metadata::{Metadata, s2c_c, zoom_at_zoom, zoom_at_pan_c};
use crate::node::{Node, canvas_radius_spec};
use crate::rat::{Rat, radd, rsub, rmul, rdiv, req, rle, rlt, fits, in64};
use crate::settings::{SettingsInteraction, SettingsNavigation, SettingsStyle};
use crate::vec2::{V2, RectR};

verus! {

/// Squared canvas-space distance between a node's location and the pointer.
pub open spec fn hit_dist2<N>(n: Node<N>, px: (int, int), py: (int, int)) -> (int, int) {
    radd(
        rmul(rsub(n.location.x@, px), rsub(n.location.x@, px)),
        rmul(rsub(n.location.y@, py), rsub(n.location.y@, py)),
    )
}

/// Squared canvas-space hit radius of a node.
pub open spec fn hit_radius2<N>(n: Node<N>, weight: (int, int)) -> (int, int) {
    let r = canvas_radius_spec(n.style.radius@, n.computed.num_connections as int, weight);
    rmul(r, r)
}

/// Do all steps of the hit test fit in `i64` fields?
pub open spec fn hit_fits<N>(n: Node<N>, px: (int, int), py: (int, int), weight: (
    int,
    int,
)) -> bool {
    let dx = rsub(n.location.x@, px);
    let dy = rsub(n.location.y@, py);
    let r = canvas_radius_spec(n.style.radius@, n.computed.num_connections as int, weight);
    n.computed.num_connections <= 0x7fff_ffff_ffff_ffff && fits(dx) && fits(dy) && fits(
        rmul(dx, dx),
    ) && fits(rmul(dy, dy)) && fits(radd(rmul(dx, dx), rmul(dy, dy))) && fits(
        rmul((n.computed.num_connections as int, 1int), weight),
    ) && fits(r) && fits(rmul(r, r))
}

/// Is the pointer at canvas position `(px, py)` on the node? The squared
/// distance to the node's center is compared against the squared canvas hit
/// radius, boundary inclusive; a computation that does not fit is a miss.
pub open spec fn hit_test<N>(n: Node<N>, px: (int, int), py: (int, int), weight: (
    int,
    int,
)) -> bool {
    hit_fits(n, px, py, weight) && rle(hit_dist2(n, px, py), hit_radius2(n, weight))
}

/// Hit-test boundary inclusion: a pointer whose squared distance to the
/// center equals the squared hit radius exactly is a hit.
pub proof fn lemma_hit_boundary<N>(n: Node<N>, px: (int, int), py: (int, int), weight: (int, int))
    requires
        hit_fits(n, px, py, weight),
        req(hit_dist2(n, px, py), hit_radius2(n, weight)),
    ensures
        hit_test(n, px, py, weight),
{
}

/// Hit-test boundary exclusion: a pointer strictly farther than the hit
/// radius, by however small a margin, is a miss.
pub proof fn lemma_hit_beyond<N>(n: Node<N>, px: (int, int), py: (int, int), weight: (int, int))
    requires
        rlt(hit_radius2(n, weight), hit_dist2(n, px, py)),
    ensures
        !hit_test(n, px, py, weight),
{
}

/// `push` adds exactly one way to be contained.
proof fn lemma_contains_push<A>(s: Seq<A>, v: A, x: A)
    ensures
        s.push(v).contains(x) <==> s.contains(x) || x == v,
{
    if s.push(v).contains(x) {
        let k = choose|k: int| 0 <= k < s.push(v).len() && s.push(v)[k] == x;
        if k < s.len() {
            assert(s[k] == x);
        }
    }
    if s.contains(x) {
        let k = choose|k: int| 0 <= k < s.len() && s[k] == x;
        assert(s.push(v)[k] == x);
    }
    assert(s.push(v)[s.len() as int] == v);
}

/// The selected flag node `i` carries after a click on node `idx`: clicking a
/// selected node deselects it alone; clicking an unselected node selects it,
/// first deselecting everything else unless multi-select is enabled; with
/// selection disabled nothing changes.
pub open spec fn click_selected_after<N>(
    nodes: Seq<Node<N>>,
    idx: int,
    si: SettingsInteraction,
    i: int,
) -> bool {
    if !si.selection_enabled {
        nodes[i].selected
    } else if nodes[idx].selected {
        if i == idx {
            false
        } else {
            nodes[i].selected
        }
    } else if si.selection_multi_enabled {
        if i == idx {
            true
        } else {
            nodes[i].selected
        }
    } else {
        i == idx
    }
}

/// The events a click on node `idx` emits, given the selected-node list
/// `selected` of the frame: a click event when clicking is enabled, then the
/// selection outcome.
pub open spec fn click_events<N>(
    nodes: Seq<Node<N>>,
    selected: Seq<usize>,
    idx: int,
    si: SettingsInteraction,
) -> Seq<Event> {
    let click: Seq<Event> = if si.clicking_enabled {
        seq![Event::NodeClick(PayloadNodeClick { id: idx as usize })]
    } else {
        Seq::empty()
    };
    if !si.selection_enabled {
        click
    } else if nodes[idx].selected {
        click + seq![Event::NodeDeselect(PayloadNodeDeselect { id: idx as usize })]
    } else if si.selection_multi_enabled {
        click + seq![Event::NodeSelect(PayloadNodeSelect { id: idx as usize })]
    } else {
        click + selected.map_values(|v: usize| Event::NodeDeselect(PayloadNodeDeselect { id: v }))
            + seq![Event::NodeSelect(PayloadNodeSelect { id: idx as usize })]
    }
}

/// The rational with this view; exact when the pair fits in `i64` fields.
pub open spec fn rat_of(p: (int, int)) -> Rat {
    Rat { n: p.0 as i64, d: p.1 as i64 }
}

/// The first node at or after index `i` that the pointer at canvas position
/// `(px, py)` hits.
pub open spec fn first_hit_from<N>(
    nodes: Seq<Node<N>>,
    px: (int, int),
    py: (int, int),
    w: (int, int),
    i: int,
) -> Option<int>
    decreases nodes.len() - i,
{
    if i < 0 || i >= nodes.len() {
        None
    } else if hit_test(nodes[i], px, py, w) {
        Some(i)
    } else {
        first_hit_from(nodes, px, py, w, i + 1)
    }
}

/// A found first hit lies between the start index and the end.
proof fn lemma_first_hit_bounds<N>(
    nodes: Seq<Node<N>>,
    px: (int, int),
    py: (int, int),
    w: (int, int),
    j: int,
)
    requires
        0 <= j,
    ensures
        first_hit_from(nodes, px, py, w, j) matches Some(i) ==> j <= i < nodes.len(),
    decreases nodes.len() - j,
{
    if j < nodes.len() && !hit_test(nodes[j], px, py, w) {
        lemma_first_hit_bounds(nodes, px, py, w, j + 1);
    }
}

/// Per-frame pointer and gesture input, as plain values.
#[derive(Clone, Copy, Debug)]
pub struct FrameInput {
    /// The draw area, in screen space.
    pub canvas: RectR,
    /// Pointer position in screen space, if the pointer is over the canvas.
    pub hover_pos: Option<V2>,
    pub clicked: bool,
    pub double_clicked: bool,
    pub drag_started: bool,
    pub dragged: bool,
    pub drag_released: bool,
    /// Screen-space drag motion this frame.
    pub drag_delta: V2,
    /// Relative scale delta of a zoom gesture; `None` for the identity.
    pub zoom_delta: Option<Rat>,
}

impl FrameInput {
    /// Well-formed values and a canvas with positive extent.
    pub open spec fn wf(self) -> bool {
        &&& self.canvas.wf()
        &&& rle(self.canvas.min.x@, self.canvas.max.x@)
        &&& rle(self.canvas.min.y@, self.canvas.max.y@)
        &&& !req(rsub(self.canvas.max.x@, self.canvas.min.x@), (0int, 1int))
        &&& !req(rsub(self.canvas.max.y@, self.canvas.min.y@), (0int, 1int))
        &&& match self.hover_pos {
            Some(p) => p.wf(),
            None => true,
        }
        &&& self.drag_delta.wf()
        &&& match self.zoom_delta {
            Some(d) => d.wf(),
            None => true,
        }
    }
}

/// The canvas point under the screen-space pointer `p`, and whether the
/// mapping fits.
pub open spec fn pointer_canvas(p: V2, m: Metadata) -> ((int, int), (int, int), bool) {
    (
        s2c_c(p.x@, m.pan.x@, m.zoom@),
        s2c_c(p.y@, m.pan.y@, m.zoom@),
        fits(rsub(p.x@, m.pan.x@)) && fits(rsub(p.y@, m.pan.y@)) && fits(
            s2c_c(p.x@, m.pan.x@, m.zoom@),
        ) && fits(s2c_c(p.y@, m.pan.y@, m.zoom@)),
    )
}

/// The drag-start phase: on a pointer-down over a node, that node's dragged
/// flag is set and one drag-start event is emitted; on empty space, or when
/// the pointer cannot be mapped, nothing happens.
pub open spec fn drag_start_phase<N>(
    nodes: Seq<Node<N>>,
    m: Metadata,
    w: (int, int),
    input: FrameInput,
) -> (Seq<Node<N>>, Seq<Event>) {
    if !input.drag_started {
        (nodes, Seq::empty())
    } else {
        let pc = pointer_canvas(input.hover_pos->Some_0, m);
        let hit = if pc.2 {
            first_hit_from(nodes, pc.0, pc.1, w, 0)
        } else {
            None
        };
        match hit {
            Some(i) => (
                nodes.update(i, Node { dragged: true, ..nodes[i] }),
                seq![Event::NodeDragStart(PayloadNodeDragStart { id: i as usize })],
            ),
            None => (nodes, Seq::empty()),
        }
    }
}

/// The drag-motion phase: with a node already dragged at the frame's start
/// and a nonzero pointer delta, the screen delta divided by the zoom is added
/// to that node's location, exactly, with one move event; a step that does
/// not fit, or a vanished identity, leaves everything alone.
pub open spec fn drag_move_phase<N>(
    nodes: Seq<Node<N>>,
    m: Metadata,
    dragged: Option<usize>,
    input: FrameInput,
) -> (Seq<Node<N>>, Seq<Event>) {
    let moving = input.dragged && dragged is Some && !(input.drag_delta.x.n == 0
        && input.drag_delta.y.n == 0);
    if !moving {
        (nodes, Seq::empty())
    } else {
        let n = dragged->Some_0;
        if n >= nodes.len() {
            (nodes, Seq::empty())
        } else {
            let dx = rdiv(input.drag_delta.x@, m.zoom@);
            let dy = rdiv(input.drag_delta.y@, m.zoom@);
            let lx = nodes[n as int].location.x@;
            let ly = nodes[n as int].location.y@;
            if !(fits(dx) && fits(dy) && fits(radd(lx, dx)) && fits(radd(ly, dy))) {
                (nodes, Seq::empty())
            } else {
                (
                    nodes.update(
                        n as int,
                        Node {
                            location: V2 { x: rat_of(radd(lx, dx)), y: rat_of(radd(ly, dy)) },
                            ..nodes[n as int]
                        },
                    ),
                    seq![
                        Event::NodeMove(
                            PayloadNodeMove { id: n, diff: V2 { x: rat_of(dx), y: rat_of(dy) } },
                        ),
                    ],
                )
            }
        }
    }
}

/// The release phase: a pointer release clears the dragged node's flag with
/// one drag-end event; a vanished identity is a silent no-op.
pub open spec fn drag_release_phase<N>(
    nodes: Seq<Node<N>>,
    dragged: Option<usize>,
    input: FrameInput,
) -> (Seq<Node<N>>, Seq<Event>) {
    if !(input.drag_released && dragged is Some) {
        (nodes, Seq::empty())
    } else {
        let n = dragged->Some_0;
        if n >= nodes.len() {
            (nodes, Seq::empty())
        } else {
            (
                nodes.update(n as int, Node { dragged: false, ..nodes[n as int] }),
                seq![Event::NodeDragEnd(PayloadNodeDragEnd { id: n })],
            )
        }
    }
}

/// One frame's whole drag handling: the start, motion and release phases in
/// that order, gated by the dragging setting.
pub open spec fn drag_spec<N>(
    nodes: Seq<Node<N>>,
    m: Metadata,
    w: (int, int),
    dragged: Option<usize>,
    input: FrameInput,
    enabled: bool,
) -> (Seq<Node<N>>, Seq<Event>) {
    if !enabled {
        (nodes, Seq::empty())
    } else {
        let s1 = drag_start_phase(nodes, m, w, input);
        let s2 = drag_move_phase(s1.0, m, dragged, input);
        let s3 = drag_release_phase(s2.0, dragged, input);
        (s3.0, s1.1 + s2.1 + s3.1)
    }
}

/// One frame's zoom handling: a non-identity gesture applies the
/// `zoom_speed` step about the pointer (or the canvas center), keeping the
/// anchored canvas point fixed, when every step fits; one pan and one zoom
/// event report the change.
pub open spec fn zoom_spec(m: Metadata, nav: SettingsNavigation, input: FrameInput) -> (
    Metadata,
    Seq<Event>,
) {
    if !(nav.zoom_and_pan_enabled && input.zoom_delta is Some) {
        (m, Seq::empty())
    } else if req(input.zoom_delta->Some_0@, (1int, 1int)) {
        (m, Seq::empty())
    } else {
        let step = if rlt((1int, 1int), input.zoom_delta->Some_0@) {
            crate::rat::rneg(nav.zoom_speed@)
        } else {
            nav.zoom_speed@
        };
        let ax = match input.hover_pos {
            Some(p) => rsub(p.x@, input.canvas.min.x@),
            None => rmul(rsub(input.canvas.max.x@, input.canvas.min.x@), (1int, 2int)),
        };
        let ay = match input.hover_pos {
            Some(p) => rsub(p.y@, input.canvas.min.y@),
            None => rmul(rsub(input.canvas.max.y@, input.canvas.min.y@), (1int, 2int)),
        };
        let anchor = V2 { x: rat_of(ax), y: rat_of(ay) };
        let scaled_x = rmul(rsub(ax, m.pan.x@), step);
        let scaled_y = rmul(rsub(ay, m.pan.y@), step);
        let ok = fits(ax) && fits(ay) && crate::metadata::zoom_at_ok(m, step, anchor) && in64(
            -scaled_x.0,
        ) && in64(-scaled_y.0);
        if !ok {
            (m, Seq::empty())
        } else {
            let m2 = Metadata {
                zoom: rat_of(zoom_at_zoom(m.zoom@, step)),
                pan: V2 {
                    x: rat_of(zoom_at_pan_c(m.pan.x@, ax, step)),
                    y: rat_of(zoom_at_pan_c(m.pan.y@, ay, step)),
                },
                first_frame: m.first_frame,
            };
            (
                m2,
                seq![
                    Event::Pan(
                        PayloadPan {
                            diff: V2 {
                                x: rat_of(crate::rat::rneg(scaled_x)),
                                y: rat_of(crate::rat::rneg(scaled_y)),
                            },
                            new_pos: m2.pan,
                        },
                    ),
                    Event::Zoom(PyaloadZoom { diff: rat_of(step) }),
                ],
            )
        }
    }
}

/// One frame's pan handling: a drag on empty space adds the raw screen delta
/// to the pan when it fits, with one pan event.
pub open spec fn pan_spec(
    m: Metadata,
    dragged: Option<usize>,
    nav: SettingsNavigation,
    input: FrameInput,
) -> (Metadata, Seq<Event>) {
    let active = nav.zoom_and_pan_enabled && input.dragged && dragged is None && !(
    input.drag_delta.x.n == 0 && input.drag_delta.y.n == 0);
    let ok = fits(radd(m.pan.x@, input.drag_delta.x@)) && fits(
        radd(m.pan.y@, input.drag_delta.y@),
    );
    if active && ok {
        let m2 = Metadata {
            zoom: m.zoom,
            pan: V2 {
                x: rat_of(radd(m.pan.x@, input.drag_delta.x@)),
                y: rat_of(radd(m.pan.y@, input.drag_delta.y@)),
            },
            first_frame: m.first_frame,
        };
        (m2, seq![Event::Pan(PayloadPan { diff: input.drag_delta, new_pos: m2.pan })])
    } else {
        (m, Seq::empty())
    }
}

/// The viewport a fitting frame leaves behind: the fit result when its steps
/// fit, otherwise the old zoom and pan; the first frame is over either way.
pub open spec fn fit_meta_spec(m: Metadata, bounds: RectR, canvas: RectR, padding: Rat) -> Metadata {
    if crate::metadata::fit_ok(bounds, canvas, padding) {
        let t = crate::metadata::fit_spec(bounds, canvas, padding);
        Metadata {
            zoom: rat_of(t.0),
            pan: V2 { x: rat_of(t.1), y: rat_of(t.2) },
            first_frame: false,
        }
    } else {
        Metadata { zoom: m.zoom, pan: m.pan, first_frame: false }
    }
}

/// One frame's click handling: on a hit node, the double-click report or the
/// single-click selection rules; on empty space, every selection is cleared;
/// with every click gate disabled, nothing.
pub open spec fn click_spec<N>(
    nodes: Seq<Node<N>>,
    m: Metadata,
    w: (int, int),
    sel: Seq<usize>,
    si: SettingsInteraction,
    input: FrameInput,
) -> (Seq<Node<N>>, Seq<Event>) {
    let clickable = si.clicking_enabled || si.selection_enabled || si.selection_multi_enabled;
    if !((input.clicked || input.double_clicked) && clickable) {
        (nodes, Seq::empty())
    } else {
        let pc = pointer_canvas(input.hover_pos->Some_0, m);
        let hit = if pc.2 {
            first_hit_from(nodes, pc.0, pc.1, w, 0)
        } else {
            None
        };
        match hit {
            None => {
                if si.selection_enabled || si.selection_multi_enabled {
                    (
                        nodes.map(|j: int, n: Node<N>| Node { selected: false, ..n }),
                        sel.map_values(|v: usize| Event::NodeDeselect(PayloadNodeDeselect { id: v })),
                    )
                } else {
                    (nodes, Seq::empty())
                }
            },
            Some(i) => {
                if input.double_clicked {
                    (
                        nodes,
                        if si.clicking_enabled {
                            seq![
                                Event::NodeDoubleClick(PayloadNodeDoubleClick { id: i as usize }),
                            ]
                        } else {
                            Seq::empty()
                        },
                    )
                } else {
                    (
                        nodes.map(
                            |j: int, n: Node<N>|
                                Node { selected: click_selected_after(nodes, i, si, j), ..n },
                        ),
                        click_events(nodes, sel, i, si),
                    )
                }
            },
        }
    }
}

/// The widget: interaction, navigation and style settings applied to a graph
/// store and a viewport each frame.
#[derive(Clone, Copy, Debug)]
pub struct GraphView {
    pub settings_interaction: SettingsInteraction,
    pub settings_navigation: SettingsNavigation,
    pub settings_style: SettingsStyle,
}

impl GraphView {
    /// Settings well formed.
    pub open spec fn wf(self) -> bool {
        self.settings_navigation.wf() && self.settings_style.wf()
    }

    /// A view with default settings.
    pub fn new() -> (r: GraphView)
        ensures
            !r.settings_interaction.clicking_enabled,
            !r.settings_interaction.dragging_enabled,
            !r.settings_interaction.selection_enabled,
            !r.settings_interaction.selection_multi_enabled,
            r.settings_navigation.fit_to_screen_enabled,
            !r.settings_navigation.zoom_and_pan_enabled,
            r.settings_navigation.zoom_speed@ == (1int, 10int),
            r.settings_navigation.screen_padding@ == (3int, 10int),
            r.settings_style.edge_radius_weight@ == (1int, 1int),
            r.wf(),
    {
        GraphView {
            settings_interaction: SettingsInteraction::default(),
            settings_navigation: SettingsNavigation::default(),
            settings_style: SettingsStyle::default(),
        }
    }

    /// The same view with these interaction settings.
    pub fn with_interactions(self, settings_interaction: &SettingsInteraction) -> (r: GraphView)
        ensures
            r == (GraphView { settings_interaction: *settings_interaction, ..self }),
    {
        GraphView { settings_interaction: *settings_interaction, ..self }
    }

    /// The same view with these navigation settings.
    pub fn with_navigations(self, settings_navigation: &SettingsNavigation) -> (r: GraphView)
        ensures
            r == (GraphView { settings_navigation: *settings_navigation, ..self }),
    {
        GraphView { settings_navigation: *settings_navigation, ..self }
    }

    /// The same view with these style settings.
    pub fn with_styles(self, settings_style: &SettingsStyle) -> (r: GraphView)
        ensures
            r == (GraphView { settings_style: *settings_style, ..self }),
    {
        GraphView { settings_style: *settings_style, ..self }
    }

    /// Does the pointer, at canvas position `pos`, hit this node? Boundary
    /// inclusive: a pointer exactly on the rim hits, the smallest step beyond
    /// misses.
    pub fn node_detect<N>(&self, n: &Node<N>, pos: V2) -> (r: bool)
        requires
            n.wf(),
            pos.wf(),
            self.wf(),
        ensures
            r == hit_test(*n, pos.x@, pos.y@, self.settings_style.edge_radius_weight@),
    {
        if n.num_connections() as u64 > 0x7fff_ffff_ffff_ffffu64 {
            return false;
        }
        let dx = match n.location().x.try_sub(pos.x) {
            Some(v) => v,
            None => {
                return false;
            },
        };
        let dy = match n.location().y.try_sub(pos.y) {
            Some(v) => v,
            None => {
                return false;
            },
        };
        let dx2 = match dx.try_mul(dx) {
            Some(v) => v,
            None => {
                return false;
            },
        };
        let dy2 = match dy.try_mul(dy) {
            Some(v) => v,
            None => {
                return false;
            },
        };
        let d2 = match dx2.try_add(dy2) {
            Some(v) => v,
            None => {
                return false;
            },
        };
        let cr = match n.canvas_radius(&self.settings_style) {
            Some(v) => v,
            None => {
                return false;
            },
        };
        let r2 = match cr.try_mul(cr) {
            Some(v) => v,
            None => {
                return false;
            },
        };
        d2.le(r2)
    }

    /// Finds the first node under the screen-space pointer position: the
    /// pointer is mapped to canvas space and every node is hit-tested in
    /// identity order, boundary inclusive. `None` when no node is hit or when
    /// the pointer cannot be mapped.
    #[verifier::spinoff_prover]
    pub fn node_by_screen_pos<N, E>(
        &self,
        g: &Graph<N, E>,
        meta: &Metadata,
        screen_pos: V2,
    ) -> (r: Option<usize>)
        requires
            g.wf(),
            meta.wf(),
            screen_pos.wf(),
            self.wf(),
        ensures
            ({
                let px = s2c_c(screen_pos.x@, meta.pan.x@, meta.zoom@);
                let py = s2c_c(screen_pos.y@, meta.pan.y@, meta.zoom@);
                let w = self.settings_style.edge_radius_weight@;
                let mappable = fits(rsub(screen_pos.x@, meta.pan.x@)) && fits(
                    rsub(screen_pos.y@, meta.pan.y@),
                ) && fits(px) && fits(py);
                &&& r matches Some(i) ==> mappable && i < g.spec_nodes().len() && hit_test(
                    g.spec_nodes()[i as int],
                    px,
                    py,
                    w,
                ) && forall|j: int|
                    0 <= j < i ==> !hit_test(#[trigger] g.spec_nodes()[j], px, py, w)
                &&& r is None && mappable ==> forall|j: int|
                    0 <= j < g.spec_nodes().len() ==> !hit_test(
                        #[trigger] g.spec_nodes()[j],
                        px,
                        py,
                        w,
                    )
                &&& !mappable ==> r is None
                &&& mappable ==> match first_hit_from(g.spec_nodes(), px, py, w, 0) {
                    Some(i) => r == Some(i as usize),
                    None => r is None,
                }
            }),
    {
        let pos = match meta.screen_to_canvas(screen_pos) {
            Some(p) => p,
            None => {
                return None;
            },
        };
        let n = g.node_count();
        let mut i: usize = 0;
        while i < n
            invariant
                g.wf(),
                self.wf(),
                pos.wf(),
                n == g.spec_nodes().len(),
                i <= n,
                pos.x@ == s2c_c(screen_pos.x@, meta.pan.x@, meta.zoom@),
                pos.y@ == s2c_c(screen_pos.y@, meta.pan.y@, meta.zoom@),
                fits(rsub(screen_pos.x@, meta.pan.x@)),
                fits(rsub(screen_pos.y@, meta.pan.y@)),
                fits(pos.x@),
                fits(pos.y@),
                first_hit_from(
                    g.spec_nodes(),
                    pos.x@,
                    pos.y@,
                    self.settings_style.edge_radius_weight@,
                    0,
                ) == first_hit_from(
                    g.spec_nodes(),
                    pos.x@,
                    pos.y@,
                    self.settings_style.edge_radius_weight@,
                    i as int,
                ),
                forall|j: int|
                    0 <= j < i ==> !hit_test(
                        #[trigger] g.spec_nodes()[j],
                        pos.x@,
                        pos.y@,
                        self.settings_style.edge_radius_weight@,
                    ),
            decreases n - i,
        {
            let hit = match g.node(i) {
                Some(node) => self.node_detect(node, pos),
                None => false,
            };
            if hit {
                return Some(i);
            }
            i = i + 1;
        }
        None
    }

    /// Sets node `idx` selected and emits `NodeSelect`; on a vanished
    /// identity, a silent no-op without an event.
    pub fn select_node<N, E>(&self, g: &mut Graph<N, E>, idx: usize, events: &mut Vec<Event>)
        requires
            old(g).wf(),
        ensures
            final(g).wf(),
            final(g).spec_edges() == old(g).spec_edges(),
            final(g).spec_directed() == old(g).spec_directed(),
            idx < old(g).spec_nodes().len() ==> final(g).spec_nodes() == old(
                g,
            ).spec_nodes().update(
                idx as int,
                Node { selected: true, ..old(g).spec_nodes()[idx as int] },
            ) && final(events)@ == old(events)@.push(
                Event::NodeSelect(PayloadNodeSelect { id: idx }),
            ),
            idx >= old(g).spec_nodes().len() ==> *final(g) == *old(g) && final(events)@ == old(
                events,
            )@,
    {
        if g.set_node_selected(idx, true) {
            events.push(Event::NodeSelect(PayloadNodeSelect { id: idx }));
        }
    }

    /// Clears node `idx`'s selected flag and emits `NodeDeselect`; on a
    /// vanished identity, a silent no-op without an event.
    pub fn deselect_node<N, E>(&self, g: &mut Graph<N, E>, idx: usize, events: &mut Vec<Event>)
        requires
            old(g).wf(),
        ensures
            final(g).wf(),
            final(g).spec_edges() == old(g).spec_edges(),
            final(g).spec_directed() == old(g).spec_directed(),
            idx < old(g).spec_nodes().len() ==> final(g).spec_nodes() == old(
                g,
            ).spec_nodes().update(
                idx as int,
                Node { selected: false, ..old(g).spec_nodes()[idx as int] },
            ) && final(events)@ == old(events)@.push(
                Event::NodeDeselect(PayloadNodeDeselect { id: idx }),
            ),
            idx >= old(g).spec_nodes().len() ==> *final(g) == *old(g) && final(events)@ == old(
                events,
            )@,
    {
        if g.set_node_selected(idx, false) {
            events.push(Event::NodeDeselect(PayloadNodeDeselect { id: idx }));
        }
    }

    /// Marks node `idx` as dragged and emits `NodeDragStart`; on a vanished
    /// identity, a silent no-op without an event.
    pub fn set_drag_start<N, E>(&self, g: &mut Graph<N, E>, idx: usize, events: &mut Vec<Event>)
        requires
            old(g).wf(),
        ensures
            final(g).wf(),
            final(g).spec_edges() == old(g).spec_edges(),
            final(g).spec_directed() == old(g).spec_directed(),
            idx < old(g).spec_nodes().len() ==> final(g).spec_nodes() == old(
                g,
            ).spec_nodes().update(
                idx as int,
                Node { dragged: true, ..old(g).spec_nodes()[idx as int] },
            ) && final(events)@ == old(events)@.push(
                Event::NodeDragStart(PayloadNodeDragStart { id: idx }),
            ),
            idx >= old(g).spec_nodes().len() ==> *final(g) == *old(g) && final(events)@ == old(
                events,
            )@,
    {
        if g.set_node_dragged(idx, true) {
            events.push(Event::NodeDragStart(PayloadNodeDragStart { id: idx }));
        }
    }

    /// Clears node `idx`'s dragged flag and emits `NodeDragEnd`; on a
    /// vanished identity, a silent no-op without an event.
    pub fn set_drag_end<N, E>(&self, g: &mut Graph<N, E>, idx: usize, events: &mut Vec<Event>)
        requires
            old(g).wf(),
        ensures
            final(g).wf(),
            final(g).spec_edges() == old(g).spec_edges(),
            final(g).spec_directed() == old(g).spec_directed(),
            idx < old(g).spec_nodes().len() ==> final(g).spec_nodes() == old(
                g,
            ).spec_nodes().update(
                idx as int,
                Node { dragged: false, ..old(g).spec_nodes()[idx as int] },
            ) && final(events)@ == old(events)@.push(
                Event::NodeDragEnd(PayloadNodeDragEnd { id: idx }),
            ),
            idx >= old(g).spec_nodes().len() ==> *final(g) == *old(g) && final(events)@ == old(
                events,
            )@,
    {
        if g.set_node_dragged(idx, false) {
            events.push(Event::NodeDragEnd(PayloadNodeDragEnd { id: idx }));
        }
    }

    /// Moves node `idx` by the canvas-space displacement `delta`, exactly,
    /// and emits `NodeMove`; a no-op returning false when the new location
    /// would not fit or the identity has vanished.
    #[verifier::spinoff_prover]
    pub fn move_node<N, E>(
        &self,
        g: &mut Graph<N, E>,
        idx: usize,
        delta: V2,
        events: &mut Vec<Event>,
    ) -> (ok: bool)
        requires
            old(g).wf(),
            delta.wf(),
        ensures
            final(g).wf(),
            ok <==> idx < old(g).spec_nodes().len() && fits(
                radd(old(g).spec_nodes()[idx as int].location.x@, delta.x@),
            ) && fits(radd(old(g).spec_nodes()[idx as int].location.y@, delta.y@)),
            ok ==> final(g).spec_nodes() == old(g).spec_nodes().update(
                idx as int,
                Node {
                    location: final(g).spec_nodes()[idx as int].location,
                    ..old(g).spec_nodes()[idx as int]
                },
            ) && final(g).spec_nodes()[idx as int].location.x@ == radd(
                old(g).spec_nodes()[idx as int].location.x@,
                delta.x@,
            ) && final(g).spec_nodes()[idx as int].location.y@ == radd(
                old(g).spec_nodes()[idx as int].location.y@,
                delta.y@,
            ) && final(events)@ == old(events)@.push(
                Event::NodeMove(PayloadNodeMove { id: idx, diff: delta }),
            ),
            !ok ==> *final(g) == *old(g) && final(events)@ == old(events)@,
            final(g).spec_edges() == old(g).spec_edges(),
            final(g).spec_directed() == old(g).spec_directed(),
    {
        let loc = match g.node(idx) {
            Some(n) => n.location(),
            None => {
                return false;
            },
        };
        let new_loc = match loc.try_add(delta) {
            Some(l) => l,
            None => {
                return false;
            },
        };
        g.set_node_location(idx, new_loc);
        events.push(Event::NodeMove(PayloadNodeMove { id: idx, diff: delta }));
        true
    }

    /// Deselects every node the frame's computed state lists, emitting one
    /// `NodeDeselect` per listed node in list order; afterwards no node is
    /// selected.
    #[verifier::spinoff_prover]
    pub fn deselect_all<N, E>(
        &self,
        g: &mut Graph<N, E>,
        comp: &ComputedState,
        events: &mut Vec<Event>,
    )
        requires
            old(g).wf(),
            comp.sel_inv(*old(g)),
        ensures
            final(g).wf(),
            final(g).spec_nodes().len() == old(g).spec_nodes().len(),
            forall|i: int|
                0 <= i < old(g).spec_nodes().len() ==> #[trigger] final(g).spec_nodes()[i]
                    == (Node { selected: false, ..old(g).spec_nodes()[i] }),
            final(g).spec_edges() == old(g).spec_edges(),
            final(g).spec_directed() == old(g).spec_directed(),
            final(events)@ == old(events)@ + comp.selected_nodes@.map_values(
                |v: usize| Event::NodeDeselect(PayloadNodeDeselect { id: v }),
            ),
    {
        let ghost nodes0 = old(g).spec_nodes();
        let ghost f = |v: usize| Event::NodeDeselect(PayloadNodeDeselect { id: v });
        let nlen = g.node_count();
        let total = comp.selected_nodes.len();
        let mut k: usize = 0;
        while k < total
            invariant
                g.wf(),
                comp.sel_inv(*old(g)),
                nodes0 == old(g).spec_nodes(),
                total == comp.selected_nodes@.len(),
                nlen == nodes0.len(),
                k <= total,
                f == (|v: usize| Event::NodeDeselect(PayloadNodeDeselect { id: v })),
                g.spec_nodes().len() == nodes0.len(),
                g.spec_edges() == old(g).spec_edges(),
                g.spec_directed() == old(g).spec_directed(),
                forall|i: int|
                    0 <= i < nodes0.len() ==> #[trigger] g.spec_nodes()[i] == (Node {
                        selected: nodes0[i].selected && !comp.selected_nodes@.take(
                            k as int,
                        ).contains(i as usize),
                        ..nodes0[i]
                    }),
                events@ == old(events)@ + comp.selected_nodes@.take(k as int).map_values(f),
            decreases total - k,
        {
            let idx = comp.selected_nodes[k];
            let ghost pre = comp.selected_nodes@.take(k as int);
            let ghost gpre = *g;
            g.set_node_selected(idx, false);
            events.push(Event::NodeDeselect(PayloadNodeDeselect { id: idx }));
            proof {
                let post = comp.selected_nodes@.take(k + 1int);
                assert(post =~= pre.push(idx));
                assert forall|i: int| 0 <= i < nodes0.len() implies #[trigger] g.spec_nodes()[i]
                    == (Node {
                    selected: nodes0[i].selected && !post.contains(i as usize),
                    ..nodes0[i]
                }) by {
                    assert(idx < nodes0.len());
                    assert(gpre.spec_nodes()[i] == (Node {
                        selected: nodes0[i].selected && !pre.contains(i as usize),
                        ..nodes0[i]
                    }));
                    lemma_contains_push(pre, idx, i as usize);
                    assert(post == pre.push(idx));
                    assert(post.contains(i as usize) == (pre.contains(i as usize) || i as usize
                        == idx));
                    if i != idx {
                        assert(g.spec_nodes()[i] == gpre.spec_nodes()[i]);
                        assert(g.spec_nodes()[i].selected == (nodes0[i].selected && !pre.contains(
                            i as usize,
                        )));
                        assert(post.contains(i as usize) == pre.contains(i as usize));
                    } else {
                        assert(g.spec_nodes()[i].selected == false);
                        assert(post.contains(i as usize));
                    }
                }
                assert(post.map_values(f) =~= pre.map_values(f).push(f(idx)));
                assert(events@ =~= old(events)@ + post.map_values(f));
            }
            k = k + 1;
        }
        proof {
            assert(comp.selected_nodes@.take(total as int) =~= comp.selected_nodes@);
            assert forall|i: int| 0 <= i < nodes0.len() implies #[trigger] g.spec_nodes()[i]
                == (Node { selected: false, ..nodes0[i] }) by {
                if nodes0[i].selected {
                    assert(comp.selected_nodes@.contains(i as usize));
                }
            }
        }
    }

    /// Handles a confirmed single click on node `idx`: emits `NodeClick` when
    /// clicking is enabled, then applies the selection rules: a selected node
    /// is deselected and nothing more happens; otherwise, with multi-select
    /// disabled, every other selection is cleared first, and the node is
    /// selected.
    #[verifier::spinoff_prover]
    pub fn handle_node_click<N, E>(
        &self,
        g: &mut Graph<N, E>,
        comp: &ComputedState,
        idx: usize,
        events: &mut Vec<Event>,
    )
        requires
            old(g).wf(),
            comp.sel_inv(*old(g)),
            idx < old(g).spec_nodes().len(),
        ensures
            final(g).wf(),
            final(g).spec_nodes().len() == old(g).spec_nodes().len(),
            final(g).spec_edges() == old(g).spec_edges(),
            final(g).spec_directed() == old(g).spec_directed(),
            forall|i: int|
                0 <= i < old(g).spec_nodes().len() ==> #[trigger] final(g).spec_nodes()[i]
                    == (Node {
                    selected: click_selected_after(
                        old(g).spec_nodes(),
                        idx as int,
                        self.settings_interaction,
                        i,
                    ),
                    ..old(g).spec_nodes()[i]
                }),
            final(events)@ == old(events)@ + click_events(
                old(g).spec_nodes(),
                comp.selected_nodes@,
                idx as int,
                self.settings_interaction,
            ),
    {
        let ghost nodes0 = old(g).spec_nodes();
        if !self.settings_interaction.clicking_enabled
            && !self.settings_interaction.selection_enabled {
            proof {
                assert(events@ =~= old(events)@ + click_events(
                    nodes0,
                    comp.selected_nodes@,
                    idx as int,
                    self.settings_interaction,
                ));
            }
            return;
        }
        if self.settings_interaction.clicking_enabled {
            events.push(Event::NodeClick(PayloadNodeClick { id: idx }));
        }
        if !self.settings_interaction.selection_enabled {
            proof {
                assert(events@ =~= old(events)@ + click_events(
                    nodes0,
                    comp.selected_nodes@,
                    idx as int,
                    self.settings_interaction,
                ));
            }
            return;
        }
        let was_selected = match g.node(idx) {
            Some(n) => n.selected(),
            None => {
                proof {
                    assert(false);
                }
                false
            },
        };
        if was_selected {
            self.deselect_node(g, idx, events);
            proof {
                assert(events@ =~= old(events)@ + click_events(
                    nodes0,
                    comp.selected_nodes@,
                    idx as int,
                    self.settings_interaction,
                ));
            }
            return;
        }
        if !self.settings_interaction.selection_multi_enabled {
            self.deselect_all(g, comp, events);
        }
        self.select_node(g, idx, events);
        proof {
            assert(events@ =~= old(events)@ + click_events(
                nodes0,
                comp.selected_nodes@,
                idx as int,
                self.settings_interaction,
            ));
        }
    }

    /// Handles a confirmed double click on node `idx`: emits
    /// `NodeDoubleClick` when clicking is enabled; selection is never toggled
    /// by a double click. The single-click half of the gesture was already
    /// reported by the previous frame's click.
    pub fn handle_node_double_click<N, E>(
        &self,
        g: &mut Graph<N, E>,
        idx: usize,
        events: &mut Vec<Event>,
    )
        requires
            old(g).wf(),
            idx < old(g).spec_nodes().len(),
        ensures
            *final(g) == *old(g),
            final(g).wf(),
            self.settings_interaction.clicking_enabled ==> final(events)@ == old(events)@.push(
                Event::NodeDoubleClick(PayloadNodeDoubleClick { id: idx }),
            ),
            !self.settings_interaction.clicking_enabled ==> final(events)@ == old(events)@,
    {
        if self.settings_interaction.clicking_enabled {
            events.push(Event::NodeDoubleClick(PayloadNodeDoubleClick { id: idx }));
        }
    }

    /// Handles a pointer click or double click: hit-tests under the pointer;
    /// on empty space deselects everything (when selection is enabled); on a
    /// node, reports a double click, or applies the single-click rules. A
    /// frame without a click, or with every click gate disabled, changes
    /// nothing.
    #[verifier::spinoff_prover]
    pub fn handle_click<N, E>(
        &self,
        g: &mut Graph<N, E>,
        meta: &Metadata,
        comp: &ComputedState,
        input: &FrameInput,
        events: &mut Vec<Event>,
    )
        requires
            old(g).wf(),
            comp.sel_inv(*old(g)),
            meta.wf(),
            input.wf(),
            self.wf(),
            input.clicked || input.double_clicked ==> input.hover_pos is Some,
        ensures
            final(g).wf(),
            final(g).spec_edges() == old(g).spec_edges(),
            final(g).spec_directed() == old(g).spec_directed(),
            final(g).spec_nodes().len() == old(g).spec_nodes().len(),
            ({
                let si = self.settings_interaction;
                let clickable = si.clicking_enabled || si.selection_enabled
                    || si.selection_multi_enabled;
                let active = (input.clicked || input.double_clicked) && clickable;
                &&& !active ==> *final(g) == *old(g) && final(events)@ == old(events)@
                &&& active ==> ({
                    let p = input.hover_pos->Some_0;
                    let px = s2c_c(p.x@, meta.pan.x@, meta.zoom@);
                    let py = s2c_c(p.y@, meta.pan.y@, meta.zoom@);
                    let w = self.settings_style.edge_radius_weight@;
                    let mappable = fits(rsub(p.x@, meta.pan.x@)) && fits(rsub(p.y@, meta.pan.y@))
                        && fits(px) && fits(py);
                    let hit = if mappable {
                        first_hit_from(old(g).spec_nodes(), px, py, w, 0)
                    } else {
                        None
                    };
                    match hit {
                        None => {
                            let selectable = si.selection_enabled || si.selection_multi_enabled;
                            &&& selectable ==> (forall|i: int|
                                0 <= i < old(g).spec_nodes().len()
                                    ==> #[trigger] final(g).spec_nodes()[i] == (Node {
                                    selected: false,
                                    ..old(g).spec_nodes()[i]
                                })) && final(events)@ == old(events)@
                                + comp.selected_nodes@.map_values(
                                |v: usize| Event::NodeDeselect(PayloadNodeDeselect { id: v }),
                            )
                            &&& !selectable ==> *final(g) == *old(g) && final(events)@ == old(events)@
                        },
                        Some(i) => {
                            &&& input.double_clicked ==> *final(g) == *old(g) && final(events)@
                                == if si.clicking_enabled {
                                old(events)@.push(
                                    Event::NodeDoubleClick(
                                        PayloadNodeDoubleClick { id: i as usize },
                                    ),
                                )
                            } else {
                                old(events)@
                            }
                            &&& !input.double_clicked ==> (forall|j: int|
                                0 <= j < old(g).spec_nodes().len()
                                    ==> #[trigger] final(g).spec_nodes()[j] == (Node {
                                    selected: click_selected_after(old(g).spec_nodes(), i, si, j),
                                    ..old(g).spec_nodes()[j]
                                })) && final(events)@ == old(events)@ + click_events(
                                old(g).spec_nodes(),
                                comp.selected_nodes@,
                                i,
                                si,
                            )
                        },
                    }
                })
            }),
            ({
                let out = click_spec(
                    old(g).spec_nodes(),
                    *meta,
                    self.settings_style.edge_radius_weight@,
                    comp.selected_nodes@,
                    self.settings_interaction,
                    *input,
                );
                final(g).spec_nodes() == out.0 && final(events)@ == old(events)@ + out.1
            }),
    {
        let ghost nodes0 = old(g).spec_nodes();
        if !input.clicked && !input.double_clicked {
            proof {
                assert(events@ =~= old(events)@ + Seq::<Event>::empty());
            }
            return;
        }
        let clickable = self.settings_interaction.clicking_enabled
            || self.settings_interaction.selection_enabled
            || self.settings_interaction.selection_multi_enabled;
        if !clickable {
            proof {
                assert(events@ =~= old(events)@ + Seq::<Event>::empty());
            }
            return;
        }
        let p = match input.hover_pos {
            Some(p) => p,
            None => {
                proof {
                    assert(false);
                }
                V2::zero()
            },
        };
        let total = g.node_count();
        proof {
            assert(old(g).spec_nodes().len() == total as int);
            lemma_first_hit_bounds(
                g.spec_nodes(),
                s2c_c(p.x@, meta.pan.x@, meta.zoom@),
                s2c_c(p.y@, meta.pan.y@, meta.zoom@),
                self.settings_style.edge_radius_weight@,
                0,
            );
        }
        let node = self.node_by_screen_pos(g, meta, p);
        match node {
            None => {
                let selectable = self.settings_interaction.selection_enabled
                    || self.settings_interaction.selection_multi_enabled;
                if selectable {
                    self.deselect_all(g, comp, events);
                    proof {
                        assert(g.spec_nodes() =~= nodes0.map(
                            |j: int, n: Node<N>| Node { selected: false, ..n },
                        ));
                    }
                } else {
                    proof {
                        assert(events@ =~= old(events)@ + Seq::<Event>::empty());
                    }
                }
            },
            Some(idx) => {
                if input.double_clicked {
                    self.handle_node_double_click(g, idx, events);
                    proof {
                        if self.settings_interaction.clicking_enabled {
                            assert(events@ =~= old(events)@ + seq![
                                Event::NodeDoubleClick(PayloadNodeDoubleClick { id: idx }),
                            ]);
                        } else {
                            assert(events@ =~= old(events)@ + Seq::<Event>::empty());
                        }
                    }
                } else {
                    self.handle_node_click(g, comp, idx, events);
                    proof {
                        assert(g.spec_nodes() =~= nodes0.map(
                            |j: int, n: Node<N>|
                                Node {
                                    selected: click_selected_after(
                                        nodes0,
                                        idx as int,
                                        self.settings_interaction,
                                        j,
                                    ),
                                    ..n
                                },
                        ));
                    }
                }
            },
        }
    }

    /// Handles the drag phases. Starting: a pointer-down over a node marks it
    /// dragged. Moving: the screen-space drag delta, divided by the zoom, is
    /// added to the already-dragged node's location. Releasing: the dragged
    /// node's flag is cleared. All of it is gated by the dragging setting.
    #[verifier::spinoff_prover]
    pub fn handle_node_drag<N, E>(
        &self,
        g: &mut Graph<N, E>,
        meta: &Metadata,
        comp: &ComputedState,
        input: &FrameInput,
        events: &mut Vec<Event>,
    )
        requires
            old(g).wf(),
            meta.wf(),
            input.wf(),
            self.wf(),
            input.drag_started ==> input.hover_pos is Some,
        ensures
            final(g).wf(),
            final(g).spec_edges() == old(g).spec_edges(),
            final(g).spec_directed() == old(g).spec_directed(),
            final(g).spec_nodes().len() == old(g).spec_nodes().len(),
            forall|i: int|
                0 <= i < old(g).spec_nodes().len() ==> (#[trigger] final(g).spec_nodes()[i]).selected
                    == old(g).spec_nodes()[i].selected,
            ({
                let out = drag_spec(
                    old(g).spec_nodes(),
                    *meta,
                    self.settings_style.edge_radius_weight@,
                    comp.dragged,
                    *input,
                    self.settings_interaction.dragging_enabled,
                );
                final(g).spec_nodes() == out.0 && final(events)@ == old(events)@ + out.1
            }),
    {
        let ghost nodes0 = old(g).spec_nodes();
        let ghost w = self.settings_style.edge_radius_weight@;
        if !self.settings_interaction.dragging_enabled {
            proof {
                assert(events@ =~= old(events)@ + Seq::<Event>::empty());
            }
            return;
        }
        if input.drag_started {
            let p = match input.hover_pos {
                Some(p) => p,
                None => {
                    proof {
                        assert(false);
                    }
                    V2::zero()
                },
            };
            let total = g.node_count();
            proof {
                let pc = pointer_canvas(p, *meta);
                lemma_first_hit_bounds(nodes0, pc.0, pc.1, w, 0);
                assert(nodes0.len() == total as int);
            }
            match self.node_by_screen_pos(g, meta, p) {
                Some(idx) => {
                    self.set_drag_start(g, idx, events);
                },
                None => {},
            }
        }
        let ghost s1 = drag_start_phase(nodes0, *meta, w, *input);
        proof {
            assert(g.spec_nodes() == s1.0);
            assert(events@ =~= old(events)@ + s1.1);
        }
        let ghost ev1 = events@;
        if input.dragged && comp.dragged.is_some() && !(input.drag_delta.x.is_zero()
            && input.drag_delta.y.is_zero()) {
            let n = match comp.dragged {
                Some(n) => n,
                None => {
                    proof {
                        assert(false);
                    }
                    0
                },
            };
            if n < g.node_count() {
                match input.drag_delta.try_div_rat(meta.zoom) {
                    Some(delta_canvas) => {
                        self.move_node(g, n, delta_canvas, events);
                    },
                    None => {},
                }
            }
        }
        let ghost s2 = drag_move_phase(s1.0, *meta, comp.dragged, *input);
        proof {
            assert(g.spec_nodes() == s2.0);
            assert(events@ =~= ev1 + s2.1);
        }
        let ghost ev2 = events@;
        if input.drag_released && comp.dragged.is_some() {
            let n = match comp.dragged {
                Some(n) => n,
                None => {
                    proof {
                        assert(false);
                    }
                    0
                },
            };
            if n < g.node_count() {
                self.set_drag_end(g, n, events);
            }
        }
        let ghost s3 = drag_release_phase(s2.0, comp.dragged, *input);
        proof {
            assert(g.spec_nodes() == s3.0);
            assert(events@ =~= ev2 + s3.1);
            assert(events@ =~= old(events)@ + (s1.1 + s2.1 + s3.1));
        }
    }

    /// Clears the dragged flag on pointer release, also on a frame that was
    /// spent fitting: a release always terminates the drag.
    #[verifier::spinoff_prover]
    pub fn handle_drag_release<N, E>(
        &self,
        g: &mut Graph<N, E>,
        comp: &ComputedState,
        input: &FrameInput,
        events: &mut Vec<Event>,
    )
        requires
            old(g).wf(),
        ensures
            final(g).wf(),
            final(g).spec_edges() == old(g).spec_edges(),
            final(g).spec_directed() == old(g).spec_directed(),
            final(g).spec_nodes().len() == old(g).spec_nodes().len(),
            forall|i: int|
                0 <= i < old(g).spec_nodes().len() ==> (#[trigger] final(g).spec_nodes()[i]).selected
                    == old(g).spec_nodes()[i].selected,
            ({
                let out = if self.settings_interaction.dragging_enabled {
                    drag_release_phase(old(g).spec_nodes(), comp.dragged, *input)
                } else {
                    (old(g).spec_nodes(), Seq::<Event>::empty())
                };
                final(g).spec_nodes() == out.0 && final(events)@ == old(events)@ + out.1
            }),
    {
        if !self.settings_interaction.dragging_enabled {
            proof {
                assert(events@ =~= old(events)@ + Seq::<Event>::empty());
            }
            return;
        }
        proof {
            assert(events@ =~= old(events)@ + Seq::<Event>::empty());
        }
        if input.drag_released && comp.dragged.is_some() {
            let n = match comp.dragged {
                Some(n) => n,
                None => {
                    proof {
                        assert(false);
                    }
                    0
                },
            };
            if n < g.node_count() {
                self.set_drag_end(g, n, events);
            }
        }
    }

    /// Handles a zoom gesture: a non-identity relative scale delta applies a
    /// `zoom_speed`-sized relative step about the pointer (or, without a
    /// pointer, the canvas center), keeping the point under the anchor fixed
    /// and emitting a pan and a zoom event. Ignored when navigation is
    /// disabled, the gesture is the identity, or a step would not fit.
    #[verifier::spinoff_prover]
    pub fn handle_zoom(&self, meta: &mut Metadata, input: &FrameInput, events: &mut Vec<Event>)
        requires
            old(meta).wf(),
            input.wf(),
            self.wf(),
        ensures
            final(meta).wf(),
            !(self.settings_navigation.zoom_and_pan_enabled && input.zoom_delta is Some) ==> *final(meta) == *old(meta) && final(events)@ == old(events)@,
            ({
                let active = self.settings_navigation.zoom_and_pan_enabled
                    && input.zoom_delta is Some && !req(input.zoom_delta->Some_0@, (1int, 1int));
                let step = if rlt((1int, 1int), input.zoom_delta->Some_0@) {
                    crate::rat::rneg(self.settings_navigation.zoom_speed@)
                } else {
                    self.settings_navigation.zoom_speed@
                };
                let ax = match input.hover_pos {
                    Some(p) => rsub(p.x@, input.canvas.min.x@),
                    None => rmul(rsub(input.canvas.max.x@, input.canvas.min.x@), (1int, 2int)),
                };
                let ay = match input.hover_pos {
                    Some(p) => rsub(p.y@, input.canvas.min.y@),
                    None => rmul(rsub(input.canvas.max.y@, input.canvas.min.y@), (1int, 2int)),
                };
                let anchor = V2 { x: rat_of(ax), y: rat_of(ay) };
                let scaled_x = rmul(rsub(ax, old(meta).pan.x@), step);
                let scaled_y = rmul(rsub(ay, old(meta).pan.y@), step);
                let ok = fits(ax) && fits(ay) && crate::metadata::zoom_at_ok(
                    *old(meta),
                    step,
                    anchor,
                ) && in64(-scaled_x.0) && in64(-scaled_y.0);
                &&& active && ok ==> final(meta).zoom@ == zoom_at_zoom(old(meta).zoom@, step)
                    && final(meta).pan.x@ == zoom_at_pan_c(old(meta).pan.x@, ax, step) && final(meta).pan.y@ == zoom_at_pan_c(old(meta).pan.y@, ay, step) && final(meta).first_frame
                    == old(meta).first_frame && final(events)@ == old(events)@.push(
                    Event::Pan(
                        PayloadPan {
                            diff: V2 {
                                x: rat_of(crate::rat::rneg(scaled_x)),
                                y: rat_of(crate::rat::rneg(scaled_y)),
                            },
                            new_pos: final(meta).pan,
                        },
                    ),
                ).push(Event::Zoom(PyaloadZoom { diff: rat_of(step) }))
                &&& active && !ok ==> *final(meta) == *old(meta) && final(events)@ == old(events)@
                &&& !active ==> *final(meta) == *old(meta) && final(events)@ == old(events)@
            }),
            ({
                let out = zoom_spec(*old(meta), self.settings_navigation, *input);
                *final(meta) == out.0 && final(events)@ == old(events)@ + out.1
            }),
    {
        if !self.settings_navigation.zoom_and_pan_enabled {
            proof {
                assert(events@ =~= old(events)@ + Seq::<Event>::empty());
            }
            return;
        }
        let delta = match input.zoom_delta {
            Some(d) => d,
            None => {
                return;
            },
        };
        if delta.eq_value(Rat::from_int(1)) {
            return;
        }
        let one = Rat::from_int(1);
        let step: Rat;
        if one.lt(delta) {
            step = match self.settings_navigation.zoom_speed.try_neg() {
                Some(s) => s,
                None => {
                    proof {
                        assert(false);
                    }
                    return ;
                },
            };
        } else {
            step = self.settings_navigation.zoom_speed;
        }
        let anchor: V2;
        match input.hover_pos {
            Some(p) => {
                anchor = match p.try_sub(input.canvas.min) {
                    Some(a) => a,
                    None => {
                        return;
                    },
                };
            },
            None => {
                let cw = match input.canvas.max.try_sub(input.canvas.min) {
                    Some(v) => v,
                    None => {
                        return;
                    },
                };
                anchor = match cw.try_scale(Rat { n: 1, d: 2 }) {
                    Some(v) => v,
                    None => {
                        return;
                    },
                };
            },
        }
        let offset = match anchor.try_sub(meta.pan) {
            Some(o) => o,
            None => {
                return;
            },
        };
        let scaled = match offset.try_scale(step) {
            Some(s) => s,
            None => {
                return;
            },
        };
        let diff_x = match scaled.x.try_neg() {
            Some(v) => v,
            None => {
                return;
            },
        };
        let diff_y = match scaled.y.try_neg() {
            Some(v) => v,
            None => {
                return;
            },
        };
        let mut m2 = *meta;
        if !m2.zoom_at(step, anchor) {
            return;
        }
        *meta = m2;
        events.push(
            Event::Pan(PayloadPan { diff: V2 { x: diff_x, y: diff_y }, new_pos: meta.pan }),
        );
        events.push(Event::Zoom(PyaloadZoom { diff: step }));
    }

    /// Handles a pan drag on empty space: the raw screen-space delta is added
    /// to the pan (no zoom division: the pan lives in screen space), emitting
    /// a pan event. Ignored when navigation is disabled, a node is being
    /// dragged, the delta is zero, or the new pan would not fit.
    #[verifier::spinoff_prover]
    pub fn handle_pan(
        &self,
        meta: &mut Metadata,
        comp: &ComputedState,
        input: &FrameInput,
        events: &mut Vec<Event>,
    )
        requires
            old(meta).wf(),
            input.wf(),
            self.wf(),
        ensures
            final(meta).wf(),
            ({
                let active = self.settings_navigation.zoom_and_pan_enabled && input.dragged
                    && comp.dragged is None && !(input.drag_delta.x.n == 0 && input.drag_delta.y.n
                    == 0);
                let ok = fits(radd(old(meta).pan.x@, input.drag_delta.x@)) && fits(
                    radd(old(meta).pan.y@, input.drag_delta.y@),
                );
                &&& active && ok ==> final(meta).pan.x@ == radd(
                    old(meta).pan.x@,
                    input.drag_delta.x@,
                ) && final(meta).pan.y@ == radd(old(meta).pan.y@, input.drag_delta.y@) && final(meta).zoom == old(meta).zoom && final(meta).first_frame == old(meta).first_frame
                    && final(events)@ == old(events)@.push(
                    Event::Pan(PayloadPan { diff: input.drag_delta, new_pos: final(meta).pan }),
                )
                &&& !(active && ok) ==> *final(meta) == *old(meta) && final(events)@ == old(events)@
            }),
            ({
                let out = pan_spec(*old(meta), comp.dragged, self.settings_navigation, *input);
                *final(meta) == out.0 && final(events)@ == old(events)@ + out.1
            }),
    {
        if !self.settings_navigation.zoom_and_pan_enabled {
            proof {
                assert(events@ =~= old(events)@ + Seq::<Event>::empty());
            }
            return;
        }
        if input.dragged && comp.dragged.is_none() && !(input.drag_delta.x.is_zero()
            && input.drag_delta.y.is_zero()) {
            let new_pan = match meta.pan.try_add(input.drag_delta) {
                Some(p) => p,
                None => {
                    return;
                },
            };
            meta.pan = new_pan;
            events.push(
                Event::Pan(PayloadPan { diff: input.drag_delta, new_pos: new_pan }),
            );
        }
    }

    /// Fits the viewport to the frame's graph bounds on the first frame, or
    /// on every frame while continuous fitting is enabled; afterwards the
    /// first frame is over. Returns whether a fit was attempted, in which
    /// case the frame's zoom, pan and drag-start handling is bypassed.
    pub fn handle_fit_to_screen(
        &self,
        meta: &mut Metadata,
        comp: &ComputedState,
        input: &FrameInput,
    ) -> (fitted: bool)
        requires
            old(meta).wf(),
            input.wf(),
            self.wf(),
            comp.bounds.wf(),
            rle(comp.bounds.min.x@, comp.bounds.max.x@),
            rle(comp.bounds.min.y@, comp.bounds.max.y@),
        ensures
            final(meta).wf(),
            fitted == (old(meta).first_frame || self.settings_navigation.fit_to_screen_enabled),
            !fitted ==> *final(meta) == *old(meta),
            fitted ==> !final(meta).first_frame && (crate::metadata::fit_ok(
                comp.bounds,
                input.canvas,
                self.settings_navigation.screen_padding,
            ) ==> (final(meta).zoom@, final(meta).pan.x@, final(meta).pan.y@)
                == crate::metadata::fit_spec(
                comp.bounds,
                input.canvas,
                self.settings_navigation.screen_padding,
            )) && (!crate::metadata::fit_ok(
                comp.bounds,
                input.canvas,
                self.settings_navigation.screen_padding,
            ) ==> final(meta).zoom == old(meta).zoom && final(meta).pan == old(meta).pan),
            fitted ==> *final(meta) == fit_meta_spec(
                *old(meta),
                comp.bounds,
                input.canvas,
                self.settings_navigation.screen_padding,
            ),
    {
        if !meta.first_frame && !self.settings_navigation.fit_to_screen_enabled {
            return false;
        }
        meta.fit_to_screen(comp.bounds, input.canvas, self.settings_navigation.screen_padding);
        meta.first_frame = false;
        proof {
            reveal(crate::metadata::fit_ok);
        }
        true
    }

    /// One frame: rebuilds the computed state, then fits or navigates, then
    /// drags, then clicks, in that priority order. A frame that fits bypasses
    /// zoom, pan and drag handling, except that a pointer release still ends
    /// the drag. Returns the frame's events in emission order.
    #[verifier::spinoff_prover]
    pub fn frame<N, E>(
        &self,
        g: &mut Graph<N, E>,
        meta: &mut Metadata,
        input: &FrameInput,
    ) -> (events: Vec<Event>)
        requires
            old(g).wf(),
            old(meta).wf(),
            input.wf(),
            self.wf(),
            input.clicked || input.double_clicked ==> input.hover_pos is Some,
            input.drag_started ==> input.hover_pos is Some,
        ensures
            final(g).wf(),
            final(meta).wf(),
            final(g).spec_edges() == old(g).spec_edges(),
            final(g).spec_directed() == old(g).spec_directed(),
            final(g).spec_nodes().len() == old(g).spec_nodes().len(),
            !final(meta).first_frame,
            ({
                let nodes1 = crate::computed::counted(old(g).spec_nodes(), old(g).spec_edges());
                let w = self.settings_style.edge_radius_weight@;
                let si = self.settings_interaction;
                let nav = self.settings_navigation;
                let dragged1 = crate::computed::first_dragged(nodes1);
                let sel1 = crate::computed::selected_list(nodes1);
                let b = crate::computed::bounds_fold(nodes1, nodes1.len() as int);
                if old(meta).first_frame || nav.fit_to_screen_enabled {
                    let m1 = fit_meta_spec(
                        *old(meta),
                        RectR { min: b.0, max: b.1 },
                        input.canvas,
                        nav.screen_padding,
                    );
                    let r1 = if si.dragging_enabled {
                        drag_release_phase(nodes1, dragged1, *input)
                    } else {
                        (nodes1, Seq::<Event>::empty())
                    };
                    let c1 = click_spec(r1.0, m1, w, sel1, si, *input);
                    &&& *final(meta) == m1
                    &&& final(g).spec_nodes() == c1.0
                    &&& events@ == r1.1 + c1.1
                } else {
                    let z = zoom_spec(*old(meta), nav, *input);
                    let p = pan_spec(z.0, dragged1, nav, *input);
                    let d = drag_spec(nodes1, p.0, w, dragged1, *input, si.dragging_enabled);
                    let c = click_spec(d.0, p.0, w, sel1, si, *input);
                    &&& *final(meta) == p.0
                    &&& final(g).spec_nodes() == c.0
                    &&& events@ == z.1 + p.1 + d.1 + c.1
                }
            }),
    {
        let mut events: Vec<Event> = Vec::new();
        let comp = ComputedState::compute(g);
        let ghost g1 = *g;
        let ghost nodes1 = g.spec_nodes();
        proof {
            comp.lemma_bounds_sorted(*g);
            assert(nodes1 == crate::computed::counted(old(g).spec_nodes(), old(g).spec_edges()));
            assert(comp.dragged == crate::computed::first_dragged(nodes1));
            assert(comp.selected_nodes@ == crate::computed::selected_list(nodes1));
            assert(comp.bounds == (RectR {
                min: crate::computed::bounds_fold(nodes1, nodes1.len() as int).0,
                max: crate::computed::bounds_fold(nodes1, nodes1.len() as int).1,
            }));
        }
        let fitted = self.handle_fit_to_screen(meta, &comp, input);
        if !fitted {
            let ghost ev0 = events@;
            self.handle_zoom(meta, input, &mut events);
            let ghost mz = *meta;
            let ghost evz = events@;
            self.handle_pan(meta, &comp, input, &mut events);
            let ghost mp = *meta;
            let ghost evp = events@;
            self.handle_node_drag(g, meta, &comp, input, &mut events);
            let ghost evd = events@;
            proof {
                let z = zoom_spec(*old(meta), self.settings_navigation, *input);
                let p = pan_spec(z.0, comp.dragged, self.settings_navigation, *input);
                let d = drag_spec(
                    nodes1,
                    p.0,
                    self.settings_style.edge_radius_weight@,
                    comp.dragged,
                    *input,
                    self.settings_interaction.dragging_enabled,
                );
                assert(mz == z.0 && evz =~= z.1);
                assert(mp == p.0 && evp =~= z.1 + p.1);
                assert(g.spec_nodes() == d.0 && evd =~= z.1 + p.1 + d.1);
                comp.lemma_sel_inv_preserved(g1, *g);
            }
            let ghost evpre = events@;
            self.handle_click(g, meta, &comp, input, &mut events);
            proof {
                let z = zoom_spec(*old(meta), self.settings_navigation, *input);
                let p = pan_spec(z.0, comp.dragged, self.settings_navigation, *input);
                let d = drag_spec(
                    nodes1,
                    p.0,
                    self.settings_style.edge_radius_weight@,
                    comp.dragged,
                    *input,
                    self.settings_interaction.dragging_enabled,
                );
                let c = click_spec(
                    d.0,
                    p.0,
                    self.settings_style.edge_radius_weight@,
                    comp.selected_nodes@,
                    self.settings_interaction,
                    *input,
                );
                assert(events@ =~= z.1 + p.1 + d.1 + c.1);
            }
        } else {
            self.handle_drag_release(g, &comp, input, &mut events);
            let ghost evr = events@;
            proof {
                comp.lemma_sel_inv_preserved(g1, *g);
            }
            self.handle_click(g, meta, &comp, input, &mut events);
            proof {
                let r1 = if self.settings_interaction.dragging_enabled {
                    drag_release_phase(nodes1, comp.dragged, *input)
                } else {
                    (nodes1, Seq::<Event>::empty())
                };
                let c1 = click_spec(
                    r1.0,
                    *meta,
                    self.settings_style.edge_radius_weight@,
                    comp.selected_nodes@,
                    self.settings_interaction,
                    *input,
                );
                assert(g.spec_nodes() == c1.0);
                assert(events@ =~= r1.1 + c1.1);
            }
        }
        events
    }
}

} // verus!
