//! A renderable node: payload, canvas location, label, style and the
//! authoritative selection/drag flags.

use vstd::prelude::*;
use crate::computed::ComputedNode;
use crate::metadata::{Metadata, c2s_c};
use crate::rat::{Rat, radd, rmul, fits};
use crate::settings::SettingsStyle;
use crate::style::StyleNode;
use crate::vec2::V2;

verus! {

/// A node of the renderable graph. The selection and drag flags here are the
/// authoritative interaction state; per-frame caches are rebuilt from them.
#[derive(Clone, Debug)]
pub struct Node<N> {
    /// Client data.
    pub data: N,
    /// Canvas-space location.
    pub location: V2,
    pub label: String,
    pub style: StyleNode,
    pub selected: bool,
    pub dragged: bool,
    /// Per-frame derived values, rebuilt by the computed-state pass.
    pub computed: ComputedNode,
}

/// The canvas-space hit radius of a node: base radius plus the connection
/// count times the per-connection weight.
pub open spec fn canvas_radius_spec(radius: (int, int), conn: int, weight: (int, int)) -> (
    int,
    int,
) {
    radd(radius, rmul((conn, 1int), weight))
}

impl<N> Node<N> {
    /// Location and style sizes are well formed.
    pub open spec fn wf(self) -> bool {
        self.location.wf() && self.style.radius.wf()
    }

    /// A fresh node at `location` carrying `data`: default style, empty
    /// label, no flags set.
    pub fn new(location: V2, data: N) -> (r: Node<N>)
        requires
            location.wf(),
        ensures
            r.data == data,
            r.location == location,
            r.label@ =~= Seq::<char>::empty(),
            r.style.radius@ == (5int, 1int),
            !r.selected,
            !r.dragged,
            r.computed.num_connections == 0,
            r.wf(),
    {
        let r = Node {
            data,
            location,
            label: String::new(),
            style: StyleNode::default(),
            selected: false,
            dragged: false,
            computed: ComputedNode::default(),
        };
        proof {
            assert(r.label@ =~= Seq::<char>::empty());
        }
        r
    }

    /// The same node with this label.
    pub fn with_label(self, label: String) -> (r: Node<N>)
        ensures
            r == (Node { label: label, ..self }),
    {
        Node { label, ..self }
    }

    /// The same node with this payload.
    pub fn with_data(self, data: N) -> (r: Node<N>)
        ensures
            r == (Node { data: data, ..self }),
    {
        Node { data, ..self }
    }

    /// Replaces the payload.
    pub fn set_data(&mut self, data: N)
        ensures
            *final(self) == (Node { data: data, ..*old(self) }),
    {
        self.data = data;
    }

    /// Canvas-space location.
    pub fn location(&self) -> (r: V2)
        ensures
            r == self.location,
    {
        self.location
    }

    /// Moves the node to `loc`.
    pub fn set_location(&mut self, loc: V2)
        requires
            loc.wf(),
        ensures
            *final(self) == (Node { location: loc, ..*old(self) }),
    {
        self.location = loc;
    }

    /// Base radius from the style.
    pub fn radius(&self) -> (r: Rat)
        ensures
            r == self.style.radius,
    {
        self.style.radius
    }

    /// Replaces the base radius.
    pub fn set_radius(&mut self, new_rad: Rat)
        requires
            new_rad.wf(),
        ensures
            *final(self) == (Node { style: StyleNode { radius: new_rad }, ..*old(self) }),
    {
        self.style.radius = new_rad;
    }

    /// Cached count of incident edges.
    pub fn num_connections(&self) -> (r: usize)
        ensures
            r == self.computed.num_connections,
    {
        self.computed.num_connections
    }

    /// Selected flag.
    pub fn selected(&self) -> (r: bool)
        ensures
            r == self.selected,
    {
        self.selected
    }

    /// Sets the selected flag.
    pub fn set_selected(&mut self, selected: bool)
        ensures
            *final(self) == (Node { selected: selected, ..*old(self) }),
    {
        self.selected = selected;
    }

    /// Dragged flag.
    pub fn dragged(&self) -> (r: bool)
        ensures
            r == self.dragged,
    {
        self.dragged
    }

    /// Sets the dragged flag.
    pub fn set_dragged(&mut self, dragged: bool)
        ensures
            *final(self) == (Node { dragged: dragged, ..*old(self) }),
    {
        self.dragged = dragged;
    }

    /// The label text.
    pub fn label(&self) -> (r: &String)
        ensures
            r == self.label,
    {
        &self.label
    }

    /// Screen-space location under the viewport: `location * zoom + pan`,
    /// exactly; `None` when a step does not fit.
    pub fn screen_location(&self, m: &Metadata) -> (r: Option<V2>)
        requires
            self.wf(),
            m.wf(),
        ensures
            r matches Some(v) ==> v.x@ == c2s_c(self.location.x@, m.pan.x@, m.zoom@) && v.y@
                == c2s_c(self.location.y@, m.pan.y@, m.zoom@) && v.wf(),
            r is Some <==> fits(rmul(self.location.x@, m.zoom@)) && fits(
                rmul(self.location.y@, m.zoom@),
            ) && fits(c2s_c(self.location.x@, m.pan.x@, m.zoom@)) && fits(
                c2s_c(self.location.y@, m.pan.y@, m.zoom@),
            ),
    {
        m.canvas_to_screen(self.location)
    }

    /// Canvas-space hit radius: base radius plus connection count times the
    /// per-connection weight; `None` when a step does not fit.
    pub fn canvas_radius(&self, style: &SettingsStyle) -> (r: Option<Rat>)
        requires
            self.wf(),
            style.wf(),
            self.computed.num_connections <= 0x7fff_ffff_ffff_ffff,
        ensures
            r matches Some(v) ==> v@ == canvas_radius_spec(
                self.style.radius@,
                self.computed.num_connections as int,
                style.edge_radius_weight@,
            ) && v.wf(),
            r is Some <==> fits(
                rmul((self.computed.num_connections as int, 1int), style.edge_radius_weight@),
            ) && fits(
                canvas_radius_spec(
                    self.style.radius@,
                    self.computed.num_connections as int,
                    style.edge_radius_weight@,
                ),
            ),
    {
        let conn = Rat::from_int(self.computed.num_connections as i64);
        match conn.try_mul(style.edge_radius_weight) {
            Some(w) => self.style.radius.try_add(w),
            None => None,
        }
    }

    /// Screen-space radius: the canvas hit radius scaled by the zoom; `None`
    /// when a step does not fit.
    pub fn screen_radius(&self, m: &Metadata, style: &SettingsStyle) -> (r: Option<Rat>)
        requires
            self.wf(),
            m.wf(),
            style.wf(),
            self.computed.num_connections <= 0x7fff_ffff_ffff_ffff,
        ensures
            r matches Some(v) ==> v@ == rmul(
                canvas_radius_spec(
                    self.style.radius@,
                    self.computed.num_connections as int,
                    style.edge_radius_weight@,
                ),
                m.zoom@,
            ) && v.wf(),
            r is Some <==> fits(
                rmul((self.computed.num_connections as int, 1int), style.edge_radius_weight@),
            ) && fits(
                canvas_radius_spec(
                    self.style.radius@,
                    self.computed.num_connections as int,
                    style.edge_radius_weight@,
                ),
            ) && fits(
                rmul(
                    canvas_radius_spec(
                        self.style.radius@,
                        self.computed.num_connections as int,
                        style.edge_radius_weight@,
                    ),
                    m.zoom@,
                ),
            ),
    {
        match self.canvas_radius(style) {
            Some(c) => c.try_mul(m.zoom),
            None => None,
        }
    }
}

} // verus!
