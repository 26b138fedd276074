//! A renderable edge: payload, stable order index among its parallel
//! siblings, and the authoritative selection flag.

use vstd::prelude::*;

verus! {

/// The mutable properties of an edge.
#[derive(Clone, Debug)]
pub struct EdgeProps<E> {
    pub payload: E,
    /// Rank among the edges sharing the same unordered endpoint pair,
    /// assigned once at creation and never recomputed from iteration order.
    pub order: usize,
    pub selected: bool,
}

/// An edge of the renderable graph.
#[derive(Clone, Debug)]
pub struct Edge<E> {
    /// The identity the edge was bound to, once it is in a graph.
    pub id: Option<usize>,
    pub props: EdgeProps<E>,
}

impl<E> Edge<E> {
    /// A fresh unbound edge carrying `payload`: order 0, unselected.
    pub fn new(payload: E) -> (r: Edge<E>)
        ensures
            r.props.payload == payload,
            r.props.order == 0,
            !r.props.selected,
            r.id is None,
    {
        Edge { id: None, props: EdgeProps { payload, order: 0, selected: false } }
    }

    /// The properties.
    pub fn props(&self) -> (r: &EdgeProps<E>)
        ensures
            r == self.props,
    {
        &self.props
    }

    /// Binds the edge to its identity and fixes its rank among the parallel
    /// edges that share its endpoint pair.
    pub fn bind(&mut self, idx: usize, order: usize)
        ensures
            *final(self) == (Edge {
                id: Some(idx),
                props: EdgeProps { order: order, ..old(self).props },
            }),
    {
        self.id = Some(idx);
        self.props.order = order;
    }

    /// The bound identity, for a bound edge.
    pub fn id(&self) -> (r: usize)
        requires
            self.id is Some,
        ensures
            Some(r) == self.id,
    {
        match self.id {
            Some(i) => i,
            None => {
                proof {
                    assert(false);
                }
                0
            },
        }
    }

    /// The stable order index.
    pub fn order(&self) -> (r: usize)
        ensures
            r == self.props.order,
    {
        self.props.order
    }

    /// Replaces the order index.
    pub fn set_order(&mut self, order: usize)
        ensures
            *final(self) == (Edge { props: EdgeProps { order: order, ..old(self).props }, ..*old(
                self,
            ) }),
    {
        self.props.order = order;
    }

    /// The payload.
    pub fn payload(&self) -> (r: &E)
        ensures
            r == self.props.payload,
    {
        &self.props.payload
    }

    /// Mutable access to the payload.
    pub fn payload_mut(&mut self) -> (r: &mut E)
        ensures
            *r == old(self).props.payload,
            *final(self) == (Edge { props: EdgeProps { payload: *final(r), ..old(self).props },
                ..*old(self) }),
    {
        &mut self.props.payload
    }

    /// Sets the selected flag.
    pub fn set_selected(&mut self, selected: bool)
        ensures
            *final(self) == (Edge { props: EdgeProps { selected: selected, ..old(self).props },
                ..*old(self) }),
    {
        self.props.selected = selected;
    }

    /// Selected flag.
    pub fn selected(&self) -> (r: bool)
        ensures
            r == self.props.selected,
    {
        self.props.selected
    }
}

} // verus!
