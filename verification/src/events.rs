//! Discrete interaction events, one per interaction outcome. The frame
//! handlers return them in order; delivery (or silent dropping when nobody
//! listens) is the caller's concern.

use vstd::prelude::*;
use crate::rat::Rat;
use crate::vec2::V2;

verus! {

/// The pan changed by `diff`, to `new_pos`.
#[derive(Clone, Copy, Debug, PartialEq, Eq, Structural)]
pub struct PayloadPan {
    pub diff: V2,
    pub new_pos: V2,
}

/// The zoom changed by the relative step `diff`.
#[derive(Clone, Copy, Debug, PartialEq, Eq, Structural)]
pub struct PyaloadZoom {
    pub diff: Rat,
}

/// Node `id` moved by `diff` in canvas space.
#[derive(Clone, Copy, Debug, PartialEq, Eq, Structural)]
pub struct PayloadNodeMove {
    pub id: usize,
    pub diff: V2,
}

/// A drag of node `id` began.
#[derive(Clone, Copy, Debug, PartialEq, Eq, Structural)]
pub struct PayloadNodeDragStart {
    pub id: usize,
}

/// The drag of node `id` ended.
#[derive(Clone, Copy, Debug, PartialEq, Eq, Structural)]
pub struct PayloadNodeDragEnd {
    pub id: usize,
}

/// Node `id` became selected.
#[derive(Clone, Copy, Debug, PartialEq, Eq, Structural)]
pub struct PayloadNodeSelect {
    pub id: usize,
}

/// Node `id` stopped being selected.
#[derive(Clone, Copy, Debug, PartialEq, Eq, Structural)]
pub struct PayloadNodeDeselect {
    pub id: usize,
}

/// Node `id` was clicked.
#[derive(Clone, Copy, Debug, PartialEq, Eq, Structural)]
pub struct PayloadNodeClick {
    pub id: usize,
}

/// Node `id` was double-clicked.
#[derive(Clone, Copy, Debug, PartialEq, Eq, Structural)]
pub struct PayloadNodeDoubleClick {
    pub id: usize,
}

/// One interaction outcome.
#[derive(Clone, Copy, Debug, PartialEq, Eq, Structural)]
pub enum Event {
    Pan(PayloadPan),
    Zoom(PyaloadZoom),
    NodeMove(PayloadNodeMove),
    NodeDragStart(PayloadNodeDragStart),
    NodeDragEnd(PayloadNodeDragEnd),
    NodeSelect(PayloadNodeSelect),
    NodeDeselect(PayloadNodeDeselect),
    NodeClick(PayloadNodeClick),
    NodeDoubleClick(PayloadNodeDoubleClick),
}

} // verus!
