//! Interactive node-link graph canvas: an exact-arithmetic model of pan/zoom
//! navigation, node selection and dragging, parallel-edge and self-loop
//! geometry, layer compositing, and a force-directed layout step.
//!
//! Coordinates, zoom factors and style sizes are rational numbers
//! ([`rat::Rat`]), so every viewport transform is exact and the stated
//! round-trip and anchor-invariance laws hold with equality.

pub mod computed;
pub mod drawer;
pub mod edge;
pub mod events;
pub mod geometry;
pub mod graph;
pub mod metadata;
pub mod node;
pub mod rat;
pub mod settings;
pub mod simulation;
pub mod style;
pub mod transform;
pub mod view;
pub mod vec2;

use vstd::prelude::*;

verus! {

/// The library's fixed fallback diagonal width used by fit-to-screen when the
/// graph bounds are degenerate (zero or one node).
pub const DEFAULT_DIAG_W: i64 = 1;

/// The library's fixed fallback diagonal height used by fit-to-screen when the
/// graph bounds are degenerate (zero or one node).
pub const DEFAULT_DIAG_H: i64 = 100;

} // verus!
