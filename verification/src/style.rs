//! Per-node style.

use vstd::prelude::*;
use crate::rat::Rat;

verus! {

/// Visual style owned by a node.
#[derive(Clone, Copy, Debug, PartialEq, Eq, Structural)]
pub struct StyleNode {
    /// Base radius in canvas units, before the per-connection weight.
    pub radius: Rat,
}

impl Default for StyleNode {
    /// Base radius 5.
    fn default() -> (r: Self)
        ensures
            r.radius@ == (5int, 1int),
            r.radius.wf(),
    {
        StyleNode { radius: Rat { n: 5, d: 1 } }
    }
}

} // verus!
