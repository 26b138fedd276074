//! Exact 2-D vectors over [`crate::rat::Rat`], and axis-aligned rectangles.

use vstd::prelude::*;
use crate::rat::{Rat, radd, rsub, rmul, rdiv, fits};

verus! {

/// A point or displacement with exact rational components.
#[derive(Clone, Copy, Debug, PartialEq, Eq, Structural)]
pub struct V2 {
    pub x: Rat,
    pub y: Rat,
}

impl V2 {
    /// Both components have positive denominators.
    pub open spec fn wf(self) -> bool {
        self.x.wf() && self.y.wf()
    }

    /// The vector `(x, y)` of two integers.
    pub fn from_ints(x: i64, y: i64) -> (r: V2)
        ensures
            r.x@ == (x as int, 1int),
            r.y@ == (y as int, 1int),
            r.wf(),
    {
        V2 { x: Rat::from_int(x), y: Rat::from_int(y) }
    }

    /// The zero vector, as a spec value.
    pub open spec fn spec_zero() -> V2 {
        V2 { x: Rat { n: 0, d: 1 }, y: Rat { n: 0, d: 1 } }
    }

    /// The zero vector.
    pub fn zero() -> (r: V2)
        ensures
            r == V2::spec_zero(),
            r.x@ == (0int, 1int),
            r.y@ == (0int, 1int),
            r.wf(),
    {
        V2 { x: Rat::zero(), y: Rat::zero() }
    }

    /// Are both components exactly zero?
    pub fn is_zero(&self) -> (r: bool)
        requires
            self.wf(),
        ensures
            r == (self.x.n == 0 && self.y.n == 0),
    {
        self.x.is_zero() && self.y.is_zero()
    }

    /// Exact componentwise sum; `None` exactly when a component does not fit.
    pub fn try_add(self, o: V2) -> (r: Option<V2>)
        requires
            self.wf(),
            o.wf(),
        ensures
            r is Some <==> fits(radd(self.x@, o.x@)) && fits(radd(self.y@, o.y@)),
            r matches Some(v) ==> v.x@ == radd(self.x@, o.x@) && v.y@ == radd(self.y@, o.y@)
                && v.wf(),
    {
        match (self.x.try_add(o.x), self.y.try_add(o.y)) {
            (Some(x), Some(y)) => Some(V2 { x, y }),
            _ => None,
        }
    }

    /// Exact componentwise difference; `None` exactly when a component does
    /// not fit.
    pub fn try_sub(self, o: V2) -> (r: Option<V2>)
        requires
            self.wf(),
            o.wf(),
        ensures
            r is Some <==> fits(rsub(self.x@, o.x@)) && fits(rsub(self.y@, o.y@)),
            r matches Some(v) ==> v.x@ == rsub(self.x@, o.x@) && v.y@ == rsub(self.y@, o.y@)
                && v.wf(),
    {
        match (self.x.try_sub(o.x), self.y.try_sub(o.y)) {
            (Some(x), Some(y)) => Some(V2 { x, y }),
            _ => None,
        }
    }

    /// Exact scaling of both components by `k`; `None` exactly when a
    /// component does not fit.
    pub fn try_scale(self, k: Rat) -> (r: Option<V2>)
        requires
            self.wf(),
            k.wf(),
        ensures
            r is Some <==> fits(rmul(self.x@, k@)) && fits(rmul(self.y@, k@)),
            r matches Some(v) ==> v.x@ == rmul(self.x@, k@) && v.y@ == rmul(self.y@, k@)
                && v.wf(),
    {
        match (self.x.try_mul(k), self.y.try_mul(k)) {
            (Some(x), Some(y)) => Some(V2 { x, y }),
            _ => None,
        }
    }

    /// Exact division of both components by `k`; `None` when `k` is zero or a
    /// component does not fit.
    pub fn try_div_rat(self, k: Rat) -> (r: Option<V2>)
        requires
            self.wf(),
            k.wf(),
        ensures
            k.n == 0 ==> r is None,
            k.n != 0 ==> (r is Some <==> fits(rdiv(self.x@, k@)) && fits(rdiv(self.y@, k@))),
            r matches Some(v) ==> v.x@ == rdiv(self.x@, k@) && v.y@ == rdiv(self.y@, k@)
                && v.wf(),
    {
        match (self.x.try_div(k), self.y.try_div(k)) {
            (Some(x), Some(y)) => Some(V2 { x, y }),
            _ => None,
        }
    }
}

/// An axis-aligned rectangle given by two corners.
#[derive(Clone, Copy, Debug, PartialEq, Eq, Structural)]
pub struct RectR {
    pub min: V2,
    pub max: V2,
}

impl RectR {
    /// Both corners are well formed.
    pub open spec fn wf(self) -> bool {
        self.min.wf() && self.max.wf()
    }
}

} // verus!
