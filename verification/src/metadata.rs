//! The persisted viewport: zoom, pan and first-frame flag, with the exact
//! screen/canvas transforms and the fit-to-screen operation.
//!
//! `screen_to_canvas(p) = (p - pan) / zoom` and
//! `canvas_to_screen(p) = p * zoom + pan`; zooming about an anchor keeps the
//! canvas point under the anchor fixed, and fitting depends only on the graph
//! bounds, the canvas rectangle and the padding, which makes it idempotent.

use vstd::prelude::*;
use crate::rat::{Rat, radd, rsub, rmul, rdiv, req, rle, rwf, fits, in64, lemma_pos_prod};
use crate::vec2::{V2, RectR};
use crate::{DEFAULT_DIAG_W, DEFAULT_DIAG_H};

verus! {

/// The viewport state persisted across frames.
#[derive(Clone, Copy, Debug, PartialEq, Eq, Structural)]
pub struct Metadata {
    /// Scale from canvas space to screen space; always positive.
    pub zoom: Rat,
    /// Screen-space offset added after scaling.
    pub pan: V2,
    /// True until the first frame has been handled.
    pub first_frame: bool,
}

/// One canvas-space component of `(p - pan) / zoom`.
pub open spec fn s2c_c(p: (int, int), pan: (int, int), zoom: (int, int)) -> (int, int) {
    rdiv(rsub(p, pan), zoom)
}

/// One screen-space component of `p * zoom + pan`.
pub open spec fn c2s_c(c: (int, int), pan: (int, int), zoom: (int, int)) -> (int, int) {
    radd(rmul(c, zoom), pan)
}

/// The zoom factor after a relative zoom gesture: `zoom * (1 + delta)`.
pub open spec fn zoom_at_zoom(zoom: (int, int), delta: (int, int)) -> (int, int) {
    rmul(zoom, radd((1int, 1int), delta))
}

/// One pan component after zooming about `anchor`:
/// `pan - (anchor - pan) * delta`, the unique choice that keeps the canvas
/// point under the anchor fixed.
pub open spec fn zoom_at_pan_c(pan: (int, int), anchor: (int, int), delta: (int, int)) -> (
    int,
    int,
) {
    rsub(pan, rmul(rsub(anchor, pan), delta))
}

/// Does every step of `zoom_at` fit in `i64` fields, with the new zoom
/// positive?
pub open spec fn zoom_at_ok(m: Metadata, delta: (int, int), anchor: V2) -> bool {
    let f = radd((1int, 1int), delta);
    f.0 > 0 && fits(f) && fits(rmul(m.zoom@, f)) && fits(rsub(anchor.x@, m.pan.x@)) && fits(
        rsub(anchor.y@, m.pan.y@),
    ) && fits(rmul(rsub(anchor.x@, m.pan.x@), delta)) && fits(
        rmul(rsub(anchor.y@, m.pan.y@), delta),
    ) && fits(zoom_at_pan_c(m.pan.x@, anchor.x@, delta)) && fits(
        zoom_at_pan_c(m.pan.y@, anchor.y@, delta),
    )
}

/// The zoom and pan that fit-to-screen computes from the graph bounds, the
/// canvas rectangle and the padding fraction: the diagonal is padded (a
/// degenerate diagonal is replaced by a fixed default), the zoom is the
/// smaller of the horizontal and vertical ratios, and the pan maps the bounds
/// center onto the canvas center.
#[verifier::opaque]
pub open spec fn fit_spec(bounds: RectR, canvas: RectR, padding: Rat) -> (
    (int, int),
    (int, int),
    (int, int),
) {
    let dx0 = rsub(bounds.max.x@, bounds.min.x@);
    let dy0 = rsub(bounds.max.y@, bounds.min.y@);
    let dx = if dx0.0 == 0 && dy0.0 == 0 {
        (DEFAULT_DIAG_W as int, 1int)
    } else {
        dx0
    };
    let dy = if dx0.0 == 0 && dy0.0 == 0 {
        (DEFAULT_DIAG_H as int, 1int)
    } else {
        dy0
    };
    let f = radd((1int, 1int), padding@);
    let gx = rmul(dx, f);
    let gy = rmul(dy, f);
    let cw = rsub(canvas.max.x@, canvas.min.x@);
    let ch = rsub(canvas.max.y@, canvas.min.y@);
    let zoom = if gx.0 == 0 {
        rdiv(ch, gy)
    } else if gy.0 == 0 {
        rdiv(cw, gx)
    } else if rle(rdiv(cw, gx), rdiv(ch, gy)) {
        rdiv(cw, gx)
    } else {
        rdiv(ch, gy)
    };
    let gcx = rmul(radd(bounds.min.x@, bounds.max.x@), (1int, 2int));
    let gcy = rmul(radd(bounds.min.y@, bounds.max.y@), (1int, 2int));
    let ccx = rmul(radd(canvas.min.x@, canvas.max.x@), (1int, 2int));
    let ccy = rmul(radd(canvas.min.y@, canvas.max.y@), (1int, 2int));
    let panx = rsub(ccx, rmul(gcx, zoom));
    let pany = rsub(ccy, rmul(gcy, zoom));
    (zoom, panx, pany)
}

/// Does every step of fit-to-screen fit in `i64` fields?
#[verifier::opaque]
pub open spec fn fit_ok(bounds: RectR, canvas: RectR, padding: Rat) -> bool {
    let dx0 = rsub(bounds.max.x@, bounds.min.x@);
    let dy0 = rsub(bounds.max.y@, bounds.min.y@);
    let dx = if dx0.0 == 0 && dy0.0 == 0 {
        (DEFAULT_DIAG_W as int, 1int)
    } else {
        dx0
    };
    let dy = if dx0.0 == 0 && dy0.0 == 0 {
        (DEFAULT_DIAG_H as int, 1int)
    } else {
        dy0
    };
    let f = radd((1int, 1int), padding@);
    let gx = rmul(dx, f);
    let gy = rmul(dy, f);
    let cw = rsub(canvas.max.x@, canvas.min.x@);
    let ch = rsub(canvas.max.y@, canvas.min.y@);
    let zoom = fit_spec(bounds, canvas, padding).0;
    fits(dx0) && fits(dy0) && fits(f) && fits(gx) && fits(gy) && fits(cw) && fits(ch) && (if gx.0
        == 0 {
        fits(rdiv(ch, gy))
    } else if gy.0 == 0 {
        fits(rdiv(cw, gx))
    } else {
        fits(rdiv(cw, gx)) && fits(rdiv(ch, gy))
    }) && fits(radd(bounds.min.x@, bounds.max.x@)) && fits(radd(bounds.min.y@, bounds.max.y@))
        && fits(radd(canvas.min.x@, canvas.max.x@)) && fits(radd(canvas.min.y@, canvas.max.y@))
        && fits(rmul(radd(bounds.min.x@, bounds.max.x@), (1int, 2int))) && fits(
        rmul(radd(bounds.min.y@, bounds.max.y@), (1int, 2int)),
    ) && fits(rmul(radd(canvas.min.x@, canvas.max.x@), (1int, 2int))) && fits(
        rmul(radd(canvas.min.y@, canvas.max.y@), (1int, 2int)),
    ) && fits(rmul(rmul(radd(bounds.min.x@, bounds.max.x@), (1int, 2int)), zoom)) && fits(
        rmul(rmul(radd(bounds.min.y@, bounds.max.y@), (1int, 2int)), zoom),
    ) && fits(fit_spec(bounds, canvas, padding).1) && fits(fit_spec(bounds, canvas, padding).2)
}

impl Metadata {
    /// Positive zoom and well-formed pan.
    pub open spec fn wf(self) -> bool {
        self.zoom.wf() && self.zoom.n > 0 && self.pan.wf()
    }

    /// A fresh viewport: zoom 1, pan 0, first frame pending.
    pub fn new() -> (r: Metadata)
        ensures
            r.zoom@ == (1int, 1int),
            r.pan.x@ == (0int, 1int),
            r.pan.y@ == (0int, 1int),
            r.first_frame,
            r.wf(),
    {
        Metadata { zoom: Rat::from_int(1), pan: V2::zero(), first_frame: true }
    }

    /// Restores the defaults.
    pub fn reset(&mut self)
        ensures
            final(self).zoom@ == (1int, 1int),
            final(self).pan.x@ == (0int, 1int),
            final(self).pan.y@ == (0int, 1int),
            final(self).first_frame,
            final(self).wf(),
    {
        *self = Metadata::new();
    }

    /// `(p - pan) / zoom`, exactly; `None` when a step does not fit.
    pub fn screen_to_canvas(&self, p: V2) -> (r: Option<V2>)
        requires
            self.wf(),
            p.wf(),
        ensures
            r matches Some(v) ==> v.x@ == s2c_c(p.x@, self.pan.x@, self.zoom@) && v.y@ == s2c_c(
                p.y@,
                self.pan.y@,
                self.zoom@,
            ) && v.wf(),
            r is Some <==> fits(rsub(p.x@, self.pan.x@)) && fits(rsub(p.y@, self.pan.y@)) && fits(
                s2c_c(p.x@, self.pan.x@, self.zoom@),
            ) && fits(s2c_c(p.y@, self.pan.y@, self.zoom@)),
    {
        match p.try_sub(self.pan) {
            Some(d) => d.try_div_rat(self.zoom),
            None => None,
        }
    }

    /// `p * zoom + pan`, exactly; `None` when a step does not fit.
    pub fn canvas_to_screen(&self, p: V2) -> (r: Option<V2>)
        requires
            self.wf(),
            p.wf(),
        ensures
            r matches Some(v) ==> v.x@ == c2s_c(p.x@, self.pan.x@, self.zoom@) && v.y@ == c2s_c(
                p.y@,
                self.pan.y@,
                self.zoom@,
            ) && v.wf(),
            r is Some <==> fits(rmul(p.x@, self.zoom@)) && fits(rmul(p.y@, self.zoom@)) && fits(
                c2s_c(p.x@, self.pan.x@, self.zoom@),
            ) && fits(c2s_c(p.y@, self.pan.y@, self.zoom@)),
    {
        match p.try_scale(self.zoom) {
            Some(s) => s.try_add(self.pan),
            None => None,
        }
    }

    /// Zooms by the relative factor `1 + delta` about the screen point
    /// `anchor`, adjusting the pan so the canvas point under the anchor stays
    /// fixed. A no-op (returning false) when the new zoom would not be
    /// positive or a step would not fit.
    #[verifier::spinoff_prover]
    pub fn zoom_at(&mut self, delta: Rat, anchor: V2) -> (ok: bool)
        requires
            old(self).wf(),
            delta.wf(),
            anchor.wf(),
        ensures
            final(self).wf(),
            ok <==> zoom_at_ok(*old(self), delta@, anchor),
            ok ==> final(self).zoom@ == zoom_at_zoom(old(self).zoom@, delta@)
                && final(self).pan.x@ == zoom_at_pan_c(old(self).pan.x@, anchor.x@, delta@)
                && final(self).pan.y@ == zoom_at_pan_c(old(self).pan.y@, anchor.y@, delta@)
                && final(self).first_frame == old(self).first_frame,
            !ok ==> *final(self) == *old(self),
    {
        let factor = match Rat::from_int(1).try_add(delta) {
            Some(f) => f,
            None => {
                return false;
            },
        };
        if factor.n <= 0 {
            return false;
        }
        let new_zoom = match self.zoom.try_mul(factor) {
            Some(z) => z,
            None => {
                return false;
            },
        };
        let offset = match anchor.try_sub(self.pan) {
            Some(o) => o,
            None => {
                return false;
            },
        };
        let scaled = match offset.try_scale(delta) {
            Some(s) => s,
            None => {
                return false;
            },
        };
        let new_pan = match self.pan.try_sub(scaled) {
            Some(p) => p,
            None => {
                return false;
            },
        };
        proof {
            lemma_pos_prod(self.zoom.n as int, factor.n as int);
        }
        self.zoom = new_zoom;
        self.pan = new_pan;
        true
    }

    /// Chooses zoom and pan so the graph bounds fill the canvas with the given
    /// padding fraction: exactly `fit_spec`. A no-op (returning false) when a
    /// step would not fit in `i64` fields.
    #[verifier::spinoff_prover]
    pub fn fit_to_screen(&mut self, bounds: RectR, canvas: RectR, padding: Rat) -> (ok: bool)
        requires
            old(self).wf(),
            bounds.wf(),
            canvas.wf(),
            padding.wf(),
            rle((0int, 1int), padding@),
            rle(bounds.min.x@, bounds.max.x@),
            rle(bounds.min.y@, bounds.max.y@),
            rle(canvas.min.x@, canvas.max.x@),
            rle(canvas.min.y@, canvas.max.y@),
            !req(rsub(canvas.max.x@, canvas.min.x@), (0int, 1int)),
            !req(rsub(canvas.max.y@, canvas.min.y@), (0int, 1int)),
        ensures
            final(self).wf(),
            ok <==> fit_ok(bounds, canvas, padding),
            ok ==> (final(self).zoom@, final(self).pan.x@, final(self).pan.y@) == fit_spec(
                bounds,
                canvas,
                padding,
            ) && final(self).first_frame == old(self).first_frame,
            !ok ==> *final(self) == *old(self),
    {
        proof {
            reveal(fit_spec);
            reveal(fit_ok);
        }
        let dx0 = match bounds.max.x.try_sub(bounds.min.x) {
            Some(v) => v,
            None => {
                return false;
            },
        };
        let dy0 = match bounds.max.y.try_sub(bounds.min.y) {
            Some(v) => v,
            None => {
                return false;
            },
        };
        let degenerate = dx0.is_zero() && dy0.is_zero();
        let dx = if degenerate {
            Rat::from_int(DEFAULT_DIAG_W)
        } else {
            dx0
        };
        let dy = if degenerate {
            Rat::from_int(DEFAULT_DIAG_H)
        } else {
            dy0
        };
        let f = match Rat::from_int(1).try_add(padding) {
            Some(v) => v,
            None => {
                return false;
            },
        };
        let gx = match dx.try_mul(f) {
            Some(v) => v,
            None => {
                return false;
            },
        };
        let gy = match dy.try_mul(f) {
            Some(v) => v,
            None => {
                return false;
            },
        };
        let cw = match canvas.max.x.try_sub(canvas.min.x) {
            Some(v) => v,
            None => {
                return false;
            },
        };
        let ch = match canvas.max.y.try_sub(canvas.min.y) {
            Some(v) => v,
            None => {
                return false;
            },
        };
        proof {
            assert(f.n > 0);
            assert(dx0.n >= 0 && dy0.n >= 0);
            assert(cw.n > 0 && ch.n > 0);
            crate::rat::lemma_nonneg_prod(dx.n as int, f.n as int);
            crate::rat::lemma_nonneg_prod(dy.n as int, f.n as int);
        }
        let new_zoom: Rat;
        if gx.is_zero() {
            proof {
                crate::rat::lemma_zero_factor(dx.n as int, f.n as int);
                assert(!(dx0.n == 0 && dy0.n == 0));
                crate::rat::lemma_pos_prod(dy.n as int, f.n as int);
            }
            new_zoom = match ch.try_div(gy) {
                Some(v) => v,
                None => {
                    return false;
                },
            };
            proof {
                crate::rat::lemma_pos_prod(ch.n as int, gy.d as int);
            }
        } else if gy.is_zero() {
            new_zoom = match cw.try_div(gx) {
                Some(v) => v,
                None => {
                    return false;
                },
            };
            proof {
                crate::rat::lemma_pos_prod(cw.n as int, gx.d as int);
            }
        } else {
            let zx = match cw.try_div(gx) {
                Some(v) => v,
                None => {
                    return false;
                },
            };
            let zy = match ch.try_div(gy) {
                Some(v) => v,
                None => {
                    return false;
                },
            };
            proof {
                crate::rat::lemma_pos_prod(cw.n as int, gx.d as int);
                crate::rat::lemma_pos_prod(ch.n as int, gy.d as int);
            }
            new_zoom = if zx.le(zy) {
                zx
            } else {
                zy
            };
        }
        proof {
            assert(new_zoom@ == fit_spec(bounds, canvas, padding).0);
            assert(new_zoom.n > 0);
        }
        let half = Rat { n: 1, d: 2 };
        let gcx = match bounds.min.x.try_add(bounds.max.x) {
            Some(v) => v,
            None => {
                return false;
            },
        };
        let gcy = match bounds.min.y.try_add(bounds.max.y) {
            Some(v) => v,
            None => {
                return false;
            },
        };
        let ccx = match canvas.min.x.try_add(canvas.max.x) {
            Some(v) => v,
            None => {
                return false;
            },
        };
        let ccy = match canvas.min.y.try_add(canvas.max.y) {
            Some(v) => v,
            None => {
                return false;
            },
        };
        let gcx2 = match gcx.try_mul(half) {
            Some(v) => v,
            None => {
                return false;
            },
        };
        let gcy2 = match gcy.try_mul(half) {
            Some(v) => v,
            None => {
                return false;
            },
        };
        let ccx2 = match ccx.try_mul(half) {
            Some(v) => v,
            None => {
                return false;
            },
        };
        let ccy2 = match ccy.try_mul(half) {
            Some(v) => v,
            None => {
                return false;
            },
        };
        let sx = match gcx2.try_mul(new_zoom) {
            Some(v) => v,
            None => {
                return false;
            },
        };
        let sy = match gcy2.try_mul(new_zoom) {
            Some(v) => v,
            None => {
                return false;
            },
        };
        let panx = match ccx2.try_sub(sx) {
            Some(v) => v,
            None => {
                return false;
            },
        };
        let pany = match ccy2.try_sub(sy) {
            Some(v) => v,
            None => {
                return false;
            },
        };
        self.zoom = new_zoom;
        self.pan = V2 { x: panx, y: pany };
        true
    }
}

/// Round trip: mapping a screen point to canvas space and back yields the
/// original point exactly, for every pan and every positive zoom.
#[verifier::rlimit(100)]
pub proof fn lemma_transform_round_trip(p: (int, int), pan: (int, int), zoom: (int, int))
    requires
        rwf(p),
        rwf(pan),
        rwf(zoom),
        zoom.0 > 0,
    ensures
        req(c2s_c(s2c_c(p, pan, zoom), pan, zoom), p),
{
    let p0 = p.0;
    let p1 = p.1;
    let n0 = pan.0;
    let n1 = pan.1;
    let z0 = zoom.0;
    let z1 = zoom.1;
    let s0 = p0 * n1 - n0 * p1;
    let s1 = p1 * n1;
    let zz = z0 * z1;
    let q = s2c_c(p, pan, zoom);
    assert(q.0 == s0 * z1 && q.1 == s1 * z0);
    let w = c2s_c(q, pan, zoom);
    assert(w.0 == q.0 * z0 * n1 + n0 * (q.1 * z1) && w.1 == q.1 * z1 * n1);
    assert((s0 * z1) * z0 * n1 == zz * (s0 * n1)) by (nonlinear_arith)
        requires
            zz == z0 * z1,
    ;
    assert(n0 * ((s1 * z0) * z1) == zz * (n0 * s1)) by (nonlinear_arith)
        requires
            zz == z0 * z1,
    ;
    assert(zz * (s0 * n1) + zz * (n0 * s1) == zz * (s0 * n1 + n0 * s1)) by (nonlinear_arith);
    assert(s0 * n1 + n0 * s1 == p0 * (n1 * n1)) by (nonlinear_arith)
        requires
            s0 == p0 * n1 - n0 * p1,
            s1 == p1 * n1,
    ;
    assert(w.0 == zz * (p0 * (n1 * n1)));
    assert((s1 * z0) * z1 * n1 == zz * (s1 * n1)) by (nonlinear_arith)
        requires
            zz == z0 * z1,
    ;
    assert(w.1 == zz * (s1 * n1));
    assert(w.0 * p1 == zz * (p0 * ((n1 * n1) * p1))) by (nonlinear_arith)
        requires
            w.0 == zz * (p0 * (n1 * n1)),
    ;
    assert(p0 * w.1 == zz * (p0 * (s1 * n1))) by (nonlinear_arith)
        requires
            w.1 == zz * (s1 * n1),
    ;
    assert(s1 * n1 == (n1 * n1) * p1) by (nonlinear_arith)
        requires
            s1 == p1 * n1,
    ;
    assert(w.0 * p1 == p0 * w.1);
}

/// Zoom anchor invariance: after zooming about an anchor, the canvas point
/// under the anchor is the same as before, for every anchor, pan, positive
/// zoom and delta with `1 + delta > 0`.
#[verifier::rlimit(100)]
pub proof fn lemma_zoom_anchor_invariant(
    a: (int, int),
    pan: (int, int),
    zoom: (int, int),
    delta: (int, int),
)
    requires
        rwf(a),
        rwf(pan),
        rwf(zoom),
        rwf(delta),
        zoom.0 > 0,
        delta.0 + delta.1 > 0,
    ensures
        req(
            s2c_c(a, zoom_at_pan_c(pan, a, delta), zoom_at_zoom(zoom, delta)),
            s2c_c(a, pan, zoom),
        ),
{
    let a0 = a.0;
    let a1 = a.1;
    let n0 = pan.0;
    let n1 = pan.1;
    let z0 = zoom.0;
    let z1 = zoom.1;
    let d0 = delta.0;
    let d1 = delta.1;
    let m = d0 + d1;
    let s0 = a0 * n1 - n0 * a1;
    let s1 = a1 * n1;
    let np = zoom_at_pan_c(pan, a, delta);
    let nz = zoom_at_zoom(zoom, delta);
    assert(np.0 == n0 * (s1 * d1) - s0 * d0 * n1 && np.1 == n1 * (s1 * d1));
    assert(nz.0 == z0 * m && nz.1 == z1 * d1);
    assert(nz.0 > 0) by (nonlinear_arith)
        requires
            nz.0 == z0 * m,
            z0 > 0,
            m > 0,
    ;
    let t0 = a0 * np.1 - np.0 * a1;
    let t1 = a1 * np.1;
    let u = s1 * d1;
    assert(t0 == a0 * (n1 * u) - (n0 * u - s0 * d0 * n1) * a1);
    assert(t0 == u * (a0 * n1 - n0 * a1) + s0 * d0 * (a1 * n1)) by (nonlinear_arith)
        requires
            t0 == a0 * (n1 * u) - (n0 * u - s0 * d0 * n1) * a1,
    ;
    assert(t0 == u * s0 + s0 * d0 * s1);
    assert(t0 == s0 * s1 * m) by (nonlinear_arith)
        requires
            t0 == (s1 * d1) * s0 + s0 * d0 * s1,
            m == d0 + d1,
    ;
    assert(t1 == s1 * (s1 * d1)) by (nonlinear_arith)
        requires
            t1 == a1 * (n1 * (s1 * d1)),
            s1 == a1 * n1,
    ;
    let lhs = s2c_c(a, np, nz);
    let rhs = s2c_c(a, pan, zoom);
    assert(lhs.0 == t0 * nz.1 && lhs.1 == t1 * nz.0);
    assert(rhs.0 == s0 * z1 && rhs.1 == s1 * z0);
    let c = s1 * (d1 * m);
    let sm = s1 * m;
    assert(s0 * s1 * m == s0 * sm) by (nonlinear_arith)
        requires
            sm == s1 * m,
    ;
    assert(lhs.0 == (s0 * sm) * (z1 * d1));
    assert((s0 * sm) * (z1 * d1) == (s0 * z1) * (sm * d1)) by (nonlinear_arith);
    assert(sm * d1 == s1 * (d1 * m)) by (nonlinear_arith)
        requires
            sm == s1 * m,
    ;
    assert(lhs.0 == rhs.0 * c);
    let sd = s1 * d1;
    assert(lhs.1 == (s1 * sd) * (z0 * m));
    assert((s1 * sd) * (z0 * m) == (s1 * z0) * (sd * m)) by (nonlinear_arith);
    assert(sd * m == s1 * (d1 * m)) by (nonlinear_arith)
        requires
            sd == s1 * d1,
    ;
    assert(lhs.1 == rhs.1 * c);
    assert(lhs.0 * rhs.1 == rhs.0 * lhs.1) by (nonlinear_arith)
        requires
            lhs.0 == rhs.0 * c,
            lhs.1 == rhs.1 * c,
    ;
}

/// Fit-to-screen idempotence: the zoom and pan that fitting chooses depend
/// only on the bounds, the canvas and the padding, so two viewports fitted to
/// the same inputs agree exactly.
pub proof fn lemma_fit_idempotent(
    m1: Metadata,
    m2: Metadata,
    bounds: RectR,
    canvas: RectR,
    padding: Rat,
)
    requires
        (m1.zoom@, m1.pan.x@, m1.pan.y@) == fit_spec(bounds, canvas, padding),
        (m2.zoom@, m2.pan.x@, m2.pan.y@) == fit_spec(bounds, canvas, padding),
    ensures
        m1.zoom == m2.zoom,
        m1.pan == m2.pan,
{
}

} // verus!
