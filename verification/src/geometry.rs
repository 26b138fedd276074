//! The geometry engine: renderable shapes for nodes and edges, in screen
//! space, from exact rational inputs.
//!
//! Directions are normalized against a deterministic fixed-point length
//! approximation built on the integer square root, so every produced point is
//! pinned exactly by the spec functions here. A zero-length direction (the
//! degenerate guard) and any value that would not fit in `i64` fields skip
//! the shape instead of faulting.

use vstd::prelude::*;
use crate::rat::{Rat, radd, rsub, rmul, rdiv, fits, reduce_pair};
use crate::vec2::V2;

verus! {

/// Denominator of the fixed-point length approximation.
pub const LEN_SCALE: i64 = 1048576;

/// One renderable shape, in screen space.
#[derive(Clone, Copy, Debug, PartialEq, Eq, Structural)]
pub enum Shape {
    Circle { center: V2, radius: Rat },
    Line { a: V2, b: V2, width: Rat },
    Quad { a: V2, control: V2, b: V2, width: Rat },
    Cubic { a: V2, c1: V2, c2: V2, b: V2, width: Rat },
}

/// Is `r` the floor of the square root of `n`?
pub open spec fn is_isqrt(n: int, r: int) -> bool {
    0 <= r && r * r <= n && n < (r + 1) * (r + 1)
}

/// The floor of the square root of a nonnegative integer.
pub open spec fn sqrt_floor(n: int) -> int {
    choose|r: int| is_isqrt(n, r)
}

/// The floor square root exists for every nonnegative integer.
pub proof fn lemma_isqrt_exists(n: int)
    requires
        n >= 0,
    ensures
        is_isqrt(n, sqrt_floor(n)),
    decreases n,
{
    if n == 0 {
        assert(is_isqrt(0, 0));
    } else {
        lemma_isqrt_exists(n - 1);
        let r = sqrt_floor(n - 1);
        if (r + 1) * (r + 1) <= n {
            assert(is_isqrt(n, r + 1)) by (nonlinear_arith)
                requires
                    is_isqrt(n - 1, r),
                    (r + 1) * (r + 1) <= n,
            ;
        } else {
            assert(is_isqrt(n, r));
        }
    }
}

/// The floor square root is unique.
pub proof fn lemma_isqrt_unique(n: int, r1: int, r2: int)
    requires
        is_isqrt(n, r1),
        is_isqrt(n, r2),
    ensures
        r1 == r2,
{
    assert(r1 == r2) by (nonlinear_arith)
        requires
            0 <= r1 && r1 * r1 <= n && n < (r1 + 1) * (r1 + 1),
            0 <= r2 && r2 * r2 <= n && n < (r2 + 1) * (r2 + 1),
    ;
}

/// Floor square root by binary search.
pub fn isqrt_u128(n: u128) -> (r: u128)
    ensures
        is_isqrt(n as int, r as int),
        r as int == sqrt_floor(n as int),
{
    let mut lo: u128 = 0;
    let mut hi: u128 = 0x1_0000_0000_0000_0000u128;
    proof {
        assert((hi as int) * (hi as int) > n as int) by (nonlinear_arith)
            requires
                hi == 0x1_0000_0000_0000_0000u128,
                n <= 0xffff_ffff_ffff_ffff_ffff_ffff_ffff_ffffu128,
        ;
    }
    while lo + 1 < hi
        invariant
            lo < hi,
            hi <= 0x1_0000_0000_0000_0000u128,
            (lo as int) * (lo as int) <= n as int,
            (n as int) < (hi as int) * (hi as int),
        decreases hi - lo,
    {
        let mid = lo + (hi - lo) / 2;
        proof {
            assert((mid as int) * (mid as int)
                <= 0xffff_ffff_ffff_ffff * 0xffff_ffff_ffff_ffff) by (nonlinear_arith)
                requires
                    0 <= mid as int <= 0xffff_ffff_ffff_ffff,
            ;
        }
        let sq = mid * mid;
        if sq <= n {
            lo = mid;
        } else {
            hi = mid;
        }
    }
    proof {
        lemma_isqrt_exists(n as int);
        lemma_isqrt_unique(n as int, lo as int, sqrt_floor(n as int));
    }
    lo
}

/// The squared length of a vector.
pub open spec fn len2_spec(v: V2) -> (int, int) {
    radd(rmul(v.x@, v.x@), rmul(v.y@, v.y@))
}

/// The fixed-point approximation of a vector's length: the floor square root
/// of the squared length scaled to denominator `LEN_SCALE`.
pub open spec fn alen_spec(v: V2) -> (int, int) {
    (
        sqrt_floor(len2_spec(v).0 * (LEN_SCALE as int) * (LEN_SCALE as int) / len2_spec(v).1),
        LEN_SCALE as int,
    )
}

/// X component of the approximately normalized direction of `v`, in lowest
/// terms so downstream products stay small.
pub open spec fn unit_x(v: V2) -> (int, int) {
    reduce_pair(rdiv(v.x@, alen_spec(v)))
}

/// Y component of the approximately normalized direction of `v`, in lowest
/// terms so downstream products stay small.
pub open spec fn unit_y(v: V2) -> (int, int) {
    reduce_pair(rdiv(v.y@, alen_spec(v)))
}

/// Does the normalization of `v` go through: squares and their sum fit, the
/// approximate length is positive, and both quotients fit?
pub open spec fn unit_ok(v: V2) -> bool {
    fits(rmul(v.x@, v.x@)) && fits(rmul(v.y@, v.y@)) && fits(len2_spec(v)) && alen_spec(v).0 > 0
        && fits(rdiv(v.x@, alen_spec(v))) && fits(rdiv(v.y@, alen_spec(v)))
}

/// Approximately normalizes `v`: the result components are exactly `v`
/// divided by the fixed-point length, in lowest terms. `None` exactly when a
/// step does not go through; in particular a zero vector is always `None`.
#[verifier::spinoff_prover]
pub fn unit_approx(v: V2) -> (r: Option<(V2, Rat)>)
    requires
        v.wf(),
    ensures
        r is Some <==> unit_ok(v),
        r matches Some(p) ==> p.0.x@ == unit_x(v) && p.0.y@ == unit_y(v) && p.1@ == alen_spec(v)
            && p.0.wf() && p.1.wf(),
        v.x.n == 0 && v.y.n == 0 ==> r is None,
{
    if v.x.is_zero() && v.y.is_zero() {
        proof {
            let l = len2_spec(v).0;
            assert(l == (v.x.n as int) * (v.x.n as int) * ((v.y.d as int) * (v.y.d as int)) + (
            v.y.n as int) * (v.y.n as int) * ((v.x.d as int) * (v.x.d as int)));
            assert(l == 0) by (nonlinear_arith)
                requires
                    l == (v.x.n as int) * (v.x.n as int) * ((v.y.d as int) * (v.y.d as int)) + (
                    v.y.n as int) * (v.y.n as int) * ((v.x.d as int) * (v.x.d as int)),
                    v.x.n == 0,
                    v.y.n == 0,
            ;
            assert(l * (LEN_SCALE as int) * (LEN_SCALE as int) == 0);
            crate::rat::lemma_pos_prod(v.x.d as int, v.x.d as int);
            crate::rat::lemma_pos_prod(v.y.d as int, v.y.d as int);
            crate::rat::lemma_pos_prod(
                (v.x.d as int) * (v.x.d as int),
                (v.y.d as int) * (v.y.d as int),
            );
            assert(len2_spec(v).1 > 0);
            assert(0int / (len2_spec(v).1) == 0) by (nonlinear_arith)
                requires
                    len2_spec(v).1 > 0,
            ;
            lemma_isqrt_exists(0);
            lemma_isqrt_unique(0, 0, sqrt_floor(0));
            assert(alen_spec(v).0 == 0);
        }
        return None;
    }
    let xx = match v.x.try_mul(v.x) {
        Some(q) => q,
        None => {
            return None;
        },
    };
    let yy = match v.y.try_mul(v.y) {
        Some(q) => q,
        None => {
            return None;
        },
    };
    let q = match xx.try_add(yy) {
        Some(q) => q,
        None => {
            return None;
        },
    };
    proof {
        assert(q.n as int >= 0) by (nonlinear_arith)
            requires
                q.n as int == (v.x.n as int) * (v.x.n as int) * ((v.y.d as int) * (v.y.d as int))
                    + (v.y.n as int) * (v.y.n as int) * ((v.x.d as int) * (v.x.d as int)),
        ;
    }
    let num: u128 = (q.n as u128) * (LEN_SCALE as u128) * (LEN_SCALE as u128) / (q.d as u128);
    let s = isqrt_u128(num);
    proof {
        assert(num <= 0x7fff_ffff_ffff_ffffu128 * 0x10_0000_0000_0000u128);
        assert((s as int) <= 0x7fff_ffff_ffff_ffff) by (nonlinear_arith)
            requires
                is_isqrt(num as int, s as int),
                num as int <= 0x7fff_ffff_ffff_ffff * 0x10_0000_0000_0000,
        ;
    }
    if s == 0 {
        return None;
    }
    let alen = Rat { n: s as i64, d: LEN_SCALE };
    let ux = match v.x.try_div(alen) {
        Some(u) => u,
        None => {
            return None;
        },
    };
    let uy = match v.y.try_div(alen) {
        Some(u) => u,
        None => {
            return None;
        },
    };
    Some((V2 { x: ux.reduce(), y: uy.reduce() }, alen))
}

/// `p + u * k`, one coordinate at a time.
pub open spec fn offset_c(p: (int, int), u: (int, int), k: (int, int)) -> (int, int) {
    radd(p, rmul(u, k))
}

/// The closed self-loop curve at a node: anchored one radius above the
/// center, with control points four radii above and four radii to either
/// side, so the loop is visible and the arrow logic is untouched.
pub open spec fn self_loop_spec(center: V2, radius: Rat, width: Rat) -> Shape {
    Shape::Cubic {
        a: V2 { x: center.x, y: rat_of_pair(rsub(center.y@, radius@)) },
        c1: V2 {
            x: rat_of_pair(radd(center.x@, rmul((4int, 1int), radius@))),
            y: rat_of_pair(rsub(center.y@, rmul((4int, 1int), radius@))),
        },
        c2: V2 {
            x: rat_of_pair(rsub(center.x@, rmul((4int, 1int), radius@))),
            y: rat_of_pair(rsub(center.y@, rmul((4int, 1int), radius@))),
        },
        b: V2 { x: center.x, y: rat_of_pair(rsub(center.y@, radius@)) },
        width: width,
    }
}

/// Do the steps of the self-loop curve fit?
pub open spec fn self_loop_ok(center: V2, radius: Rat) -> bool {
    fits(rsub(center.y@, radius@)) && fits(rmul((4int, 1int), radius@)) && fits(
        radd(center.x@, rmul((4int, 1int), radius@)),
    ) && fits(rsub(center.x@, rmul((4int, 1int), radius@))) && fits(
        rsub(center.y@, rmul((4int, 1int), radius@)),
    )
}

/// Builds the self-loop curve; `None` exactly when a step does not fit.
#[verifier::spinoff_prover]
pub fn self_loop_shape(center: V2, radius: Rat, width: Rat) -> (r: Option<Shape>)
    requires
        center.wf(),
        radius.wf(),
        width.wf(),
    ensures
        r matches Some(s) ==> s == self_loop_spec(center, radius, width),
        r is Some <==> self_loop_ok(center, radius),
{
    let anchor_y = match center.y.try_sub(radius) {
        Some(v) => v,
        None => {
            return None;
        },
    };
    let r4 = match Rat::from_int(4).try_mul(radius) {
        Some(v) => v,
        None => {
            return None;
        },
    };
    let cx1 = match center.x.try_add(r4) {
        Some(v) => v,
        None => {
            return None;
        },
    };
    let cx2 = match center.x.try_sub(r4) {
        Some(v) => v,
        None => {
            return None;
        },
    };
    let cy = match center.y.try_sub(r4) {
        Some(v) => v,
        None => {
            return None;
        },
    };
    Some(
        Shape::Cubic {
            a: V2 { x: center.x, y: anchor_y },
            c1: V2 { x: cx1, y: cy },
            c2: V2 { x: cx2, y: cy },
            b: V2 { x: center.x, y: anchor_y },
            width,
        },
    )
}

/// The rational with this view, exact when the pair fits.
pub open spec fn rat_of_pair(p: (int, int)) -> Rat {
    Rat { n: p.0 as i64, d: p.1 as i64 }
}

/// Rotates `v` by the angle whose cosine and sine are given:
/// `(c*x - s*y, s*x + c*y)`; `None` exactly when a step does not fit.
pub fn rotate(v: V2, c: Rat, s: Rat) -> (r: Option<V2>)
    requires
        v.wf(),
        c.wf(),
        s.wf(),
    ensures
        r matches Some(w) ==> w.x@ == rsub(rmul(c@, v.x@), rmul(s@, v.y@)) && w.y@ == radd(
            rmul(s@, v.x@),
            rmul(c@, v.y@),
        ) && w.wf(),
        r is Some <==> fits(rmul(c@, v.x@)) && fits(rmul(s@, v.y@)) && fits(
            rsub(rmul(c@, v.x@), rmul(s@, v.y@)),
        ) && fits(rmul(s@, v.x@)) && fits(rmul(c@, v.y@)) && fits(
            radd(rmul(s@, v.x@), rmul(c@, v.y@)),
        ),
{
    let cx = match c.try_mul(v.x) {
        Some(q) => q,
        None => {
            return None;
        },
    };
    let sy = match s.try_mul(v.y) {
        Some(q) => q,
        None => {
            return None;
        },
    };
    let nx = match cx.try_sub(sy) {
        Some(q) => q,
        None => {
            return None;
        },
    };
    let sx = match s.try_mul(v.x) {
        Some(q) => q,
        None => {
            return None;
        },
    };
    let cy = match c.try_mul(v.y) {
        Some(q) => q,
        None => {
            return None;
        },
    };
    let ny = match sx.try_add(cy) {
        Some(q) => q,
        None => {
            return None;
        },
    };
    Some(V2 { x: nx, y: ny })
}

/// The exact displacement from `s` to `t` when it fits.
pub open spec fn dvec(s: V2, t: V2) -> V2 {
    V2 { x: rat_of_pair(rsub(t.x@, s.x@)), y: rat_of_pair(rsub(t.y@, s.y@)) }
}

/// Does the displacement from `s` to `t` fit?
pub open spec fn dvec_ok(s: V2, t: V2) -> bool {
    fits(rsub(t.x@, s.x@)) && fits(rsub(t.y@, s.y@))
}

/// The approximately normalized direction from `s` to `t`.
pub open spec fn uvec(s: V2, t: V2) -> V2 {
    V2 { x: rat_of_pair(unit_x(dvec(s, t))), y: rat_of_pair(unit_y(dvec(s, t))) }
}

/// `p + u * k` as an exact point when the steps fit.
pub open spec fn offset_pt(p: V2, u: V2, k: Rat) -> V2 {
    V2 { x: rat_of_pair(offset_c(p.x@, u.x@, k@)), y: rat_of_pair(offset_c(p.y@, u.y@, k@)) }
}

/// Do the steps of `p + u * k` fit?
pub open spec fn offset_ok(p: V2, u: V2, k: Rat) -> bool {
    fits(rmul(u.x@, k@)) && fits(rmul(u.y@, k@)) && fits(offset_c(p.x@, u.x@, k@)) && fits(
        offset_c(p.y@, u.y@, k@),
    )
}

/// The negation of a vector, when the numerators allow it.
pub open spec fn neg_pt(u: V2) -> V2 {
    V2 {
        x: rat_of_pair(crate::rat::rneg(u.x@)),
        y: rat_of_pair(crate::rat::rneg(u.y@)),
    }
}

/// Can both components be negated?
pub open spec fn neg_ok(u: V2) -> bool {
    crate::rat::in64(-u.x@.0) && crate::rat::in64(-u.y@.0)
}

/// The rotation of `u` by the angle with cosine `c` and sine `s`.
pub open spec fn rot_pt(u: V2, c: Rat, s: Rat) -> V2 {
    V2 {
        x: rat_of_pair(rsub(rmul(c@, u.x@), rmul(s@, u.y@))),
        y: rat_of_pair(radd(rmul(s@, u.x@), rmul(c@, u.y@))),
    }
}

/// Do the steps of the rotation fit?
pub open spec fn rot_ok(u: V2, c: Rat, s: Rat) -> bool {
    fits(rmul(c@, u.x@)) && fits(rmul(s@, u.y@)) && fits(rsub(rmul(c@, u.x@), rmul(s@, u.y@)))
        && fits(rmul(s@, u.x@)) && fits(rmul(c@, u.y@)) && fits(
        radd(rmul(s@, u.x@), rmul(c@, u.y@)),
    )
}

/// The shapes of a straight edge between distinct endpoints without parallel
/// siblings: the body runs from the source circle's rim to the target's rim,
/// shortened by the arrowhead, whose two strokes leave the tip at the given
/// angle back along the direction. `None` exactly when the direction is
/// degenerate or a step does not fit.
#[verifier::opaque]
pub open spec fn straight_spec(
    s: V2,
    rs: Rat,
    t: V2,
    rt: Rat,
    width: Rat,
    tip_size: Rat,
    tip_cos: Rat,
    tip_sin: Rat,
    directed: bool,
) -> Option<Seq<Shape>> {
    if !dvec_ok(s, t) || !unit_ok(dvec(s, t)) {
        None
    } else {
        let u = uvec(s, t);
        if !offset_ok(s, u, rs) || !neg_ok(u) {
            None
        } else {
            let start = offset_pt(s, u, rs);
            let nu = neg_pt(u);
            if !offset_ok(t, nu, rt) {
                None
            } else {
                let tip_pt = offset_pt(t, nu, rt);
                if !directed {
                    Some(seq![Shape::Line { a: start, b: tip_pt, width: width }])
                } else {
                    if !offset_ok(tip_pt, nu, tip_size) || !crate::rat::in64(-tip_sin@.0)
                        || !rot_ok(nu, tip_cos, tip_sin) || !rot_ok(
                        nu,
                        tip_cos,
                        rat_of_pair(crate::rat::rneg(tip_sin@)),
                    ) {
                        None
                    } else {
                        let body_end = offset_pt(tip_pt, nu, tip_size);
                        let w1 = rot_pt(nu, tip_cos, tip_sin);
                        let w2 = rot_pt(nu, tip_cos, rat_of_pair(crate::rat::rneg(tip_sin@)));
                        if !offset_ok(tip_pt, w1, tip_size) || !offset_ok(tip_pt, w2, tip_size) {
                            None
                        } else {
                            Some(
                                seq![
                                    Shape::Line { a: start, b: body_end, width: width },
                                    Shape::Line {
                                        a: tip_pt,
                                        b: offset_pt(tip_pt, w1, tip_size),
                                        width: width,
                                    },
                                    Shape::Line {
                                        a: tip_pt,
                                        b: offset_pt(tip_pt, w2, tip_size),
                                        width: width,
                                    },
                                ],
                            )
                        }
                    }
                }
            }
        }
    }
}

/// `p + u * k` on both coordinates; `None` exactly when a step does not fit.
pub fn offset_point(p: V2, u: V2, k: Rat) -> (r: Option<V2>)
    requires
        p.wf(),
        u.wf(),
        k.wf(),
    ensures
        r matches Some(w) ==> w.x@ == offset_c(p.x@, u.x@, k@) && w.y@ == offset_c(
            p.y@,
            u.y@,
            k@,
        ) && w.wf(),
        r is Some <==> fits(rmul(u.x@, k@)) && fits(rmul(u.y@, k@)) && fits(
            offset_c(p.x@, u.x@, k@),
        ) && fits(offset_c(p.y@, u.y@, k@)),
{
    let step = match u.try_scale(k) {
        Some(s) => s,
        None => {
            return None;
        },
    };
    p.try_add(step)
}

/// Negates both components; `None` exactly when a numerator cannot be
/// negated.
pub fn neg_point(u: V2) -> (r: Option<V2>)
    requires
        u.wf(),
    ensures
        r is Some <==> neg_ok(u),
        r matches Some(w) ==> w == neg_pt(u) && w.wf(),
{
    match (u.x.try_neg(), u.y.try_neg()) {
        (Some(x), Some(y)) => Some(V2 { x, y }),
        _ => None,
    }
}

/// Builds the straight-edge shapes: exactly `straight_spec`.
#[verifier::spinoff_prover]
pub fn straight_edge_shapes(
    s: V2,
    rs: Rat,
    t: V2,
    rt: Rat,
    width: Rat,
    tip_size: Rat,
    tip_cos: Rat,
    tip_sin: Rat,
    directed: bool,
) -> (r: Option<Vec<Shape>>)
    requires
        s.wf(),
        rs.wf(),
        t.wf(),
        rt.wf(),
        width.wf(),
        tip_size.wf(),
        tip_cos.wf(),
        tip_sin.wf(),
    ensures
        r is Some <==> straight_spec(s, rs, t, rt, width, tip_size, tip_cos, tip_sin, directed)
            is Some,
        r matches Some(v) ==> Some(v@) == straight_spec(
            s,
            rs,
            t,
            rt,
            width,
            tip_size,
            tip_cos,
            tip_sin,
            directed,
        ),
{
    proof {
        reveal(straight_spec);
    }
    let d = match t.try_sub(s) {
        Some(d) => d,
        None => {
            return None;
        },
    };
    let u = match unit_approx(d) {
        Some(p) => p.0,
        None => {
            return None;
        },
    };
    let start = match offset_point(s, u, rs) {
        Some(p) => p,
        None => {
            return None;
        },
    };
    let nu = match neg_point(u) {
        Some(p) => p,
        None => {
            return None;
        },
    };
    let tip_pt = match offset_point(t, nu, rt) {
        Some(p) => p,
        None => {
            return None;
        },
    };
    if !directed {
        let mut v: Vec<Shape> = Vec::new();
        v.push(Shape::Line { a: start, b: tip_pt, width });
        proof {
            assert(v@ =~= seq![Shape::Line { a: start, b: tip_pt, width: width }]);
        }
        return Some(v);
    }
    let body_end = match offset_point(tip_pt, nu, tip_size) {
        Some(p) => p,
        None => {
            return None;
        },
    };
    let nsin = match tip_sin.try_neg() {
        Some(p) => p,
        None => {
            return None;
        },
    };
    let w1 = match rotate(nu, tip_cos, tip_sin) {
        Some(p) => p,
        None => {
            return None;
        },
    };
    let w2 = match rotate(nu, tip_cos, nsin) {
        Some(p) => p,
        None => {
            return None;
        },
    };
    let a1 = match offset_point(tip_pt, w1, tip_size) {
        Some(p) => p,
        None => {
            return None;
        },
    };
    let a2 = match offset_point(tip_pt, w2, tip_size) {
        Some(p) => p,
        None => {
            return None;
        },
    };
    let mut v: Vec<Shape> = Vec::new();
    v.push(Shape::Line { a: start, b: body_end, width });
    v.push(Shape::Line { a: tip_pt, b: a1, width });
    v.push(Shape::Line { a: tip_pt, b: a2, width });
    proof {
        assert(v@ =~= seq![
            Shape::Line { a: start, b: body_end, width: width },
            Shape::Line { a: tip_pt, b: a1, width: width },
            Shape::Line { a: tip_pt, b: a2, width: width },
        ]);
    }
    Some(v)
}

/// The shapes of one of `m > 1` parallel edges: a quadratic curve whose
/// control point sits `curve_size * k` along the perpendicular from the chord
/// midpoint (`k` is the edge's 1-based creation rank among its siblings), and
/// whose arrowhead follows the curve's tangent at the tip, the direction from
/// the control point to the tip. `None` exactly when a direction is
/// degenerate or a step does not fit.
#[verifier::opaque]
pub open spec fn curved_spec(
    s: V2,
    rs: Rat,
    t: V2,
    rt: Rat,
    k: int,
    width: Rat,
    curve_size: Rat,
    tip_size: Rat,
    tip_cos: Rat,
    tip_sin: Rat,
    directed: bool,
) -> Option<Seq<Shape>> {
    if !dvec_ok(s, t) || !unit_ok(dvec(s, t)) {
        None
    } else {
        let u = uvec(s, t);
        if !crate::rat::in64(-u.y@.0) {
            None
        } else {
            let perp = V2 { x: rat_of_pair(crate::rat::rneg(u.y@)), y: u.x };
            if !fits(radd(s.x@, t.x@)) || !fits(radd(s.y@, t.y@)) || !fits(
                rmul(radd(s.x@, t.x@), (1int, 2int)),
            ) || !fits(rmul(radd(s.y@, t.y@), (1int, 2int))) {
                None
            } else {
                let mid = V2 {
                    x: rat_of_pair(rmul(radd(s.x@, t.x@), (1int, 2int))),
                    y: rat_of_pair(rmul(radd(s.y@, t.y@), (1int, 2int))),
                };
                if !fits(rmul(curve_size@, (k, 1int))) {
                    None
                } else {
                    let coff = rat_of_pair(rmul(curve_size@, (k, 1int)));
                    if !offset_ok(mid, perp, coff) || !offset_ok(s, u, rs) || !neg_ok(u) {
                        None
                    } else {
                        let control = offset_pt(mid, perp, coff);
                        let start = offset_pt(s, u, rs);
                        let nu = neg_pt(u);
                        if !offset_ok(t, nu, rt) {
                            None
                        } else {
                            let tip_pt = offset_pt(t, nu, rt);
                            if !directed {
                                Some(
                                    seq![
                                        Shape::Quad {
                                            a: start,
                                            control: control,
                                            b: tip_pt,
                                            width: width,
                                        },
                                    ],
                                )
                            } else {
                                if !dvec_ok(control, tip_pt) || !unit_ok(dvec(control, tip_pt)) {
                                    None
                                } else {
                                    let tu = uvec(control, tip_pt);
                                    if !neg_ok(tu) {
                                        None
                                    } else {
                                        let ntu = neg_pt(tu);
                                        if !offset_ok(tip_pt, ntu, tip_size) || !crate::rat::in64(
                                            -tip_sin@.0,
                                        ) || !rot_ok(ntu, tip_cos, tip_sin) || !rot_ok(
                                            ntu,
                                            tip_cos,
                                            rat_of_pair(crate::rat::rneg(tip_sin@)),
                                        ) {
                                            None
                                        } else {
                                            let body_end = offset_pt(tip_pt, ntu, tip_size);
                                            let w1 = rot_pt(ntu, tip_cos, tip_sin);
                                            let w2 = rot_pt(
                                                ntu,
                                                tip_cos,
                                                rat_of_pair(crate::rat::rneg(tip_sin@)),
                                            );
                                            if !offset_ok(tip_pt, w1, tip_size) || !offset_ok(
                                                tip_pt,
                                                w2,
                                                tip_size,
                                            ) {
                                                None
                                            } else {
                                                Some(
                                                    seq![
                                                        Shape::Quad {
                                                            a: start,
                                                            control: control,
                                                            b: body_end,
                                                            width: width,
                                                        },
                                                        Shape::Line {
                                                            a: tip_pt,
                                                            b: offset_pt(tip_pt, w1, tip_size),
                                                            width: width,
                                                        },
                                                        Shape::Line {
                                                            a: tip_pt,
                                                            b: offset_pt(tip_pt, w2, tip_size),
                                                            width: width,
                                                        },
                                                    ],
                                                )
                                            }
                                        }
                                    }
                                }
                            }
                        }
                    }
                }
            }
        }
    }
}

/// Builds the parallel-edge shapes: exactly `curved_spec` at the 1-based rank
/// `k`.
#[verifier::spinoff_prover]
pub fn curved_edge_shapes(
    s: V2,
    rs: Rat,
    t: V2,
    rt: Rat,
    k: i64,
    width: Rat,
    curve_size: Rat,
    tip_size: Rat,
    tip_cos: Rat,
    tip_sin: Rat,
    directed: bool,
) -> (r: Option<Vec<Shape>>)
    requires
        s.wf(),
        rs.wf(),
        t.wf(),
        rt.wf(),
        width.wf(),
        curve_size.wf(),
        tip_size.wf(),
        tip_cos.wf(),
        tip_sin.wf(),
    ensures
        r is Some <==> curved_spec(
            s,
            rs,
            t,
            rt,
            k as int,
            width,
            curve_size,
            tip_size,
            tip_cos,
            tip_sin,
            directed,
        ) is Some,
        r matches Some(v) ==> Some(v@) == curved_spec(
            s,
            rs,
            t,
            rt,
            k as int,
            width,
            curve_size,
            tip_size,
            tip_cos,
            tip_sin,
            directed,
        ),
{
    proof {
        reveal(curved_spec);
    }
    let d = match t.try_sub(s) {
        Some(d) => d,
        None => {
            return None;
        },
    };
    let u = match unit_approx(d) {
        Some(p) => p.0,
        None => {
            return None;
        },
    };
    let px = match u.y.try_neg() {
        Some(p) => p,
        None => {
            return None;
        },
    };
    let perp = V2 { x: px, y: u.x };
    let sx = match s.x.try_add(t.x) {
        Some(p) => p,
        None => {
            return None;
        },
    };
    let sy = match s.y.try_add(t.y) {
        Some(p) => p,
        None => {
            return None;
        },
    };
    let half = Rat { n: 1, d: 2 };
    let mx = match sx.try_mul(half) {
        Some(p) => p,
        None => {
            return None;
        },
    };
    let my = match sy.try_mul(half) {
        Some(p) => p,
        None => {
            return None;
        },
    };
    let mid = V2 { x: mx, y: my };
    let coff = match curve_size.try_mul(Rat::from_int(k)) {
        Some(p) => p,
        None => {
            return None;
        },
    };
    let control = match offset_point(mid, perp, coff) {
        Some(p) => p,
        None => {
            return None;
        },
    };
    let start = match offset_point(s, u, rs) {
        Some(p) => p,
        None => {
            return None;
        },
    };
    let nu = match neg_point(u) {
        Some(p) => p,
        None => {
            return None;
        },
    };
    let tip_pt = match offset_point(t, nu, rt) {
        Some(p) => p,
        None => {
            return None;
        },
    };
    if !directed {
        let mut v: Vec<Shape> = Vec::new();
        v.push(Shape::Quad { a: start, control, b: tip_pt, width });
        proof {
            assert(v@ =~= seq![
                Shape::Quad { a: start, control: control, b: tip_pt, width: width },
            ]);
        }
        return Some(v);
    }
    let tan = match tip_pt.try_sub(control) {
        Some(p) => p,
        None => {
            return None;
        },
    };
    let tu = match unit_approx(tan) {
        Some(p) => p.0,
        None => {
            return None;
        },
    };
    let ntu = match neg_point(tu) {
        Some(p) => p,
        None => {
            return None;
        },
    };
    let body_end = match offset_point(tip_pt, ntu, tip_size) {
        Some(p) => p,
        None => {
            return None;
        },
    };
    let nsin = match tip_sin.try_neg() {
        Some(p) => p,
        None => {
            return None;
        },
    };
    let w1 = match rotate(ntu, tip_cos, tip_sin) {
        Some(p) => p,
        None => {
            return None;
        },
    };
    let w2 = match rotate(ntu, tip_cos, nsin) {
        Some(p) => p,
        None => {
            return None;
        },
    };
    let a1 = match offset_point(tip_pt, w1, tip_size) {
        Some(p) => p,
        None => {
            return None;
        },
    };
    let a2 = match offset_point(tip_pt, w2, tip_size) {
        Some(p) => p,
        None => {
            return None;
        },
    };
    let mut v: Vec<Shape> = Vec::new();
    v.push(Shape::Quad { a: start, control, b: body_end, width });
    v.push(Shape::Line { a: tip_pt, b: a1, width });
    v.push(Shape::Line { a: tip_pt, b: a2, width });
    proof {
        assert(v@ =~= seq![
            Shape::Quad { a: start, control: control, b: body_end, width: width },
            Shape::Line { a: tip_pt, b: a1, width: width },
            Shape::Line { a: tip_pt, b: a2, width: width },
        ]);
    }
    Some(v)
}


} // verus!
