//! Exact rational arithmetic on `i64` numerator / positive `i64` denominator.
//!
//! All intermediate products are taken in `i128`, where they provably fit, and
//! an operation whose exact result does not fit back into `i64` fields returns
//! `None` (the analogue of a coordinate becoming non-finite). Comparisons are
//! total: cross products always fit in `i128`.

use vstd::prelude::*;

verus! {

/// A rational number `n / d` with `d > 0`.
#[derive(Clone, Copy, Debug, PartialEq, Eq, Structural)]
pub struct Rat {
    pub n: i64,
    pub d: i64,
}

impl View for Rat {
    type V = (int, int);

    open spec fn view(&self) -> (int, int) {
        (self.n as int, self.d as int)
    }
}

/// Does a mathematical integer fit in an `i64` field?
pub open spec fn in64(x: int) -> bool {
    -0x8000_0000_0000_0000 <= x <= 0x7fff_ffff_ffff_ffff
}

/// Well-formed rational pair: positive denominator.
pub open spec fn rwf(a: (int, int)) -> bool {
    a.1 > 0
}

/// Exact sum of two rational pairs.
pub open spec fn radd(a: (int, int), b: (int, int)) -> (int, int) {
    (a.0 * b.1 + b.0 * a.1, a.1 * b.1)
}

/// Exact difference of two rational pairs.
pub open spec fn rsub(a: (int, int), b: (int, int)) -> (int, int) {
    (a.0 * b.1 - b.0 * a.1, a.1 * b.1)
}

/// Exact product of two rational pairs.
pub open spec fn rmul(a: (int, int), b: (int, int)) -> (int, int) {
    (a.0 * b.0, a.1 * b.1)
}

/// Exact quotient of two rational pairs; the sign is moved into the numerator
/// so a well-formed divisor with nonzero numerator yields a well-formed result.
pub open spec fn rdiv(a: (int, int), b: (int, int)) -> (int, int) {
    if b.0 >= 0 {
        (a.0 * b.1, a.1 * b.0)
    } else {
        (-(a.0 * b.1), -(a.1 * b.0))
    }
}

/// Exact negation of a rational pair.
pub open spec fn rneg(a: (int, int)) -> (int, int) {
    (-a.0, a.1)
}

/// Equality of the rational values (cross multiplication).
pub open spec fn req(a: (int, int), b: (int, int)) -> bool {
    a.0 * b.1 == b.0 * a.1
}

/// `a <= b` as rational values, for well-formed pairs.
pub open spec fn rle(a: (int, int), b: (int, int)) -> bool {
    a.0 * b.1 <= b.0 * a.1
}

/// `a < b` as rational values, for well-formed pairs.
pub open spec fn rlt(a: (int, int), b: (int, int)) -> bool {
    a.0 * b.1 < b.0 * a.1
}

/// Does the exact result pair fit in `i64` fields?
pub open spec fn fits(a: (int, int)) -> bool {
    in64(a.0) && in64(a.1)
}

/// Any product of two `i64`-range integers stays well inside `i128`.
pub proof fn lemma_prod_in_i128(a: int, b: int)
    requires
        in64(a),
        in64(b),
    ensures
        -0x4000_0000_0000_0000_0000_0000_0000_0000 <= a * b
            <= 0x4000_0000_0000_0000_0000_0000_0000_0000,
{
    assert(-0x4000_0000_0000_0000_0000_0000_0000_0000 <= a * b
        <= 0x4000_0000_0000_0000_0000_0000_0000_0000) by (nonlinear_arith)
        requires
            in64(a),
            in64(b),
    ;
}

/// A product of an `i64`-range integer and a positive `i64` denominator is
/// small enough that the sum of two such products still fits in `i128`.
pub proof fn lemma_num_den_prod(a: int, d: int)
    requires
        in64(a),
        0 < d <= 0x7fff_ffff_ffff_ffff,
    ensures
        -0x3fff_ffff_ffff_ffff_8000_0000_0000_0000 <= a * d
            <= 0x3fff_ffff_ffff_ffff_0000_0000_0000_0001,
{
    assert(-0x3fff_ffff_ffff_ffff_8000_0000_0000_0000 <= a * d
        <= 0x3fff_ffff_ffff_ffff_0000_0000_0000_0001) by (nonlinear_arith)
        requires
            in64(a),
            0 < d <= 0x7fff_ffff_ffff_ffff,
    ;
}

/// The product of two positive integers is positive.
pub proof fn lemma_pos_prod(a: int, b: int)
    requires
        a > 0,
        b > 0,
    ensures
        a * b > 0,
{
    assert(a * b > 0) by (nonlinear_arith)
        requires
            a > 0,
            b > 0,
    ;
}

/// The product of two nonnegative integers is nonnegative.
pub proof fn lemma_nonneg_prod(a: int, b: int)
    requires
        a >= 0,
        b >= 0,
    ensures
        a * b >= 0,
{
    assert(a * b >= 0) by (nonlinear_arith)
        requires
            a >= 0,
            b >= 0,
    ;
}

/// A product with a positive factor vanishes only with the other factor.
pub proof fn lemma_zero_factor(a: int, b: int)
    requires
        a * b == 0,
        b > 0,
    ensures
        a == 0,
{
    assert(a == 0) by (nonlinear_arith)
        requires
            a * b == 0,
            b > 0,
    ;
}

/// The greatest common divisor, by Euclid's recursion.
pub open spec fn gcdn(a: nat, b: nat) -> nat
    decreases b,
{
    if b == 0 {
        a
    } else {
        gcdn(b, a % b)
    }
}

/// With a positive second argument the greatest common divisor is positive
/// and no larger than it.
pub proof fn lemma_gcdn_bounds(a: nat, b: nat)
    requires
        b > 0,
    ensures
        0 < gcdn(a, b) <= b,
    decreases b,
{
    if a % b != 0 {
        lemma_gcdn_bounds(b, a % b);
    } else {
        assert(gcdn(b, 0) == b);
    }
}

/// The pair in lowest terms: both fields divided by their greatest common
/// divisor. A nonpositive denominator or the one unrepresentable numerator is
/// left alone.
pub open spec fn reduce_pair(p: (int, int)) -> (int, int) {
    if p.1 <= 0 || p.0 < -0x7fff_ffff_ffff_ffff {
        p
    } else {
        let a = if p.0 >= 0 {
            p.0
        } else {
            -p.0
        };
        let g = gcdn(a as nat, p.1 as nat) as int;
        if p.0 >= 0 {
            (a / g, p.1 / g)
        } else {
            (-(a / g), p.1 / g)
        }
    }
}

/// Euclid's algorithm.
fn gcd_u64(a: u64, b: u64) -> (g: u64)
    ensures
        g as nat == gcdn(a as nat, b as nat),
{
    let mut x = a;
    let mut y = b;
    while y != 0
        invariant
            gcdn(x as nat, y as nat) == gcdn(a as nat, b as nat),
        decreases y,
    {
        let t = x % y;
        x = y;
        y = t;
    }
    x
}

/// `<=` on rational values is transitive.
pub proof fn lemma_rle_trans(a: (int, int), b: (int, int), c: (int, int))
    requires
        rwf(a),
        rwf(b),
        rwf(c),
        rle(a, b),
        rle(b, c),
    ensures
        rle(a, c),
{
    assert(a.0 * c.1 <= c.0 * a.1) by (nonlinear_arith)
        requires
            a.1 > 0,
            b.1 > 0,
            c.1 > 0,
            a.0 * b.1 <= b.0 * a.1,
            b.0 * c.1 <= c.0 * b.1,
    ;
}

/// The product of a positive and a negative integer is negative.
pub proof fn lemma_neg_prod(a: int, b: int)
    requires
        a > 0,
        b < 0,
    ensures
        a * b < 0,
{
    assert(a * b < 0) by (nonlinear_arith)
        requires
            a > 0,
            b < 0,
    ;
}

impl Rat {
    /// Positive denominator.
    pub open spec fn wf(self) -> bool {
        self.d > 0
    }

    /// The integer `i` as a rational.
    pub fn from_int(i: i64) -> (r: Rat)
        ensures
            r@ == (i as int, 1int),
            r.wf(),
    {
        Rat { n: i, d: 1 }
    }

    /// Zero.
    pub fn zero() -> (r: Rat)
        ensures
            r@ == (0int, 1int),
            r.wf(),
    {
        Rat { n: 0, d: 1 }
    }

    /// Is the value exactly zero?
    pub fn is_zero(&self) -> (r: bool)
        requires
            self.wf(),
        ensures
            r == (self.n == 0),
    {
        self.n == 0
    }

    /// Builds a rational from checked fields; `None` when either does not fit.
    fn pack(num: i128, den: i128) -> (r: Option<Rat>)
        requires
            den > 0,
        ensures
            r is Some <==> fits((num as int, den as int)),
            r matches Some(v) ==> v@ == (num as int, den as int) && v.wf(),
    {
        if num >= -0x8000_0000_0000_0000i128 && num <= 0x7fff_ffff_ffff_ffffi128
            && den <= 0x7fff_ffff_ffff_ffffi128 {
            Some(Rat { n: num as i64, d: den as i64 })
        } else {
            None
        }
    }

    /// Exact sum; `None` exactly when the result pair does not fit.
    pub fn try_add(self, o: Rat) -> (r: Option<Rat>)
        requires
            self.wf(),
            o.wf(),
        ensures
            r is Some <==> fits(radd(self@, o@)),
            r matches Some(v) ==> v@ == radd(self@, o@) && v.wf(),
    {
        proof {
            lemma_num_den_prod(self.n as int, o.d as int);
            lemma_num_den_prod(o.n as int, self.d as int);
            lemma_pos_prod(self.d as int, o.d as int);
            lemma_prod_in_i128(self.d as int, o.d as int);
        }
        let num: i128 = self.n as i128 * o.d as i128 + o.n as i128 * self.d as i128;
        let den: i128 = self.d as i128 * o.d as i128;
        Self::pack(num, den)
    }

    /// Exact difference; `None` exactly when the result pair does not fit.
    pub fn try_sub(self, o: Rat) -> (r: Option<Rat>)
        requires
            self.wf(),
            o.wf(),
        ensures
            r is Some <==> fits(rsub(self@, o@)),
            r matches Some(v) ==> v@ == rsub(self@, o@) && v.wf(),
    {
        proof {
            lemma_num_den_prod(self.n as int, o.d as int);
            lemma_num_den_prod(o.n as int, self.d as int);
            lemma_pos_prod(self.d as int, o.d as int);
            lemma_prod_in_i128(self.d as int, o.d as int);
        }
        let num: i128 = self.n as i128 * o.d as i128 - o.n as i128 * self.d as i128;
        let den: i128 = self.d as i128 * o.d as i128;
        Self::pack(num, den)
    }

    /// Exact product; `None` exactly when the result pair does not fit.
    pub fn try_mul(self, o: Rat) -> (r: Option<Rat>)
        requires
            self.wf(),
            o.wf(),
        ensures
            r is Some <==> fits(rmul(self@, o@)),
            r matches Some(v) ==> v@ == rmul(self@, o@) && v.wf(),
    {
        proof {
            lemma_prod_in_i128(self.n as int, o.n as int);
            lemma_pos_prod(self.d as int, o.d as int);
            lemma_prod_in_i128(self.d as int, o.d as int);
        }
        let num: i128 = self.n as i128 * o.n as i128;
        let den: i128 = self.d as i128 * o.d as i128;
        Self::pack(num, den)
    }

    /// Exact quotient; `None` when the divisor is zero or the result pair does
    /// not fit.
    pub fn try_div(self, o: Rat) -> (r: Option<Rat>)
        requires
            self.wf(),
            o.wf(),
        ensures
            o.n == 0 ==> r is None,
            o.n != 0 ==> (r is Some <==> fits(rdiv(self@, o@))),
            r matches Some(v) ==> v@ == rdiv(self@, o@) && v.wf(),
    {
        if o.n == 0 {
            return None;
        }
        proof {
            lemma_prod_in_i128(self.n as int, o.d as int);
            lemma_prod_in_i128(self.d as int, o.n as int);
        }
        let num: i128 = self.n as i128 * o.d as i128;
        let den: i128 = self.d as i128 * o.n as i128;
        if o.n > 0 {
            proof {
                lemma_pos_prod(self.d as int, o.n as int);
            }
            Self::pack(num, den)
        } else {
            proof {
                lemma_neg_prod(self.d as int, o.n as int);
            }
            Self::pack(-num, -den)
        }
    }

    /// Exact negation; `None` only for the one unrepresentable numerator.
    pub fn try_neg(self) -> (r: Option<Rat>)
        requires
            self.wf(),
        ensures
            r is Some <==> in64(-self@.0),
            r matches Some(v) ==> v@ == rneg(self@) && v.wf(),
    {
        if self.n == -0x8000_0000_0000_0000i64 {
            None
        } else {
            Some(Rat { n: -self.n, d: self.d })
        }
    }

    /// Total comparison of the rational values.
    pub fn le(self, o: Rat) -> (r: bool)
        requires
            self.wf(),
            o.wf(),
        ensures
            r == rle(self@, o@),
    {
        proof {
            lemma_prod_in_i128(self.n as int, o.d as int);
            lemma_prod_in_i128(o.n as int, self.d as int);
        }
        self.n as i128 * o.d as i128 <= o.n as i128 * self.d as i128
    }

    /// Total strict comparison of the rational values.
    pub fn lt(self, o: Rat) -> (r: bool)
        requires
            self.wf(),
            o.wf(),
        ensures
            r == rlt(self@, o@),
    {
        proof {
            lemma_prod_in_i128(self.n as int, o.d as int);
            lemma_prod_in_i128(o.n as int, self.d as int);
        }
        (self.n as i128 * o.d as i128) < (o.n as i128 * self.d as i128)
    }

    /// Total equality of the rational values (not of the representations).
    pub fn eq_value(self, o: Rat) -> (r: bool)
        requires
            self.wf(),
            o.wf(),
        ensures
            r == req(self@, o@),
    {
        proof {
            lemma_prod_in_i128(self.n as int, o.d as int);
            lemma_prod_in_i128(o.n as int, self.d as int);
        }
        self.n as i128 * o.d as i128 == o.n as i128 * self.d as i128
    }

    /// The same value in lowest terms: numerator and denominator divided by
    /// their greatest common divisor.
    pub fn reduce(self) -> (r: Rat)
        requires
            self.wf(),
        ensures
            r@ == reduce_pair(self@),
            r.wf(),
    {
        if self.n == -0x8000_0000_0000_0000i64 {
            return self;
        }
        let a: u64 = if self.n >= 0 {
            self.n as u64
        } else {
            (-self.n) as u64
        };
        let g = gcd_u64(a, self.d as u64);
        proof {
            lemma_gcdn_bounds(a as nat, self.d as nat);
        }
        let an = a / g;
        let dn = (self.d as u64) / g;
        proof {
            assert(an <= a && dn >= 1 && dn <= self.d as u64) by (nonlinear_arith)
                requires
                    an == a as nat / (g as nat),
                    dn == (self.d as u64) as nat / (g as nat),
                    0 < g as nat <= self.d as u64 as nat,
            ;
        }
        if self.n >= 0 {
            Rat { n: an as i64, d: dn as i64 }
        } else {
            Rat { n: -(an as i64), d: dn as i64 }
        }
    }

    /// The smaller of the two values (the left one on ties).
    pub fn rat_min(self, o: Rat) -> (r: Rat)
        requires
            self.wf(),
            o.wf(),
        ensures
            r == if rle(self@, o@) { self } else { o },
            r.wf(),
    {
        if self.le(o) {
            self
        } else {
            o
        }
    }
}

} // verus!
