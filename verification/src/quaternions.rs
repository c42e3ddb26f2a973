//! Quaternion algebra over fixed-point scalars.
//!
//! The executable operations follow the Hamilton product; every product
//! is formed exactly in `i128` and brought back to scale with one
//! truncated division per component, and each contract pins the result
//! through the spec-level algebra on `Quat`, the same quaternion with
//! unbounded integer components. The rotation laws (norm preservation,
//! composition of rotations about one axis) are stated and proved over
//! that exact algebra.

use vstd::prelude::*;

verus! {

use crate::fixed::{
    SCALE,
    PRODUCT_BOUND,
    Trig,
    trig_wf,
    sabs,
    tdiv,
    isqrt_spec,
    isqrt,
    wmul,
    ratio,
    lemma_tdiv_bound,
    lemma_mul_bound,
    lemma_square_bound,
};

/// A rotation quaternion whose squared raw norm falls below this value is
/// treated as degenerate: rotating by it returns the point unchanged.
/// The value is `(SCALE / 2)` squared, a norm of one half; any cosine/sine
/// pair of a real angle yields a rotation quaternion well above it.
pub const MIN_ROT_NORM_SQ: i64 = 0x40000000;

/// Largest component magnitude accepted by `rotate_point` for the point.
pub const ROT_POINT_BOUND: i64 = 0x40000000;

/// Largest component magnitude `rotate_point` can produce.
pub const ROT_RESULT_BOUND: i64 = 0x4000000000;

/// Largest squared norm `inverse` accepts: a norm of 256 units. Beyond
/// it the exact inverse's components fall below one raw unit and the
/// truncated division would flatten them to zero, so the bound states
/// where the inverse is representable at this scale.
pub const INVERSE_NORM_SQ_BOUND: i64 = 0x1000000000000;

/// A quaternion with fixed-point components: `a` is the scalar part,
/// `(b, c, d)` the imaginary vector part.
#[derive(Clone, Copy, Debug, PartialEq, Eq, Structural)]
pub struct Quaternion {
    pub a: i64,
    pub b: i64,
    pub c: i64,
    pub d: i64,
}

/// The same quaternion over the unbounded integers: the model in which
/// contracts and rotation laws are stated.
pub struct Quat {
    pub a: int,
    pub b: int,
    pub c: int,
    pub d: int,
}

impl View for Quaternion {
    type V = Quat;

    open spec fn view(&self) -> Quat {
        Quat { a: self.a as int, b: self.b as int, c: self.c as int, d: self.d as int }
    }
}

/// All four components within `[-b, b]`.
pub open spec fn qbounded(q: Quat, b: int) -> bool {
    sabs(q.a) <= b && sabs(q.b) <= b && sabs(q.c) <= b && sabs(q.d) <= b
}

/// Exact component-wise sum.
pub open spec fn qadd(q: Quat, p: Quat) -> Quat {
    Quat { a: q.a + p.a, b: q.b + p.b, c: q.c + p.c, d: q.d + p.d }
}

/// Exact Hamilton product, without rounding.
pub open spec fn qmul(q: Quat, p: Quat) -> Quat {
    Quat {
        a: q.a * p.a - q.b * p.b - q.c * p.c - q.d * p.d,
        b: q.a * p.b + q.b * p.a + q.c * p.d - q.d * p.c,
        c: q.a * p.c - q.b * p.d + q.c * p.a + q.d * p.b,
        d: q.a * p.d + q.b * p.c - q.c * p.b + q.d * p.a,
    }
}

/// Exact scaling by an integer.
pub open spec fn qscale(q: Quat, k: int) -> Quat {
    Quat { a: q.a * k, b: q.b * k, c: q.c * k, d: q.d * k }
}

/// Conjugate: the imaginary components negated.
pub open spec fn qconj(q: Quat) -> Quat {
    Quat { a: q.a, b: -q.b, c: -q.c, d: -q.d }
}

/// Squared norm, exact.
pub open spec fn qnorm_sq(q: Quat) -> int {
    q.a * q.a + q.b * q.b + q.c * q.c + q.d * q.d
}

/// Conjugation-based rotation of `v` (a pure quaternion) by `q`:
/// `q * v * conj(q)`, in the exact algebra.
pub open spec fn qrot(q: Quat, v: Quat) -> Quat {
    qmul(qmul(q, v), qconj(q))
}

/// The Hamilton product as the executable code computes it: each
/// component of the exact product divided by `SCALE`, truncated.
pub open spec fn qmul_fx(q: Quat, p: Quat) -> Quat {
    let e = qmul(q, p);
    Quat {
        a: tdiv(e.a, SCALE as int),
        b: tdiv(e.b, SCALE as int),
        c: tdiv(e.c, SCALE as int),
        d: tdiv(e.d, SCALE as int),
    }
}

/// Fixed-point scaling: each component times `k`, divided by `SCALE`.
pub open spec fn qscale_fx(q: Quat, k: int) -> Quat {
    Quat {
        a: tdiv(q.a * k, SCALE as int),
        b: tdiv(q.b * k, SCALE as int),
        c: tdiv(q.c * k, SCALE as int),
        d: tdiv(q.d * k, SCALE as int),
    }
}

/// Fixed-point unitization: each component times `SCALE` squared,
/// divided by the integer square root of the squared norm times `SCALE`
/// squared. Taking the square root at full scale keeps the result's
/// norm at one even for quaternions far smaller than one unit.
pub open spec fn qunit_fx(q: Quat) -> Quat {
    let l = isqrt_spec((qnorm_sq(q) * SCALE * SCALE) as nat) as int;
    Quat {
        a: tdiv(q.a * SCALE * SCALE, l),
        b: tdiv(q.b * SCALE * SCALE, l),
        c: tdiv(q.c * SCALE * SCALE, l),
        d: tdiv(q.d * SCALE * SCALE, l),
    }
}

/// Fixed-point inverse: the conjugate times `SCALE` squared, divided by
/// the squared norm.
pub open spec fn qinv_fx(q: Quat) -> Quat {
    let n = qnorm_sq(q);
    let e = qconj(q);
    Quat {
        a: tdiv(e.a * SCALE * SCALE, n),
        b: tdiv(e.b * SCALE * SCALE, n),
        c: tdiv(e.c * SCALE * SCALE, n),
        d: tdiv(e.d * SCALE * SCALE, n),
    }
}

/// The rotation quaternion built from an axis quaternion and the
/// cosine/sine pair of half the rotation angle: `unit(q) * s + c`.
pub open spec fn qrotation_fx(q: Quat, half: Trig) -> Quat {
    let u = qunit_fx(q);
    let s = qscale_fx(u, half.sin as int);
    Quat { a: s.a + half.cos as int, b: s.b, c: s.c, d: s.d }
}

/// What `rotate_point` returns: the point conjugated by the rotation
/// quaternion of the axis and half-angle, in fixed-point arithmetic;
/// a degenerate rotation quaternion leaves the point unchanged.
pub open spec fn spec_rotate_point(q: Quat, half: Trig, v: (int, int, int)) -> (int, int, int) {
    let rq = qrotation_fx(q, half);
    if qnorm_sq(rq) < MIN_ROT_NORM_SQ as int {
        v
    } else {
        let p = Quat { a: 0, b: v.0, c: v.1, d: v.2 };
        let w = qmul_fx(qmul_fx(rq, p), qinv_fx(rq));
        (w.b, w.c, w.d)
    }
}

impl Quaternion {
    pub fn new(a: i64, b: i64, c: i64, d: i64) -> (q: Quaternion)
        ensures
            q.a == a && q.b == b && q.c == c && q.d == d,
    {
        Quaternion { a, b, c, d }
    }

    /// Component-wise sum.
    pub fn sum(q: Quaternion, p: Quaternion) -> (r: Quaternion)
        requires
            i64::MIN <= q.a + p.a <= i64::MAX,
            i64::MIN <= q.b + p.b <= i64::MAX,
            i64::MIN <= q.c + p.c <= i64::MAX,
            i64::MIN <= q.d + p.d <= i64::MAX,
        ensures
            r@ == qadd(q@, p@),
    {
        Quaternion { a: q.a + p.a, b: q.b + p.b, c: q.c + p.c, d: q.d + p.d }
    }

    /// Hamilton product, brought back to scale with one truncated
    /// division per component.
    pub fn product(q: Quaternion, p: Quaternion) -> (r: Quaternion)
        requires
            qbounded(q@, PRODUCT_BOUND as int),
            qbounded(p@, PRODUCT_BOUND as int),
        ensures
            r@ == qmul_fx(q@, p@),
    {
        proof {
            lemma_mul_bound(q.a as int, p.a as int, PRODUCT_BOUND as int, PRODUCT_BOUND as int);
            lemma_mul_bound(q.a as int, p.b as int, PRODUCT_BOUND as int, PRODUCT_BOUND as int);
            lemma_mul_bound(q.a as int, p.c as int, PRODUCT_BOUND as int, PRODUCT_BOUND as int);
            lemma_mul_bound(q.a as int, p.d as int, PRODUCT_BOUND as int, PRODUCT_BOUND as int);
            lemma_mul_bound(q.b as int, p.a as int, PRODUCT_BOUND as int, PRODUCT_BOUND as int);
            lemma_mul_bound(q.b as int, p.b as int, PRODUCT_BOUND as int, PRODUCT_BOUND as int);
            lemma_mul_bound(q.b as int, p.c as int, PRODUCT_BOUND as int, PRODUCT_BOUND as int);
            lemma_mul_bound(q.b as int, p.d as int, PRODUCT_BOUND as int, PRODUCT_BOUND as int);
            lemma_mul_bound(q.c as int, p.a as int, PRODUCT_BOUND as int, PRODUCT_BOUND as int);
            lemma_mul_bound(q.c as int, p.b as int, PRODUCT_BOUND as int, PRODUCT_BOUND as int);
            lemma_mul_bound(q.c as int, p.c as int, PRODUCT_BOUND as int, PRODUCT_BOUND as int);
            lemma_mul_bound(q.c as int, p.d as int, PRODUCT_BOUND as int, PRODUCT_BOUND as int);
            lemma_mul_bound(q.d as int, p.a as int, PRODUCT_BOUND as int, PRODUCT_BOUND as int);
            lemma_mul_bound(q.d as int, p.b as int, PRODUCT_BOUND as int, PRODUCT_BOUND as int);
            lemma_mul_bound(q.d as int, p.c as int, PRODUCT_BOUND as int, PRODUCT_BOUND as int);
            lemma_mul_bound(q.d as int, p.d as int, PRODUCT_BOUND as int, PRODUCT_BOUND as int);
            crate::fixed::lemma_product_bound_sq();
            lemma_tdiv_bound(qmul(q@, p@).a, SCALE as int, 0x4000000000000000);
            lemma_tdiv_bound(qmul(q@, p@).b, SCALE as int, 0x4000000000000000);
            lemma_tdiv_bound(qmul(q@, p@).c, SCALE as int, 0x4000000000000000);
            lemma_tdiv_bound(qmul(q@, p@).d, SCALE as int, 0x4000000000000000);
        }
        let s = SCALE as i128;
        let ta = wmul(q.a, p.a) - wmul(q.b, p.b) - wmul(q.c, p.c) - wmul(q.d, p.d);
        let tb = wmul(q.a, p.b) + wmul(q.b, p.a) + wmul(q.c, p.d) - wmul(q.d, p.c);
        let tc = wmul(q.a, p.c) - wmul(q.b, p.d) + wmul(q.c, p.a) + wmul(q.d, p.b);
        let td = wmul(q.a, p.d) + wmul(q.b, p.c) - wmul(q.c, p.b) + wmul(q.d, p.a);
        Quaternion { a: ratio(ta, s), b: ratio(tb, s), c: ratio(tc, s), d: ratio(td, s) }
    }

    /// Scaling by a fixed-point factor.
    pub fn scale(q: Quaternion, alpha: i64) -> (r: Quaternion)
        requires
            qbounded(q@, PRODUCT_BOUND as int),
            sabs(alpha as int) <= PRODUCT_BOUND as int,
        ensures
            r@ == qscale_fx(q@, alpha as int),
    {
        proof {
            lemma_mul_bound(q.a as int, alpha as int, PRODUCT_BOUND as int, PRODUCT_BOUND as int);
            lemma_mul_bound(q.b as int, alpha as int, PRODUCT_BOUND as int, PRODUCT_BOUND as int);
            lemma_mul_bound(q.c as int, alpha as int, PRODUCT_BOUND as int, PRODUCT_BOUND as int);
            lemma_mul_bound(q.d as int, alpha as int, PRODUCT_BOUND as int, PRODUCT_BOUND as int);
            crate::fixed::lemma_product_bound_sq();
            lemma_tdiv_bound((q.a as int) * (alpha as int), SCALE as int, 0x4000000000000000);
            lemma_tdiv_bound((q.b as int) * (alpha as int), SCALE as int, 0x4000000000000000);
            lemma_tdiv_bound((q.c as int) * (alpha as int), SCALE as int, 0x4000000000000000);
            lemma_tdiv_bound((q.d as int) * (alpha as int), SCALE as int, 0x4000000000000000);
        }
        let s = SCALE as i128;
        Quaternion {
            a: ratio(wmul(q.a, alpha), s),
            b: ratio(wmul(q.b, alpha), s),
            c: ratio(wmul(q.c, alpha), s),
            d: ratio(wmul(q.d, alpha), s),
        }
    }

    /// The conjugate, exact: negating a component loses nothing.
    pub fn conjugate(&self) -> (r: Quaternion)
        requires
            self.b > i64::MIN,
            self.c > i64::MIN,
            self.d > i64::MIN,
        ensures
            r@ == qconj(self@),
    {
        Quaternion { a: self.a, b: -self.b, c: -self.c, d: -self.d }
    }

    /// The squared norm, exact in a wide integer.
    fn norm_sq_wide(&self) -> (n: i128)
        requires
            qbounded(self@, PRODUCT_BOUND as int),
        ensures
            n == qnorm_sq(self@),
            0 <= n <= 0x100000000000000000000,
    {
        proof {
            lemma_square_bound(self.a as int, PRODUCT_BOUND as int);
            lemma_square_bound(self.b as int, PRODUCT_BOUND as int);
            lemma_square_bound(self.c as int, PRODUCT_BOUND as int);
            lemma_square_bound(self.d as int, PRODUCT_BOUND as int);
            assert((PRODUCT_BOUND as int) * (PRODUCT_BOUND as int) == 0x10000000000000000000int)
                by (nonlinear_arith)
                requires
                    PRODUCT_BOUND == 0x4000000000,
            ;
        }
        wmul(self.a, self.a) + wmul(self.b, self.b) + wmul(self.c, self.c) + wmul(self.d, self.d)
    }

    /// The norm, rounded down: the integer square root of the squared norm.
    pub fn normalize(&self) -> (l: i64)
        requires
            qbounded(self@, PRODUCT_BOUND as int),
        ensures
            l == isqrt_spec(qnorm_sq(self@) as nat),
            0 <= l,
            l * l <= qnorm_sq(self@) < (l + 1) * (l + 1),
    {
        let n = self.norm_sq_wide();
        let r = isqrt(n as u128);
        proof {
            crate::fixed::lemma_isqrt_bounds(n as nat);
            assert(r as int <= 0x10000000000int) by (nonlinear_arith)
                requires
                    (r as int) * (r as int) <= 0x100000000000000000000int,
                    r >= 0,
            ;
        }
        r as i64
    }

    /// The unit quaternion: each component scaled by the reciprocal of
    /// the norm, with the square root taken at full scale so that any
    /// non-zero quaternion — however small — unitizes to norm one. The
    /// caller must rule out the zero quaternion.
    pub fn unitize(&self) -> (u: Quaternion)
        requires
            qbounded(self@, PRODUCT_BOUND as int),
            qnorm_sq(self@) >= 1,
        ensures
            u@ == qunit_fx(self@),
            qbounded(u@, SCALE as int),
    {
        let n = self.norm_sq_wide();
        proof {
            assert(0 <= n * (SCALE as i128) <= 0x1000000000000000000000000int)
                by (nonlinear_arith)
                requires
                    0 <= n <= 0x100000000000000000000int,
                    SCALE == 65536,
            ;
            assert(0 <= n * (SCALE as i128) * (SCALE as i128)
                <= 0x10000000000000000000000000000int) by (nonlinear_arith)
                requires
                    0 <= n * (SCALE as i128) <= 0x1000000000000000000000000int,
                    SCALE == 65536,
            ;
            assert(n * (SCALE as i128) * (SCALE as i128) >= 2) by (nonlinear_arith)
                requires
                    n >= 1,
                    SCALE == 65536,
            ;
        }
        let ns: i128 = n * (SCALE as i128) * (SCALE as i128);
        let lw = isqrt(ns as u128);
        proof {
            assert(lw as int <= 0x100000000000000int) by (nonlinear_arith)
                requires
                    (lw as int) * (lw as int) <= 0x10000000000000000000000000000int,
                    lw >= 0,
            ;
            let qn = qnorm_sq(self@);
            let l = lw as int;
            assert(l >= 1) by (nonlinear_arith)
                requires
                    l >= 0,
                    ns >= 2,
                    ns < (l + 1) * (l + 1),
            ;
            assert(sabs((self.a as int) * (SCALE as int)) <= l && sabs(
                (self.b as int) * (SCALE as int),
            ) <= l && sabs((self.c as int) * (SCALE as int)) <= l && sabs(
                (self.d as int) * (SCALE as int),
            ) <= l) by (nonlinear_arith)
                requires
                    qn == (self.a as int) * (self.a as int) + (self.b as int) * (self.b as int)
                        + (self.c as int) * (self.c as int) + (self.d as int) * (self.d as int),
                    ns == qn * (SCALE as int) * (SCALE as int),
                    ns < (l + 1) * (l + 1),
                    l >= 0,
                    SCALE == 65536,
            ;
            lemma_mul_bound((self.a as int) * (SCALE as int), SCALE as int, l, SCALE as int);
            lemma_mul_bound((self.b as int) * (SCALE as int), SCALE as int, l, SCALE as int);
            lemma_mul_bound((self.c as int) * (SCALE as int), SCALE as int, l, SCALE as int);
            lemma_mul_bound((self.d as int) * (SCALE as int), SCALE as int, l, SCALE as int);
            lemma_tdiv_bound((self.a as int) * (SCALE as int) * (SCALE as int), l, SCALE as int);
            lemma_tdiv_bound((self.b as int) * (SCALE as int) * (SCALE as int), l, SCALE as int);
            lemma_tdiv_bound((self.c as int) * (SCALE as int) * (SCALE as int), l, SCALE as int);
            lemma_tdiv_bound((self.d as int) * (SCALE as int) * (SCALE as int), l, SCALE as int);
        }
        let li = lw as i128;
        let s = SCALE as i128;
        Quaternion {
            a: ratio(wmul(self.a, SCALE) * s, li),
            b: ratio(wmul(self.b, SCALE) * s, li),
            c: ratio(wmul(self.c, SCALE) * s, li),
            d: ratio(wmul(self.d, SCALE) * s, li),
        }
    }

    /// The inverse: the conjugate over the squared norm. The caller
    /// must rule out the zero quaternion, and must stay under
    /// `INVERSE_NORM_SQ_BOUND`: past a norm of 256 units the exact
    /// inverse is smaller than one raw unit and cannot be represented.
    pub fn inverse(&self) -> (r: Quaternion)
        requires
            qbounded(self@, PRODUCT_BOUND as int),
            1 <= qnorm_sq(self@) <= INVERSE_NORM_SQ_BOUND as int,
        ensures
            r@ == qinv_fx(self@),
            qbounded(r@, (SCALE as int) * (SCALE as int)),
    {
        let qi = self.conjugate();
        let n = self.norm_sq_wide();
        proof {
            let qn = qnorm_sq(self@);
            assert(sabs(qi.a as int) <= qn && sabs(qi.b as int) <= qn && sabs(qi.c as int) <= qn
                && sabs(qi.d as int) <= qn) by (nonlinear_arith)
                requires
                    qn == (self.a as int) * (self.a as int) + (self.b as int) * (self.b as int)
                        + (self.c as int) * (self.c as int) + (self.d as int) * (self.d as int),
                    sabs(qi.a as int) == sabs(self.a as int),
                    sabs(qi.b as int) == sabs(self.b as int),
                    sabs(qi.c as int) == sabs(self.c as int),
                    sabs(qi.d as int) == sabs(self.d as int),
            ;
            lemma_inv_component_fit(qi.a as int, qn);
            lemma_inv_component_fit(qi.b as int, qn);
            lemma_inv_component_fit(qi.c as int, qn);
            lemma_inv_component_fit(qi.d as int, qn);
        }
        let s = SCALE as i128;
        Quaternion {
            a: ratio(wmul(qi.a, SCALE) * s, n),
            b: ratio(wmul(qi.b, SCALE) * s, n),
            c: ratio(wmul(qi.c, SCALE) * s, n),
            d: ratio(wmul(qi.d, SCALE) * s, n),
        }
    }

    /// The rotation quaternion for this axis: the axis unitized, scaled
    /// by the sine of half the angle, plus the cosine of half the angle.
    pub fn rotatation(&self, half: Trig) -> (r: Quaternion)
        requires
            qbounded(self@, PRODUCT_BOUND as int),
            qnorm_sq(self@) >= 1,
            trig_wf(half),
        ensures
            r@ == qrotation_fx(self@, half),
            qbounded(r@, 2 * (SCALE as int)),
    {
        let u = self.unitize();
        proof {
            lemma_mul_bound(u.a as int, half.sin as int, SCALE as int, SCALE as int);
            lemma_mul_bound(u.b as int, half.sin as int, SCALE as int, SCALE as int);
            lemma_mul_bound(u.c as int, half.sin as int, SCALE as int, SCALE as int);
            lemma_mul_bound(u.d as int, half.sin as int, SCALE as int, SCALE as int);
            lemma_tdiv_bound((u.a as int) * (half.sin as int), SCALE as int, SCALE as int);
            lemma_tdiv_bound((u.b as int) * (half.sin as int), SCALE as int, SCALE as int);
            lemma_tdiv_bound((u.c as int) * (half.sin as int), SCALE as int, SCALE as int);
            lemma_tdiv_bound((u.d as int) * (half.sin as int), SCALE as int, SCALE as int);
        }
        let sc = Quaternion::scale(u, half.sin);
        Quaternion { a: sc.a + half.cos, b: sc.b, c: sc.c, d: sc.d }
    }

    /// Rotate the point `a` by the rotation quaternion derived from this
    /// axis and the half-angle pair: `rq * a * inverse(rq)`, keeping the
    /// imaginary part. A degenerate rotation quaternion (squared norm
    /// under `MIN_ROT_NORM_SQ`, which no genuine cosine/sine pair
    /// produces) returns the point unchanged.
    pub fn rotate_point(&self, a: (i64, i64, i64), half: Trig) -> (r: (i64, i64, i64))
        requires
            qbounded(self@, PRODUCT_BOUND as int),
            qnorm_sq(self@) >= 1,
            trig_wf(half),
            sabs(a.0 as int) <= ROT_POINT_BOUND as int,
            sabs(a.1 as int) <= ROT_POINT_BOUND as int,
            sabs(a.2 as int) <= ROT_POINT_BOUND as int,
        ensures
            (r.0 as int, r.1 as int, r.2 as int) == spec_rotate_point(
                self@,
                half,
                (a.0 as int, a.1 as int, a.2 as int),
            ),
            sabs(r.0 as int) <= ROT_RESULT_BOUND as int,
            sabs(r.1 as int) <= ROT_RESULT_BOUND as int,
            sabs(r.2 as int) <= ROT_RESULT_BOUND as int,
    {
        let rq = self.rotatation(half);
        let n = rq.norm_sq_wide();
        if n < MIN_ROT_NORM_SQ as i128 {
            a
        } else {
            proof {
                lemma_inv_component_small(qconj(rq@).a, qnorm_sq(rq@));
                lemma_inv_component_small(qconj(rq@).b, qnorm_sq(rq@));
                lemma_inv_component_small(qconj(rq@).c, qnorm_sq(rq@));
                lemma_inv_component_small(qconj(rq@).d, qnorm_sq(rq@));
                lemma_square_bound(rq@.a, 2 * (SCALE as int));
                lemma_square_bound(rq@.b, 2 * (SCALE as int));
                lemma_square_bound(rq@.c, 2 * (SCALE as int));
                lemma_square_bound(rq@.d, 2 * (SCALE as int));
                assert((2 * (SCALE as int)) * (2 * (SCALE as int)) == 0x400000000int)
                    by (nonlinear_arith)
                    requires
                        SCALE == 65536,
                ;
            }
            let qi = rq.inverse();
            let p = Quaternion::new(0, a.0, a.1, a.2);
            proof {
                lemma_qmul_fx_bound(rq@, p@, 131072, 0x40000000, 0x200000000);
            }
            let w1 = Quaternion::product(rq, p);
            proof {
                lemma_qmul_fx_bound(w1@, qi@, 0x200000000, 0x80000, 0x4000000000);
            }
            let w = Quaternion::product(w1, qi);
            (w.b, w.c, w.d)
        }
    }
}

/// Components of a fixed-point Hamilton product stay within `b` whenever
/// the factors stay within `bq` and `bp` with `4 * bq * bp <= b * SCALE`.
proof fn lemma_qmul_fx_bound(q: Quat, p: Quat, bq: int, bp: int, b: int)
    requires
        qbounded(q, bq),
        qbounded(p, bp),
        0 <= bq,
        0 <= bp,
        0 <= b,
        4 * (bq * bp) <= b * (SCALE as int),
    ensures
        qbounded(qmul_fx(q, p), b),
{
    let e = qmul(q, p);
    lemma_mul_bound(q.a, p.a, bq, bp);
    lemma_mul_bound(q.a, p.b, bq, bp);
    lemma_mul_bound(q.a, p.c, bq, bp);
    lemma_mul_bound(q.a, p.d, bq, bp);
    lemma_mul_bound(q.b, p.a, bq, bp);
    lemma_mul_bound(q.b, p.b, bq, bp);
    lemma_mul_bound(q.b, p.c, bq, bp);
    lemma_mul_bound(q.b, p.d, bq, bp);
    lemma_mul_bound(q.c, p.a, bq, bp);
    lemma_mul_bound(q.c, p.b, bq, bp);
    lemma_mul_bound(q.c, p.c, bq, bp);
    lemma_mul_bound(q.c, p.d, bq, bp);
    lemma_mul_bound(q.d, p.a, bq, bp);
    lemma_mul_bound(q.d, p.b, bq, bp);
    lemma_mul_bound(q.d, p.c, bq, bp);
    lemma_mul_bound(q.d, p.d, bq, bp);
    lemma_tdiv_bound(e.a, SCALE as int, b);
    lemma_tdiv_bound(e.b, SCALE as int, b);
    lemma_tdiv_bound(e.c, SCALE as int, b);
    lemma_tdiv_bound(e.d, SCALE as int, b);
}

/// A conjugate component of a near-unit rotation quaternion over its
/// squared norm stays within `0x80000` (eight times `SCALE`).
proof fn lemma_inv_component_small(x: int, n: int)
    requires
        n >= MIN_ROT_NORM_SQ as int,
        sabs(x) <= 131072,
    ensures
        sabs(tdiv(x * SCALE * SCALE, n)) <= 0x80000,
{
    assert(sabs(x * SCALE * SCALE) <= 0x80000 * sabs(n)) by (nonlinear_arith)
        requires
            SCALE == 65536,
            n >= 0x40000000,
            sabs(x) <= 131072,
    ;
    lemma_tdiv_bound(x * SCALE * SCALE, n, 0x80000);
}

/// The rotor about the axis `u` whose half-angle has cosine `c` and
/// sine `s`: the quaternion `c + s * u`.
pub open spec fn axis_rotor(u: (int, int, int), c: int, s: int) -> Quat {
    Quat { a: c, b: s * u.0, c: s * u.1, d: s * u.2 }
}


/// The quaternion with scalar part `k` and no vector part.
pub open spec fn qscalar(k: int) -> Quat {
    Quat { a: k, b: 0, c: 0, d: 0 }
}

/// A quaternion times its own conjugate is the scalar quaternion
/// holding its squared norm.
#[verifier::spinoff_prover]
pub proof fn lemma_mul_conj_self(x: Quat)
    ensures
        qmul(x, qconj(x)) == qscalar(qnorm_sq(x)),
{
    broadcast use vstd::arithmetic::mul::group_mul_is_commutative_and_distributive;

}

/// Multiplying by a scalar quaternion on the right is scaling.
#[verifier::spinoff_prover]
pub proof fn lemma_mul_scalar_right(q: Quat, k: int)
    ensures
        qmul(q, qscalar(k)) == qscale(q, k),
{
    broadcast use vstd::arithmetic::mul::group_mul_is_commutative_and_distributive;

}

/// A scale factor on the left operand passes through the product.
#[verifier::spinoff_prover]
pub proof fn lemma_mul_scale_left(q: Quat, k: int, r: Quat)
    ensures
        qmul(qscale(q, k), r) == qscale(qmul(q, r), k),
{
    broadcast use vstd::arithmetic::mul::group_mul_is_commutative_and_distributive;
    broadcast use vstd::arithmetic::mul::lemma_mul_is_associative;

}

/// The squared norm is multiplicative over the Hamilton product
/// (Euler's four-square identity), exactly.
#[verifier::spinoff_prover]
pub proof fn lemma_product_norm_sq(q: Quat, p: Quat)
    ensures
        qnorm_sq(qmul(q, p)) == qnorm_sq(q) * qnorm_sq(p),
{
    broadcast use vstd::arithmetic::mul::lemma_mul_is_commutative;

    let x = qmul(q, p);
    lemma_mul_conj_self(x);
    lemma_conjugate_product(q, p);
    lemma_mul_assoc(x, qconj(p), qconj(q));
    lemma_mul_assoc(q, p, qconj(p));
    lemma_mul_conj_self(p);
    lemma_mul_scalar_right(q, qnorm_sq(p));
    lemma_mul_scale_left(q, qnorm_sq(p), qconj(q));
    lemma_mul_conj_self(q);
    assert(qmul(x, qconj(x)) == qscale(qscalar(qnorm_sq(q)), qnorm_sq(p)));
}

/// Conjugation does not change the squared norm.
#[verifier::spinoff_prover]
pub proof fn lemma_conjugate_norm_sq(q: Quat)
    ensures
        qnorm_sq(qconj(q)) == qnorm_sq(q),
{
    broadcast use vstd::arithmetic::mul::group_mul_is_commutative_and_distributive;

}

/// The scalar component of the associativity identity, expanded.
#[verifier::spinoff_prover]
proof fn lemma_assoc_part_a(p: Quat, q: Quat, r: Quat)
    ensures
        qmul(qmul(p, q), r).a == qmul(p, qmul(q, r)).a,
{
    broadcast use vstd::arithmetic::mul::group_mul_is_commutative_and_distributive;
    broadcast use vstd::arithmetic::mul::lemma_mul_is_associative;

}

/// The first vector component of the associativity identity.
#[verifier::spinoff_prover]
proof fn lemma_assoc_part_b(p: Quat, q: Quat, r: Quat)
    ensures
        qmul(qmul(p, q), r).b == qmul(p, qmul(q, r)).b,
{
    broadcast use vstd::arithmetic::mul::group_mul_is_commutative_and_distributive;
    broadcast use vstd::arithmetic::mul::lemma_mul_is_associative;

}

/// The second vector component of the associativity identity.
#[verifier::spinoff_prover]
proof fn lemma_assoc_part_c(p: Quat, q: Quat, r: Quat)
    ensures
        qmul(qmul(p, q), r).c == qmul(p, qmul(q, r)).c,
{
    broadcast use vstd::arithmetic::mul::group_mul_is_commutative_and_distributive;
    broadcast use vstd::arithmetic::mul::lemma_mul_is_associative;

}

/// The third vector component of the associativity identity.
#[verifier::spinoff_prover]
proof fn lemma_assoc_part_d(p: Quat, q: Quat, r: Quat)
    ensures
        qmul(qmul(p, q), r).d == qmul(p, qmul(q, r)).d,
{
    broadcast use vstd::arithmetic::mul::group_mul_is_commutative_and_distributive;
    broadcast use vstd::arithmetic::mul::lemma_mul_is_associative;

}

/// The Hamilton product is associative, exactly.
pub proof fn lemma_mul_assoc(p: Quat, q: Quat, r: Quat)
    ensures
        qmul(qmul(p, q), r) == qmul(p, qmul(q, r)),
{
    lemma_assoc_part_a(p, q, r);
    lemma_assoc_part_b(p, q, r);
    lemma_assoc_part_c(p, q, r);
    lemma_assoc_part_d(p, q, r);
}

/// The conjugate of a product is the product of the conjugates in
/// reverse order.
#[verifier::spinoff_prover]
pub proof fn lemma_conjugate_product(q: Quat, p: Quat)
    ensures
        qconj(qmul(q, p)) == qmul(qconj(p), qconj(q)),
{
    broadcast use vstd::arithmetic::mul::group_mul_is_commutative_and_distributive;

}

/// Rotation is norm-preserving: conjugating any vector `v` by `q`
/// multiplies its squared norm by the square of `q`'s squared norm, so a
/// unit `q` leaves the length of `v` unchanged. This is the exact form
/// of the statement that rotating a point preserves its distance from
/// the origin.
pub proof fn lemma_rotation_preserves_norm_sq(q: Quat, v: Quat)
    ensures
        qnorm_sq(qrot(q, v)) == qnorm_sq(q) * qnorm_sq(v) * qnorm_sq(q),
{
    lemma_product_norm_sq(qmul(q, v), qconj(q));
    lemma_product_norm_sq(q, v);
    lemma_conjugate_norm_sq(q);
}

/// The special case of a unit quaternion: the squared norm of the
/// rotated vector equals the squared norm of the vector.
pub proof fn lemma_unit_rotation_preserves_norm_sq(q: Quat, v: Quat)
    requires
        qnorm_sq(q) == 1,
    ensures
        qnorm_sq(qrot(q, v)) == qnorm_sq(v),
{
    lemma_rotation_preserves_norm_sq(q, v);
}

/// Two conjugation rotations compose into the rotation by the product
/// quaternion: rotating by `q` and then by `p` is rotating by `p * q`.
#[verifier::spinoff_prover]
pub proof fn lemma_rotation_compose(p: Quat, q: Quat, v: Quat)
    ensures
        qrot(p, qrot(q, v)) == qrot(qmul(p, q), v),
{
    let w = qmul(qmul(q, v), qconj(q));
    lemma_conjugate_product(p, q);
    lemma_mul_assoc(p, qmul(q, v), qconj(q));
    lemma_mul_assoc(p, q, v);
    lemma_mul_assoc(qmul(qmul(p, q), v), qconj(q), qconj(p));
    assert(qmul(p, w) == qmul(qmul(qmul(p, q), v), qconj(q)));
}
/// The product of two rotors about one axis, written out: the scalar
/// parts combine by the cosine addition pattern and the vector parts by
/// the sine addition pattern, up to the squared length of the axis.
#[verifier::spinoff_prover]
pub proof fn lemma_axis_rotor_product(u: (int, int, int), c1: int, s1: int, c2: int, s2: int)
    ensures
        qmul(axis_rotor(u, c2, s2), axis_rotor(u, c1, s1)) == (Quat {
            a: c2 * c1 - (s2 * s1) * (u.0 * u.0 + u.1 * u.1 + u.2 * u.2),
            b: (s2 * c1 + c2 * s1) * u.0,
            c: (s2 * c1 + c2 * s1) * u.1,
            d: (s2 * c1 + c2 * s1) * u.2,
        }),
{
    let l = qmul(axis_rotor(u, c2, s2), axis_rotor(u, c1, s1));
    assert(l.a == c2 * c1 - (s2 * s1) * (u.0 * u.0 + u.1 * u.1 + u.2 * u.2)) by {
        broadcast use vstd::arithmetic::mul::group_mul_is_commutative_and_distributive;
        broadcast use vstd::arithmetic::mul::lemma_mul_is_associative;

    }
    assert(l.b == (s2 * c1 + c2 * s1) * u.0) by {
        broadcast use vstd::arithmetic::mul::group_mul_is_commutative_and_distributive;
        broadcast use vstd::arithmetic::mul::lemma_mul_is_associative;

    }
    assert(l.c == (s2 * c1 + c2 * s1) * u.1) by {
        broadcast use vstd::arithmetic::mul::group_mul_is_commutative_and_distributive;
        broadcast use vstd::arithmetic::mul::lemma_mul_is_associative;

    }
    assert(l.d == (s2 * c1 + c2 * s1) * u.2) by {
        broadcast use vstd::arithmetic::mul::group_mul_is_commutative_and_distributive;
        broadcast use vstd::arithmetic::mul::lemma_mul_is_associative;

    }
}

/// Rotors about one unit axis compose by the angle-addition formulas:
/// with `c1, s1, c2, s2` the cosines and sines of two half-angles, the
/// product rotor carries the cosine and sine of the summed half-angle,
/// so rotating by one angle and then another about the same axis is the
/// single rotation by their sum.
#[verifier::spinoff_prover]
pub proof fn lemma_axis_rotor_compose(u: (int, int, int), c1: int, s1: int, c2: int, s2: int)
    requires
        u.0 * u.0 + u.1 * u.1 + u.2 * u.2 == 1,
    ensures
        qmul(axis_rotor(u, c2, s2), axis_rotor(u, c1, s1)) == (axis_rotor(
            u,
            c2 * c1 - s2 * s1,
            s2 * c1 + c2 * s1,
        )),
{
    lemma_axis_rotor_product(u, c1, s1, c2, s2);
}

/// Scaling multiplies the squared norm by the square of the factor;
/// unitization divides each component by the norm, so at the exact level
/// the unitized quaternion has squared norm one.
#[verifier::spinoff_prover]
pub proof fn lemma_scale_norm_sq(q: Quat, k: int)
    ensures
        qnorm_sq(qscale(q, k)) == (k * k) * qnorm_sq(q),
{
    broadcast use vstd::arithmetic::mul::group_mul_is_commutative_and_distributive;
    broadcast use vstd::arithmetic::mul::lemma_mul_is_associative;

}


/// A conjugate component over the squared norm stays within one
/// `SCALE` squared, because no component exceeds the squared norm.
proof fn lemma_inv_component_fit(x: int, n: int)
    requires
        n >= 1,
        sabs(x) <= n,
    ensures
        sabs(tdiv(x * SCALE * SCALE, n)) <= (SCALE as int) * (SCALE as int),
{
    assert(sabs(x * SCALE * SCALE) <= ((SCALE as int) * (SCALE as int)) * sabs(n))
        by (nonlinear_arith)
        requires
            n >= 1,
            sabs(x) <= n,
    ;
    lemma_tdiv_bound(x * SCALE * SCALE, n, (SCALE as int) * (SCALE as int));
}

/// One unitized component: the square of `l` times the component lies
/// within `l * l * (2s + 1)` of the square of the exact numerator.
#[verifier::spinoff_prover]
proof fn lemma_unit_component(x: int, l: int, s: int)
    requires
        l >= 1,
        s >= 1,
        sabs(x * s) <= l,
    ensures
        sabs((l * tdiv(x * s * s, l)) * (l * tdiv(x * s * s, l)) - (x * s * s) * (x * s * s))
            <= ((2 * s + 1) * l) * l,
{
    crate::fixed::lemma_tdiv_error(x * s * s, l);
    let u = tdiv(x * s * s, l);
    let w = x * s * s;
    let m = l * u;
    let e = w - m;
    assert(m * m - w * w == e * e - 2 * (w * e) - (e * w - w * e)) by (nonlinear_arith)
        requires
            m == w - e,
    ;
    assert(e * w == w * e) by (nonlinear_arith);
    lemma_mul_bound(x * s, s, l, s);
    lemma_mul_bound(w, e, l * s, l);
    assert(sabs(e * e) <= l * l) by (nonlinear_arith)
        requires
            sabs(e) < l,
    ;
    assert(((2 * s + 1) * l) * l == 2 * ((l * s) * l) + l * l) by (nonlinear_arith);
}

/// The executable unitization is accurate for every non-zero
/// quaternion: the unitized quaternion's squared norm lies within
/// eleven fixed-point units of one. The square root is taken at full
/// scale, so even an axis far smaller than one unit unitizes to a
/// genuine unit quaternion.
#[verifier::spinoff_prover]
pub proof fn lemma_unit_norm_near_one(q: Quat)
    requires
        qnorm_sq(q) >= 1,
    ensures
        sabs(qnorm_sq(qunit_fx(q)) - (SCALE as int) * (SCALE as int)) <= 11 * (SCALE as int),
{
    let s = SCALE as int;
    let n = qnorm_sq(q);
    let ns = n * s * s;
    assert(ns >= s * s) by (nonlinear_arith)
        requires
            n >= 1,
            ns == n * s * s,
            s >= 1,
    ;
    crate::fixed::lemma_isqrt_bounds(ns as nat);
    let l = isqrt_spec(ns as nat) as int;
    assert(l >= s) by (nonlinear_arith)
        requires
            ns >= s * s,
            ns < (l + 1) * (l + 1),
            l >= 0,
            s >= 1,
    ;
    assert(sabs(q.a * s) <= l && sabs(q.b * s) <= l && sabs(q.c * s) <= l && sabs(q.d * s) <= l)
        by (nonlinear_arith)
        requires
            n == q.a * q.a + q.b * q.b + q.c * q.c + q.d * q.d,
            ns == n * s * s,
            ns < (l + 1) * (l + 1),
            l >= 0,
            s >= 1,
    ;
    lemma_unit_component(q.a, l, s);
    lemma_unit_component(q.b, l, s);
    lemma_unit_component(q.c, l, s);
    lemma_unit_component(q.d, l, s);
    let ua = tdiv(q.a * s * s, l);
    let ub = tdiv(q.b * s * s, l);
    let uc = tdiv(q.c * s * s, l);
    let ud = tdiv(q.d * s * s, l);
    let uu = qnorm_sq(qunit_fx(q));
    assert(uu == ua * ua + ub * ub + uc * uc + ud * ud);
    assert((l * ua) * (l * ua) == (l * l) * (ua * ua) && (l * ub) * (l * ub) == (l * l) * (ub
        * ub) && (l * uc) * (l * uc) == (l * l) * (uc * uc) && (l * ud) * (l * ud) == (l * l) * (
    ud * ud)) by (nonlinear_arith);
    assert((q.a * s * s) * (q.a * s * s) == ((s * s) * (s * s)) * (q.a * q.a) && (q.b * s * s) * (
    q.b * s * s) == ((s * s) * (s * s)) * (q.b * q.b) && (q.c * s * s) * (q.c * s * s) == ((s
        * s) * (s * s)) * (q.c * q.c) && (q.d * s * s) * (q.d * s * s) == ((s * s) * (s * s)) * (
    q.d * q.d)) by (nonlinear_arith);
    assert((l * l) * uu == (l * l) * (ua * ua) + (l * l) * (ub * ub) + (l * l) * (uc * uc) + (l
        * l) * (ud * ud)) by (nonlinear_arith)
        requires
            uu == ua * ua + ub * ub + uc * uc + ud * ud,
    ;
    assert(((s * s) * (s * s)) * n == ((s * s) * (s * s)) * (q.a * q.a) + ((s * s) * (s * s)) * (
    q.b * q.b) + ((s * s) * (s * s)) * (q.c * q.c) + ((s * s) * (s * s)) * (q.d * q.d))
        by (nonlinear_arith)
        requires
            n == q.a * q.a + q.b * q.b + q.c * q.c + q.d * q.d,
    ;
    assert(sabs((l * l) * uu - ((s * s) * (s * s)) * n) <= 4 * (((2 * s + 1) * l) * l));
    assert(4 * (((2 * s + 1) * l) * l) == (l * l) * (8 * s + 4)) by (nonlinear_arith);
    assert(((s * s) * (s * s)) * n == (s * s) * ns) by (nonlinear_arith)
        requires
            ns == n * s * s,
    ;
    assert(ns <= l * l + 2 * l) by (nonlinear_arith)
        requires
            ns < (l + 1) * (l + 1),
    ;
    assert((s * s) * ns <= (s * s) * (l * l) + (s * s) * (2 * l)) by (nonlinear_arith)
        requires
            ns <= l * l + 2 * l,
            s >= 1,
    ;
    assert((s * s) * (2 * l) <= (l * l) * (2 * s)) by (nonlinear_arith)
        requires
            1 <= s <= l,
    ;
    assert((s * s) * (l * l) + (l * l) * (2 * s) + (l * l) * (8 * s + 4) == (l * l) * (s * s + 10
        * s + 4)) by (nonlinear_arith);
    assert((l * l) * uu <= (l * l) * (s * s + 10 * s + 4));
    assert(uu <= s * s + 10 * s + 4) by (nonlinear_arith)
        requires
            (l * l) * uu <= (l * l) * (s * s + 10 * s + 4),
            l >= 1,
    ;
    assert((s * s) * ns >= (s * s) * (l * l)) by (nonlinear_arith)
        requires
            ns >= l * l,
            s >= 1,
    ;
    assert((s * s) * (l * l) - (l * l) * (8 * s + 4) == (l * l) * (s * s - 8 * s - 4))
        by (nonlinear_arith);
    assert((l * l) * uu >= (l * l) * (s * s - 8 * s - 4));
    assert(uu >= s * s - 8 * s - 4) by (nonlinear_arith)
        requires
            (l * l) * uu >= (l * l) * (s * s - 8 * s - 4),
            l >= 1,
    ;
}

} // verus!
