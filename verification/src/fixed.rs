//! The fixed-point scalar layer: truncated division, wide products,
//! and integer square roots, each with an exact contract.
//!
//! A scalar is an `i64` mantissa with implied denominator `SCALE`.
//! Products of two scalars are formed exactly in `i128` and brought
//! back to scale with `tdiv`, truncated division (rounding toward
//! zero), so that every result is symmetric in sign: negating an
//! input negates the output exactly.

use vstd::prelude::*;

verus! {

use vstd::arithmetic::div_mod::{lemma_div_is_ordered, lemma_div_by_multiple};

/// Denominator of the fixed-point representation: `1.0` is stored as `SCALE`.
pub const SCALE: i64 = 65536;

/// Largest magnitude accepted by the scalar product routines; chosen so
/// that a quaternion product (four wide terms over `SCALE`) fits in `i64`.
pub const PRODUCT_BOUND: i64 = 0x4000000000;

/// The square of `PRODUCT_BOUND`, as a fact the linear solver can use.
pub proof fn lemma_product_bound_sq()
    ensures
        (PRODUCT_BOUND as int) * (PRODUCT_BOUND as int) == 0x10000000000000000000int,
{
    assert((PRODUCT_BOUND as int) * (PRODUCT_BOUND as int) == 0x10000000000000000000int)
        by (nonlinear_arith)
        requires
            PRODUCT_BOUND == 0x4000000000,
    ;
}

/// Magnitude of `x`.
pub open spec fn sabs(x: int) -> int {
    if x >= 0 {
        x
    } else {
        -x
    }
}

/// Truncated division: the quotient of `n` by `d` rounded toward zero.
/// This is the rounding used everywhere a product or a ratio is brought
/// back to the fixed-point scale.
pub open spec fn tdiv(n: int, d: int) -> int
    recommends
        d != 0,
{
    if (n >= 0) == (d >= 0) {
        sabs(n) / sabs(d)
    } else {
        -(sabs(n) / sabs(d))
    }
}

/// A quotient is no larger than any `b` with `|n| <= b * |d|`.
pub proof fn lemma_tdiv_bound(n: int, d: int, b: int)
    requires
        d != 0,
        sabs(n) <= b * sabs(d),
    ensures
        sabs(tdiv(n, d)) <= b,
{
    let nn = sabs(n);
    let dd = sabs(d);
    assert(b >= 0) by (nonlinear_arith)
        requires
            dd >= 1,
            0 <= b * dd,
    ;
    lemma_div_is_ordered(nn, b * dd, dd);
    lemma_div_by_multiple(b, dd);
}

/// The quotient differs from the exact ratio by less than one part in
/// `d`: `|n - d * tdiv(n, d)| < d`.
pub proof fn lemma_tdiv_error(n: int, d: int)
    requires
        d >= 1,
    ensures
        sabs(n - d * tdiv(n, d)) < d,
{
    let a = sabs(n);
    vstd::arithmetic::div_mod::lemma_fundamental_div_mod(a, d);
    vstd::arithmetic::div_mod::lemma_mod_bound(a, d);
    let q = a / d;
    if n >= 0 {
        assert(n - d * tdiv(n, d) == a % d);
    } else {
        assert(tdiv(n, d) == -q);
        assert(d * (-q) == -(d * q)) by (nonlinear_arith);
        assert(n - d * tdiv(n, d) == -(a % d));
    }
}

/// Exact product of two `i64` values, widened to `i128`.
pub fn wmul(x: i64, y: i64) -> (r: i128)
    ensures
        r == x * y,
{
    proof {
        assert((x as int) * (y as int) <= 0x40000000000000000000000000000000int
            && (x as int) * (y as int) >= -0x40000000000000000000000000000000int)
            by (nonlinear_arith)
            requires
                -0x8000000000000000 <= x <= 0x7fffffffffffffff,
                -0x8000000000000000 <= y <= 0x7fffffffffffffff,
        ;
    }
    (x as i128) * (y as i128)
}

/// Truncated division of wide values, landing in `i64`.
pub fn ratio(n: i128, d: i128) -> (r: i64)
    requires
        d != 0,
        n > i128::MIN,
        d > i128::MIN,
        sabs(tdiv(n as int, d as int)) <= 0x7fffffffffffffff,
    ensures
        r == tdiv(n as int, d as int),
{
    let nn: u128 = if n >= 0 {
        n as u128
    } else {
        (-n) as u128
    };
    let dd: u128 = if d >= 0 {
        d as u128
    } else {
        (-d) as u128
    };
    let q: u128 = nn / dd;
    if (n >= 0) == (d >= 0) {
        q as i64
    } else {
        -(q as i64)
    }
}

/// The integer square root: the unique `r` with `r * r <= n < (r + 1) * (r + 1)`.
pub open spec fn isqrt_spec(n: nat) -> nat
    decreases n,
{
    if n == 0 {
        0
    } else {
        let p = isqrt_spec((n - 1) as nat);
        if (p + 1) * (p + 1) <= n {
            p + 1
        } else {
            p
        }
    }
}

pub proof fn lemma_isqrt_bounds(n: nat)
    ensures
        isqrt_spec(n) * isqrt_spec(n) <= n,
        n < (isqrt_spec(n) + 1) * (isqrt_spec(n) + 1),
    decreases n,
{
    if n > 0 {
        lemma_isqrt_bounds((n - 1) as nat);
        let p = isqrt_spec((n - 1) as nat);
        assert(p * p <= n - 1);
        assert(n - 1 < (p + 1) * (p + 1));
        if (p + 1) * (p + 1) <= n {
            assert(isqrt_spec(n) == p + 1);
            assert(n < (p + 1 + 1) * (p + 1 + 1)) by (nonlinear_arith)
                requires
                    n <= (p + 1) * (p + 1),
            ;
            assert(isqrt_spec(n) * isqrt_spec(n) <= n);
            assert(n < (isqrt_spec(n) + 1) * (isqrt_spec(n) + 1));
        } else {
            assert(isqrt_spec(n) == p);
            assert(isqrt_spec(n) * isqrt_spec(n) <= n);
            assert(n < (isqrt_spec(n) + 1) * (isqrt_spec(n) + 1));
        }
    } else {
        let s = isqrt_spec(n);
        assert(s == 0);
        assert((s + 1) * (s + 1) == 1) by (nonlinear_arith)
            requires
                s == 0,
        ;
    }
}

pub proof fn lemma_isqrt_unique(n: nat, r: nat)
    requires
        r * r <= n,
        n < (r + 1) * (r + 1),
    ensures
        r == isqrt_spec(n),
{
    lemma_isqrt_bounds(n);
    let s = isqrt_spec(n);
    if r < s {
        assert((r + 1) * (r + 1) <= s * s) by (nonlinear_arith)
            requires
                r + 1 <= s,
        ;
    }
    if s < r {
        assert((s + 1) * (s + 1) <= r * r) by (nonlinear_arith)
            requires
                s + 1 <= r,
        ;
    }
}

/// Integer square root by bisection.
pub fn isqrt(n: u128) -> (r: u128)
    ensures
        r == isqrt_spec(n as nat),
        r * r <= n,
        n < (r + 1) * (r + 1),
{
    let mut lo: u128 = 0;
    let mut hi: u128 = 0x10000000000000000;
    proof {
        assert((hi as int) * (hi as int) > u128::MAX) by (nonlinear_arith)
            requires
                hi == 0x10000000000000000,
        ;
    }
    while lo + 1 < hi
        invariant
            lo < hi <= 0x10000000000000000,
            (lo as int) * (lo as int) <= n,
            (hi as int) * (hi as int) > n,
        decreases hi - lo,
    {
        let mid: u128 = lo + (hi - lo) / 2;
        proof {
            assert((mid as int) * (mid as int) <= u128::MAX) by (nonlinear_arith)
                requires
                    mid < 0x10000000000000000,
            ;
        }
        if mid * mid <= n {
            lo = mid;
        } else {
            hi = mid;
        }
    }
    proof {
        lemma_isqrt_unique(n as nat, lo as nat);
    }
    lo
}

/// A fixed-point cosine/sine pair standing for an angle. The caller
/// evaluates the trigonometry (the one step that cannot be done in
/// integers) and hands the pair in; everything downstream is exact.
#[derive(Clone, Copy, Debug, PartialEq, Eq, Structural)]
pub struct Trig {
    pub cos: i64,
    pub sin: i64,
}

/// A well-formed pair has both entries within `[-SCALE, SCALE]`,
/// as every genuine cosine/sine pair does.
pub open spec fn trig_wf(t: Trig) -> bool {
    sabs(t.cos as int) <= SCALE && sabs(t.sin as int) <= SCALE
}

impl Trig {
    /// The pair for the zero angle.
    pub fn identity() -> (t: Trig)
        ensures
            t.cos == SCALE,
            t.sin == 0,
            trig_wf(t),
    {
        Trig { cos: SCALE, sin: 0 }
    }
}

/// `x * x` grows with `|x|`; used to pass magnitude bounds through squares.
pub proof fn lemma_square_bound(x: int, b: int)
    requires
        sabs(x) <= b,
    ensures
        0 <= x * x <= b * b,
{
    assert(0 <= x * x <= b * b) by (nonlinear_arith)
        requires
            sabs(x) <= b,
    ;
}

/// `|x * y| <= bx * by` whenever `|x| <= bx` and `|y| <= by`.
pub proof fn lemma_mul_bound(x: int, y: int, bx: int, by: int)
    requires
        sabs(x) <= bx,
        sabs(y) <= by,
    ensures
        sabs(x * y) <= bx * by,
        sabs(x * y) <= by * bx,
{
    assert(sabs(x * y) <= bx * by && sabs(x * y) <= by * bx) by (nonlinear_arith)
        requires
            sabs(x) <= bx,
            sabs(y) <= by,
    ;
}

} // verus!
