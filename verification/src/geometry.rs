//! Vector geometry primitives: 2-D and 3-D fixed-point points, the
//! color tag carried by every drawable, and the edge tessellator that
//! turns a pair of vertices into a dense, evenly spaced point sequence.

use vstd::prelude::*;

verus! {

use crate::fixed::{SCALE, PRODUCT_BOUND, sabs, tdiv, ratio, wmul, lemma_tdiv_bound};

/// Largest coordinate magnitude accepted for scene input: vertices,
/// shape offsets, world translations and eye offsets. In scene units
/// this is 4096, far beyond any drawable scene.
pub const COORD_BOUND: i64 = 0x10000000;

/// Largest coordinate magnitude a tessellated point can reach: an
/// interpolated point lies within the span of its two endpoints.
pub const TESS_BOUND: i64 = 0x30000000;

/// Number of interpolated points per tessellated edge.
pub const LINE_POINTS: usize = 200;

/// The color tag carried by a shape into its drawable output.
#[derive(Clone, Copy, Debug, PartialEq, Eq, Structural)]
pub enum Color {
    White,
    Red,
    Green,
    Blue,
    Magenta,
    Cyan,
    LightYellow,
    Gray,
}

/// A 2-D fixed-point point: the result of projection.
#[derive(Clone, Copy, Debug, PartialEq, Eq, Structural)]
pub struct Point {
    pub x: i64,
    pub y: i64,
}

/// A 3-D fixed-point point.
#[derive(Clone, Copy, Debug, PartialEq, Eq, Structural)]
pub struct Point3 {
    pub x: i64,
    pub y: i64,
    pub z: i64,
}

/// A 3-D point over the unbounded integers: the model for contracts.
pub struct Vec3 {
    pub x: int,
    pub y: int,
    pub z: int,
}

impl View for Point3 {
    type V = Vec3;

    open spec fn view(&self) -> Vec3 {
        Vec3 { x: self.x as int, y: self.y as int, z: self.z as int }
    }
}

/// All three coordinates within `[-b, b]`.
pub open spec fn p3_bounded(p: Vec3, b: int) -> bool {
    sabs(p.x) <= b && sabs(p.y) <= b && sabs(p.z) <= b
}

impl Point {
    pub fn new(x: i64, y: i64) -> (p: Point)
        ensures
            p.x == x && p.y == y,
    {
        Point { x, y }
    }

    /// Component-wise sum.
    pub fn add(&self, other: &Point) -> (r: Point)
        requires
            i64::MIN <= self.x + other.x <= i64::MAX,
            i64::MIN <= self.y + other.y <= i64::MAX,
        ensures
            r.x == self.x + other.x,
            r.y == self.y + other.y,
    {
        Point { x: self.x + other.x, y: self.y + other.y }
    }

    /// Component-wise difference.
    pub fn subtract(&self, other: &Point) -> (r: Point)
        requires
            i64::MIN <= self.x - other.x <= i64::MAX,
            i64::MIN <= self.y - other.y <= i64::MAX,
        ensures
            r.x == self.x - other.x,
            r.y == self.y - other.y,
    {
        Point { x: self.x - other.x, y: self.y - other.y }
    }

    /// Scaling by a fixed-point factor, truncated.
    pub fn scale(&self, scalar: i64) -> (r: Point)
        requires
            sabs(self.x as int) <= PRODUCT_BOUND as int,
            sabs(self.y as int) <= PRODUCT_BOUND as int,
            sabs(scalar as int) <= PRODUCT_BOUND as int,
        ensures
            r.x == tdiv(self.x * scalar, SCALE as int),
            r.y == tdiv(self.y * scalar, SCALE as int),
    {
        proof {
            crate::fixed::lemma_mul_bound(
                self.x as int,
                scalar as int,
                PRODUCT_BOUND as int,
                PRODUCT_BOUND as int,
            );
            crate::fixed::lemma_mul_bound(
                self.y as int,
                scalar as int,
                PRODUCT_BOUND as int,
                PRODUCT_BOUND as int,
            );
            crate::fixed::lemma_product_bound_sq();
            lemma_tdiv_bound((self.x as int) * (scalar as int), SCALE as int, 0x4000000000000000);
            lemma_tdiv_bound((self.y as int) * (scalar as int), SCALE as int, 0x4000000000000000);
        }
        let s = SCALE as i128;
        Point { x: ratio(wmul(self.x, scalar), s), y: ratio(wmul(self.y, scalar), s) }
    }
}

impl Point3 {
    pub fn new(x: i64, y: i64, z: i64) -> (p: Point3)
        ensures
            p.x == x && p.y == y && p.z == z,
    {
        Point3 { x, y, z }
    }

    /// Component-wise sum.
    pub fn add(&self, other: &Point3) -> (r: Point3)
        requires
            i64::MIN <= self.x + other.x <= i64::MAX,
            i64::MIN <= self.y + other.y <= i64::MAX,
            i64::MIN <= self.z + other.z <= i64::MAX,
        ensures
            r@ == (Vec3 {
                x: self.x + other.x,
                y: self.y + other.y,
                z: self.z + other.z,
            }),
    {
        Point3 { x: self.x + other.x, y: self.y + other.y, z: self.z + other.z }
    }

    /// Component-wise difference.
    pub fn subtract(&self, other: &Point3) -> (r: Point3)
        requires
            i64::MIN <= self.x - other.x <= i64::MAX,
            i64::MIN <= self.y - other.y <= i64::MAX,
            i64::MIN <= self.z - other.z <= i64::MAX,
        ensures
            r@ == (Vec3 {
                x: self.x - other.x,
                y: self.y - other.y,
                z: self.z - other.z,
            }),
    {
        Point3 { x: self.x - other.x, y: self.y - other.y, z: self.z - other.z }
    }
}

/// The per-coordinate step of an edge discretized into `n` segments.
pub open spec fn interp_step(a: int, b: int, n: int) -> int {
    tdiv(b - a, n)
}

/// The `k`-th interpolated point of the edge from `s` to `e` at
/// resolution `n`: the start plus `k` exact copies of the step.
pub open spec fn interp_at(s: Vec3, e: Vec3, n: int, k: int) -> Vec3 {
    Vec3 {
        x: s.x + k * interp_step(s.x, e.x, n),
        y: s.y + k * interp_step(s.y, e.y, n),
        z: s.z + k * interp_step(s.z, e.z, n),
    }
}

/// `k` copies of the step stay within the span of the edge.
proof fn lemma_scaled_step_bound(d: int, n: int, k: int)
    requires
        n >= 1,
        0 <= k <= n,
    ensures
        sabs(k * tdiv(d, n)) <= sabs(d),
{
    let q = tdiv(d, n);
    assert(sabs(k * q) <= n * sabs(q)) by (nonlinear_arith)
        requires
            0 <= k <= n,
    ;
    assert(n * (sabs(d) / n) <= sabs(d)) by {
        vstd::arithmetic::div_mod::lemma_fundamental_div_mod(sabs(d), n);
        vstd::arithmetic::div_mod::lemma_mod_bound(sabs(d), n);
    }
    assert(n * sabs(q) <= sabs(d)) by (nonlinear_arith)
        requires
            n >= 1,
            sabs(q) == sabs(d) / n,
            n * (sabs(d) / n) <= sabs(d),
    ;
}

/// Consecutive interpolated points differ by exactly the step: the
/// discretized edge is evenly spaced.
pub proof fn lemma_interpolation_equidistant(s: Vec3, e: Vec3, n: int, k: int)
    requires
        n >= 1,
    ensures
        interp_at(s, e, n, k + 1).x - interp_at(s, e, n, k).x == interp_step(s.x, e.x, n),
        interp_at(s, e, n, k + 1).y - interp_at(s, e, n, k).y == interp_step(s.y, e.y, n),
        interp_at(s, e, n, k + 1).z - interp_at(s, e, n, k).z == interp_step(s.z, e.z, n),
{
    let qx = interp_step(s.x, e.x, n);
    let qy = interp_step(s.y, e.y, n);
    let qz = interp_step(s.z, e.z, n);
    assert((k + 1) * qx == k * qx + qx && (k + 1) * qy == k * qy + qy && (k + 1) * qz == k * qz
        + qz) by (nonlinear_arith);
}

/// The first interpolated point is the start itself.
pub proof fn lemma_interpolation_starts_at_start(s: Vec3, e: Vec3, n: int)
    requires
        n >= 1,
    ensures
        interp_at(s, e, n, 0) == s,
{
    broadcast use vstd::arithmetic::mul::group_mul_basics;

}

/// A tessellated edge: an ordered pair of endpoints, its dense point
/// sequence, its midpoint, and the color it will be drawn in.
pub struct Line {
    pub points: Vec<Point3>,
    pub start: Point3,
    pub end: Point3,
    pub center: Point3,
    pub color: Color,
}

impl Line {
    /// Discretize the edge from `start` (inclusive) to just short of
    /// `end` into exactly `n` evenly spaced points.
    pub fn interpolate(start: &Point3, end: &Point3, n: usize) -> (r: Vec<Point3>)
        requires
            1 <= n <= 100000,
            p3_bounded(start@, COORD_BOUND as int),
            p3_bounded(end@, COORD_BOUND as int),
        ensures
            r@.len() == n,
            forall|k: int|
                0 <= k < n ==> #[trigger] r@[k]@ == interp_at(start@, end@, n as int, k),
            forall|k: int| 0 <= k < n ==> p3_bounded(#[trigger] r@[k]@, TESS_BOUND as int),
    {
        let ni = n as i64;
        let dx = ratio((end.x as i128) - (start.x as i128), ni as i128);
        let dy = ratio((end.y as i128) - (start.y as i128), ni as i128);
        let dz = ratio((end.z as i128) - (start.z as i128), ni as i128);
        proof {
            lemma_tdiv_bound(end.x - start.x, ni as int, 2 * (COORD_BOUND as int));
            lemma_tdiv_bound(end.y - start.y, ni as int, 2 * (COORD_BOUND as int));
            lemma_tdiv_bound(end.z - start.z, ni as int, 2 * (COORD_BOUND as int));
        }
        let mut r: Vec<Point3> = Vec::new();
        let mut k: usize = 0;
        while k < n
            invariant
                0 <= k <= n,
                n <= 100000,
                ni == n as i64,
                p3_bounded(start@, COORD_BOUND as int),
                p3_bounded(end@, COORD_BOUND as int),
                dx == interp_step(start@.x, end@.x, n as int),
                dy == interp_step(start@.y, end@.y, n as int),
                dz == interp_step(start@.z, end@.z, n as int),
                r@.len() == k,
                forall|j: int|
                    0 <= j < k ==> #[trigger] r@[j]@ == interp_at(start@, end@, n as int, j),
                forall|j: int| 0 <= j < k ==> p3_bounded(#[trigger] r@[j]@, TESS_BOUND as int),
            decreases n - k,
        {
            proof {
                lemma_scaled_step_bound(end@.x - start@.x, n as int, k as int);
                lemma_scaled_step_bound(end@.y - start@.y, n as int, k as int);
                lemma_scaled_step_bound(end@.z - start@.z, n as int, k as int);
            }
            let ki = k as i64;
            let p = Point3 { x: start.x + ki * dx, y: start.y + ki * dy, z: start.z + ki * dz };
            r.push(p);
            k = k + 1;
        }
        r
    }

    /// The arithmetic midpoint of two points, truncated toward zero.
    pub fn center_point_of(a: &Point3, b: &Point3) -> (r: Point3)
        requires
            p3_bounded(a@, COORD_BOUND as int),
            p3_bounded(b@, COORD_BOUND as int),
        ensures
            r@ == (Vec3 {
                x: tdiv(a@.x + b@.x, 2),
                y: tdiv(a@.y + b@.y, 2),
                z: tdiv(a@.z + b@.z, 2),
            }),
            p3_bounded(r@, COORD_BOUND as int),
    {
        proof {
            lemma_tdiv_bound(a@.x + b@.x, 2, COORD_BOUND as int);
            lemma_tdiv_bound(a@.y + b@.y, 2, COORD_BOUND as int);
            lemma_tdiv_bound(a@.z + b@.z, 2, COORD_BOUND as int);
        }
        Point3 {
            x: ratio((a.x as i128) + (b.x as i128), 2),
            y: ratio((a.y as i128) + (b.y as i128), 2),
            z: ratio((a.z as i128) + (b.z as i128), 2),
        }
    }

    /// Build the edge: its point sequence at the standard resolution
    /// and its midpoint.
    pub fn new(start: Point3, end: Point3, color: Color) -> (l: Line)
        requires
            p3_bounded(start@, COORD_BOUND as int),
            p3_bounded(end@, COORD_BOUND as int),
        ensures
            l.start == start,
            l.end == end,
            l.color == color,
            l.points@.len() == LINE_POINTS,
            forall|k: int|
                0 <= k < LINE_POINTS ==> #[trigger] l.points@[k]@ == interp_at(
                    start@,
                    end@,
                    LINE_POINTS as int,
                    k,
                ),
            forall|k: int|
                0 <= k < LINE_POINTS ==> p3_bounded(#[trigger] l.points@[k]@, TESS_BOUND as int),
            l.center@ == (Vec3 {
                x: tdiv(start@.x + end@.x, 2),
                y: tdiv(start@.y + end@.y, 2),
                z: tdiv(start@.z + end@.z, 2),
            }),
            p3_bounded(l.center@, COORD_BOUND as int),
    {
        let points = Line::interpolate(&start, &end, LINE_POINTS);
        let center = Line::center_point_of(&start, &end);
        Line { points, start, end, center, color }
    }

    /// The point sequence, copied out.
    pub fn as_data(&self) -> (r: Vec<Point3>)
        ensures
            r@ == self.points@,
    {
        let mut r: Vec<Point3> = Vec::new();
        let mut i: usize = 0;
        while i < self.points.len()
            invariant
                0 <= i <= self.points.len(),
                r@ == self.points@.take(i as int),
            decreases self.points.len() - i,
        {
            r.push(self.points[i]);
            proof {
                assert(r@ =~= self.points@.take(i + 1));
            }
            i = i + 1;
        }
        proof {
            assert(r@ =~= self.points@);
        }
        r
    }

    /// Replace the color, keeping the geometry.
    pub fn color(self, color: Color) -> (l: Line)
        ensures
            l.points == self.points,
            l.start == self.start,
            l.end == self.end,
            l.center == self.center,
            l.color == color,
    {
        Line { color, ..self }
    }

    /// The length of the edge, rounded down: the integer square root of
    /// the squared distance between the endpoints.
    pub fn len(&self) -> (r: i64)
        requires
            p3_bounded(self.start@, COORD_BOUND as int),
            p3_bounded(self.end@, COORD_BOUND as int),
        ensures
            r == crate::fixed::isqrt_spec(
                ((self.end@.x - self.start@.x) * (self.end@.x - self.start@.x) + (self.end@.y
                    - self.start@.y) * (self.end@.y - self.start@.y) + (self.end@.z
                    - self.start@.z) * (self.end@.z - self.start@.z)) as nat,
            ),
    {
        let ex = (self.end.x as i128) - (self.start.x as i128);
        let ey = (self.end.y as i128) - (self.start.y as i128);
        let ez = (self.end.z as i128) - (self.start.z as i128);
        proof {
            crate::fixed::lemma_square_bound(ex as int, 2 * (COORD_BOUND as int));
            crate::fixed::lemma_square_bound(ey as int, 2 * (COORD_BOUND as int));
            crate::fixed::lemma_square_bound(ez as int, 2 * (COORD_BOUND as int));
            assert((2 * (COORD_BOUND as int)) * (2 * (COORD_BOUND as int))
                == 0x400000000000000int) by (nonlinear_arith)
                requires
                    COORD_BOUND == 0x10000000,
            ;
        }
        let ws: i128 = ex * ex + ey * ey + ez * ez;
        let r = crate::fixed::isqrt(ws as u128);
        proof {
            assert(r as int <= 0x100000000int) by (nonlinear_arith)
                requires
                    (r as int) * (r as int) <= 0xc00000000000000int,
                    r >= 0,
            ;
        }
        r as i64
    }
}

} // verus!
