//! Rotation matrices: the static-rotation variant of the transform
//! stage. A factory builds the elementary axis rotations and the
//! yaw-pitch-roll composition from supplied cosine/sine pairs, and a
//! matrix applies to a point by fixed-point row products.

use vstd::prelude::*;

verus! {

use crate::fixed::{SCALE, Trig, trig_wf, sabs, tdiv, ratio, wmul, lemma_tdiv_bound, lemma_mul_bound};
use crate::geometry::{Point3, Vec3, p3_bounded};

/// Largest entry magnitude a rotation matrix built here can carry.
pub const MATRIX_BOUND: i64 = 0x20000;

/// Largest coordinate magnitude `apply` accepts.
pub const APPLY_BOUND: i64 = 0x40000000000;

/// A 3-by-3 fixed-point matrix, row by row.
#[derive(Clone, Copy, Debug, PartialEq, Eq, Structural)]
pub struct Matrix {
    pub m00: i64,
    pub m01: i64,
    pub m02: i64,
    pub m10: i64,
    pub m11: i64,
    pub m12: i64,
    pub m20: i64,
    pub m21: i64,
    pub m22: i64,
}

/// All nine entries within `[-b, b]`.
pub open spec fn matrix_bounded(m: Matrix, b: int) -> bool {
    &&& sabs(m.m00 as int) <= b && sabs(m.m01 as int) <= b && sabs(m.m02 as int) <= b
    &&& sabs(m.m10 as int) <= b && sabs(m.m11 as int) <= b && sabs(m.m12 as int) <= b
    &&& sabs(m.m20 as int) <= b && sabs(m.m21 as int) <= b && sabs(m.m22 as int) <= b
}

/// A two-trig product brought to scale.
pub open spec fn tt(a: int, b: int) -> int {
    tdiv(a * b, SCALE as int)
}

/// A three-trig product minus a two-trig product, brought to scale:
/// the shape of the composed rotation's off-diagonal entries.
pub open spec fn ttt(a: int, b: int, c: int, d: int, e: int) -> int {
    tdiv(a * b * c + d * e * SCALE, (SCALE as int) * (SCALE as int))
}

impl Matrix {
    /// Apply the matrix to a point: three fixed-point row products.
    pub fn apply(&self, p: Point3) -> (r: Point3)
        requires
            matrix_bounded(*self, MATRIX_BOUND as int),
            p3_bounded(p@, APPLY_BOUND as int),
        ensures
            r@ == (Vec3 {
                x: tdiv(self.m00 * p@.x + self.m01 * p@.y + self.m02 * p@.z, SCALE as int),
                y: tdiv(self.m10 * p@.x + self.m11 * p@.y + self.m12 * p@.z, SCALE as int),
                z: tdiv(self.m20 * p@.x + self.m21 * p@.y + self.m22 * p@.z, SCALE as int),
            }),
    {
        proof {
            lemma_mul_bound(self.m00 as int, p@.x, 0x20000, 0x40000000000);
            lemma_mul_bound(self.m01 as int, p@.y, 0x20000, 0x40000000000);
            lemma_mul_bound(self.m02 as int, p@.z, 0x20000, 0x40000000000);
            lemma_mul_bound(self.m10 as int, p@.x, 0x20000, 0x40000000000);
            lemma_mul_bound(self.m11 as int, p@.y, 0x20000, 0x40000000000);
            lemma_mul_bound(self.m12 as int, p@.z, 0x20000, 0x40000000000);
            lemma_mul_bound(self.m20 as int, p@.x, 0x20000, 0x40000000000);
            lemma_mul_bound(self.m21 as int, p@.y, 0x20000, 0x40000000000);
            lemma_mul_bound(self.m22 as int, p@.z, 0x20000, 0x40000000000);
            lemma_tdiv_bound(
                self.m00 * p@.x + self.m01 * p@.y + self.m02 * p@.z,
                SCALE as int,
                0x2000000000000,
            );
            lemma_tdiv_bound(
                self.m10 * p@.x + self.m11 * p@.y + self.m12 * p@.z,
                SCALE as int,
                0x2000000000000,
            );
            lemma_tdiv_bound(
                self.m20 * p@.x + self.m21 * p@.y + self.m22 * p@.z,
                SCALE as int,
                0x2000000000000,
            );
        }
        let s = SCALE as i128;
        Point3 {
            x: ratio(wmul(self.m00, p.x) + wmul(self.m01, p.y) + wmul(self.m02, p.z), s),
            y: ratio(wmul(self.m10, p.x) + wmul(self.m11, p.y) + wmul(self.m12, p.z), s),
            z: ratio(wmul(self.m20, p.x) + wmul(self.m21, p.y) + wmul(self.m22, p.z), s),
        }
    }
}

/// Builds the elementary rotations and their composition.
pub struct MatrixFactory;

impl MatrixFactory {
    /// The identity rotation.
    pub fn identity() -> (m: Matrix)
        ensures
            m == (Matrix {
                m00: SCALE,
                m01: 0,
                m02: 0,
                m10: 0,
                m11: SCALE,
                m12: 0,
                m20: 0,
                m21: 0,
                m22: SCALE,
            }),
            matrix_bounded(m, MATRIX_BOUND as int),
    {
        Matrix {
            m00: SCALE,
            m01: 0,
            m02: 0,
            m10: 0,
            m11: SCALE,
            m12: 0,
            m20: 0,
            m21: 0,
            m22: SCALE,
        }
    }

    /// Rotation about the x axis by the angle of `t`.
    pub fn rotate_x(t: Trig) -> (m: Matrix)
        requires
            trig_wf(t),
        ensures
            m.m00 == SCALE && m.m01 == 0 && m.m02 == 0,
            m.m10 == 0 && m.m11 == t.cos && m.m12 == -(t.sin as int),
            m.m20 == 0 && m.m21 == t.sin && m.m22 == t.cos,
            matrix_bounded(m, MATRIX_BOUND as int),
    {
        Matrix {
            m00: SCALE,
            m01: 0,
            m02: 0,
            m10: 0,
            m11: t.cos,
            m12: -t.sin,
            m20: 0,
            m21: t.sin,
            m22: t.cos,
        }
    }

    /// Rotation about the y axis by the angle of `t`.
    pub fn rotate_y(t: Trig) -> (m: Matrix)
        requires
            trig_wf(t),
        ensures
            m.m00 == t.cos && m.m01 == 0 && m.m02 == t.sin,
            m.m10 == 0 && m.m11 == SCALE && m.m12 == 0,
            m.m20 == -(t.sin as int) && m.m21 == 0 && m.m22 == t.cos,
            matrix_bounded(m, MATRIX_BOUND as int),
    {
        Matrix {
            m00: t.cos,
            m01: 0,
            m02: t.sin,
            m10: 0,
            m11: SCALE,
            m12: 0,
            m20: -t.sin,
            m21: 0,
            m22: t.cos,
        }
    }

    /// Rotation about the z axis by the angle of `t`.
    pub fn rotate_z(t: Trig) -> (m: Matrix)
        requires
            trig_wf(t),
        ensures
            m.m00 == t.cos && m.m01 == -(t.sin as int) && m.m02 == 0,
            m.m10 == t.sin && m.m11 == t.cos && m.m12 == 0,
            m.m20 == 0 && m.m21 == 0 && m.m22 == SCALE,
            matrix_bounded(m, MATRIX_BOUND as int),
    {
        Matrix {
            m00: t.cos,
            m01: -t.sin,
            m02: 0,
            m10: t.sin,
            m11: t.cos,
            m12: 0,
            m20: 0,
            m21: 0,
            m22: SCALE,
        }
    }

    /// The yaw-pitch-roll composition: with `a` the yaw, `b` the pitch
    /// and `g` the roll pairs, the standard Tait-Bryan rotation matrix,
    /// entry by entry in fixed point.
    pub fn rotate(roll: Trig, pitch: Trig, yaw: Trig) -> (m: Matrix)
        requires
            trig_wf(roll),
            trig_wf(pitch),
            trig_wf(yaw),
        ensures
            m.m00 == tt(yaw.cos as int, pitch.cos as int),
            m.m01 == ttt(
                yaw.cos as int,
                pitch.sin as int,
                roll.sin as int,
                -(yaw.sin as int),
                roll.cos as int,
            ),
            m.m02 == ttt(
                yaw.cos as int,
                pitch.sin as int,
                roll.cos as int,
                yaw.sin as int,
                roll.sin as int,
            ),
            m.m10 == tt(yaw.sin as int, pitch.cos as int),
            m.m11 == ttt(
                yaw.sin as int,
                pitch.sin as int,
                roll.sin as int,
                yaw.cos as int,
                roll.cos as int,
            ),
            m.m12 == ttt(
                yaw.sin as int,
                pitch.sin as int,
                roll.cos as int,
                -(yaw.cos as int),
                roll.sin as int,
            ),
            m.m20 == -tt(pitch.sin as int, SCALE as int),
            m.m21 == tt(pitch.cos as int, roll.sin as int),
            m.m22 == tt(pitch.cos as int, roll.cos as int),
            matrix_bounded(m, MATRIX_BOUND as int),
    {
        let s = SCALE as i128;
        let sina = yaw.sin as i128;
        let cosa = yaw.cos as i128;
        let sinb = pitch.sin as i128;
        let cosb = pitch.cos as i128;
        let sing = roll.sin as i128;
        let cosg = roll.cos as i128;
        proof {
            lemma_tt_fits(yaw.cos as int, pitch.cos as int);
            lemma_tt_fits(yaw.sin as int, pitch.cos as int);
            lemma_tt_fits(pitch.sin as int, SCALE as int);
            lemma_tt_fits(pitch.cos as int, roll.sin as int);
            lemma_tt_fits(pitch.cos as int, roll.cos as int);
            lemma_ttt_fits(
                yaw.cos as int,
                pitch.sin as int,
                roll.sin as int,
                -(yaw.sin as int),
                roll.cos as int,
            );
            lemma_ttt_fits(
                yaw.cos as int,
                pitch.sin as int,
                roll.cos as int,
                yaw.sin as int,
                roll.sin as int,
            );
            lemma_ttt_fits(
                yaw.sin as int,
                pitch.sin as int,
                roll.sin as int,
                yaw.cos as int,
                roll.cos as int,
            );
            lemma_ttt_fits(
                yaw.sin as int,
                pitch.sin as int,
                roll.cos as int,
                -(yaw.cos as int),
                roll.sin as int,
            );
        }
        let ss = s * s;
        Matrix {
            m00: ratio(cosa * cosb, s),
            m01: ratio(cosa * sinb * sing + (-sina) * cosg * s, ss),
            m02: ratio(cosa * sinb * cosg + sina * sing * s, ss),
            m10: ratio(sina * cosb, s),
            m11: ratio(sina * sinb * sing + cosa * cosg * s, ss),
            m12: ratio(sina * sinb * cosg + (-cosa) * sing * s, ss),
            m20: -ratio(sinb * s, s),
            m21: ratio(cosb * sing, s),
            m22: ratio(cosb * cosg, s),
        }
    }
}

/// A two-trig product over `SCALE` stays within one `SCALE`.
proof fn lemma_tt_fits(a: int, b: int)
    requires
        sabs(a) <= SCALE as int,
        sabs(b) <= SCALE as int,
    ensures
        sabs(tt(a, b)) <= SCALE as int,
        sabs(a * b) <= 0x100000000,
{
    lemma_mul_bound(a, b, SCALE as int, SCALE as int);
    assert((SCALE as int) * (SCALE as int) == 0x100000000int) by (nonlinear_arith)
        requires
            SCALE == 65536,
    ;
    lemma_tdiv_bound(a * b, SCALE as int, SCALE as int);
}

/// A composed entry stays within twice `SCALE`.
proof fn lemma_ttt_fits(a: int, b: int, c: int, d: int, e: int)
    requires
        sabs(a) <= SCALE as int,
        sabs(b) <= SCALE as int,
        sabs(c) <= SCALE as int,
        sabs(d) <= SCALE as int,
        sabs(e) <= SCALE as int,
    ensures
        sabs(ttt(a, b, c, d, e)) <= 2 * (SCALE as int),
        sabs(a * b) <= 0x100000000,
        sabs(a * b * c) <= 0x1000000000000,
        sabs(d * e) <= 0x100000000,
        sabs(d * e * SCALE) <= 0x1000000000000,
        sabs(a * b * c + d * e * SCALE) <= 0x2000000000000,
{
    lemma_mul_bound(a, b, SCALE as int, SCALE as int);
    assert((SCALE as int) * (SCALE as int) == 0x100000000int) by (nonlinear_arith)
        requires
            SCALE == 65536,
    ;
    lemma_mul_bound(a * b, c, 0x100000000, 0x10000);
    lemma_mul_bound(d, e, SCALE as int, SCALE as int);
    lemma_mul_bound(d * e, SCALE as int, 0x100000000, 0x10000);
    lemma_tdiv_bound(a * b * c + d * e * SCALE, 0x100000000, 2 * (SCALE as int));
}

} // verus!
