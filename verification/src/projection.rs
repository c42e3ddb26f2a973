//! Fixed-eye perspective projection: camera-space rotation by the
//! Tait-Bryan angles, then division by view depth.
//!
//! At the projection singularity (view depth zero, a point on the
//! camera's focal plane) the depth is clamped to `DZ_MIN` with its sign
//! kept (`+DZ_MIN` at exactly zero), so projection is total: a point on
//! the focal plane lands at the eye offset instead of dividing by zero.

use vstd::prelude::*;

verus! {

use crate::fixed::{SCALE, Trig, trig_wf, sabs, tdiv, ratio, lemma_tdiv_bound, lemma_mul_bound};
use crate::geometry::{Point, Point3, Vec3, p3_bounded, COORD_BOUND};

/// Smallest view depth the projection divides by, about 0.0625 in scene
/// units: depths nearer the focal plane are clamped to it.
pub const DZ_MIN: i64 = 0x1000;

/// Largest eye distance accepted, 16 in scene units.
pub const EZ_BOUND: i64 = 0x100000;

/// Largest coordinate magnitude accepted by the projection.
pub const PROJ_BOUND: i64 = 0x40000000000;

/// The cosine/sine pairs of the camera's three Tait-Bryan angles.
#[derive(Clone, Copy, Debug, PartialEq, Eq, Structural)]
pub struct CameraAngles {
    pub x: Trig,
    pub y: Trig,
    pub z: Trig,
}

/// All three pairs within range.
pub open spec fn angles_wf(t: CameraAngles) -> bool {
    trig_wf(t.x) && trig_wf(t.y) && trig_wf(t.z)
}

/// The horizontal view-space coordinate of `a` under the angles `t`.
pub open spec fn view_dx(a: Vec3, t: CameraAngles) -> int {
    tdiv(
        t.y.cos * (t.z.sin * a.y + t.z.cos * a.x) - t.y.sin * a.z * SCALE,
        (SCALE as int) * (SCALE as int),
    )
}

/// The vertical view-space coordinate of `a` under the angles `t`.
pub open spec fn view_dy(a: Vec3, t: CameraAngles) -> int {
    tdiv(
        t.x.sin * (t.y.cos * a.z * SCALE + t.y.sin * (t.z.sin * a.y + t.z.cos * a.x)) + t.x.cos
            * (t.z.cos * a.y - t.z.sin * a.x) * SCALE,
        (SCALE as int) * (SCALE as int) * (SCALE as int),
    )
}

/// The view-space depth of `a` under the angles `t`.
pub open spec fn view_dz(a: Vec3, t: CameraAngles) -> int {
    tdiv(
        t.x.cos * (t.y.cos * a.z * SCALE + t.y.sin * (t.z.sin * a.y + t.z.cos * a.x)) - t.x.sin
            * (t.z.cos * a.y - t.z.sin * a.x) * SCALE,
        (SCALE as int) * (SCALE as int) * (SCALE as int),
    )
}

/// The depth actually divided by: clamped away from zero, keeping its
/// sign, with `+DZ_MIN` at exactly zero.
pub open spec fn clamp_dz(dz: int) -> int {
    if 0 <= dz < DZ_MIN as int {
        DZ_MIN as int
    } else if -(DZ_MIN as int) < dz < 0 {
        -(DZ_MIN as int)
    } else {
        dz
    }
}

/// Where `a` lands on the screen: eye distance over clamped depth times
/// the view-space offsets, shifted by the eye's own offset.
pub open spec fn spec_project(a: Vec3, e: Vec3, t: CameraAngles) -> (int, int) {
    let dx = view_dx(a, t);
    let dy = view_dy(a, t);
    let dz = clamp_dz(view_dz(a, t));
    (tdiv(e.z * dx, dz) + e.x, tdiv(e.z * dy, dz) + e.y)
}

/// Project the point `a` onto the display surface at `e` (its `z` is
/// the eye distance derived from the field of view) with the camera
/// turned by the Tait-Bryan angles `t`.
pub fn project_point(a: Point3, e: Point3, t: &CameraAngles) -> (r: Point)
    requires
        p3_bounded(a@, PROJ_BOUND as int),
        angles_wf(*t),
        sabs(e@.x) <= COORD_BOUND as int,
        sabs(e@.y) <= COORD_BOUND as int,
        sabs(e@.z) <= EZ_BOUND as int,
    ensures
        r.x == spec_project(a@, e@, *t).0,
        r.y == spec_project(a@, e@, *t).1,
{
    let s = SCALE as i128;
    let ax = a.x as i128;
    let ay = a.y as i128;
    let az = a.z as i128;
    let cx = t.x.cos as i128;
    let sx = t.x.sin as i128;
    let cy = t.y.cos as i128;
    let sy = t.y.sin as i128;
    let cz = t.z.cos as i128;
    let sz = t.z.sin as i128;
    proof {
        lemma_mul_bound(sz as int, ay as int, 65536, 0x40000000000);
        lemma_mul_bound(cz as int, ax as int, 65536, 0x40000000000);
        lemma_mul_bound(cz as int, ay as int, 65536, 0x40000000000);
        lemma_mul_bound(sz as int, ax as int, 65536, 0x40000000000);
        lemma_mul_bound(cy as int, az as int, 65536, 0x40000000000);
    }
    let inner: i128 = sz * ay + cz * ax;
    let cross: i128 = cz * ay - sz * ax;
    proof {
        lemma_mul_bound(cy as int, inner as int, 65536, 0x800000000000000);
        lemma_mul_bound(sy as int, az as int, 65536, 0x40000000000);
        lemma_mul_bound(sy as int, inner as int, 65536, 0x800000000000000);
    }
    let ndx: i128 = cy * inner - sy * az * s;
    let mid: i128 = cy * az * s + sy * inner;
    proof {
        lemma_mul_bound(sx as int, mid as int, 65536, 0x10000000000000000000);
        lemma_mul_bound(cx as int, mid as int, 65536, 0x10000000000000000000);
        lemma_mul_bound(cx as int, cross as int, 65536, 0x800000000000000);
        lemma_mul_bound(sx as int, cross as int, 65536, 0x800000000000000);
    }
    let ndy: i128 = sx * mid + cx * cross * s;
    let ndz: i128 = cx * mid - sx * cross * s;
    proof {
        lemma_tdiv_bound(ndx as int, (SCALE as int) * (SCALE as int), 0x200000000000);
        lemma_tdiv_bound(
            ndy as int,
            (SCALE as int) * (SCALE as int) * (SCALE as int),
            0x400000000000,
        );
        lemma_tdiv_bound(
            ndz as int,
            (SCALE as int) * (SCALE as int) * (SCALE as int),
            0x400000000000,
        );
        assert(s * s == 0x100000000int && s * s * s == 0x1000000000000int) by (nonlinear_arith)
            requires
                s == 65536,
        ;
    }
    let dx = ratio(ndx, s * s);
    let dy = ratio(ndy, s * s * s);
    let dz = ratio(ndz, s * s * s);
    let cdz: i64 = if dz >= 0 && dz < DZ_MIN {
        DZ_MIN
    } else if dz < 0 && dz > -DZ_MIN {
        -DZ_MIN
    } else {
        dz
    };
    proof {
        lemma_mul_bound(e@.z, dx as int, 0x100000, 0x200000000000);
        lemma_mul_bound(e@.z, dy as int, 0x100000, 0x400000000000);
        lemma_tdiv_bound((e@.z) * (dx as int), cdz as int, 0x20000000000000);
        lemma_tdiv_bound((e@.z) * (dy as int), cdz as int, 0x40000000000000);
    }
    let bx = ratio((e.z as i128) * (dx as i128), cdz as i128) + e.x;
    let by = ratio((e.z as i128) * (dy as i128), cdz as i128) + e.y;
    Point { x: bx, y: by }
}

} // verus!
