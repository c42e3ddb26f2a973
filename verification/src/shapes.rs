//! Shapes: a polygon owns a vertex ring, its tessellated point cloud,
//! a world offset and a rotation descriptor, and renders itself by
//! tessellating, transforming and projecting; a polyhedron is a group
//! of polygons rendered together.

use vstd::prelude::*;

verus! {

use crate::fixed::{SCALE, PRODUCT_BOUND, Trig, trig_wf, sabs, tdiv, ratio, lemma_tdiv_bound};
use crate::geometry::{
    Color,
    Point,
    Point3,
    Vec3,
    Line,
    p3_bounded,
    interp_at,
    COORD_BOUND,
    TESS_BOUND,
    LINE_POINTS,
};
use crate::quaternions::{Quaternion, Quat, qbounded, qnorm_sq, spec_rotate_point};
use crate::projection::{CameraAngles, angles_wf, spec_project, project_point, EZ_BOUND, PROJ_BOUND};
use crate::world::{WorldMetrics, world_wf};

/// Largest vertex ring a polygon will accept.
pub const MAX_VERTICES: usize = 4096;

/// Largest coordinate magnitude a transformed point can reach: the
/// rotation result plus the shape offset and the world translation.
pub const TRANSFORM_BOUND: i64 = 0x4040000000;

/// Why a vertex ring, offset or rotation descriptor was rejected.
#[derive(Clone, Copy, Debug, PartialEq, Eq, Structural)]
pub enum ShapeError {
    TooFewVertices,
    TooManyVertices,
    CoordinateOutOfRange,
    DegenerateRotation,
}

/// The per-frame camera: the eye distance derived from the field of
/// view, and the cosine/sine pairs of pitch and yaw (roll is not used
/// by the projection).
#[derive(Clone, Copy, Debug, PartialEq, Eq, Structural)]
pub struct Camera {
    pub ez: i64,
    pub pitch: Trig,
    pub yaw: Trig,
}

/// Eye distance within range and both pairs well-formed.
pub open spec fn camera_wf(c: Camera) -> bool {
    trig_wf(c.pitch) && trig_wf(c.yaw) && sabs(c.ez as int) <= EZ_BOUND as int
}

/// The display surface position the camera projects onto.
pub open spec fn cam_eye(c: Camera) -> Vec3 {
    Vec3 { x: 0, y: 0, z: c.ez as int }
}

/// The Tait-Bryan angle pairs the camera projects with: pitch, yaw,
/// and a fixed zero roll.
pub open spec fn cam_angles(c: Camera) -> CameraAngles {
    CameraAngles { x: c.pitch, y: c.yaw, z: Trig { cos: SCALE, sin: 0 } }
}

/// One drawable polyline leaving the pipeline: the projected points,
/// the shape's color, and its depth key (the z of its center of mass).
pub struct Drawable {
    pub points: Vec<Point>,
    pub color: Color,
    pub depth: i64,
}

/// The vertex that closes the edge starting at `vs[j]`: the next
/// vertex, or the first for the wrap-around edge.
pub open spec fn edge_end(vs: Seq<Point3>, j: int) -> Point3 {
    if j + 1 < vs.len() {
        vs[j + 1]
    } else {
        vs[0]
    }
}

/// The midpoint of the edge starting at `vs[j]`.
pub open spec fn edge_mid(vs: Seq<Point3>, j: int) -> Vec3 {
    Vec3 {
        x: tdiv(vs[j]@.x + edge_end(vs, j)@.x, 2),
        y: tdiv(vs[j]@.y + edge_end(vs, j)@.y, 2),
        z: tdiv(vs[j]@.z + edge_end(vs, j)@.z, 2),
    }
}

/// The sum of the first `j` edge midpoints.
pub open spec fn center_sum(vs: Seq<Point3>, j: int) -> Vec3
    decreases j,
{
    if j <= 0 {
        Vec3 { x: 0, y: 0, z: 0 }
    } else {
        let s = center_sum(vs, j - 1);
        let m = edge_mid(vs, j - 1);
        Vec3 { x: s.x + m.x, y: s.y + m.y, z: s.z + m.z }
    }
}

/// The center of mass used for culling and depth ordering: the mean of
/// the edge midpoints (not the centroid of all tessellated points).
pub open spec fn spec_polygon_center(vs: Seq<Point3>) -> Vec3 {
    let n = vs.len() as int;
    let s = center_sum(vs, n);
    Vec3 { x: tdiv(s.x, n), y: tdiv(s.y, n), z: tdiv(s.z, n) }
}

/// The `i`-th point of the polygon's tessellation: point `i % N` of
/// edge `i / N` at resolution `N`.
pub open spec fn tess_at(vs: Seq<Point3>, i: int) -> Vec3 {
    let j = i / (LINE_POINTS as int);
    let k = i % (LINE_POINTS as int);
    interp_at(vs[j]@, edge_end(vs, j)@, LINE_POINTS as int, k)
}

/// Where a tessellated point lands after the frame's rotation, the
/// shape offset and the world translation.
pub open spec fn spec_transform_pt(
    p: Vec3,
    q: Quat,
    spin: Trig,
    off: Vec3,
    w: WorldMetrics,
) -> Vec3 {
    let r = spec_rotate_point(q, spin, (p.x, p.y, p.z));
    Vec3 {
        x: r.0 + off.x + w.world_translation_x,
        y: r.1 + off.y + w.world_translation_y,
        z: r.2 + off.z + w.world_translation_z,
    }
}

/// A valid shape: a ring of at least two bounded vertices, a bounded
/// offset, and a usable (non-zero, bounded) rotation descriptor.
pub open spec fn poly_wf(p: Polygon) -> bool {
    &&& 2 <= p.vertices@.len() <= MAX_VERTICES
    &&& forall|i: int|
        0 <= i < p.vertices@.len() ==> p3_bounded(#[trigger] p.vertices@[i]@, COORD_BOUND as int)
    &&& p3_bounded(p.offset@, COORD_BOUND as int)
    &&& qbounded(p.q@, PRODUCT_BOUND as int)
    &&& qnorm_sq(p.q@) >= 1
}

/// What rendering does to a polygon: the static fields survive, the
/// center becomes the mean of edge midpoints, the point cloud becomes
/// the transformed tessellation, and the projection becomes its image
/// on the screen.
pub open spec fn renders_to(
    o: Polygon,
    n: Polygon,
    world: WorldMetrics,
    cam: Camera,
    spin: Trig,
) -> bool {
    let vs = o.vertices@;
    &&& n.vertices == o.vertices
    &&& n.color == o.color
    &&& n.offset == o.offset
    &&& n.q == o.q
    &&& n.center@ == spec_polygon_center(vs)
    &&& n.points@.len() == vs.len() * (LINE_POINTS as int)
    &&& forall|i: int|
        0 <= i < n.points@.len() ==> #[trigger] n.points@[i]@ == spec_transform_pt(
            tess_at(vs, i),
            o.q@,
            spin,
            o.offset@,
            world,
        )
    &&& n.projection@.len() == vs.len() * (LINE_POINTS as int)
    &&& forall|i: int|
        0 <= i < n.projection@.len() ==> (
        #[trigger] n.projection@[i].x as int,
        n.projection@[i].y as int,
        ) == spec_project(
            spec_transform_pt(tess_at(vs, i), o.q@, spin, o.offset@, world),
            cam_eye(cam),
            cam_angles(cam),
        )
}

/// An ordered vertex ring with a world offset, a rotation descriptor,
/// a color, and the working state filled in by rendering.
#[derive(Debug)]
pub struct Polygon {
    pub vertices: Vec<Point3>,
    pub points: Vec<Point3>,
    pub color: Color,
    pub offset: Point3,
    pub projection: Vec<Point>,
    pub center: Point3,
    pub q: Quaternion,
}

impl Polygon {
    /// Validate and build a shape. The ring must have at least two
    /// vertices (the wrap-around edge is implied), every coordinate
    /// must be in range, and the rotation axis must not be the zero
    /// quaternion.
    pub fn new(vertices: Vec<Point3>, color: Color, offset: Point3, q: Quaternion) -> (r: Result<
        Polygon,
        ShapeError,
    >)
        ensures
            (r == Result::<Polygon, ShapeError>::Err(ShapeError::TooFewVertices)) <==> vertices@.len() < 2,
            (r == Result::<Polygon, ShapeError>::Err(ShapeError::TooManyVertices)) <==> (
            vertices@.len() > MAX_VERTICES),
            (r is Ok) ==> (r->Ok_0).vertices == vertices && (r->Ok_0).color == color && (
            r->Ok_0).offset == offset && (r->Ok_0).q == q && (r->Ok_0).points@.len() == 0 && (
            r->Ok_0).projection@.len() == 0 && (r->Ok_0).center@ == (Vec3 { x: 0, y: 0, z: 0 })
                && poly_wf(r->Ok_0),
            (r is Ok) <==> (2 <= vertices@.len() <= MAX_VERTICES && (forall|i: int|
                0 <= i < vertices@.len() ==> p3_bounded(
                    #[trigger] vertices@[i]@,
                    COORD_BOUND as int,
                )) && p3_bounded(offset@, COORD_BOUND as int) && qbounded(
                q@,
                PRODUCT_BOUND as int,
            ) && qnorm_sq(q@) >= 1),
    {
        if vertices.len() < 2 {
            return Err(ShapeError::TooFewVertices);
        }
        if vertices.len() > MAX_VERTICES {
            return Err(ShapeError::TooManyVertices);
        }
        let mut i: usize = 0;
        while i < vertices.len()
            invariant
                0 <= i <= vertices@.len(),
                2 <= vertices@.len() <= MAX_VERTICES,
                forall|j: int|
                    0 <= j < i ==> p3_bounded(#[trigger] vertices@[j]@, COORD_BOUND as int),
            decreases vertices@.len() - i,
        {
            let v = vertices[i];
            if v.x < -COORD_BOUND || v.x > COORD_BOUND || v.y < -COORD_BOUND || v.y > COORD_BOUND
                || v.z < -COORD_BOUND || v.z > COORD_BOUND {
                proof {
                    assert(!p3_bounded(vertices@[i as int]@, COORD_BOUND as int));
                }
                return Err(ShapeError::CoordinateOutOfRange);
            }
            i = i + 1;
        }
        if offset.x < -COORD_BOUND || offset.x > COORD_BOUND || offset.y < -COORD_BOUND
            || offset.y > COORD_BOUND || offset.z < -COORD_BOUND || offset.z > COORD_BOUND {
            return Err(ShapeError::CoordinateOutOfRange);
        }
        if q.a < -PRODUCT_BOUND || q.a > PRODUCT_BOUND || q.b < -PRODUCT_BOUND || q.b
            > PRODUCT_BOUND || q.c < -PRODUCT_BOUND || q.c > PRODUCT_BOUND || q.d < -PRODUCT_BOUND
            || q.d > PRODUCT_BOUND {
            return Err(ShapeError::CoordinateOutOfRange);
        }
        if q.a == 0 && q.b == 0 && q.c == 0 && q.d == 0 {
            return Err(ShapeError::DegenerateRotation);
        }
        proof {
            assert(qnorm_sq(q@) >= 1) by (nonlinear_arith)
                requires
                    qnorm_sq(q@) == (q.a as int) * (q.a as int) + (q.b as int) * (q.b as int) + (
                    q.c as int) * (q.c as int) + (q.d as int) * (q.d as int),
                    !(q.a == 0 && q.b == 0 && q.c == 0 && q.d == 0),
            ;
        }
        Ok(
            Polygon {
                vertices,
                points: Vec::new(),
                color,
                offset,
                projection: Vec::new(),
                center: Point3 { x: 0, y: 0, z: 0 },
                q,
            },
        )
    }

    /// The mean of the edge midpoints, computed from the vertex ring
    /// alone: the depth key for culling and ordering.
    pub fn center_of_vertices(&self) -> (c: Point3)
        requires
            poly_wf(*self),
        ensures
            c@ == spec_polygon_center(self.vertices@),
            p3_bounded(c@, COORD_BOUND as int),
    {
        let n = self.vertices.len();
        let mut sx: i64 = 0;
        let mut sy: i64 = 0;
        let mut sz: i64 = 0;
        let mut j: usize = 0;
        while j < n
            invariant
                0 <= j <= n,
                n == self.vertices@.len(),
                poly_wf(*self),
                sx == center_sum(self.vertices@, j as int).x,
                sy == center_sum(self.vertices@, j as int).y,
                sz == center_sum(self.vertices@, j as int).z,
                sabs(sx as int) <= j * (COORD_BOUND as int),
                sabs(sy as int) <= j * (COORD_BOUND as int),
                sabs(sz as int) <= j * (COORD_BOUND as int),
            decreases n - j,
        {
            let a = self.vertices[j];
            let b = if j + 1 < n {
                self.vertices[j + 1]
            } else {
                self.vertices[0]
            };
            let m = Line::center_point_of(&a, &b);
            sx = sx + m.x;
            sy = sy + m.y;
            sz = sz + m.z;
            j = j + 1;
        }
        proof {
            lemma_tdiv_bound(center_sum(self.vertices@, n as int).x, n as int, COORD_BOUND as int);
            lemma_tdiv_bound(center_sum(self.vertices@, n as int).y, n as int, COORD_BOUND as int);
            lemma_tdiv_bound(center_sum(self.vertices@, n as int).z, n as int, COORD_BOUND as int);
        }
        Point3 {
            x: ratio(sx as i128, n as i128),
            y: ratio(sy as i128, n as i128),
            z: ratio(sz as i128, n as i128),
        }
    }

    /// Tessellate each edge of the ring (the closing edge included)
    /// into a `Line`, and set the center of mass to the mean of the
    /// edge midpoints.
    pub fn generate_sides_and_center(&mut self) -> (sides: Vec<Line>)
        requires
            poly_wf(*old(self)),
        ensures
            final(self).vertices == old(self).vertices,
            final(self).points == old(self).points,
            final(self).color == old(self).color,
            final(self).offset == old(self).offset,
            final(self).projection == old(self).projection,
            final(self).q == old(self).q,
            final(self).center@ == spec_polygon_center(old(self).vertices@),
            p3_bounded(final(self).center@, COORD_BOUND as int),
            poly_wf(*final(self)),
            sides@.len() == old(self).vertices@.len(),
            forall|j: int, k: int|
                0 <= j < sides@.len() && 0 <= k < LINE_POINTS ==> #[trigger] sides@[j].points@[k]@
                    == interp_at(
                    old(self).vertices@[j]@,
                    edge_end(old(self).vertices@, j)@,
                    LINE_POINTS as int,
                    k,
                ),
            forall|j: int| 0 <= j < sides@.len() ==> (#[trigger] sides@[j].points@.len())
                == LINE_POINTS,
            forall|j: int, k: int|
                0 <= j < sides@.len() && 0 <= k < LINE_POINTS ==> p3_bounded(
                    #[trigger] sides@[j].points@[k]@,
                    TESS_BOUND as int,
                ),
            forall|j: int|
                0 <= j < sides@.len() ==> (#[trigger] sides@[j]).color == old(self).color
                    && sides@[j].start == old(self).vertices@[j] && sides@[j].end == edge_end(
                    old(self).vertices@,
                    j,
                ) && sides@[j].center@ == edge_mid(old(self).vertices@, j),
    {
        let n = self.vertices.len();
        let mut sides: Vec<Line> = Vec::new();
        let mut j: usize = 0;
        while j < n
            invariant
                0 <= j <= n,
                n == self.vertices@.len(),
                poly_wf(*self),
                sides@.len() == j,
                forall|jj: int, k: int|
                    0 <= jj < j && 0 <= k < LINE_POINTS ==> #[trigger] sides@[jj].points@[k]@
                        == interp_at(
                        self.vertices@[jj]@,
                        edge_end(self.vertices@, jj)@,
                        LINE_POINTS as int,
                        k,
                    ),
                forall|jj: int| 0 <= jj < j ==> (#[trigger] sides@[jj].points@.len())
                    == LINE_POINTS,
                forall|jj: int, k: int|
                    0 <= jj < j && 0 <= k < LINE_POINTS ==> p3_bounded(
                        #[trigger] sides@[jj].points@[k]@,
                        TESS_BOUND as int,
                    ),
                forall|jj: int|
                    0 <= jj < j ==> (#[trigger] sides@[jj]).color == self.color
                        && sides@[jj].start == self.vertices@[jj] && sides@[jj].end == edge_end(
                        self.vertices@,
                        jj,
                    ) && sides@[jj].center@ == edge_mid(self.vertices@, jj),
            decreases n - j,
        {
            let a = self.vertices[j];
            let b = if j + 1 < n {
                self.vertices[j + 1]
            } else {
                self.vertices[0]
            };
            let l = Line::new(a, b, self.color);
            sides.push(l);
            j = j + 1;
        }
        let c = self.center_of_vertices();
        self.center = c;
        sides
    }

    /// Tessellate and concatenate all edges into the working point
    /// cloud, computing the center of mass along the way.
    pub fn generate_points(&mut self)
        requires
            poly_wf(*old(self)),
        ensures
            final(self).vertices == old(self).vertices,
            final(self).color == old(self).color,
            final(self).offset == old(self).offset,
            final(self).projection == old(self).projection,
            final(self).q == old(self).q,
            final(self).center@ == spec_polygon_center(old(self).vertices@),
            p3_bounded(final(self).center@, COORD_BOUND as int),
            poly_wf(*final(self)),
            final(self).points@.len() == old(self).vertices@.len() * (LINE_POINTS as int),
            forall|i: int|
                0 <= i < final(self).points@.len() ==> #[trigger] final(self).points@[i]@
                    == tess_at(old(self).vertices@, i),
            forall|i: int|
                0 <= i < final(self).points@.len() ==> p3_bounded(
                    #[trigger] final(self).points@[i]@,
                    TESS_BOUND as int,
                ),
    {
        let sides = self.generate_sides_and_center();
        let ghost vs = self.vertices@;
        let n = sides.len();
        let mut points: Vec<Point3> = Vec::new();
        let mut j: usize = 0;
        while j < n
            invariant
                0 <= j <= n,
                n == vs.len(),
                2 <= vs.len() <= MAX_VERTICES,
                sides@.len() == n,
                forall|jj: int, k: int|
                    0 <= jj < n && 0 <= k < LINE_POINTS ==> #[trigger] sides@[jj].points@[k]@
                        == interp_at(vs[jj]@, edge_end(vs, jj)@, LINE_POINTS as int, k),
                forall|jj: int| 0 <= jj < n ==> (#[trigger] sides@[jj].points@.len())
                    == LINE_POINTS,
                forall|jj: int, k: int|
                    0 <= jj < n && 0 <= k < LINE_POINTS ==> p3_bounded(
                        #[trigger] sides@[jj].points@[k]@,
                        TESS_BOUND as int,
                    ),
                points@.len() == j * (LINE_POINTS as int),
                forall|i: int|
                    0 <= i < points@.len() ==> #[trigger] points@[i]@ == tess_at(vs, i),
                forall|i: int|
                    0 <= i < points@.len() ==> p3_bounded(#[trigger] points@[i]@, TESS_BOUND as int),
            decreases n - j,
        {
            let mut k: usize = 0;
            while k < LINE_POINTS
                invariant
                    0 <= k <= LINE_POINTS,
                    0 <= j < n,
                    n == vs.len(),
                    2 <= vs.len() <= MAX_VERTICES,
                    sides@.len() == n,
                    forall|jj: int, kk: int|
                        0 <= jj < n && 0 <= kk < LINE_POINTS ==> #[trigger] sides@[jj].points@[kk]@
                            == interp_at(vs[jj]@, edge_end(vs, jj)@, LINE_POINTS as int, kk),
                    forall|jj: int| 0 <= jj < n ==> (#[trigger] sides@[jj].points@.len())
                        == LINE_POINTS,
                    forall|jj: int, kk: int|
                        0 <= jj < n && 0 <= kk < LINE_POINTS ==> p3_bounded(
                            #[trigger] sides@[jj].points@[kk]@,
                            TESS_BOUND as int,
                        ),
                    points@.len() == j * (LINE_POINTS as int) + k,
                    forall|i: int|
                        0 <= i < points@.len() ==> #[trigger] points@[i]@ == tess_at(vs, i),
                    forall|i: int|
                        0 <= i < points@.len() ==> p3_bounded(
                            #[trigger] points@[i]@,
                            TESS_BOUND as int,
                        ),
                decreases LINE_POINTS - k,
            {
                proof {
                    vstd::arithmetic::div_mod::lemma_fundamental_div_mod_converse(
                        (j * (LINE_POINTS as int) + k) as int,
                        LINE_POINTS as int,
                        j as int,
                        k as int,
                    );
                }
                let p = sides[j].points[k];
                points.push(p);
                k = k + 1;
            }
            j = j + 1;
        }
        self.points = points;
    }

    /// Rotate every working point by the shape's axis and the frame's
    /// half-angle pair, then move it by the shape offset and the world
    /// translation. Pure per point: order does not matter.
    pub fn transform(&mut self, world: &WorldMetrics, spin: Trig)
        requires
            poly_wf(*old(self)),
            world_wf(*world),
            trig_wf(spin),
            forall|i: int|
                0 <= i < old(self).points@.len() ==> p3_bounded(
                    #[trigger] old(self).points@[i]@,
                    TESS_BOUND as int,
                ),
        ensures
            final(self).vertices == old(self).vertices,
            final(self).color == old(self).color,
            final(self).offset == old(self).offset,
            final(self).projection == old(self).projection,
            final(self).q == old(self).q,
            final(self).center == old(self).center,
            poly_wf(*final(self)),
            final(self).points@.len() == old(self).points@.len(),
            forall|i: int|
                0 <= i < final(self).points@.len() ==> #[trigger] final(self).points@[i]@
                    == spec_transform_pt(
                    old(self).points@[i]@,
                    old(self).q@,
                    spin,
                    old(self).offset@,
                    *world,
                ),
            forall|i: int|
                0 <= i < final(self).points@.len() ==> p3_bounded(
                    #[trigger] final(self).points@[i]@,
                    TRANSFORM_BOUND as int,
                ),
    {
        let q = self.q;
        let n = self.points.len();
        let mut i: usize = 0;
        while i < n
            invariant
                0 <= i <= n,
                n == self.points@.len(),
                n == old(self).points@.len(),
                self.vertices == old(self).vertices,
                self.color == old(self).color,
                self.offset == old(self).offset,
                self.projection == old(self).projection,
                self.q == old(self).q,
                self.center == old(self).center,
                q == old(self).q,
                poly_wf(*old(self)),
                poly_wf(*self),
                world_wf(*world),
                trig_wf(spin),
                forall|jj: int|
                    i <= jj < n ==> #[trigger] self.points@[jj] == old(self).points@[jj],
                forall|jj: int|
                    0 <= jj < old(self).points@.len() ==> p3_bounded(
                        #[trigger] old(self).points@[jj]@,
                        TESS_BOUND as int,
                    ),
                forall|jj: int|
                    0 <= jj < i ==> #[trigger] self.points@[jj]@ == spec_transform_pt(
                        old(self).points@[jj]@,
                        old(self).q@,
                        spin,
                        old(self).offset@,
                        *world,
                    ),
                forall|jj: int|
                    0 <= jj < i ==> p3_bounded(#[trigger] self.points@[jj]@, TRANSFORM_BOUND as int),
            decreases n - i,
        {
            let p = self.points[i];
            proof {
                assert(self.points@[i as int] == old(self).points@[i as int]);
                assert(p3_bounded(old(self).points@[i as int]@, TESS_BOUND as int));
            }
            let w = q.rotate_point((p.x, p.y, p.z), spin);
            let np = Point3 {
                x: w.0 + self.offset.x + world.world_translation_x,
                y: w.1 + self.offset.y + world.world_translation_y,
                z: w.2 + self.offset.z + world.world_translation_z,
            };
            self.points.set(i, np);
            i = i + 1;
        }
    }

    /// Project every transformed point onto the screen with the
    /// camera's eye distance and pitch/yaw pairs.
    pub fn project(&mut self, cam: &Camera)
        requires
            poly_wf(*old(self)),
            camera_wf(*cam),
            forall|i: int|
                0 <= i < old(self).points@.len() ==> p3_bounded(
                    #[trigger] old(self).points@[i]@,
                    TRANSFORM_BOUND as int,
                ),
        ensures
            final(self).vertices == old(self).vertices,
            final(self).color == old(self).color,
            final(self).offset == old(self).offset,
            final(self).points == old(self).points,
            final(self).q == old(self).q,
            final(self).center == old(self).center,
            poly_wf(*final(self)),
            final(self).projection@.len() == old(self).points@.len(),
            forall|i: int|
                0 <= i < final(self).projection@.len() ==> (
                #[trigger] final(self).projection@[i].x as int,
                final(self).projection@[i].y as int,
                ) == spec_project(old(self).points@[i]@, cam_eye(*cam), cam_angles(*cam)),
    {
        let e = Point3 { x: 0, y: 0, z: cam.ez };
        let t = CameraAngles { x: cam.pitch, y: cam.yaw, z: Trig::identity() };
        let n = self.points.len();
        let mut projection: Vec<Point> = Vec::new();
        let mut i: usize = 0;
        while i < n
            invariant
                0 <= i <= n,
                n == self.points@.len(),
                self.points == old(self).points,
                poly_wf(*self),
                camera_wf(*cam),
                e@ == cam_eye(*cam),
                t == cam_angles(*cam),
                forall|jj: int|
                    0 <= jj < n ==> p3_bounded(#[trigger] self.points@[jj]@, TRANSFORM_BOUND as int),
                projection@.len() == i,
                forall|jj: int|
                    0 <= jj < i ==> (
                    #[trigger] projection@[jj].x as int,
                    projection@[jj].y as int,
                    ) == spec_project(self.points@[jj]@, cam_eye(*cam), cam_angles(*cam)),
            decreases n - i,
        {
            let p = project_point(self.points[i], e, &t);
            projection.push(p);
            i = i + 1;
        }
        self.projection = projection;
    }

    /// Render the shape: tessellate, transform, project. The one entry
    /// point a frame needs; the drawable cloud is valid afterwards.
    pub fn render(&mut self, world: &WorldMetrics, cam: &Camera, spin: Trig)
        requires
            poly_wf(*old(self)),
            world_wf(*world),
            camera_wf(*cam),
            trig_wf(spin),
        ensures
            poly_wf(*final(self)),
            renders_to(*old(self), *final(self), *world, *cam, spin),
    {
        self.generate_points();
        self.transform(world, spin);
        self.project(cam);
    }

    /// The drawable this shape contributes: its projected polyline,
    /// its color, and its depth key.
    pub fn as_drawable(&self) -> (d: Drawable)
        ensures
            d.points@ == self.projection@,
            d.color == self.color,
            d.depth == self.center.z,
    {
        let mut pts: Vec<Point> = Vec::new();
        let mut i: usize = 0;
        while i < self.projection.len()
            invariant
                0 <= i <= self.projection@.len(),
                pts@ == self.projection@.take(i as int),
            decreases self.projection@.len() - i,
        {
            pts.push(self.projection[i]);
            proof {
                assert(pts@ =~= self.projection@.take(i + 1));
            }
            i = i + 1;
        }
        proof {
            assert(pts@ =~= self.projection@);
        }
        Drawable { points: pts, color: self.color, depth: self.center.z }
    }
}

/// A compound shape: a set of polygons rendered as one unit.
#[derive(Debug)]
pub struct Polyhedron {
    pub polygons: Vec<Polygon>,
}

impl Polyhedron {
    pub fn new(polygons: Vec<Polygon>) -> (r: Polyhedron)
        ensures
            r.polygons == polygons,
    {
        Polyhedron { polygons }
    }

    /// Render every constituent polygon; they share no state, so any
    /// order (or none) gives the same result.
    pub fn render(&mut self, world: &WorldMetrics, cam: &Camera, spin: Trig)
        requires
            world_wf(*world),
            camera_wf(*cam),
            trig_wf(spin),
            forall|i: int|
                0 <= i < old(self).polygons@.len() ==> poly_wf(#[trigger] old(self).polygons@[i]),
        ensures
            final(self).polygons@.len() == old(self).polygons@.len(),
            forall|i: int|
                0 <= i < final(self).polygons@.len() ==> renders_to(
                    old(self).polygons@[i],
                    #[trigger] final(self).polygons@[i],
                    *world,
                    *cam,
                    spin,
                ),
            forall|i: int|
                0 <= i < final(self).polygons@.len() ==> poly_wf(#[trigger] final(self).polygons@[i]),
    {
        let n = self.polygons.len();
        let mut out: Vec<Polygon> = Vec::new();
        let mut i: usize = 0;
        while i < n
            invariant
                0 <= i <= n,
                n == old(self).polygons@.len(),
                self.polygons@.len() == n - i,
                forall|jj: int|
                    0 <= jj < n - i ==> #[trigger] self.polygons@[jj] == old(self).polygons@[jj
                        + i],
                world_wf(*world),
                camera_wf(*cam),
                trig_wf(spin),
                forall|jj: int|
                    0 <= jj < old(self).polygons@.len() ==> poly_wf(
                        #[trigger] old(self).polygons@[jj],
                    ),
                out@.len() == i,
                forall|jj: int|
                    0 <= jj < i ==> renders_to(
                        old(self).polygons@[jj],
                        #[trigger] out@[jj],
                        *world,
                        *cam,
                        spin,
                    ),
                forall|jj: int| 0 <= jj < i ==> poly_wf(#[trigger] out@[jj]),
            decreases n - i,
        {
            let mut p = self.polygons.remove(0);
            p.render(world, cam, spin);
            out.push(p);
            i = i + 1;
        }
        self.polygons = out;
    }

    /// The drawables of all constituents, in order.
    pub fn as_datasets(&self) -> (ds: Vec<Drawable>)
        ensures
            ds@.len() == self.polygons@.len(),
            forall|i: int|
                0 <= i < ds@.len() ==> (#[trigger] ds@[i]).points@ == self.polygons@[i].projection@
                    && ds@[i].color == self.polygons@[i].color && ds@[i].depth
                    == self.polygons@[i].center.z,
    {
        let mut ds: Vec<Drawable> = Vec::new();
        let mut i: usize = 0;
        while i < self.polygons.len()
            invariant
                0 <= i <= self.polygons@.len(),
                ds@.len() == i,
                forall|jj: int|
                    0 <= jj < i ==> (#[trigger] ds@[jj]).points@ == self.polygons@[jj].projection@
                        && ds@[jj].color == self.polygons@[jj].color && ds@[jj].depth
                        == self.polygons@[jj].center.z,
            decreases self.polygons@.len() - i,
        {
            let d = self.polygons[i].as_drawable();
            ds.push(d);
            i = i + 1;
        }
        ds
    }
}

} // verus!
