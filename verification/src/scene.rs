//! The scene assembler: collect the frame's shapes, discard the ones
//! behind the near plane, order the rest back to front by their depth
//! key, render them, and emit their drawable polylines.

use vstd::prelude::*;

verus! {

use vstd::seq_lib::group_to_multiset_ensures;
use vstd::multiset::Multiset;
use crate::fixed::{SCALE, Trig, trig_wf, sabs};
use crate::geometry::{COORD_BOUND, LINE_POINTS};
use crate::shapes::{
    Camera,
    camera_wf,
    Drawable,
    Polygon,
    poly_wf,
    renders_to,
    spec_polygon_center,
    cam_eye,
    cam_angles,
    spec_transform_pt,
    tess_at,
};
use crate::projection::spec_project;
use crate::world::{WorldMetrics, world_wf};

/// The depth key a shape is ordered by: the z of its center of mass.
pub open spec fn depth_key(p: Polygon) -> int {
    spec_polygon_center(p.vertices@).z
}

/// Whether a shape survives the near-plane cull: its center of mass,
/// moved by its own offset and the world translation, must lie deeper
/// than 1.0. An approximation by design: the test is per shape, not
/// per point, so a shape straddling the near plane is kept or dropped
/// whole.
pub open spec fn keeps(p: Polygon, tz: int) -> bool {
    depth_key(p) + p.offset@.z + tz > SCALE as int
}

/// What one emitted drawable says about the shape it came from: its
/// color and depth key, and every projected point of the rendered
/// tessellation.
pub open spec fn drawable_of(
    p: Polygon,
    d: Drawable,
    world: WorldMetrics,
    cam: Camera,
    spin: Trig,
) -> bool {
    &&& d.color == p.color
    &&& d.depth as int == depth_key(p)
    &&& d.points@.len() == p.vertices@.len() * (LINE_POINTS as int)
    &&& forall|i: int|
        0 <= i < d.points@.len() ==> (#[trigger] d.points@[i].x as int, d.points@[i].y as int)
            == spec_project(
            spec_transform_pt(tess_at(p.vertices@, i), p.q@, spin, p.offset@, world),
            cam_eye(cam),
            cam_angles(cam),
        )
}

/// Discard every shape whose depth estimate is at or behind the near
/// plane, keeping the order of the rest.
pub fn cull_shapes(polys: Vec<Polygon>, tz: i64) -> (kept: Vec<Polygon>)
    requires
        sabs(tz as int) <= COORD_BOUND as int,
        forall|i: int| 0 <= i < polys@.len() ==> poly_wf(#[trigger] polys@[i]),
    ensures
        kept@ == polys@.filter(|p: Polygon| keeps(p, tz as int)),
        forall|i: int| 0 <= i < kept@.len() ==> poly_wf(#[trigger] kept@[i]),
{
    let ghost cl = |p: Polygon| keeps(p, tz as int);
    let ghost all = polys@;
    let n = polys.len();
    let mut rest = polys;
    let mut kept: Vec<Polygon> = Vec::new();
    let mut i: usize = 0;
    proof {
        assert(all.take(0int).filter(cl) =~= Seq::<Polygon>::empty());
        assert(rest@ =~= all.skip(0int));
    }
    while i < n
        invariant
            0 <= i <= n,
            n == all.len(),
            sabs(tz as int) <= COORD_BOUND as int,
            forall|j: int| 0 <= j < all.len() ==> poly_wf(#[trigger] all[j]),
            cl == (|p: Polygon| keeps(p, tz as int)),
            rest@ == all.skip(i as int),
            kept@ == all.take(i as int).filter(cl),
            forall|j: int| 0 <= j < kept@.len() ==> poly_wf(#[trigger] kept@[j]),
        decreases n - i,
    {
        let p = rest.remove(0);
        proof {
            assert(all.skip(i as int)[0] == all[i as int]);
            assert(all.skip(i as int).remove(0int) =~= all.skip(i + 1));
        }
        let c = p.center_of_vertices();
        let keep = c.z > SCALE - p.offset.z - tz;
        proof {
            let pre = all.take(i as int);
            let nxt = all.take(i + 1);
            assert(nxt.drop_last() =~= pre);
            assert(nxt.last() == all[i as int]);
            reveal_with_fuel(Seq::filter, 2);
            assert(keep == cl(all[i as int]));
            if keep {
                assert(nxt.filter(cl) =~= pre.filter(cl).push(all[i as int]));
            } else {
                assert(nxt.filter(cl) =~= pre.filter(cl));
            }
        }
        if keep {
            kept.push(p);
        }
        i = i + 1;
    }
    proof {
        assert(all.take(n as int) =~= all);
    }
    kept
}

/// Order the shapes by their depth key, ascending: farthest last in
/// camera terms, so that later drawables paint over earlier ones. The
/// result is a permutation of the input; shapes with equal keys may
/// come out in either order.
pub fn depth_sort(polys: Vec<Polygon>) -> (out: Vec<Polygon>)
    requires
        forall|i: int| 0 <= i < polys@.len() ==> poly_wf(#[trigger] polys@[i]),
    ensures
        out@.len() == polys@.len(),
        out@.to_multiset() == polys@.to_multiset(),
        forall|i: int, j: int|
            0 <= i < j < out@.len() ==> depth_key(#[trigger] out@[i]) <= depth_key(
                #[trigger] out@[j],
            ),
        forall|i: int| 0 <= i < out@.len() ==> poly_wf(#[trigger] out@[i]),
{
    broadcast use group_to_multiset_ensures;
    broadcast use vstd::multiset::group_multiset_axioms;

    let ghost all = polys@;
    let mut rest = polys;
    let mut out: Vec<Polygon> = Vec::new();
    while rest.len() > 0
        invariant
            out@.to_multiset().add(rest@.to_multiset()) == all.to_multiset(),
            out@.len() + rest@.len() == all.len(),
            forall|i: int| 0 <= i < rest@.len() ==> poly_wf(#[trigger] rest@[i]),
            forall|i: int| 0 <= i < out@.len() ==> poly_wf(#[trigger] out@[i]),
            forall|i: int, j: int|
                0 <= i < j < out@.len() ==> depth_key(#[trigger] out@[i]) <= depth_key(
                    #[trigger] out@[j],
                ),
            forall|i: int, j: int|
                0 <= i < out@.len() && 0 <= j < rest@.len() ==> depth_key(#[trigger] out@[i])
                    <= depth_key(#[trigger] rest@[j]),
        decreases rest@.len(),
    {
        let mut m: usize = 0;
        let c0 = rest[0].center_of_vertices();
        let mut mz = c0.z;
        let mut j: usize = 1;
        while j < rest.len()
            invariant
                0 <= m < rest@.len(),
                1 <= j <= rest@.len(),
                forall|i: int| 0 <= i < rest@.len() ==> poly_wf(#[trigger] rest@[i]),
                mz as int == depth_key(rest@[m as int]),
                forall|i: int| 0 <= i < j ==> mz as int <= depth_key(#[trigger] rest@[i]),
            decreases rest@.len() - j,
        {
            let cj = rest[j].center_of_vertices();
            if cj.z < mz {
                m = j;
                mz = cj.z;
            }
            j = j + 1;
        }
        let ghost rest_old = rest@;
        let ghost out_old = out@;
        let p = rest.remove(m);
        out.push(p);
        proof {
            assert(rest_old.contains(p)) by {
                assert(rest_old[m as int] == p);
            }
            vstd::seq_lib::to_multiset_contains(rest_old, p);
            vstd::seq_lib::to_multiset_remove(rest_old, m as int);
            vstd::seq_lib::to_multiset_build(out_old, p);
            assert(rest_old.to_multiset().count(p) > 0);
            assert(rest@ =~= rest_old.remove(m as int));
            assert(rest@.to_multiset() =~= rest_old.to_multiset().remove(p));
            assert(out@ =~= out_old.push(p));
            assert(out@.to_multiset() =~= out_old.to_multiset().insert(p));
            assert(out@.to_multiset().add(rest@.to_multiset()) =~= out_old.to_multiset().add(
                rest_old.to_multiset(),
            ));
        }
    }
    proof {
        assert(rest@.to_multiset() =~= Multiset::<Polygon>::empty());
        assert(out@.to_multiset().add(rest@.to_multiset()) =~= out@.to_multiset());
        vstd::seq_lib::lemma_multiset_commutative(out@, rest@);
        assert(out@.len() == out@.to_multiset().len());
        assert(all.len() == all.to_multiset().len());
    }
    out
}

/// One frame: cull against the near plane, order back to front by the
/// depth key, render every survivor, and emit its drawable. The
/// emitted list is ascending in depth; each drawable carries the full
/// projected tessellation of one surviving shape.
pub fn render_frame(world: &WorldMetrics, cam: &Camera, spin: Trig, shapes: Vec<Polygon>) -> (out:
    Vec<Drawable>)
    requires
        world_wf(*world),
        camera_wf(*cam),
        trig_wf(spin),
        forall|i: int| 0 <= i < shapes@.len() ==> poly_wf(#[trigger] shapes@[i]),
    ensures
        out@.len() == shapes@.filter(
            |p: Polygon| keeps(p, world.world_translation_z as int),
        ).len(),
        forall|i: int, j: int|
            0 <= i < j < out@.len() ==> (#[trigger] out@[i]).depth <= (#[trigger] out@[j]).depth,
        exists|s: Seq<Polygon>|
            {
                &&& #[trigger] s.to_multiset() == shapes@.filter(
                    |p: Polygon| keeps(p, world.world_translation_z as int),
                ).to_multiset()
                &&& s.len() == out@.len()
                &&& forall|i: int, j: int|
                    0 <= i < j < s.len() ==> depth_key(#[trigger] s[i]) <= depth_key(
                        #[trigger] s[j],
                    )
                &&& forall|i: int|
                    0 <= i < s.len() ==> drawable_of(s[i], #[trigger] out@[i], *world, *cam, spin)
            },
{
    broadcast use group_to_multiset_ensures;

    let culled = cull_shapes(shapes, world.world_translation_z);
    let mut sorted = depth_sort(culled);
    let ghost s = sorted@;
    let n = sorted.len();
    let mut out: Vec<Drawable> = Vec::new();
    let mut i: usize = 0;
    proof {
        assert(sorted@ =~= s.skip(0int));
    }
    while i < n
        invariant
            0 <= i <= n,
            n == s.len(),
            world_wf(*world),
            camera_wf(*cam),
            trig_wf(spin),
            sorted@ == s.skip(i as int),
            forall|j: int| 0 <= j < s.len() ==> poly_wf(#[trigger] s[j]),
            out@.len() == i,
            forall|j: int|
                0 <= j < i ==> drawable_of(s[j], #[trigger] out@[j], *world, *cam, spin),
        decreases n - i,
    {
        let mut p = sorted.remove(0);
        proof {
            assert(s.skip(i as int)[0] == s[i as int]);
            assert(s.skip(i as int).remove(0int) =~= s.skip(i + 1));
        }
        p.render(world, cam, spin);
        let d = p.as_drawable();
        proof {
            assert(renders_to(s[i as int], p, *world, *cam, spin));
            assert(drawable_of(s[i as int], d, *world, *cam, spin));
        }
        out.push(d);
        i = i + 1;
    }
    proof {
        assert(forall|i: int, j: int|
            0 <= i < j < out@.len() ==> (#[trigger] out@[i]).depth <= (#[trigger] out@[j]).depth)
            by {
            assert forall|i: int, j: int| 0 <= i < j < out@.len() implies (
            #[trigger] out@[i]).depth <= (#[trigger] out@[j]).depth by {
                assert(drawable_of(s[i], out@[i], *world, *cam, spin));
                assert(drawable_of(s[j], out@[j], *world, *cam, spin));
            }
        }
    }
    out
}

} // verus!
