//! Tessellation, projection, matrices, world state, and the full
//! frame pipeline at concrete fixed-point values.

use dddragon::fixed::Trig;
use dddragon::geometry::{Color, Line, Point3, LINE_POINTS};
use dddragon::matrix::MatrixFactory;
use dddragon::projection::{project_point, CameraAngles};
use dddragon::quaternions::Quaternion;
use dddragon::scene::{cull_shapes, depth_sort, render_frame};
use dddragon::shapes::{Camera, Polygon, Polyhedron, ShapeError};
use dddragon::world::{apply_camera_command, CameraCommand, WorldMetrics, CAMERA_STEP};

const S: i64 = 65536;

fn identity() -> Trig {
    Trig { cos: S, sin: 0 }
}

fn camera() -> Camera {
    // fov of 90 degrees: eye distance 1/tan(45 deg) == 1.0 exactly.
    Camera { ez: S, pitch: identity(), yaw: identity() }
}

fn z_axis() -> Quaternion {
    Quaternion::new(0, 0, 0, S)
}

fn flat_square(z: i64, color: Color) -> Polygon {
    let verts = vec![
        Point3::new(S, S, z),
        Point3::new(-S, S, z),
        Point3::new(-S, -S, z),
        Point3::new(S, -S, z),
    ];
    Polygon::new(verts, color, Point3::new(0, 0, 0), z_axis()).unwrap()
}

#[test]
fn interpolation_yields_n_evenly_spaced_points_from_start() {
    let a = Point3::new(0, 0, 0);
    let b = Point3::new(650, -1300, 65);
    let pts = Line::interpolate(&a, &b, 10);
    assert_eq!(pts.len(), 10);
    assert_eq!((pts[0].x, pts[0].y, pts[0].z), (0, 0, 0));
    for k in 1..10 {
        assert_eq!(pts[k].x - pts[k - 1].x, 65);
        assert_eq!(pts[k].y - pts[k - 1].y, -130);
        assert_eq!(pts[k].z - pts[k - 1].z, 6);
    }
}

#[test]
fn line_tessellates_at_standard_resolution() {
    let l = Line::new(Point3::new(0, 0, 0), Point3::new(2000, 0, 0), Color::White);
    assert_eq!(l.points.len(), LINE_POINTS);
    assert_eq!(l.points[0].x, 0);
    assert_eq!(l.points[199].x, 1990);
    assert_eq!((l.center.x, l.center.y, l.center.z), (1000, 0, 0));
}

#[test]
fn line_data_copies_the_point_sequence() {
    let l = Line::new(Point3::new(0, 0, 0), Point3::new(400, 0, 0), Color::White);
    let data = l.as_data();
    assert_eq!(data.len(), LINE_POINTS);
    assert_eq!((data[5].x, data[5].y, data[5].z), (10, 0, 0));
}

#[test]
fn line_color_replaces_only_the_color() {
    let l = Line::new(Point3::new(0, 0, 0), Point3::new(400, 0, 0), Color::White);
    let l = l.color(Color::Cyan);
    assert!(matches!(l.color, Color::Cyan));
    assert_eq!(l.end.x, 400);
}

#[test]
fn center_point_is_arithmetic_midpoint() {
    let m = Line::center_point_of(&Point3::new(2, 6, 10), &Point3::new(4, 8, 18));
    assert_eq!((m.x, m.y, m.z), (3, 7, 14));
}

#[test]
fn line_length_is_rounded_euclidean_distance() {
    let l = Line::new(Point3::new(0, 0, 0), Point3::new(3, 4, 0), Color::White);
    assert_eq!(l.len(), 5);
}

#[test]
fn origin_projects_to_screen_center() {
    // With all camera angles zero and a 90-degree field of view, the
    // origin lands at exactly (0, 0).
    let t = CameraAngles { x: identity(), y: identity(), z: identity() };
    let r = project_point(Point3::new(0, 0, 0), Point3::new(0, 0, S), &t);
    assert_eq!((r.x, r.y), (0, 0));
}

#[test]
fn cube_corners_project_to_symmetric_silhouette() {
    // The eight corners of the unit cube pushed 7.0 deep, seen by the
    // fixed camera, give two concentric symmetric squares.
    let t = CameraAngles { x: identity(), y: identity(), z: identity() };
    let e = Point3::new(0, 0, S);
    for &sx in &[-1i64, 1] {
        for &sy in &[-1i64, 1] {
            let near = project_point(Point3::new(sx * S, sy * S, 6 * S), e, &t);
            assert_eq!((near.x, near.y), (sx * 10922, sy * 10922));
            let far = project_point(Point3::new(sx * S, sy * S, 8 * S), e, &t);
            assert_eq!((far.x, far.y), (sx * 8192, sy * 8192));
        }
    }
}

#[test]
fn polygon_rejects_degenerate_rings_and_inputs() {
    let one = vec![Point3::new(0, 0, 0)];
    assert!(matches!(
        Polygon::new(one, Color::Red, Point3::new(0, 0, 0), z_axis()),
        Err(ShapeError::TooFewVertices)
    ));
    let mut many = Vec::new();
    for _ in 0..4097 {
        many.push(Point3::new(0, 0, 0));
    }
    assert!(matches!(
        Polygon::new(many, Color::Red, Point3::new(0, 0, 0), z_axis()),
        Err(ShapeError::TooManyVertices)
    ));
    let wild = vec![Point3::new(0, 0, 0), Point3::new(i64::MAX, 0, 0)];
    assert!(matches!(
        Polygon::new(wild, Color::Red, Point3::new(0, 0, 0), z_axis()),
        Err(ShapeError::CoordinateOutOfRange)
    ));
    let flat = vec![Point3::new(0, 0, 0), Point3::new(S, 0, 0)];
    assert!(matches!(
        Polygon::new(flat, Color::Red, Point3::new(0, 0, 0), Quaternion::new(0, 0, 0, 0)),
        Err(ShapeError::DegenerateRotation)
    ));
}

#[test]
fn polygon_render_fills_clouds() {
    let mut p = flat_square(2 * S, Color::Red);
    let world = WorldMetrics::default();
    p.render(&world, &camera(), identity());
    assert_eq!(p.points.len(), 4 * LINE_POINTS);
    assert_eq!(p.projection.len(), 4 * LINE_POINTS);
    assert_eq!((p.center.x, p.center.y, p.center.z), (0, 0, 2 * S));
}

#[test]
fn polyhedron_renders_each_face() {
    let mut body = Polyhedron::new(vec![
        flat_square(2 * S, Color::Blue),
        flat_square(3 * S, Color::Green),
    ]);
    let world = WorldMetrics::default();
    body.render(&world, &camera(), identity());
    let ds = body.as_datasets();
    assert_eq!(ds.len(), 2);
    assert_eq!(ds[0].points.len(), 4 * LINE_POINTS);
    assert!(matches!(ds[0].color, Color::Blue));
    assert!(matches!(ds[1].color, Color::Green));
    assert_eq!(ds[0].depth, 2 * S);
    assert_eq!(ds[1].depth, 3 * S);
}

#[test]
fn frame_emits_farther_first_nearer_last() {
    // Two shapes with centers at z == 2.0 and z == 5.0: the emitted
    // order places the z == 5.0 polyline after the z == 2.0 one.
    let world = WorldMetrics::default();
    let shapes = vec![flat_square(5 * S, Color::Blue), flat_square(2 * S, Color::Red)];
    let out = render_frame(&world, &camera(), identity(), shapes);
    assert_eq!(out.len(), 2);
    assert_eq!(out[0].depth, 2 * S);
    assert!(matches!(out[0].color, Color::Red));
    assert_eq!(out[1].depth, 5 * S);
    assert!(matches!(out[1].color, Color::Blue));
}

#[test]
fn frame_culls_at_the_near_plane() {
    // A shape whose depth estimate is 0.5 is excluded; one at 1.5 is
    // kept.
    let world = WorldMetrics::default();
    let shapes = vec![flat_square(S / 2, Color::Red), flat_square(S + S / 2, Color::Green)];
    let out = render_frame(&world, &camera(), identity(), shapes);
    assert_eq!(out.len(), 1);
    assert_eq!(out[0].depth, S + S / 2);
    assert!(matches!(out[0].color, Color::Green));
}

#[test]
fn frame_cull_honors_world_translation() {
    // The same shape passes or fails the cull as the world moves.
    let mut world = WorldMetrics::default();
    world.world_translation_z = -2 * S;
    let shapes = vec![flat_square(5 * S / 2, Color::Red)];
    let out = render_frame(&world, &camera(), identity(), shapes);
    assert_eq!(out.len(), 0);
}

#[test]
fn cull_keeps_exactly_the_deep_shapes() {
    let shapes = vec![
        flat_square(3 * S, Color::Red),
        flat_square(S / 4, Color::Blue),
        flat_square(2 * S, Color::Green),
    ];
    let kept = cull_shapes(shapes, 0);
    assert_eq!(kept.len(), 2);
    assert!(matches!(kept[0].color, Color::Red));
    assert!(matches!(kept[1].color, Color::Green));
}

#[test]
fn depth_sort_orders_by_center_z() {
    let shapes = vec![
        flat_square(4 * S, Color::Red),
        flat_square(S, Color::Blue),
        flat_square(3 * S, Color::Green),
    ];
    let sorted = depth_sort(shapes);
    let keys: Vec<i64> = sorted.iter().map(|p| p.center_of_vertices().z).collect();
    assert_eq!(keys, vec![S, 3 * S, 4 * S]);
}

#[test]
fn empty_scene_renders_to_nothing() {
    let world = WorldMetrics::default();
    let out = render_frame(&world, &camera(), identity(), Vec::new());
    assert_eq!(out.len(), 0);
}

#[test]
fn equal_depths_both_survive() {
    let world = WorldMetrics::default();
    let shapes = vec![flat_square(3 * S, Color::Red), flat_square(3 * S, Color::Blue)];
    let out = render_frame(&world, &camera(), identity(), shapes);
    assert_eq!(out.len(), 2);
    assert_eq!(out[0].depth, 3 * S);
    assert_eq!(out[1].depth, 3 * S);
}

#[test]
fn identity_matrix_fixes_points() {
    let m = MatrixFactory::identity();
    let p = m.apply(Point3::new(123456, -654321, 42));
    assert_eq!((p.x, p.y, p.z), (123456, -654321, 42));
}

#[test]
fn rotation_matrix_quarter_turn_about_z() {
    let quarter = Trig { cos: 0, sin: S };
    let m = MatrixFactory::rotate_z(quarter);
    let p = m.apply(Point3::new(S, 0, 0));
    assert_eq!((p.x, p.y, p.z), (0, S, 0));
}

#[test]
fn composed_rotation_with_zero_angles_is_identity() {
    let m = MatrixFactory::rotate(identity(), identity(), identity());
    assert_eq!((m.m00, m.m11, m.m22), (S, S, S));
    assert_eq!((m.m01, m.m02, m.m10, m.m12, m.m20, m.m21), (0, 0, 0, 0, 0, 0));
}

#[test]
fn composed_rotation_matches_single_axis_rotation() {
    let quarter = Trig { cos: 0, sin: S };
    let yaw_only = MatrixFactory::rotate(identity(), identity(), quarter);
    let plain = MatrixFactory::rotate_z(quarter);
    let p = Point3::new(3000, -500, 777);
    let a = yaw_only.apply(p);
    let b = plain.apply(p);
    assert_eq!((a.x, a.y, a.z), (b.x, b.y, b.z));
}

#[test]
fn world_default_is_at_rest() {
    let w = WorldMetrics::default();
    assert_eq!(w.camera_pitch, 0);
    assert_eq!(w.camera_yaw, 0);
    assert_eq!(w.camera_roll, 0);
    assert_eq!(w.world_translation_x, 0);
    assert_eq!(w.world_translation_y, 0);
    assert_eq!(w.world_translation_z, 0);
    assert_eq!(w.frame_timestamp, 0);
}

#[test]
fn timestamp_updates_from_supplied_clock() {
    let mut w = WorldMetrics::default();
    w.update_timestamp(123456789);
    assert_eq!(w.get_timestamp(), 123456789);
}

#[test]
fn camera_commands_step_the_state() {
    let mut w = WorldMetrics::default();
    apply_camera_command(&mut w, CameraCommand::PitchDown);
    assert_eq!(w.camera_pitch, CAMERA_STEP);
    apply_camera_command(&mut w, CameraCommand::PitchUp);
    apply_camera_command(&mut w, CameraCommand::PitchUp);
    assert_eq!(w.camera_pitch, -CAMERA_STEP);
    apply_camera_command(&mut w, CameraCommand::YawRight);
    assert_eq!(w.camera_yaw, CAMERA_STEP);
    apply_camera_command(&mut w, CameraCommand::MoveFarther);
    assert_eq!(w.world_translation_z, CAMERA_STEP);
    apply_camera_command(&mut w, CameraCommand::StrafeLeft);
    assert_eq!(w.world_translation_x, CAMERA_STEP);
}
