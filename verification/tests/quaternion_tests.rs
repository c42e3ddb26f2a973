//! Quaternion algebra at concrete fixed-point values.

use dddragon::fixed::Trig;
use dddragon::quaternions::Quaternion;

const S: i64 = 65536;

#[test]
fn sum_adds_componentwise() {
    let q = Quaternion::new(1, 2, 3, 4);
    let p = Quaternion::new(10, 20, 30, 40);
    let r = Quaternion::sum(q, p);
    assert_eq!((r.a, r.b, r.c, r.d), (11, 22, 33, 44));
}

#[test]
fn product_i_times_j_is_k() {
    // i * j == k in the Hamilton algebra, exactly representable.
    let i = Quaternion::new(0, S, 0, 0);
    let j = Quaternion::new(0, 0, S, 0);
    let r = Quaternion::product(i, j);
    assert_eq!((r.a, r.b, r.c, r.d), (0, 0, 0, S));
}

#[test]
fn product_j_times_i_is_minus_k() {
    // The Hamilton product is non-commutative: j * i == -k.
    let i = Quaternion::new(0, S, 0, 0);
    let j = Quaternion::new(0, 0, S, 0);
    let r = Quaternion::product(j, i);
    assert_eq!((r.a, r.b, r.c, r.d), (0, 0, 0, -S));
}

#[test]
fn conjugate_negates_vector_part() {
    let q = Quaternion::new(5, -6, 7, -8);
    let r = q.conjugate();
    assert_eq!((r.a, r.b, r.c, r.d), (5, 6, -7, 8));
}

#[test]
fn scale_multiplies_by_fixed_point_factor() {
    let q = Quaternion::new(2 * S, -4 * S, 6 * S, 0);
    let r = Quaternion::scale(q, S / 2);
    assert_eq!((r.a, r.b, r.c, r.d), (S, -2 * S, 3 * S, 0));
}

#[test]
fn normalize_is_integer_square_root_of_norm_sq() {
    let q = Quaternion::new(3 * S, 0, 0, 0);
    assert_eq!(q.normalize(), 3 * S);
    let p = Quaternion::new(0, 3, 4, 0);
    assert_eq!(p.normalize(), 5);
}

#[test]
fn unitize_axis_aligned_is_exact() {
    let q = Quaternion::new(0, 3 * S, 0, 0);
    let u = q.unitize();
    assert_eq!((u.a, u.b, u.c, u.d), (0, S, 0, 0));
    assert_eq!(u.normalize(), S);
}

#[test]
fn unit_norm_is_one_for_general_quaternion() {
    // |unit(q)| == 1 within fixed-point tolerance for a non-zero q.
    let q = Quaternion::new(3 * S / 2, -2 * S, S / 2, 3 * S);
    let u = q.unitize();
    let l = u.normalize();
    assert!((l - S).abs() <= 2, "unit norm was {l}");
}

#[test]
fn tiny_axis_unitizes_to_unit_norm() {
    // An axis of norm far below one unit (raw components (0,1,1,0))
    // still unitizes to a genuine unit quaternion: the square root is
    // taken at full scale.
    let q = Quaternion::new(0, 1, 1, 0);
    let u = q.unitize();
    assert_eq!((u.a, u.b, u.c, u.d), (0, 46341, 46341, 0));
    assert_eq!(u.normalize(), S);
    let single = Quaternion::new(0, 1, 0, 0);
    let us = single.unitize();
    assert_eq!((us.a, us.b, us.c, us.d), (0, S, 0, 0));
}

#[test]
fn tiny_axis_rotor_is_a_unit_rotation_operator() {
    // The rotor built from a tiny axis and a genuine half-angle pair
    // has norm one, so rotating by it preserves lengths.
    let axis = Quaternion::new(0, 1, 1, 0);
    let rq = axis.rotatation(Trig { cos: 0, sin: S });
    assert_eq!((rq.a, rq.b, rq.c, rq.d), (0, 46341, 46341, 0));
    assert_eq!(rq.normalize(), S);
}

#[test]
fn inverse_of_unit_k_is_minus_k() {
    let k = Quaternion::new(0, 0, 0, S);
    let r = k.inverse();
    assert_eq!((r.a, r.b, r.c, r.d), (0, 0, 0, -S));
}

#[test]
fn inverse_round_trip_gives_the_identity() {
    // q * inverse(q) == 1 exactly for a representable q.
    let q = Quaternion::new(0, 0, 0, 2 * S);
    let r = Quaternion::product(q, q.inverse());
    assert_eq!((r.a, r.b, r.c, r.d), (S, 0, 0, 0));
}

#[test]
fn rotation_quaternion_from_axis_and_half_angle() {
    // For the unit z axis and a zero angle the rotation quaternion is
    // exactly 1; for a half-angle with cos == sin it is c + s*k.
    let axis = Quaternion::new(0, 0, 0, S);
    let r0 = axis.rotatation(Trig { cos: S, sin: 0 });
    assert_eq!((r0.a, r0.b, r0.c, r0.d), (S, 0, 0, 0));
    let r1 = axis.rotatation(Trig { cos: 46340, sin: 46340 });
    assert_eq!((r1.a, r1.b, r1.c, r1.d), (46340, 0, 0, 46340));
}

#[test]
fn zero_angle_rotation_is_identity() {
    // cos(0) == 1, sin(0) == 0: the rotation quaternion is exactly 1,
    // and rotating any point returns it unchanged.
    let axis = Quaternion::new(0, S, S, S);
    let half = Trig { cos: S, sin: 0 };
    let v = (S, 2 * S, 3 * S);
    assert_eq!(axis.rotate_point(v, half), v);
}

#[test]
fn quarter_turn_about_z_maps_x_to_y() {
    // theta == pi/2 about the z axis carries (1,0,0) near (0,1,0).
    let axis = Quaternion::new(0, 0, 0, S);
    let h = std::f64::consts::FRAC_PI_4;
    let half = Trig { cos: (h.cos() * 65536.0) as i64, sin: (h.sin() * 65536.0) as i64 };
    let (x, y, z) = axis.rotate_point((S, 0, 0), half);
    assert!(x.abs() <= 16, "x was {x}");
    assert!((y - S).abs() <= 16, "y was {y}");
    assert!(z.abs() <= 16, "z was {z}");
}

fn norm3(v: (i64, i64, i64)) -> f64 {
    let (x, y, z) = (v.0 as f64, v.1 as f64, v.2 as f64);
    (x * x + y * y + z * z).sqrt()
}

#[test]
fn rotation_preserves_vector_length() {
    // |rotate(v)| == |v| within fixed-point tolerance, for an
    // arbitrary axis and angle.
    let axis = Quaternion::new(0, S, -S / 2, S / 3);
    let theta: f64 = 0.9;
    let half = Trig {
        cos: ((theta / 2.0).cos() * 65536.0) as i64,
        sin: ((theta / 2.0).sin() * 65536.0) as i64,
    };
    let v = (2 * S, -S, S / 2);
    let w = axis.rotate_point(v, half);
    let before = norm3(v);
    let after = norm3(w);
    assert!((before - after).abs() / before < 1e-3, "{before} vs {after}");
}

#[test]
fn successive_rotations_compose_to_angle_sum() {
    // Rotating by 0.5 and then 0.7 about one axis lands within
    // tolerance of the single rotation by 1.2.
    let axis = Quaternion::new(0, S, S, 0);
    let t1: f64 = 0.5;
    let t2: f64 = 0.7;
    let half = |t: f64| Trig {
        cos: ((t / 2.0).cos() * 65536.0) as i64,
        sin: ((t / 2.0).sin() * 65536.0) as i64,
    };
    let v = (S, 0, -S);
    let step = axis.rotate_point(axis.rotate_point(v, half(t1)), half(t2));
    let whole = axis.rotate_point(v, half(t1 + t2));
    assert!((step.0 - whole.0).abs() <= 256, "{} vs {}", step.0, whole.0);
    assert!((step.1 - whole.1).abs() <= 256, "{} vs {}", step.1, whole.1);
    assert!((step.2 - whole.2).abs() <= 256, "{} vs {}", step.2, whole.2);
}
