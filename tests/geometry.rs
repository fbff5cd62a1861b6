use modelutils::arith::round_div_i128;
use modelutils::plane::{TriangularPlane, Weights};
use modelutils::vec2::Vec2;
use modelutils::vec3::Vec3;
use modelutils::FIXED_ONE;

fn p(x: i64, y: i64, z: i64) -> Vec3 {
    Vec3::new(x * FIXED_ONE, y * FIXED_ONE, z * FIXED_ONE)
}

#[test]
fn cross_product_of_axes() {
    let c = Vec3::cross(Vec3::new(1, 0, 0), Vec3::new(0, 1, 0));
    assert_eq!(c, Vec3::new(0, 0, 1));
    let d = Vec3::cross(Vec3::new(2, 3, 4), Vec3::new(5, 6, 7));
    assert_eq!(d, Vec3::new(3 * 7 - 4 * 6, 4 * 5 - 2 * 7, 2 * 6 - 3 * 5));
}

#[test]
fn vector_helpers() {
    assert_eq!(Vec3::from_scalar(4), Vec3::new(4, 4, 4));
    assert_eq!(Vec3::new(3, -2, 5).min_val(), -2);
    assert_eq!(Vec3::new(3, 2, 5).sub(&Vec3::new(1, 4, -1)), Vec3::new(2, -2, 6));
    assert_eq!(Vec2::new(7, 3).min_val(), 3);
    assert_eq!(Vec2::from_scalar(2), Vec2::new(2, 2));
    assert_eq!(Vec2::new(7, 3).sub(&Vec2::new(1, 5)), Vec2::new(6, -2));
}

#[test]
fn plane_normal_and_offset() {
    let plane = TriangularPlane::from_plane(p(0, 0, 3), p(4, 0, 3), p(0, 4, 3));
    // cross(A - B, A - C) = cross((-4, 0, 0), (0, -4, 0)) = (0, 0, 16), in units of 1/1024^2
    assert_eq!(plane.n, Vec3::new(0, 0, 16 * FIXED_ONE * FIXED_ONE));
    assert_eq!(plane.k, 16 * 3 * (FIXED_ONE as i128).pow(3));
    assert!(!plane.fills_z());
}

#[test]
fn weights_rebuild_sample_point() {
    let plane = TriangularPlane::from_plane(p(0, 0, 0), p(4, 0, 0), p(0, 4, 0));
    let w = plane.calc_weights(1, 2, 1);
    // (1, 2) = A + 0.25 * (B - A) + 0.5 * (C - A)
    assert!(w.den > 0);
    assert_eq!(w.w1 * 4, w.den);
    assert_eq!(w.w2 * 2, w.den);
    assert!(TriangularPlane::weights_within_plane(w));
    let out = plane.calc_weights(3, 3, 1);
    assert!(!TriangularPlane::weights_within_plane(out));
}

#[test]
fn weights_at_resolution_two() {
    let plane = TriangularPlane::from_plane(p(0, 0, 0), p(4, 0, 0), p(0, 4, 0));
    // sample (3, 1) at resolution 2 is the point (1.5, 0.5)
    let w = plane.calc_weights(3, 1, 2);
    assert_eq!(w.w1 * 8, 3 * w.den);
    assert_eq!(w.w2 * 8, w.den);
}

#[test]
fn weights_solve_the_system_when_c_y_equals_a_y() {
    // C.y == A.y: the projection is still a proper triangle
    let plane = TriangularPlane::from_plane(p(0, 0, 0), p(0, 4, 0), p(4, 0, 0));
    let w = plane.calc_weights(1, 1, 1);
    // (1, 1) = A + 0.25 * (B - A) + 0.25 * (C - A)
    assert_eq!(w.w1 * 4, w.den);
    assert_eq!(w.w2 * 4, w.den);
    let c = plane.calc_weights(4, 0, 1);
    assert_eq!((c.w1, c.w2), (0, c.den));
    let outside = plane.calc_weights(4, 4, 1);
    assert!(!TriangularPlane::weights_within_plane(outside));
}

#[test]
fn degenerate_projection_forces_weights_to_zero() {
    // a vertical triangle: the determinant is zero, so both weights are zero
    let wall = TriangularPlane::from_plane(p(1, 1, 1), p(4, 1, 1), p(4, 1, 4));
    assert!(wall.fills_z());
    let w = wall.calc_weights(2, 1, 1);
    assert_eq!((w.w1, w.w2), (0, 0));
    assert!(TriangularPlane::weights_within_plane(w));
}

#[test]
fn slanted_wall_samples_only_its_segment() {
    let wall = TriangularPlane::from_plane(p(0, 0, 0), p(4, 4, 0), p(4, 4, 4));
    assert!(wall.fills_z());
    for (x, y) in [(0, 0), (2, 2), (4, 4)] {
        let w = wall.calc_weights(x, y, 1);
        assert_eq!((w.w1, w.w2), (0, 0));
        assert!(TriangularPlane::weights_within_plane(w));
    }
    for (x, y) in [(1, 0), (4, 0), (0, 4), (5, 5)] {
        let w = wall.calc_weights(x, y, 1);
        assert!(!TriangularPlane::weights_within_plane(w), "sample ({}, {})", x, y);
    }
    // a vertical triangle collapsed to a point in XY
    let post = TriangularPlane::from_plane(p(2, 3, 0), p(2, 3, 1), p(2, 3, 4));
    assert!(TriangularPlane::weights_within_plane(post.calc_weights(2, 3, 1)));
    assert!(!TriangularPlane::weights_within_plane(post.calc_weights(2, 2, 1)));
}

#[test]
fn corners_test_inside() {
    let plane = TriangularPlane::from_plane(p(1, 1, 0), p(6, 2, 1), p(2, 5, 2));
    for (x, y) in [(1, 1), (6, 2), (2, 5)] {
        let w = plane.calc_weights(x, y, 1);
        assert!(TriangularPlane::weights_within_plane(w), "corner ({}, {})", x, y);
    }
    let a = plane.calc_weights(1, 1, 1);
    assert_eq!((a.w1, a.w2), (0, 0));
    let b = plane.calc_weights(6, 2, 1);
    assert_eq!((b.w1, b.w2), (b.den, 0));
    let c = plane.calc_weights(2, 5, 1);
    assert_eq!((c.w1, c.w2), (0, c.den));
}

#[test]
fn inside_test_edges_are_inclusive() {
    let on_edge = Weights { w1: 1, w2: 3, den: 4 };
    assert!(TriangularPlane::weights_within_plane(on_edge));
    let over = Weights { w1: 2, w2: 3, den: 4 };
    assert!(!TriangularPlane::weights_within_plane(over));
    let negative = Weights { w1: -1, w2: 1, den: 4 };
    assert!(!TriangularPlane::weights_within_plane(negative));
}

#[test]
fn depth_satisfies_plane_equation() {
    // the plane z = x / 2 + 1
    let plane = TriangularPlane::from_plane(p(0, 0, 1), p(4, 0, 3), p(0, 4, 1));
    let z = plane.calculate_z(2, 3, 1);
    assert!(z.den > 0);
    assert_eq!(z.num, 2 * z.den);
    for (xs, ys, r) in [(2i64, 3i64, 1u16), (5, 1, 2), (7, 9, 3)] {
        let z = plane.calculate_z(xs, ys, r);
        let f = FIXED_ONE as i128;
        let r = r as i128;
        let lhs = plane.n.x as i128 * xs as i128 * f * z.den
            + plane.n.y as i128 * ys as i128 * f * z.den
            + plane.n.z as i128 * z.num * f * r;
        assert_eq!(lhs, plane.k * r * z.den);
    }
    let z = plane.calculate_z(3, 0, 1);
    assert_eq!(round_div_i128(z.num, z.den), 3);
}

#[test]
fn rounding_is_half_away_from_zero() {
    assert_eq!(round_div_i128(5, 2), 3);
    assert_eq!(round_div_i128(-5, 2), -3);
    assert_eq!(round_div_i128(7, 3), 2);
    assert_eq!(round_div_i128(-7, 3), -2);
    assert_eq!(round_div_i128(0, 9), 0);
}

#[test]
fn plane_bounds() {
    let plane = TriangularPlane::from_plane(Vec3::new(5, -2, 9), Vec3::new(-1, 4, 3), Vec3::new(2, 8, -6));
    let (lo, hi) = plane.bounds();
    assert_eq!(lo, Vec3::new(-1, -2, -6));
    assert_eq!(hi, Vec3::new(5, 8, 9));
}

#[test]
fn oversampled_point_keeps_weights_and_depth() {
    let plane = TriangularPlane::from_plane(p(0, 0, 1), p(4, 0, 3), p(0, 4, 1));
    for (xs, ys) in [(1i64, 2i64), (3, 1), (4, 4), (0, 5)] {
        let w = plane.calc_weights(xs, ys, 1);
        let w3 = plane.calc_weights(3 * xs, 3 * ys, 3);
        assert_eq!(
            TriangularPlane::weights_within_plane(w),
            TriangularPlane::weights_within_plane(w3)
        );
        assert_eq!(w.w1 * w3.den, w3.w1 * w.den);
        assert_eq!(w.w2 * w3.den, w3.w2 * w.den);
        let z = plane.calculate_z(xs, ys, 1);
        let z3 = plane.calculate_z(3 * xs, 3 * ys, 3);
        assert_eq!(round_div_i128(z.num, z.den), round_div_i128(z3.num, z3.den));
    }
}

#[test]
fn squared_lengths() {
    assert_eq!(Vec3::new(1, -2, 2).length_squared(), 9);
    assert_eq!(Vec2::new(3, -4).length_squared(), 25);
    assert_eq!(Vec3::from_scalar(i64::MIN).length_squared(), 3 * (1u128 << 126));
}
