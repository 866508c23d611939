use cloth_sim::config::Sphere;
use cloth_sim::kernel::{
    add_spring_forces, clamp_all, clamp_to, collide, dot, spring_force, surface_offset, unit,
};
use cloth_sim::scalar::ONE;
use cloth_sim::vector::Vec3;

fn dist_sq(a: Vec3, b: Vec3) -> i128 {
    let dx = a.x as i128 - b.x as i128;
    let dy = a.y as i128 - b.y as i128;
    let dz = a.z as i128 - b.z as i128;
    dx * dx + dy * dy + dz * dz
}

fn unit_sphere() -> Sphere {
    Sphere { center: Vec3::zero(), radius: ONE }
}

#[test]
fn a_stretched_spring_pulls_toward_the_anchor() {
    let f = spring_force(10 * ONE, ONE, Vec3::new(3 * ONE, 4 * ONE, 0), Vec3::zero());
    assert_eq!(f, Vec3::new(-24_000_000, -32_000_000, 0));
}

#[test]
fn a_compressed_spring_pushes_away_from_the_anchor() {
    let f = spring_force(10 * ONE, 2 * ONE, Vec3::new(ONE, 0, 0), Vec3::zero());
    assert_eq!(f, Vec3::new(10_000_000, 0, 0));
}

#[test]
fn a_spring_at_rest_exerts_no_force() {
    let f = spring_force(10 * ONE, 5 * ONE, Vec3::new(3 * ONE, 0, 4 * ONE), Vec3::zero());
    assert_eq!(f, Vec3::zero());
}

#[test]
fn a_spring_of_length_zero_is_passed_over() {
    let p = Vec3::new(7, -8, 9);
    assert_eq!(spring_force(10 * ONE, ONE, p, p), Vec3::zero());
    assert_eq!(spring_force(i64::MAX, i64::MIN, p, p), Vec3::zero());
}

#[test]
fn spring_force_rounds_toward_zero() {
    let f = spring_force(2_500_000, 1_000_000, Vec3::new(1_000_001, 7, -3), Vec3::zero());
    assert_eq!(f, Vec3::new(-2, 0, 0));
}

#[test]
fn spring_forces_add_up_in_order() {
    let anchors = vec![Vec3::new(2 * ONE, 0, 0), Vec3::zero(), Vec3::new(0, -3 * ONE, 0)];
    let f = add_spring_forces(Vec3::new(1, 2, 3), 10 * ONE, ONE, Vec3::zero(), &anchors);
    assert_eq!(f, Vec3::new(10_000_001, -19_999_998, 3));
    let none: Vec<Vec3> = Vec::new();
    assert_eq!(add_spring_forces(Vec3::new(1, 2, 3), 10 * ONE, ONE, Vec3::zero(), &none), Vec3::new(1, 2, 3));
}

#[test]
fn a_point_beyond_the_limit_is_pulled_back() {
    let p = Vec3::new(3 * ONE, 4 * ONE, 0);
    assert_eq!(clamp_to(p, Vec3::zero(), ONE), Vec3::new(600_000, 800_000, 0));
}

#[test]
fn a_point_within_the_limit_stays() {
    let p = Vec3::new(3 * ONE, 4 * ONE, 0);
    assert_eq!(clamp_to(p, Vec3::zero(), 5 * ONE), p);
    assert_eq!(clamp_to(p, Vec3::zero(), 6 * ONE), p);
    assert_eq!(clamp_to(p, p, 0), p);
}

#[test]
fn a_negative_limit_is_no_limit() {
    let p = Vec3::new(3 * ONE, 4 * ONE, 0);
    assert_eq!(clamp_to(p, Vec3::zero(), -1), p);
    assert_eq!(clamp_to(p, Vec3::zero(), i64::MIN), p);
}

#[test]
fn a_limit_of_zero_pulls_onto_the_anchor() {
    let a = Vec3::new(5, 6, 7);
    assert_eq!(clamp_to(Vec3::new(3 * ONE, 4 * ONE, 0), a, 0), a);
}

#[test]
fn rounding_never_leaves_a_point_beyond_the_limit() {
    let a = Vec3::new(100, 200, 300);
    let r = clamp_to(Vec3::new(1_234_567, -2_345_678, 3_456_789), a, ONE);
    assert_eq!(r, Vec3::new(283_497, -538_344, 793_808));
    assert_eq!(dist_sq(r, a), 999_998_445_609);
    assert!(dist_sq(r, a) <= (ONE as i128) * (ONE as i128));
}

#[test]
fn points_at_opposite_ends_of_the_range() {
    let r = clamp_to(Vec3::new(i64::MAX, 0, 0), Vec3::new(i64::MIN, 0, 0), ONE);
    assert_eq!(r, Vec3::new(i64::MIN + ONE, 0, 0));
}

#[test]
fn the_last_anchor_wins() {
    let p = Vec3::new(2_500_000, 3 * ONE, 0);
    let left = Vec3::zero();
    let right = Vec3::new(5 * ONE, 0, 0);
    let a = clamp_all(p, &vec![left, right], ONE);
    let b = clamp_all(p, &vec![right, left], ONE);
    assert_eq!(a, Vec3::new(4_015_172, 173_531, 0));
    assert_eq!(b, Vec3::new(984_828, 173_531, 0));
    assert!(dist_sq(a, right) <= (ONE as i128) * (ONE as i128));
    assert!(dist_sq(a, left) > (ONE as i128) * (ONE as i128));
    assert!(dist_sq(b, left) <= (ONE as i128) * (ONE as i128));
    let none: Vec<Vec3> = Vec::new();
    assert_eq!(clamp_all(p, &none, ONE), p);
}

#[test]
fn unit_vectors() {
    assert_eq!(unit(Vec3::new(3, 4, 0)), Vec3::new(600_000, 800_000, 0));
    assert_eq!(unit(Vec3::new(0, 0, -7 * ONE)), Vec3::new(0, 0, -ONE));
    assert_eq!(unit(Vec3::zero()), Vec3::new(0, ONE, 0));
}

#[test]
fn offsets_to_the_surface_round_outward() {
    assert_eq!(surface_offset(Vec3::new(3, 4, 0), 5 * ONE), Vec3::new(3 * ONE, 4 * ONE, 0));
    assert_eq!(surface_offset(Vec3::new(-1, 0, 0), ONE), Vec3::new(-ONE, 0, 0));
    assert_eq!(surface_offset(Vec3::zero(), 7), Vec3::new(0, 7, 0));
    let o = surface_offset(Vec3::new(100_000, 100_000, 100_000), ONE);
    assert_eq!(o, Vec3::new(577_351, 577_351, 577_351));
}

#[test]
fn inner_product() {
    let a = Vec3::new(ONE, 2 * ONE, 3 * ONE);
    let b = Vec3::new(4 * ONE, -5 * ONE, 6 * ONE);
    assert_eq!(dot(a, b), 12 * ONE);
    assert_eq!(dot(a, Vec3::zero()), 0);
    assert_eq!(dot(Vec3::new(i64::MAX, i64::MAX, 0), Vec3::new(2 * ONE, 2 * ONE, 0)), i64::MAX);
}

#[test]
fn a_point_inside_is_moved_to_the_surface() {
    let (p, v) = collide(
        &unit_sphere(),
        300_000,
        Vec3::new(0, 900_000, 0),
        Vec3::new(100_000, -200_000, 50_000),
    );
    assert_eq!(p, Vec3::new(0, ONE, 0));
    assert_eq!(v, Vec3::new(70_000, 0, 35_000));
}

#[test]
fn a_point_outside_or_on_the_surface_is_left_alone() {
    let v = Vec3::new(1, 2, 3);
    assert_eq!(collide(&unit_sphere(), 300_000, Vec3::new(0, ONE, 0), v), (Vec3::new(0, ONE, 0), v));
    assert_eq!(collide(&unit_sphere(), 300_000, Vec3::new(ONE, 0, 1), v), (Vec3::new(ONE, 0, 1), v));
    assert_eq!(
        collide(&unit_sphere(), 300_000, Vec3::new(i64::MAX, i64::MIN, 0), v),
        (Vec3::new(i64::MAX, i64::MIN, 0), v)
    );
}

#[test]
fn a_point_just_inside_is_moved() {
    let (p, v) = collide(&unit_sphere(), 300_000, Vec3::new(999_999, 0, 0), Vec3::zero());
    assert_eq!(p, Vec3::new(ONE, 0, 0));
    assert_eq!(v, Vec3::zero());
}

#[test]
fn a_point_at_the_centre_is_moved_straight_up() {
    let sphere = Sphere { center: Vec3::new(1, 2, 3), radius: ONE };
    let (p, v) = collide(&sphere, 300_000, Vec3::new(1, 2, 3), Vec3::new(100_000, -200_000, 50_000));
    assert_eq!(p, Vec3::new(1, 1_000_002, 3));
    assert_eq!(v, Vec3::new(70_000, 0, 35_000));
}

#[test]
fn collision_off_the_axes() {
    let sphere = Sphere { center: Vec3::new(0, -1_500_000, 0), radius: ONE };
    let (p, v) = collide(
        &sphere,
        300_000,
        Vec3::new(300_000, -1_000_000, -400_000),
        Vec3::new(100_000, -200_000, 50_000),
    );
    assert_eq!(p, Vec3::new(424_265, -792_892, -565_687));
    assert_eq!(v, Vec3::new(107_799, -77_000, -15_399));
    assert_eq!(dist_sq(p, sphere.center), 1_000_004_295_858);
}

#[test]
fn collision_removes_the_velocity_along_the_normal() {
    let (p, v) = collide(
        &unit_sphere(),
        0,
        Vec3::new(100_000, 100_000, 100_000),
        Vec3::new(ONE, ONE, ONE),
    );
    assert_eq!(p, Vec3::new(577_351, 577_351, 577_351));
    assert_eq!(v, Vec3::new(1, 1, 1));
}

#[test]
fn full_damping_stops_the_vertex() {
    let (p, v) = collide(&unit_sphere(), ONE, Vec3::new(0, 500_000, 0), Vec3::new(ONE, -ONE, ONE));
    assert_eq!(p, Vec3::new(0, ONE, 0));
    assert_eq!(v, Vec3::zero());
}

#[test]
fn a_sphere_of_radius_zero_holds_nothing() {
    let sphere = Sphere { center: Vec3::zero(), radius: 0 };
    let v = Vec3::new(1, 2, 3);
    assert_eq!(collide(&sphere, 300_000, Vec3::zero(), v), (Vec3::zero(), v));
}

#[test]
fn no_point_ends_inside_the_sphere() {
    let sphere = Sphere { center: Vec3::new(250_000, -1_500_000, -125_000), radius: 1_234_567 };
    let rr = (sphere.radius as i128) * (sphere.radius as i128);
    let mut seed: i64 = 12_345;
    for _ in 0..2000 {
        let mut c = [0i64; 3];
        for k in 0..3 {
            seed = (seed.wrapping_mul(6_364_136_223_846_793_005).wrapping_add(1_442_695_040_888_963_407)) >> 1;
            c[k] = seed % 1_500_000;
        }
        let p = Vec3::new(sphere.center.x + c[0], sphere.center.y + c[1], sphere.center.z + c[2]);
        let (q, _) = collide(&sphere, 300_000, p, Vec3::new(0, -ONE, 0));
        assert!(dist_sq(q, sphere.center) >= rr);
        if dist_sq(p, sphere.center) >= rr {
            assert_eq!(q, p);
        } else {
            let d = (dist_sq(q, sphere.center) as f64).sqrt() / 1e6;
            assert!(d < 1.234_567 + 1e-5);
            assert!((q.x - sphere.center.x).abs() <= sphere.radius);
            assert!((q.y - sphere.center.y).abs() <= sphere.radius);
            assert!((q.z - sphere.center.z).abs() <= sphere.radius);
        }
    }
}

#[test]
fn a_point_that_was_pulled_back_lies_at_the_limit() {
    let mut seed: i64 = 987_654_321;
    let mut next = |bound: i64| -> i64 {
        seed = (seed.wrapping_mul(6_364_136_223_846_793_005).wrapping_add(1_442_695_040_888_963_407)) >> 1;
        seed % bound
    };
    for _ in 0..2000 {
        let a = Vec3::new(next(3 * ONE), next(3 * ONE), next(3 * ONE));
        let p = Vec3::new(next(3 * ONE), next(3 * ONE), next(3 * ONE));
        let max = next(ONE).abs() + 3;
        let r = clamp_to(p, a, max);
        let limit = (max as i128) * (max as i128);
        assert!(dist_sq(r, a) <= limit);
        if dist_sq(p, a) > limit {
            assert!(dist_sq(r, a) >= ((max - 3) as i128) * ((max - 3) as i128));
        } else {
            assert_eq!(r, p);
        }
    }
}

#[test]
fn a_point_that_was_moved_lies_near_the_surface() {
    let sphere = Sphere { center: Vec3::new(-7, 8, 9), radius: 2 * ONE };
    let mut seed: i64 = 55_555;
    let mut next = |bound: i64| -> i64 {
        seed = (seed.wrapping_mul(6_364_136_223_846_793_005).wrapping_add(1_442_695_040_888_963_407)) >> 1;
        seed % bound
    };
    let rr = (sphere.radius as i128) * (sphere.radius as i128);
    let mut moved = 0;
    for _ in 0..2000 {
        let p = Vec3::new(
            sphere.center.x + next(2 * ONE),
            sphere.center.y + next(2 * ONE),
            sphere.center.z + next(2 * ONE),
        );
        let (q, _) = collide(&sphere, 0, p, Vec3::zero());
        if dist_sq(p, sphere.center) < rr && p != sphere.center {
            moved += 1;
            let len = p.minus(sphere.center).norm() as i128;
            let reach = (len + 1) * (sphere.radius as i128) + 2 * len;
            assert!(dist_sq(q, sphere.center) * len * len < reach * reach);
            assert!(dist_sq(q, sphere.center) >= rr);
        }
    }
    assert!(moved > 500);
}
