use cloth_sim::scalar::{
    fx_add, fx_div, fx_mul, fx_mul_div, fx_mul_div_away, fx_neg, fx_sub, fx_times, isqrt,
    isqrt_ceil, saturate, ONE,
};
use cloth_sim::vector::Vec3;

#[test]
fn one_is_a_million() {
    assert_eq!(ONE, 1_000_000);
}

#[test]
fn saturate_clamps_to_the_scalar_range() {
    assert_eq!(saturate(0), 0);
    assert_eq!(saturate(-5), -5);
    assert_eq!(saturate(i64::MAX as i128), i64::MAX);
    assert_eq!(saturate(i64::MAX as i128 + 1), i64::MAX);
    assert_eq!(saturate(i64::MIN as i128 - 1), i64::MIN);
    assert_eq!(saturate(i128::MAX), i64::MAX);
    assert_eq!(saturate(i128::MIN), i64::MIN);
}

#[test]
fn sums_and_differences_saturate() {
    assert_eq!(fx_add(1_500_000, 2_250_000), 3_750_000);
    assert_eq!(fx_add(i64::MAX, 1), i64::MAX);
    assert_eq!(fx_add(i64::MIN, -1), i64::MIN);
    assert_eq!(fx_sub(1_500_000, 2_250_000), -750_000);
    assert_eq!(fx_sub(i64::MIN, 1), i64::MIN);
    assert_eq!(fx_sub(i64::MAX, -1), i64::MAX);
    assert_eq!(fx_neg(7), -7);
    assert_eq!(fx_neg(i64::MIN), i64::MAX);
}

#[test]
fn products_round_toward_zero() {
    assert_eq!(fx_mul(1_500_000, 2_000_000), 3_000_000);
    assert_eq!(fx_mul(3, 500_000), 1);
    assert_eq!(fx_mul(-3, 500_000), -1);
    assert_eq!(fx_mul(1, 999_999), 0);
    assert_eq!(fx_mul(-1, 999_999), 0);
    assert_eq!(fx_mul(-9_800_000, 16_000), -156_800);
    assert_eq!(fx_mul(i64::MAX, 2 * ONE), i64::MAX);
    assert_eq!(fx_mul(i64::MIN, 2 * ONE), i64::MIN);
    assert_eq!(fx_mul(i64::MIN, i64::MIN), i64::MAX);
}

#[test]
fn quotients_round_toward_zero() {
    assert_eq!(fx_div(1_000_000, 3_000_000), 333_333);
    assert_eq!(fx_div(-1_000_000, 3_000_000), -333_333);
    assert_eq!(fx_div(-4_900_000, 500_000), -9_800_000);
    assert_eq!(fx_div(i64::MAX, 1), i64::MAX);
    assert_eq!(fx_div(i64::MIN, 1), i64::MIN);
    assert_eq!(fx_mul_div(7, 3, 2), 10);
    assert_eq!(fx_mul_div(-7, 3, 2), -10);
    assert_eq!(fx_mul_div(i64::MAX, i64::MAX, 1), i64::MAX);
    assert_eq!(fx_mul_div(i64::MAX, i64::MAX, u64::MAX), 4_611_686_018_427_387_903);
}

#[test]
fn quotients_round_away_from_zero() {
    assert_eq!(fx_mul_div_away(7, 3, 2), 11);
    assert_eq!(fx_mul_div_away(-7, 3, 2), -11);
    assert_eq!(fx_mul_div_away(6, 3, 2), 9);
    assert_eq!(fx_mul_div_away(-6, 3, 2), -9);
    assert_eq!(fx_mul_div_away(0, 3, 2), 0);
    assert_eq!(fx_mul_div_away(1, 1, 3), 1);
    assert_eq!(fx_mul_div_away(-1, 1, 3), -1);
    assert_eq!(fx_mul_div_away(i64::MIN, i64::MAX, 1), i64::MIN);
}

#[test]
fn a_count_times_a_scalar() {
    assert_eq!(fx_times(0, 50_000), 0);
    assert_eq!(fx_times(59, 50_000), 2_950_000);
    assert_eq!(fx_times(3, -50_000), -150_000);
    assert_eq!(fx_times(u32::MAX, i64::MAX), i64::MAX);
    assert_eq!(fx_times(u32::MAX, i64::MIN), i64::MIN);
}

#[test]
fn integer_square_roots() {
    assert_eq!(isqrt(0), 0);
    assert_eq!(isqrt(1), 1);
    assert_eq!(isqrt(2), 1);
    assert_eq!(isqrt(3), 1);
    assert_eq!(isqrt(4), 2);
    assert_eq!(isqrt(24), 4);
    assert_eq!(isqrt(25), 5);
    assert_eq!(isqrt(26), 5);
    assert_eq!(isqrt(1_000_000_000_000), 1_000_000);
    assert_eq!(isqrt(999_999_999_999), 999_999);
    assert_eq!(isqrt(u128::MAX), u64::MAX);
    assert_eq!(isqrt((u64::MAX as u128) * (u64::MAX as u128)), u64::MAX);
    assert_eq!(isqrt((u64::MAX as u128) * (u64::MAX as u128) - 1), u64::MAX - 1);
}

#[test]
fn square_roots_rounded_up() {
    assert_eq!(isqrt_ceil(0), 0);
    assert_eq!(isqrt_ceil(1), 1);
    assert_eq!(isqrt_ceil(2), 2);
    assert_eq!(isqrt_ceil(4), 2);
    assert_eq!(isqrt_ceil(5), 3);
    assert_eq!(isqrt_ceil(25_000_000_000_000), 5_000_000);
    assert_eq!(isqrt_ceil(25_000_000_000_001), 5_000_001);
    assert_eq!(isqrt_ceil(u128::MAX), 1u128 << 64);
}

#[test]
fn square_root_encloses_its_argument() {
    let mut n: u128 = 1;
    while n < (1u128 << 120) {
        let r = isqrt(n) as u128;
        assert!(r * r <= n);
        assert!((r + 1) * (r + 1) > n);
        let c = isqrt_ceil(n);
        assert!(c * c >= n);
        assert!(c == 0 || (c - 1) * (c - 1) < n);
        n = n * 3 + 1;
    }
}

#[test]
fn vectors_add_and_subtract_by_component() {
    let a = Vec3::new(1, -2, 3);
    let b = Vec3::new(10, 20, -30);
    assert_eq!(a.plus(b), Vec3 { x: 11, y: 18, z: -27 });
    assert_eq!(a.minus(b), Vec3 { x: -9, y: -22, z: 33 });
    assert_eq!(Vec3::zero(), Vec3 { x: 0, y: 0, z: 0 });
    let far = Vec3::new(i64::MAX, i64::MIN, 0);
    assert_eq!(far.plus(Vec3::new(1, -1, 0)), far);
    assert_eq!(far.minus(Vec3::new(-1, 1, 0)), far);
}

#[test]
fn vectors_scale_by_a_fixed_point_factor() {
    let v = Vec3::new(0, -9_800_000, 3);
    assert_eq!(v.scaled(16_000), Vec3 { x: 0, y: -156_800, z: 0 });
    assert_eq!(v.scaled(-ONE), Vec3 { x: 0, y: 9_800_000, z: -3 });
}

#[test]
fn length_of_a_three_four_five_triangle() {
    let v = Vec3::new(3 * ONE, -4 * ONE, 0);
    assert_eq!(v.norm_sq(), 25_000_000_000_000);
    assert_eq!(v.norm(), 5_000_000);
    assert_eq!(Vec3::new(1, 1, 1).norm(), 1);
    assert_eq!(Vec3::zero().norm(), 0);
}

#[test]
fn length_of_the_longest_vector() {
    let v = Vec3::new(i64::MIN, i64::MIN, i64::MIN);
    assert_eq!(v.norm_sq(), 3 * (1u128 << 126));
    assert_eq!(v.norm(), 15_975_348_984_942_515_101);
}

#[test]
fn exact_distance_is_missing_when_it_does_not_fit() {
    let a = Vec3::new(1_000_000, 2_000_000, 3_000_000);
    let b = Vec3::new(4_000_000, 6_000_000, 3_000_000);
    assert_eq!(a.distance_sq(b), Some(25_000_000_000_000));
    assert_eq!(b.distance_sq(a), Some(25_000_000_000_000));
    assert_eq!(a.distance_sq(a), Some(0));
    let far = Vec3::new(i64::MAX, 0, 0);
    let other = Vec3::new(-1, 0, 0);
    assert_eq!(far.distance_sq(other), None);
    assert_eq!(Vec3::new(i64::MAX, 0, 0).distance_sq(Vec3::zero()), Some((i64::MAX as u128) * (i64::MAX as u128)));
    assert_eq!(Vec3::new(0, i64::MIN, 0).distance_sq(Vec3::zero()), Some(1u128 << 126));
}
