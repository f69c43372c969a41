use hectic::firing::div_towards_zero;
use hectic::firing::div_wide_towards_zero;
use hectic::math::isqrt_ceil;
use hectic::math::narrow;
use hectic::math::Vec2;

#[test]
fn narrow_saturates() {
    assert_eq!(narrow(5), 5);
    assert_eq!(narrow(-5), -5);
    assert_eq!(narrow(i32::MAX as i64 + 1), i32::MAX);
    assert_eq!(narrow(i32::MIN as i64 - 1), i32::MIN);
    assert_eq!(narrow(i64::MAX), i32::MAX);
    assert_eq!(narrow(i64::MIN), i32::MIN);
}

#[test]
fn square_root_rounds_up() {
    assert_eq!(isqrt_ceil(0), 0);
    assert_eq!(isqrt_ceil(1), 1);
    assert_eq!(isqrt_ceil(2), 2);
    assert_eq!(isqrt_ceil(4), 2);
    assert_eq!(isqrt_ceil(5), 3);
    assert_eq!(isqrt_ceil(9), 3);
    assert_eq!(isqrt_ceil(10), 4);
    assert_eq!(isqrt_ceil(1 << 64), 1 << 32);
    assert_eq!(isqrt_ceil((1 << 64) + 1), (1 << 32) + 1);
    assert_eq!(isqrt_ceil(u128::MAX), 1 << 64);
}

#[test]
fn vectors_add_and_subtract_with_saturation() {
    let a = Vec2::new(10, -20);
    let b = Vec2::new(-3, 7);
    assert_eq!(a.add(b), Vec2::new(7, -13));
    assert_eq!(a.sub(b), Vec2::new(13, -27));
    assert_eq!(Vec2::new(i32::MAX, i32::MIN).add(Vec2::new(1, -1)), Vec2::new(i32::MAX, i32::MIN));
    assert_eq!(Vec2::new(i32::MIN, i32::MAX).sub(Vec2::new(1, -1)), Vec2::new(i32::MIN, i32::MAX));
    assert_eq!(Vec2::zero(), Vec2::new(0, 0));
}

#[test]
fn squared_distance_always_fits() {
    assert_eq!(Vec2::new(0, 0).distance2(Vec2::new(3, 4)), 25);
    assert_eq!(Vec2::new(-1, -1).distance2(Vec2::new(-1, -1)), 0);
    let far = Vec2::new(i32::MIN, i32::MIN).distance2(Vec2::new(i32::MAX, i32::MAX));
    assert_eq!(far, 2 * (u32::MAX as u128) * (u32::MAX as u128));
}

#[test]
fn division_rounds_towards_zero() {
    assert_eq!(div_towards_zero(7, 2), 3);
    assert_eq!(div_towards_zero(-7, 2), -3);
    assert_eq!(div_towards_zero(0, 9), 0);
    assert_eq!(div_towards_zero(-1, 9), 0);
    assert_eq!(div_towards_zero(i64::MAX, 1), i64::MAX);
    assert_eq!(div_towards_zero(i64::MIN, 1), i64::MIN);
    assert_eq!(div_towards_zero(i64::MIN, 2), -(1 << 62));
    assert_eq!(div_towards_zero(i64::MIN, u32::MAX), i64::MIN / (u32::MAX as i64));
    assert_eq!(div_wide_towards_zero(i128::MIN, 1), i128::MIN);
    assert_eq!(div_wide_towards_zero(i128::MIN, 3), i128::MIN / 3);
    assert_eq!(div_wide_towards_zero(-9, 4), -2);
    assert_eq!(div_wide_towards_zero(9, 4), 2);
    assert_eq!(div_wide_towards_zero(i128::MAX, u64::MAX), i128::MAX / (u64::MAX as i128));
}
