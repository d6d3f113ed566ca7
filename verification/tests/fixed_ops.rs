//! Exact-value tests for the fixed-point scalar type.

use evosim::fixed::{Fx, SCALE};

fn fx(raw: i64) -> Fx {
    Fx::from_raw(raw)
}

#[test]
fn add_and_sub_are_exact() {
    assert_eq!(fx(1_500_000).add(fx(2_250_000)).raw, 3_750_000);
    assert_eq!(fx(1_000_000).sub(fx(2_500_000)).raw, -1_500_000);
}

#[test]
fn add_saturates_at_the_i64_bounds() {
    assert_eq!(fx(i64::MAX).add(fx(1)).raw, i64::MAX);
    assert_eq!(fx(i64::MIN).sub(fx(1)).raw, i64::MIN);
    assert_eq!(fx(i64::MIN).neg().raw, i64::MAX);
}

#[test]
fn mul_is_exact_on_representable_products() {
    // 1.5 * 2 = 3
    assert_eq!(fx(1_500_000).mul(fx(2_000_000)).raw, 3_000_000);
    // 800 * 0.0025 = 2
    assert_eq!(fx(800_000_000).mul(fx(2_500)).raw, 2_000_000);
    assert_eq!(fx(-1_500_000).mul(fx(2_000_000)).raw, -3_000_000);
}

#[test]
fn mul_truncates_toward_zero() {
    // 0.000001 * 0.5 truncates to 0
    assert_eq!(fx(1).mul(fx(500_000)).raw, 0);
    // -0.500001 * 1 stays -0.500001; -0.000001 * 0.5 truncates to 0, not -1
    assert_eq!(fx(-1).mul(fx(500_000)).raw, 0);
}

#[test]
fn div_is_truncating_and_total() {
    assert_eq!(fx(1_000_000).div(fx(3_000_000)).raw, 333_333);
    assert_eq!(fx(-1_000_000).div(fx(3_000_000)).raw, -333_333);
    // division by zero yields zero rather than a panic
    assert_eq!(fx(5_000_000).div(fx(0)).raw, 0);
}

#[test]
fn sqrt_matches_the_floor_of_the_real_root() {
    assert_eq!(fx(25_000_000).sqrt().raw, 5_000_000);
    assert_eq!(fx(2_000_000).sqrt().raw, 1_414_213);
    assert_eq!(fx(0).sqrt().raw, 0);
    assert_eq!(fx(-4_000_000).sqrt().raw, 0);
}

#[test]
fn clamp_and_units() {
    assert_eq!(fx(5_000_000).clamp(fx(0), fx(2_000_000)).raw, 2_000_000);
    assert_eq!(fx(-5_000_000).clamp(fx(0), fx(2_000_000)).raw, 0);
    assert_eq!(fx(1_000_000).clamp(fx(0), fx(2_000_000)).raw, 1_000_000);
    assert_eq!(Fx::from_int(40).raw, 40 * SCALE);
    assert_eq!(fx(2_999_999).trunc_units(), 2);
    assert_eq!(fx(-2_999_999).trunc_units(), -2);
}
