use hygrocal::fixed::{abs_diff_fp, add_fp, div_fp, mul_fp, sub_fp, FP_SCALE};
use hygrocal::trig::{cos_fp_exec, sin_fp_exec, HALF_PI_FP, PI_FP};

#[test]
fn scale_is_nano() {
    assert_eq!(FP_SCALE, 1_000_000_000);
}

#[test]
fn mul_exact() {
    // 3.5 * 2.0 = 7.0
    assert_eq!(mul_fp(3_500_000_000, 2_000_000_000), 7_000_000_000);
    // -3.5 * 2.0 = -7.0
    assert_eq!(mul_fp(-3_500_000_000, 2_000_000_000), -7_000_000_000);
    // 0.85 * -7.5 = -6.375
    assert_eq!(mul_fp(850_000_000, -7_500_000_000), -6_375_000_000);
    assert_eq!(mul_fp(0, 123_456_789), 0);
}

#[test]
fn div_truncates_toward_zero() {
    // 1 / 3 = 0.333333333
    assert_eq!(div_fp(1_000_000_000, 3_000_000_000), 333_333_333);
    // -1 / 3 truncates toward zero, not toward minus infinity
    assert_eq!(div_fp(-1_000_000_000, 3_000_000_000), -333_333_333);
    assert_eq!(div_fp(1_000_000_000, -3_000_000_000), -333_333_333);
    // division by zero is total and yields zero
    assert_eq!(div_fp(5_000_000_000, 0), 0);
}

#[test]
fn add_sub_saturate() {
    assert_eq!(add_fp(i64::MAX, 1), i64::MAX);
    assert_eq!(sub_fp(i64::MIN, 1), i64::MIN);
    assert_eq!(add_fp(2_000_000_000, 3_000_000_000), 5_000_000_000);
}

#[test]
fn abs_diff_exact() {
    assert_eq!(abs_diff_fp(3_000_000_000, 5_000_000_000), 2_000_000_000);
    assert_eq!(abs_diff_fp(5_000_000_000, 3_000_000_000), 2_000_000_000);
    assert_eq!(abs_diff_fp(-1, -1), 0);
}

#[test]
fn sine_reference_points() {
    assert_eq!(sin_fp_exec(0), 0);
    assert_eq!(sin_fp_exec(HALF_PI_FP), 999_999_999);
    assert_eq!(sin_fp_exec(PI_FP), 0);
}

#[test]
fn sine_is_odd() {
    for x in [1_000_000i64, 500_000_000, HALF_PI_FP, 3_000_000_000, 6_000_000_000] {
        assert_eq!(sin_fp_exec(-x), -sin_fp_exec(x));
    }
}

#[test]
fn cosine_reference_points() {
    assert_eq!(cos_fp_exec(0), 999_999_999);
    assert_eq!(cos_fp_exec(0), sin_fp_exec(HALF_PI_FP));
}
