//! Saturating, truncating fixed-point arithmetic on nano-unit `i64`
//! values. Every executable operation returns exactly the value of its
//! spec-level counterpart; nothing here can overflow or panic.

use vstd::prelude::*;

verus! {

/// Number of nano-units in `1.0`.
pub const FP_SCALE: i64 = 1_000_000_000;

/// Clamp a mathematical integer into the `i64` range.
pub open spec fn sat64(v: int) -> int {
    if v > i64::MAX {
        i64::MAX as int
    } else if v < i64::MIN {
        i64::MIN as int
    } else {
        v
    }
}

/// Absolute value on mathematical integers.
pub open spec fn abs_int(v: int) -> int {
    if v < 0 {
        -v
    } else {
        v
    }
}

/// Division rounding toward zero, total: `0` when the divisor is `0`.
pub open spec fn div_trunc(a: int, b: int) -> int {
    if b == 0 {
        0
    } else if (a >= 0) == (b >= 0) {
        abs_int(a) / abs_int(b)
    } else {
        -(abs_int(a) / abs_int(b))
    }
}

/// Fixed-point sum, saturated at the `i64` bounds.
pub open spec fn fp_add(a: int, b: int) -> int {
    sat64(a + b)
}

/// Fixed-point difference, saturated at the `i64` bounds.
pub open spec fn fp_sub(a: int, b: int) -> int {
    sat64(a - b)
}

/// Fixed-point product `a * b / FP_SCALE`, truncated and saturated.
pub open spec fn fp_mul(a: int, b: int) -> int {
    sat64(div_trunc(a * b, FP_SCALE as int))
}

/// Fixed-point quotient `a * FP_SCALE / b`, truncated and saturated;
/// `0` when the divisor is `0`.
pub open spec fn fp_div(a: int, b: int) -> int {
    sat64(div_trunc(a * FP_SCALE, b))
}

/// Absolute difference `|a - b|`, saturated at the `i64` bounds.
pub open spec fn fp_abs_diff(a: int, b: int) -> int {
    sat64(abs_int(a - b))
}

/// Saturate an `i128` intermediate into `i64`.
pub fn sat_to_i64(v: i128) -> (r: i64)
    ensures
        r as int == sat64(v as int),
{
    if v > i64::MAX as i128 {
        i64::MAX
    } else if v < i64::MIN as i128 {
        i64::MIN
    } else {
        v as i64
    }
}

/// Truncating division of `i128` values whose magnitudes stay clear of
/// `i128::MIN`, so taking magnitudes cannot overflow.
pub fn div_trunc_i128(a: i128, b: i128) -> (q: i128)
    requires
        a > i128::MIN,
        b > i128::MIN,
    ensures
        q as int == div_trunc(a as int, b as int),
        abs_int(q as int) <= abs_int(a as int),
{
    if b == 0 {
        return 0;
    }
    let am: u128 = if a < 0 {
        (-a) as u128
    } else {
        a as u128
    };
    let bm: u128 = if b < 0 {
        (-b) as u128
    } else {
        b as u128
    };
    let qm: u128 = am / bm;
    assert(am as int == abs_int(a as int));
    assert(bm as int == abs_int(b as int));
    assert(qm as int == abs_int(a as int) / abs_int(b as int)) by {
        assert(bm as int >= 1);
    };
    assert(qm <= am) by {
        assert(am as int / bm as int <= am as int) by (nonlinear_arith)
            requires
                bm as int >= 1,
                am as int >= 0,
        ;
    };
    if (a >= 0) == (b >= 0) {
        qm as i128
    } else {
        -(qm as i128)
    }
}

/// Executable fixed-point sum; returns exactly `fp_add`.
pub fn add_fp(a: i64, b: i64) -> (r: i64)
    ensures
        r as int == fp_add(a as int, b as int),
{
    sat_to_i64(a as i128 + b as i128)
}

/// Executable fixed-point difference; returns exactly `fp_sub`.
pub fn sub_fp(a: i64, b: i64) -> (r: i64)
    ensures
        r as int == fp_sub(a as int, b as int),
{
    sat_to_i64(a as i128 - b as i128)
}

/// Executable fixed-point product; returns exactly `fp_mul`.
pub fn mul_fp(a: i64, b: i64) -> (r: i64)
    ensures
        r as int == fp_mul(a as int, b as int),
{
    assert(i128::MIN < (a as int) * (b as int) < i128::MAX) by (nonlinear_arith)
        requires
            i64::MIN <= a as int <= i64::MAX,
            i64::MIN <= b as int <= i64::MAX,
    ;
    let p: i128 = (a as i128) * (b as i128);
    let q = div_trunc_i128(p, FP_SCALE as i128);
    sat_to_i64(q)
}

/// Executable fixed-point quotient; returns exactly `fp_div`.
pub fn div_fp(a: i64, b: i64) -> (r: i64)
    ensures
        r as int == fp_div(a as int, b as int),
{
    assert(i128::MIN < (a as int) * (FP_SCALE as int) < i128::MAX) by (nonlinear_arith)
        requires
            i64::MIN <= a as int <= i64::MAX,
    ;
    let p: i128 = (a as i128) * (FP_SCALE as i128);
    let q = div_trunc_i128(p, b as i128);
    sat_to_i64(q)
}

/// Executable absolute difference; returns exactly `fp_abs_diff`.
pub fn abs_diff_fp(a: i64, b: i64) -> (r: i64)
    ensures
        r as int == fp_abs_diff(a as int, b as int),
{
    let d: i128 = a as i128 - b as i128;
    let m: i128 = if d < 0 {
        -d
    } else {
        d
    };
    sat_to_i64(m)
}

} // verus!
