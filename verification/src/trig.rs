//! Fixed-point sine and cosine.
//!
//! The library defines its own deterministic approximation: the
//! argument is reduced modulo `2*pi`, the value on `[0, pi]` comes from
//! Bhaskara's rational formula `16x(pi - x) / (5*pi^2 - 4x(pi - x))`,
//! the value on `[pi, 2*pi)` is its negation, and `sin(-x) = -sin(x)`.
//! The spec functions below state the computed value exactly; the
//! executable functions return precisely those values.

use vstd::prelude::*;
use crate::fixed::{add_fp, div_trunc, div_trunc_i128, fp_add, sat64, sat_to_i64, FP_SCALE};

verus! {

/// `pi` in nano-units, truncated.
pub const PI_FP: i64 = 3_141_592_653;

/// `2 * pi` in nano-units, truncated.
pub const TWO_PI_FP: i64 = 6_283_185_307;

/// `pi / 2` in nano-units, truncated.
pub const HALF_PI_FP: i64 = 1_570_796_326;

/// `5 * PI_FP * PI_FP / FP_SCALE`, the constant term of Bhaskara's
/// denominator.
pub const BHASKARA_DEN: i64 = 49_348_021_986;

/// Upper clamp for `x * (pi - x) / FP_SCALE`, reached at `x = pi / 2`.
pub const BHASKARA_PMAX: i64 = 2_467_401_099;

/// Bhaskara's rational sine approximation on `[0, PI_FP]`, in
/// nano-units; the inner product is clamped into `[0, BHASKARA_PMAX]`
/// so the denominator stays positive for every argument.
pub open spec fn bhaskara(x: int) -> int {
    let p0 = div_trunc(x * (PI_FP - x), FP_SCALE as int);
    let p = if p0 < 0 {
        0
    } else if p0 > BHASKARA_PMAX {
        BHASKARA_PMAX as int
    } else {
        p0
    };
    div_trunc(16 * p * FP_SCALE, BHASKARA_DEN - 4 * p)
}

/// Sine of a non-negative argument: reduce modulo `2 * pi`, then apply
/// `bhaskara` on the half-period with the sign of the half.
pub open spec fn sin_nonneg(x: int) -> int {
    let r = x % (TWO_PI_FP as int);
    if r < PI_FP {
        bhaskara(r)
    } else {
        -bhaskara(r - PI_FP)
    }
}

/// The library's sine: odd extension of `sin_nonneg`, with the
/// magnitude of an `i64::MIN` argument saturated first.
pub open spec fn sin_fp(x: int) -> int {
    if x < 0 {
        -sin_nonneg(sat64(-x))
    } else {
        sin_nonneg(x)
    }
}

/// The library's cosine: `sin(x + pi / 2)` with a saturated shift.
pub open spec fn cos_fp(x: int) -> int {
    sin_fp(fp_add(x, HALF_PI_FP as int))
}

fn bhaskara_exec(x: i64) -> (r: i64)
    requires
        0 <= x < TWO_PI_FP,
    ensures
        r as int == bhaskara(x as int),
        -(FP_SCALE as int) <= r as int <= FP_SCALE as int,
{
    assert(i128::MIN < (x as int) * ((PI_FP - x) as int) < i128::MAX) by (nonlinear_arith)
        requires
            0 <= x as int,
            (x as int) < (TWO_PI_FP as int),
    ;
    let prod: i128 = (x as i128) * ((PI_FP - x) as i128);
    let p0: i128 = div_trunc_i128(prod, FP_SCALE as i128);
    let p: i128 = if p0 < 0 {
        0
    } else if p0 > BHASKARA_PMAX as i128 {
        BHASKARA_PMAX as i128
    } else {
        p0
    };
    let num: i128 = 16 * p * (FP_SCALE as i128);
    let den: i128 = (BHASKARA_DEN as i128) - 4 * p;
    let q = div_trunc_i128(num, den);
    assert(q as int == bhaskara(x as int));
    assert(0 <= q as int <= FP_SCALE as int) by {
        assert(num as int / den as int <= FP_SCALE as int) by (nonlinear_arith)
            requires
                0 <= num as int,
                num as int == 16 * (p as int) * (FP_SCALE as int),
                den as int == BHASKARA_DEN as int - 4 * (p as int),
                0 <= p as int <= BHASKARA_PMAX as int,
        ;
    };
    q as i64
}

/// Executable sine; returns exactly `sin_fp`.
pub fn sin_fp_exec(x: i64) -> (r: i64)
    ensures
        r as int == sin_fp(x as int),
        -(FP_SCALE as int) <= r as int <= FP_SCALE as int,
{
    let (neg, m): (bool, i64) = if x < 0 {
        if x == i64::MIN {
            (true, i64::MAX)
        } else {
            (true, -x)
        }
    } else {
        (false, x)
    };
    assert(m as int == if x < 0 { sat64(-(x as int)) } else { x as int });
    let red: i64 = ((m as u64) % (TWO_PI_FP as u64)) as i64;
    assert(red as int == (m as int) % (TWO_PI_FP as int));
    let mag: i64 = if red < PI_FP {
        bhaskara_exec(red)
    } else {
        let b = bhaskara_exec(red - PI_FP);
        sat_to_i64(-(b as i128))
    };
    assert(mag as int == sin_nonneg(m as int));
    if neg {
        sat_to_i64(-(mag as i128))
    } else {
        mag
    }
}

/// Executable cosine; returns exactly `cos_fp`.
pub fn cos_fp_exec(x: i64) -> (r: i64)
    ensures
        r as int == cos_fp(x as int),
        -(FP_SCALE as int) <= r as int <= FP_SCALE as int,
{
    let shifted = add_fp(x, HALF_PI_FP);
    sin_fp_exec(shifted)
}

} // verus!
