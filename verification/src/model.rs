//! The characteristic model: a deployment-specific cubic `f` and its
//! derivative `f'`, evaluated in saturating fixed-point arithmetic.
//! The coefficients are constructor-time data, so one type serves every
//! deployment variant.

use vstd::prelude::*;
use crate::fixed::{abs_int, div_trunc, div_trunc_i128, fp_sub, sat64, sat_to_i64, sub_fp, FP_SCALE};

verus! {

/// Cubic `f(x) = c3*x^3 + c2*x^2 + c1*x + c0` over nano-unit
/// fixed-point values, evaluated by Horner's rule with a truncating
/// division and a saturation after each step.
#[derive(Clone, Copy, Debug, PartialEq, Eq, Structural)]
pub struct CharacteristicModel {
    pub c3: i64,
    pub c2: i64,
    pub c1: i64,
    pub c0: i64,
}

/// One Horner step: `t * x / FP_SCALE + c`, truncated and saturated.
pub open spec fn horner_step(t: int, x: int, c: int) -> int {
    sat64(div_trunc(t * x, FP_SCALE as int) + c)
}

/// Value of `f` at `x`, exactly as the executable evaluation computes
/// it.
pub open spec fn f_of(m: CharacteristicModel, x: int) -> int {
    horner_step(horner_step(horner_step(m.c3 as int, x, m.c2 as int), x, m.c1 as int), x, m.c0 as int)
}

/// Value of `f'` at `x`: the cubic's derivative
/// `3*c3*x^2 + 2*c2*x + c1`, with the doubled and tripled leading
/// coefficients saturated, evaluated the same way.
pub open spec fn f_prime_of(m: CharacteristicModel, x: int) -> int {
    horner_step(horner_step(sat64(3 * m.c3), x, sat64(2 * m.c2)), x, m.c1 as int)
}

fn horner_step_exec(t: i64, x: i64, c: i64) -> (r: i64)
    ensures
        r as int == horner_step(t as int, x as int, c as int),
{
    assert(i128::MIN + (i64::MAX as int) < (t as int) * (x as int) < i128::MAX - (i64::MAX as int))
        by (nonlinear_arith)
        requires
            i64::MIN <= t as int <= i64::MAX,
            i64::MIN <= x as int <= i64::MAX,
    ;
    let p: i128 = (t as i128) * (x as i128);
    let q: i128 = div_trunc_i128(p, FP_SCALE as i128);
    assert(abs_int(q as int) <= abs_int(p as int));
    sat_to_i64(q + c as i128)
}

impl CharacteristicModel {
    /// Model with the given coefficients.
    pub fn new(c3: i64, c2: i64, c1: i64, c0: i64) -> (m: CharacteristicModel)
        ensures
            m == (CharacteristicModel { c3, c2, c1, c0 }),
    {
        CharacteristicModel { c3, c2, c1, c0 }
    }

    /// The reference deployment's cubic `x^3 - 2x^2 + x - target`,
    /// whose root parameterizes the calibration formula.
    pub fn reference_cubic(target: i64) -> (m: CharacteristicModel)
        ensures
            m.c3 == FP_SCALE,
            m.c2 == -2 * (FP_SCALE as int),
            m.c1 == FP_SCALE,
            m.c0 as int == fp_sub(0, target as int),
    {
        let c0 = sub_fp(0, target);
        CharacteristicModel { c3: FP_SCALE, c2: -2_000_000_000, c1: FP_SCALE, c0 }
    }

    /// Evaluate `f`; returns exactly `f_of`.
    pub fn eval_f(&self, x: i64) -> (r: i64)
        ensures
            r as int == f_of(*self, x as int),
    {
        let t1 = horner_step_exec(self.c3, x, self.c2);
        let t2 = horner_step_exec(t1, x, self.c1);
        horner_step_exec(t2, x, self.c0)
    }

    /// Evaluate `f'`; returns exactly `f_prime_of`.
    pub fn eval_f_prime(&self, x: i64) -> (r: i64)
        ensures
            r as int == f_prime_of(*self, x as int),
    {
        let d2 = sat_to_i64(3 * (self.c3 as i128));
        let d1 = sat_to_i64(2 * (self.c2 as i128));
        let t1 = horner_step_exec(d2, x, d1);
        horner_step_exec(t1, x, self.c1)
    }
}

} // verus!
