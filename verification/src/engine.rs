//! The calibration engine: combines the solver's root with
//! deterministic correction terms into a predicted reading, a residual
//! error and a banded status label. Pure: the wall-clock second count
//! is an explicit argument, so a fixed `now` makes the whole
//! computation reproducible.

use vstd::prelude::*;
use crate::fixed::{
    abs_diff_fp, add_fp, div_fp, fp_abs_diff, fp_add, fp_div, fp_mul, fp_sub, mul_fp, sub_fp,
};
use crate::model::CharacteristicModel;
use crate::solver::{spec_solve, NewtonSolver, SolveModel, SolveOutcome, SolveStatus};
use crate::trig::{sin_fp, sin_fp_exec};

verus! {

/// One hundredth, the factor that maps a reading to the unit interval
/// in the nonlinear and aging terms.
pub const CENTI_FP: i64 = 10_000_000;

/// The noise term's angular constant: the deployment's five-digit
/// two-pi, `6.28318`. Deliberately not the exact `TWO_PI_FP` of
/// `trig`: the noise waveform is defined with this truncated
/// constant, and changing it would change every predicted value.
pub const NOISE_CYCLE_FP: i64 = 6_283_180_000;

/// Nano-units per thousandth, the resolution of the noise seed.
pub const MILLI_FP: i64 = 1_000_000;

/// Everything that distinguishes one deployment variant: the
/// characteristic model with the solver settings, the calibration
/// constants, and the ordered status bands.
#[derive(Clone, Debug)]
pub struct CalibrationConfig {
    pub model: CharacteristicModel,
    pub initial_guess: i64,
    pub tolerance: i64,
    pub derivative_epsilon: i64,
    pub max_iterations: u32,
    pub reference: i64,
    pub base: i64,
    pub correction_factor: i64,
    pub normalization: i64,
    pub noise_amplitude: i64,
    pub nonlinear_scale: i64,
    pub nonlinear_shift: i64,
    pub aging_scale: i64,
    /// Ascending band boundaries; band `i` is `[thresholds[i-1],
    /// thresholds[i])`, the last band is unbounded above.
    pub thresholds: Vec<i64>,
    /// One label per band: `thresholds.len() + 1` of them.
    pub labels: Vec<String>,
}

/// The result of one prediction.
#[derive(Clone, Debug, PartialEq, Eq)]
pub struct PredictionResult {
    pub actual: i64,
    pub predicted: i64,
    pub status_label: String,
    pub residual_error: i64,
    pub solve: SolveOutcome,
}

/// Mathematical model of a `PredictionResult`.
pub ghost struct PredictionModel {
    pub actual: i64,
    pub predicted: i64,
    pub status_label: Seq<char>,
    pub residual_error: i64,
    pub solve: SolveModel,
}

impl View for PredictionResult {
    type V = PredictionModel;

    open spec fn view(&self) -> PredictionModel {
        PredictionModel {
            actual: self.actual,
            predicted: self.predicted,
            status_label: self.status_label@,
            residual_error: self.residual_error,
            solve: self.solve@,
        }
    }
}

/// Index of the band `x` falls in: the first threshold that lies
/// strictly above `x`, or the last band when none does. Lower band
/// edges are inclusive.
pub open spec fn band_of(ts: Seq<i64>, x: i64) -> int
    decreases ts.len(),
{
    if ts.len() == 0 {
        0
    } else if x < ts[0] {
        0
    } else {
        1 + band_of(ts.drop_first(), x)
    }
}

/// `band_of` is the unique index below which every threshold is at
/// most `x` and at which, if it exists, the threshold exceeds `x`.
pub proof fn lemma_band_at(ts: Seq<i64>, x: i64, i: int)
    requires
        0 <= i <= ts.len(),
        forall|k: int| 0 <= k < i ==> x >= #[trigger] ts[k],
        i < ts.len() ==> x < ts[i],
    ensures
        band_of(ts, x) == i,
    decreases ts.len(),
{
    if ts.len() == 0 {
    } else if i == 0 {
    } else {
        assert(x >= ts[0]);
        lemma_band_at(ts.drop_first(), x, i - 1);
    }
}

/// The deterministic noise term: seed `(now mod 1000) / 1000`, value
/// `amplitude * sin(seed * NOISE_CYCLE_FP)`.
pub open spec fn spec_noise(amplitude: i64, now: u64) -> int {
    fp_mul(amplitude as int, sin_fp(fp_mul(((now % 1000) * MILLI_FP) as int, NOISE_CYCLE_FP as int)))
}

/// The fallback linear calibration:
/// `base + correction_factor * (actual - reference) + noise`.
pub open spec fn spec_linear_prediction(cfg: CalibrationConfig, actual: i64, noise: int) -> int {
    fp_add(fp_add(cfg.base as int, fp_mul(cfg.correction_factor as int, fp_sub(actual as int, cfg.reference as int))), noise)
}

/// The converged calibration: the linear deviation is weighted by the
/// characteristic factor `root / normalization`, and the nonlinear
/// term `nonlinear_scale * sin(actual/100 - nonlinear_shift)`, the
/// aging term `aging_scale * (actual/100)^2` and the noise are added.
pub open spec fn spec_converged_prediction(
    cfg: CalibrationConfig,
    actual: i64,
    root: i64,
    noise: int,
) -> int {
    let characteristic_factor = fp_div(root as int, cfg.normalization as int);
    let deviation = fp_sub(actual as int, cfg.reference as int);
    let weighted = fp_mul(fp_mul(cfg.correction_factor as int, deviation), characteristic_factor);
    let unit = fp_mul(actual as int, CENTI_FP as int);
    let nonlinear = fp_mul(
        cfg.nonlinear_scale as int,
        sin_fp(fp_sub(unit, cfg.nonlinear_shift as int)),
    );
    let aging = fp_mul(cfg.aging_scale as int, fp_mul(unit, unit));
    fp_add(fp_add(fp_add(fp_add(cfg.base as int, weighted), nonlinear), aging), noise)
}

/// The whole prediction: solve, derive the noise from `now`, pick the
/// converged or the fallback formula by the solver's status, and label
/// `actual` by its band.
pub open spec fn spec_predict(cfg: CalibrationConfig, actual: i64, now: u64) -> PredictionModel {
    let sm = spec_solve(
        cfg.model,
        cfg.initial_guess,
        cfg.tolerance,
        cfg.derivative_epsilon,
        0,
        cfg.max_iterations as nat,
    );
    let noise = spec_noise(cfg.noise_amplitude, now);
    let predicted = if sm.status == SolveStatus::Converged {
        spec_converged_prediction(cfg, actual, sm.root_or_fallback, noise)
    } else {
        spec_linear_prediction(cfg, actual, noise)
    };
    PredictionModel {
        actual,
        predicted: predicted as i64,
        status_label: cfg.labels@[band_of(cfg.thresholds@, actual)]@,
        residual_error: fp_abs_diff(actual as int, predicted) as i64,
        solve: sm,
    }
}

impl CalibrationConfig {
    /// A configuration is well-formed when the solver settings make
    /// sense, the thresholds ascend strictly, and there is one label
    /// per band.
    pub open spec fn wf(&self) -> bool {
        &&& self.tolerance >= 0
        &&& self.derivative_epsilon >= 1
        &&& self.labels@.len() == self.thresholds@.len() + 1
        &&& forall|i: int|
            0 <= i && i + 1 < self.thresholds@.len() ==> #[trigger] self.thresholds@[i] < self.thresholds@[i + 1]
    }

    /// Index of the band `x` falls in; returns exactly `band_of`.
    pub fn band_index(&self, x: i64) -> (r: usize)
        ensures
            r as int == band_of(self.thresholds@, x),
            r <= self.thresholds@.len(),
    {
        let n = self.thresholds.len();
        let mut j: usize = 0;
        while j < n
            invariant
                0 <= j <= n,
                n == self.thresholds@.len(),
                forall|k: int| 0 <= k < j ==> x >= #[trigger] self.thresholds@[k],
            decreases n - j,
        {
            if x < self.thresholds[j] {
                proof {
                    lemma_band_at(self.thresholds@, x, j as int);
                }
                return j;
            }
            j += 1;
        }
        proof {
            lemma_band_at(self.thresholds@, x, n as int);
        }
        n
    }

    /// The noise term for second-count `now`; returns exactly
    /// `spec_noise`.
    pub fn noise_at(&self, now: u64) -> (r: i64)
        ensures
            r as int == spec_noise(self.noise_amplitude, now),
    {
        let seed: i64 = ((now % 1000) * 1_000_000u64) as i64;
        assert(seed as int == ((now % 1000) * MILLI_FP) as int);
        let angle = mul_fp(seed, NOISE_CYCLE_FP);
        let s = sin_fp_exec(angle);
        mul_fp(self.noise_amplitude, s)
    }

    /// Derive the prediction for the raw reading `actual` at the
    /// current wall-clock second, read through the trusted chrono
    /// call. The clock value is not promised, so the contract says
    /// what holds of every outcome: the result is `spec_predict` at
    /// some second count, fresh noise included.
    pub fn predict_now(&self, actual: i64) -> (r: PredictionResult)
        requires
            self.wf(),
        ensures
            exists|now: u64| r@ == spec_predict(*self, actual, now),
            r.residual_error >= 0,
            r.residual_error as int == fp_abs_diff(r.actual as int, r.predicted as int),
    {
        let t = crate::clock::epoch_now();
        let now: u64 = if t < 0 {
            0
        } else {
            t as u64
        };
        let r = self.predict(actual, now);
        assert(r@ == spec_predict(*self, actual, now));
        r
    }

    /// Derive the prediction for the raw reading `actual` at
    /// second-count `now`; the result is exactly `spec_predict`, and
    /// the residual error is `|actual - predicted|`, never negative.
    pub fn predict(&self, actual: i64, now: u64) -> (r: PredictionResult)
        requires
            self.wf(),
        ensures
            r@ == spec_predict(*self, actual, now),
            r.residual_error >= 0,
            r.residual_error as int == fp_abs_diff(r.actual as int, r.predicted as int),
    {
        let solver = NewtonSolver::new(
            self.model,
            self.tolerance,
            self.derivative_epsilon,
            self.max_iterations,
        );
        let outcome = solver.solve(self.initial_guess);
        let noise = self.noise_at(now);
        let predicted: i64 = if matches!(outcome.status, SolveStatus::Converged) {
            let characteristic_factor = div_fp(outcome.root_or_fallback, self.normalization);
            let deviation = sub_fp(actual, self.reference);
            let weighted = mul_fp(mul_fp(self.correction_factor, deviation), characteristic_factor);
            let unit = mul_fp(actual, CENTI_FP);
            let nonlinear = mul_fp(self.nonlinear_scale, sin_fp_exec(sub_fp(unit, self.nonlinear_shift)));
            let aging = mul_fp(self.aging_scale, mul_fp(unit, unit));
            add_fp(add_fp(add_fp(add_fp(self.base, weighted), nonlinear), aging), noise)
        } else {
            add_fp(add_fp(self.base, mul_fp(self.correction_factor, sub_fp(actual, self.reference))), noise)
        };
        let residual_error = abs_diff_fp(actual, predicted);
        let band = self.band_index(actual);
        let status_label = self.labels[band].clone();
        PredictionResult { actual, predicted, status_label, residual_error, solve: outcome }
    }
}

/// Fallback law: whenever the solver did not converge — a degenerate
/// derivative or an exhausted budget — the prediction comes from the
/// linear fallback formula, and a converged solve uses the full
/// characteristic formula on its root.
pub proof fn lemma_fallback_formula(cfg: CalibrationConfig, actual: i64, now: u64)
    ensures
        ({
            let sm = spec_solve(
                cfg.model,
                cfg.initial_guess,
                cfg.tolerance,
                cfg.derivative_epsilon,
                0,
                cfg.max_iterations as nat,
            );
            let noise = spec_noise(cfg.noise_amplitude, now);
            &&& sm.status != SolveStatus::Converged ==> spec_predict(cfg, actual, now).predicted
                as int == spec_linear_prediction(cfg, actual, noise)
            &&& sm.status == SolveStatus::Converged ==> spec_predict(cfg, actual, now).predicted
                as int == spec_converged_prediction(cfg, actual, sm.root_or_fallback, noise)
        }),
{
}

/// Determinism law: the prediction is a function of the configuration,
/// the reading and the second-count alone; two results that each equal
/// `spec_predict` of the same arguments are equal, trace included.
pub proof fn lemma_predict_deterministic(
    cfg: CalibrationConfig,
    actual: i64,
    now: u64,
    r1: PredictionModel,
    r2: PredictionModel,
)
    requires
        r1 == spec_predict(cfg, actual, now),
        r2 == spec_predict(cfg, actual, now),
    ensures
        r1 == r2,
{
}

/// The reference humidity deployment: the cubic with target 50, the
/// solver defaults, the correction constants, and the five humidity
/// bands at thresholds 30, 40, 60 and 70.
pub fn humidity_config() -> (cfg: CalibrationConfig)
    ensures
        cfg.wf(),
        cfg.model == (CharacteristicModel {
            c3: 1_000_000_000i64,
            c2: -2_000_000_000i64,
            c1: 1_000_000_000i64,
            c0: -50_000_000_000i64,
        }),
        cfg.initial_guess == 1_500_000_000i64,
        cfg.tolerance == 1_000i64,
        cfg.derivative_epsilon == 1i64,
        cfg.max_iterations == 50u32,
        cfg.reference == 60_000_000_000i64,
        cfg.base == 45_000_000_000i64,
        cfg.correction_factor == 850_000_000i64,
        cfg.normalization == 50_000_000_000i64,
        cfg.noise_amplitude == 2_000_000_000i64,
        cfg.nonlinear_scale == 3_000_000_000i64,
        cfg.nonlinear_shift == 500_000_000i64,
        cfg.aging_scale == 500_000_000i64,
        cfg.thresholds@ == (seq![
            30_000_000_000i64,
            40_000_000_000i64,
            60_000_000_000i64,
            70_000_000_000i64,
        ]),
        cfg.labels@.len() == 5,
        cfg.labels@[0]@ == "Sangat Kering"@,
        cfg.labels@[1]@ == "Kering"@,
        cfg.labels@[2]@ == "Normal"@,
        cfg.labels@[3]@ == "Lembab"@,
        cfg.labels@[4]@ == "Sangat Lembab"@,
{
    let model = CharacteristicModel::new(
        1_000_000_000,
        -2_000_000_000,
        1_000_000_000,
        -50_000_000_000,
    );
    let mut thresholds: Vec<i64> = Vec::new();
    thresholds.push(30_000_000_000);
    thresholds.push(40_000_000_000);
    thresholds.push(60_000_000_000);
    thresholds.push(70_000_000_000);
    let mut labels: Vec<String> = Vec::new();
    labels.push(String::from_str("Sangat Kering"));
    labels.push(String::from_str("Kering"));
    labels.push(String::from_str("Normal"));
    labels.push(String::from_str("Lembab"));
    labels.push(String::from_str("Sangat Lembab"));
    let cfg = CalibrationConfig {
        model,
        initial_guess: 1_500_000_000,
        tolerance: 1_000,
        derivative_epsilon: 1,
        max_iterations: 50,
        reference: 60_000_000_000,
        base: 45_000_000_000,
        correction_factor: 850_000_000,
        normalization: 50_000_000_000,
        noise_amplitude: 2_000_000_000,
        nonlinear_scale: 3_000_000_000,
        nonlinear_shift: 500_000_000,
        aging_scale: 500_000_000,
        thresholds,
        labels,
    };
    assert(cfg.thresholds@ =~= seq![
        30_000_000_000i64,
        40_000_000_000i64,
        60_000_000_000i64,
        70_000_000_000i64,
    ]);
    proof {
        assert forall|i: int| 0 <= i && i + 1 < cfg.thresholds@.len() implies #[trigger] cfg.thresholds@[i]
            < cfg.thresholds@[i + 1] by {
            assert(cfg.thresholds@.len() == 4);
            assert(i == 0 || i == 1 || i == 2);
        }
    }
    cfg
}

} // verus!
