use hygrocal::engine::{humidity_config, CalibrationConfig};
use hygrocal::model::CharacteristicModel;
use hygrocal::solver::SolveStatus;

const S: i64 = 1_000_000_000;

fn degenerate_config() -> CalibrationConfig {
    // A constant characteristic model forces the linear fallback; a
    // zero noise amplitude makes the result independent of `now`.
    let mut cfg = humidity_config();
    cfg.model = CharacteristicModel::new(0, 0, 0, 5 * S);
    cfg.noise_amplitude = 0;
    cfg
}

#[test]
fn banding_boundaries() {
    // 29.9, 30.0, 59.9 and 70.0 fall in bands 1, 2, 3 and 5;
    // boundaries are inclusive on the lower edge.
    let cfg = humidity_config();
    assert_eq!(cfg.band_index(29_900_000_000), 0);
    assert_eq!(cfg.band_index(30_000_000_000), 1);
    assert_eq!(cfg.band_index(59_900_000_000), 2);
    assert_eq!(cfg.band_index(60_000_000_000), 3);
    assert_eq!(cfg.band_index(70_000_000_000), 4);
}

#[test]
fn banding_labels_on_predictions() {
    let cfg = humidity_config();
    assert_eq!(cfg.predict(29_900_000_000, 0).status_label, "Sangat Kering");
    assert_eq!(cfg.predict(30_000_000_000, 0).status_label, "Kering");
    assert_eq!(cfg.predict(59_900_000_000, 0).status_label, "Normal");
    assert_eq!(cfg.predict(69_999_999_999, 0).status_label, "Lembab");
    assert_eq!(cfg.predict(70_000_000_000, 0).status_label, "Sangat Lembab");
}

#[test]
fn converged_prediction_exact() {
    // now = 1000 makes the noise seed zero, so the noise term
    // vanishes and the converged formula alone decides.
    let cfg = humidity_config();
    let r = cfg.predict(52_500_000_000, 1000);
    assert_eq!(r.solve.status, SolveStatus::Converged);
    assert_eq!(r.solve.root_or_fallback, 4_379_052_426);
    assert_eq!(r.predicted, 44_655_751_437);
    assert_eq!(r.residual_error, 7_844_248_563);
    assert_eq!(r.actual, 52_500_000_000);
}

#[test]
fn degenerate_prediction_uses_linear_fallback() {
    // 45 + 0.85 * (52.5 - 60) = 38.625 exactly.
    let cfg = degenerate_config();
    let r = cfg.predict(52_500_000_000, 123_456);
    assert_eq!(r.solve.status, SolveStatus::DerivativeDegenerate);
    assert_eq!(r.solve.steps.len(), 0);
    assert_eq!(r.solve.iterations_used, 0);
    assert_eq!(r.predicted, 38_625_000_000);
    assert_eq!(r.residual_error, 52_500_000_000 - 38_625_000_000);
}

#[test]
fn residual_error_is_absolute_difference() {
    let cfg = humidity_config();
    for actual in [0i64, 10 * S, 52_500_000_000, 99 * S, -5 * S] {
        for now in [0u64, 7, 250, 999, 123_456_789] {
            let r = cfg.predict(actual, now);
            assert!(r.residual_error >= 0);
            assert_eq!(r.residual_error, (r.actual - r.predicted).abs());
        }
    }
}

#[test]
fn prediction_is_deterministic_for_fixed_now() {
    let cfg = humidity_config();
    let a = cfg.predict(52_500_000_000, 437);
    let b = cfg.predict(52_500_000_000, 437);
    assert_eq!(a, b);
    // a different second count moves only the noise term
    let c = cfg.predict(52_500_000_000, 438);
    assert_eq!(a.actual, c.actual);
    assert_eq!(a.status_label, c.status_label);
    assert_eq!(a.solve, c.solve);
}

#[test]
fn clocked_prediction_keeps_residual_law() {
    // exercises the trusted clock call; whatever second it read, the
    // residual law and the solve are those of some fixed `now`
    let cfg = humidity_config();
    let r = cfg.predict_now(52_500_000_000);
    assert!(r.residual_error >= 0);
    assert_eq!(r.residual_error, (r.actual - r.predicted).abs());
    assert_eq!(r.solve.status, SolveStatus::Converged);
    assert_eq!(r.solve.root_or_fallback, 4_379_052_426);
}

#[test]
fn noise_term_exact_value() {
    // seed 123/1000, angle seed * 6.28318, amplitude 2.
    let cfg = humidity_config();
    let with_noise = cfg.predict(52_500_000_000, 123);
    let without = cfg.predict(52_500_000_000, 1000);
    assert_eq!(with_noise.predicted - without.predicted, 1_393_939_600);
}
