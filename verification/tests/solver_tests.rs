use hygrocal::model::CharacteristicModel;
use hygrocal::solver::{NewtonSolver, SolveStatus};

const S: i64 = 1_000_000_000;

#[test]
fn linear_model_converges_in_two_steps() {
    // f(x) = x - 2: one Newton step lands on the root, the next
    // certifies it.
    let m = CharacteristicModel::new(0, 0, S, -2 * S);
    let solver = NewtonSolver::new(m, 1_000, 1, 50);
    let o = solver.solve(0);
    assert_eq!(o.status, SolveStatus::Converged);
    assert_eq!(o.iterations_used, 2);
    assert_eq!(o.root_or_fallback, 2 * S);
    assert_eq!(o.steps.len(), 2);
    let s0 = o.steps[0];
    assert_eq!(s0.iteration, 1);
    assert_eq!(s0.x_current, 0);
    assert_eq!(s0.f_x, -2 * S);
    assert_eq!(s0.f_prime_x, S);
    assert_eq!(s0.x_next, 2 * S);
    assert_eq!(s0.error, 2 * S);
    let s1 = o.steps[1];
    assert_eq!(s1.iteration, 2);
    assert_eq!(s1.x_current, 2 * S);
    assert_eq!(s1.f_x, 0);
    assert_eq!(s1.error, 0);
}

#[test]
fn degenerate_derivative_at_start() {
    // A constant model has f' identically zero: the solve must stop
    // at once with an empty trace and the initial guess as fallback.
    let m = CharacteristicModel::new(0, 0, 0, 5 * S);
    let solver = NewtonSolver::new(m, 1_000, 1, 50);
    let o = solver.solve(1_500_000_000);
    assert_eq!(o.status, SolveStatus::DerivativeDegenerate);
    assert_eq!(o.steps.len(), 0);
    assert_eq!(o.iterations_used, 0);
    assert_eq!(o.root_or_fallback, 1_500_000_000);
}

#[test]
fn budget_exhaustion_is_not_converged() {
    // With tolerance zero nothing can converge: the budget runs out.
    let m = CharacteristicModel::new(0, S, 0, -2 * S);
    let solver = NewtonSolver::new(m, 0, 1, 50);
    let o = solver.solve(1_500_000_000);
    assert_eq!(o.status, SolveStatus::NotConverged);
    assert_eq!(o.steps.len(), 50);
    assert_eq!(o.iterations_used, 50);
    assert_eq!(o.root_or_fallback, o.steps[49].x_next);
}

#[test]
fn humidity_cubic_trace() {
    // The reference cubic x^3 - 2x^2 + x - 50 from 1.5 with the
    // deployment defaults.
    let m = CharacteristicModel::reference_cubic(50 * S);
    let solver = NewtonSolver::new(m, 1_000, 1, 50);
    let o = solver.solve(1_500_000_000);
    assert_eq!(o.status, SolveStatus::Converged);
    assert_eq!(o.iterations_used, 11);
    assert_eq!(o.root_or_fallback, 4_379_052_426);
    assert_eq!(o.steps.len(), 11);
    assert_eq!(o.steps[0].x_next, 29_857_142_857);
    assert_eq!(o.steps[10].error, 0);
}

#[test]
fn iteration_numbers_count_from_one_without_gaps() {
    let m = CharacteristicModel::reference_cubic(50 * S);
    let solver = NewtonSolver::new(m, 1_000, 1, 50);
    let o = solver.solve(1_500_000_000);
    for (i, step) in o.steps.iter().enumerate() {
        assert_eq!(step.iteration as usize, i + 1);
    }
}

#[test]
fn solver_steps_follow_recurrence() {
    let m = CharacteristicModel::reference_cubic(50 * S);
    let solver = NewtonSolver::new(m, 1_000, 1, 50);
    let o = solver.solve(1_500_000_000);
    let mut x = 1_500_000_000i64;
    for step in &o.steps {
        assert_eq!(step.x_current, x);
        assert_eq!(step.f_x, m.eval_f(x));
        assert_eq!(step.f_prime_x, m.eval_f_prime(x));
        assert_eq!(step.error, (step.x_next - step.x_current).abs());
        x = step.x_next;
    }
}
