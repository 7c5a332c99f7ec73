//! Newton-Raphson root finder over a `CharacteristicModel`, producing
//! a traceable convergence history.
//!
//! `spec_solve` is the mathematical definition of one whole solve; the
//! executable solver returns exactly its value. The proof functions at
//! the bottom state the trace laws: iteration numbers count 1, 2, 3,
//! ... with no gaps, the trace never exceeds the iteration budget, and
//! a degenerate derivative at the start leaves the trace empty.

use vstd::prelude::*;
use crate::fixed::{abs_diff_fp, abs_int, div_fp, fp_abs_diff, fp_div, fp_sub, sub_fp};
use crate::model::{f_of, f_prime_of, CharacteristicModel};

verus! {

/// One recorded iteration of the solver.
#[derive(Clone, Copy, Debug, PartialEq, Eq, Structural)]
pub struct SolverStep {
    /// 1-based index of this iteration within the solve.
    pub iteration: u32,
    pub x_current: i64,
    pub f_x: i64,
    pub f_prime_x: i64,
    pub x_next: i64,
    /// `|x_next - x_current|`, saturated.
    pub error: i64,
}

/// Terminal status of a solve.
#[derive(Clone, Copy, Debug, PartialEq, Eq, Structural)]
pub enum SolveStatus {
    /// The successive-iterate difference fell below the tolerance.
    Converged,
    /// `|f'(x)|` fell below the degeneracy threshold; the caller must
    /// fall back to the linear calibration formula.
    DerivativeDegenerate,
    /// The iteration budget ran out; same linear fallback, distinct
    /// label for observability.
    NotConverged,
}

/// Result of one solve invocation.
#[derive(Clone, Debug, PartialEq, Eq)]
pub struct SolveOutcome {
    pub steps: Vec<SolverStep>,
    pub root_or_fallback: i64,
    pub iterations_used: u32,
    pub status: SolveStatus,
}

/// Mathematical model of a `SolveOutcome`.
pub ghost struct SolveModel {
    pub steps: Seq<SolverStep>,
    pub root_or_fallback: i64,
    pub iterations_used: nat,
    pub status: SolveStatus,
}

impl View for SolveOutcome {
    type V = SolveModel;

    open spec fn view(&self) -> SolveModel {
        SolveModel {
            steps: self.steps@,
            root_or_fallback: self.root_or_fallback,
            iterations_used: self.iterations_used as nat,
            status: self.status,
        }
    }
}

/// The Newton update `x - f(x) / f'(x)` in fixed point.
pub open spec fn newton_next(m: CharacteristicModel, x: i64) -> i64 {
    fp_sub(x as int, fp_div(f_of(m, x as int), f_prime_of(m, x as int))) as i64
}

/// The whole solve from `x` with `fuel` iterations left, `iter0` of
/// them already spent. Per iteration: stop with
/// `DerivativeDegenerate` when `|f'(x)| < eps` (before any step is
/// recorded), otherwise record a step for the Newton update; stop with
/// `Converged` when its error drops below `tol`; stop with
/// `NotConverged` when the budget runs out.
pub open spec fn spec_solve(
    m: CharacteristicModel,
    x: i64,
    tol: i64,
    eps: i64,
    iter0: nat,
    fuel: nat,
) -> SolveModel
    decreases fuel,
{
    if fuel == 0 {
        SolveModel {
            steps: Seq::empty(),
            root_or_fallback: x,
            iterations_used: iter0,
            status: SolveStatus::NotConverged,
        }
    } else if abs_int(f_prime_of(m, x as int)) < eps {
        SolveModel {
            steps: Seq::empty(),
            root_or_fallback: x,
            iterations_used: iter0,
            status: SolveStatus::DerivativeDegenerate,
        }
    } else {
        let xn = newton_next(m, x);
        let err = fp_abs_diff(xn as int, x as int) as i64;
        let step = SolverStep {
            iteration: (iter0 + 1) as u32,
            x_current: x,
            f_x: f_of(m, x as int) as i64,
            f_prime_x: f_prime_of(m, x as int) as i64,
            x_next: xn,
            error: err,
        };
        if err < tol {
            SolveModel {
                steps: seq![step],
                root_or_fallback: xn,
                iterations_used: iter0 + 1,
                status: SolveStatus::Converged,
            }
        } else {
            let rest = spec_solve(m, xn, tol, eps, iter0 + 1, (fuel - 1) as nat);
            SolveModel {
                steps: rest.steps.insert(0, step),
                root_or_fallback: rest.root_or_fallback,
                iterations_used: rest.iterations_used,
                status: rest.status,
            }
        }
    }
}

fn solve_rec(
    m: &CharacteristicModel,
    x: i64,
    tol: i64,
    eps: i64,
    iter0: u32,
    fuel: u32,
) -> (o: SolveOutcome)
    requires
        iter0 + fuel <= u32::MAX,
    ensures
        o@ == spec_solve(*m, x, tol, eps, iter0 as nat, fuel as nat),
    decreases fuel,
{
    if fuel == 0 {
        let o = SolveOutcome {
            steps: Vec::new(),
            root_or_fallback: x,
            iterations_used: iter0,
            status: SolveStatus::NotConverged,
        };
        assert(o@.steps =~= spec_solve(*m, x, tol, eps, iter0 as nat, fuel as nat).steps);
        return o;
    }
    let f_x = m.eval_f(x);
    let f_prime_x = m.eval_f_prime(x);
    let fp_mag = abs_diff_fp(f_prime_x, 0);
    if fp_mag < eps {
        let o = SolveOutcome {
            steps: Vec::new(),
            root_or_fallback: x,
            iterations_used: iter0,
            status: SolveStatus::DerivativeDegenerate,
        };
        assert(o@.steps =~= spec_solve(*m, x, tol, eps, iter0 as nat, fuel as nat).steps);
        return o;
    }
    let quot = div_fp(f_x, f_prime_x);
    let x_next = sub_fp(x, quot);
    let error = abs_diff_fp(x_next, x);
    let step = SolverStep { iteration: iter0 + 1, x_current: x, f_x, f_prime_x, x_next, error };
    if error < tol {
        let mut steps: Vec<SolverStep> = Vec::new();
        steps.push(step);
        let o = SolveOutcome {
            steps,
            root_or_fallback: x_next,
            iterations_used: iter0 + 1,
            status: SolveStatus::Converged,
        };
        assert(o@.steps =~= spec_solve(*m, x, tol, eps, iter0 as nat, fuel as nat).steps);
        return o;
    }
    let mut o = solve_rec(m, x_next, tol, eps, iter0 + 1, fuel - 1);
    o.steps.insert(0, step);
    let o = SolveOutcome {
        steps: o.steps,
        root_or_fallback: o.root_or_fallback,
        iterations_used: o.iterations_used,
        status: o.status,
    };
    assert(o@.steps =~= spec_solve(*m, x, tol, eps, iter0 as nat, fuel as nat).steps);
    o
}

/// The solver: a model with its tolerance, degeneracy threshold and
/// iteration budget.
#[derive(Clone, Copy, Debug, PartialEq, Eq, Structural)]
pub struct NewtonSolver {
    pub model: CharacteristicModel,
    pub tolerance: i64,
    pub derivative_epsilon: i64,
    pub max_iterations: u32,
}

impl NewtonSolver {
    /// A configuration makes sense when the tolerance is non-negative
    /// and the degeneracy threshold is at least one nano-unit, the
    /// smallest magnitude the fixed-point representation can tell from
    /// zero.
    pub open spec fn wf(&self) -> bool {
        &&& self.tolerance >= 0
        &&& self.derivative_epsilon >= 1
    }

    pub fn new(model: CharacteristicModel, tolerance: i64, derivative_epsilon: i64, max_iterations: u32) -> (s: NewtonSolver)
        requires
            tolerance >= 0,
            derivative_epsilon >= 1,
        ensures
            s == (NewtonSolver { model, tolerance, derivative_epsilon, max_iterations }),
            s.wf(),
    {
        NewtonSolver { model, tolerance, derivative_epsilon, max_iterations }
    }

    /// Run the solve from `initial_guess`; the outcome is exactly
    /// `spec_solve` over this configuration.
    pub fn solve(&self, initial_guess: i64) -> (o: SolveOutcome)
        ensures
            o@ == spec_solve(
                self.model,
                initial_guess,
                self.tolerance,
                self.derivative_epsilon,
                0,
                self.max_iterations as nat,
            ),
    {
        solve_rec(&self.model, initial_guess, self.tolerance, self.derivative_epsilon, 0, self.max_iterations)
    }
}

/// Trace law: the steps of a solve begun after `iter0` spent
/// iterations are numbered `iter0 + 1, iter0 + 2, ...` consecutively,
/// and there are never more of them than the budget allows.
pub proof fn lemma_trace_numbering(
    m: CharacteristicModel,
    x: i64,
    tol: i64,
    eps: i64,
    iter0: nat,
    fuel: nat,
)
    requires
        iter0 + fuel <= u32::MAX,
    ensures
        spec_solve(m, x, tol, eps, iter0, fuel).steps.len() <= fuel,
        forall|j: int|
            0 <= j < spec_solve(m, x, tol, eps, iter0, fuel).steps.len()
                ==> #[trigger] spec_solve(m, x, tol, eps, iter0, fuel).steps[j].iteration == iter0 + j + 1,
    decreases fuel,
{
    let o = spec_solve(m, x, tol, eps, iter0, fuel);
    if fuel == 0 {
    } else if abs_int(f_prime_of(m, x as int)) < eps {
    } else {
        let xn = newton_next(m, x);
        let err = fp_abs_diff(xn as int, x as int) as i64;
        if err < tol {
        } else {
            lemma_trace_numbering(m, xn, tol, eps, iter0 + 1, (fuel - 1) as nat);
            let rest = spec_solve(m, xn, tol, eps, iter0 + 1, (fuel - 1) as nat);
            assert forall|j: int| 0 <= j < o.steps.len() implies #[trigger] o.steps[j].iteration
                == iter0 + j + 1 by {
                if j > 0 {
                    assert(o.steps[j] == rest.steps[j - 1]);
                }
            }
        }
    }
}

/// Trace law stated for a whole solve: iteration numbers are strictly
/// increasing starting at 1, with no gaps.
pub proof fn lemma_iterations_strictly_increasing(
    m: CharacteristicModel,
    x: i64,
    tol: i64,
    eps: i64,
    fuel: nat,
)
    requires
        fuel <= u32::MAX,
    ensures
        forall|j: int|
            0 <= j < spec_solve(m, x, tol, eps, 0, fuel).steps.len()
                ==> #[trigger] spec_solve(m, x, tol, eps, 0, fuel).steps[j].iteration == j + 1,
{
    lemma_trace_numbering(m, x, tol, eps, 0, fuel);
}

/// Trace structure law: the iteration count equals the number of
/// recorded steps; the fallback value is the initial guess when
/// nothing was recorded and the last step's iterate otherwise; every
/// step before the last had an error at or above the tolerance; a
/// `Converged` solve ends, and only a `Converged` solve ends, with a
/// step whose error fell below it.
pub proof fn lemma_trace_structure(
    m: CharacteristicModel,
    x: i64,
    tol: i64,
    eps: i64,
    iter0: nat,
    fuel: nat,
)
    requires
        iter0 + fuel <= u32::MAX,
    ensures
        spec_solve(m, x, tol, eps, iter0, fuel).iterations_used == iter0 + spec_solve(
            m,
            x,
            tol,
            eps,
            iter0,
            fuel,
        ).steps.len(),
        spec_solve(m, x, tol, eps, iter0, fuel).steps.len() == 0 ==> spec_solve(
            m,
            x,
            tol,
            eps,
            iter0,
            fuel,
        ).root_or_fallback == x,
        spec_solve(m, x, tol, eps, iter0, fuel).steps.len() > 0 ==> spec_solve(
            m,
            x,
            tol,
            eps,
            iter0,
            fuel,
        ).root_or_fallback == spec_solve(m, x, tol, eps, iter0, fuel).steps.last().x_next,
        forall|j: int|
            0 <= j < spec_solve(m, x, tol, eps, iter0, fuel).steps.len() - 1
                ==> #[trigger] spec_solve(m, x, tol, eps, iter0, fuel).steps[j].error >= tol,
        spec_solve(m, x, tol, eps, iter0, fuel).status == SolveStatus::Converged <==> spec_solve(
            m,
            x,
            tol,
            eps,
            iter0,
            fuel,
        ).steps.len() > 0 && spec_solve(m, x, tol, eps, iter0, fuel).steps.last().error < tol,
    decreases fuel,
{
    let o = spec_solve(m, x, tol, eps, iter0, fuel);
    if fuel == 0 {
    } else if abs_int(f_prime_of(m, x as int)) < eps {
    } else {
        let xn = newton_next(m, x);
        let err = fp_abs_diff(xn as int, x as int) as i64;
        if err < tol {
        } else {
            lemma_trace_structure(m, xn, tol, eps, iter0 + 1, (fuel - 1) as nat);
            let rest = spec_solve(m, xn, tol, eps, iter0 + 1, (fuel - 1) as nat);
            assert(o.steps[0].error == err);
            assert forall|j: int| 0 <= j < o.steps.len() - 1 implies #[trigger] o.steps[j].error
                >= tol by {
                if j > 0 {
                    assert(o.steps[j] == rest.steps[j - 1]);
                }
            }
            if rest.steps.len() > 0 {
                assert(o.steps.last() == rest.steps.last());
            }
        }
    }
}

/// Degeneracy law: when `|f'| < eps` already holds at the initial
/// guess and at least one iteration was allowed, the status is
/// `DerivativeDegenerate`, the trace is empty, no iteration was used,
/// and the fallback value is the initial guess itself.
pub proof fn lemma_degenerate_at_start(
    m: CharacteristicModel,
    x: i64,
    tol: i64,
    eps: i64,
    fuel: nat,
)
    requires
        fuel > 0,
        abs_int(f_prime_of(m, x as int)) < eps,
    ensures
        spec_solve(m, x, tol, eps, 0, fuel).status == SolveStatus::DerivativeDegenerate,
        spec_solve(m, x, tol, eps, 0, fuel).steps.len() == 0,
        spec_solve(m, x, tol, eps, 0, fuel).iterations_used == 0,
        spec_solve(m, x, tol, eps, 0, fuel).root_or_fallback == x,
{
}

} // verus!
