//! The reference solve: watching a derivative-free bracketing solver.
//!
//! The search itself is done by a solver outside this crate, one that is
//! built differently from bisection, so that agreement with it means
//! something. Such a solver asks three questions while it runs: is this
//! function value a root, are these two points close enough, is the
//! iteration limit reached. A [`Monitor`] answers them from the stopping
//! rule, notes a value that is not finite, and in the end turns what the
//! solver reported into a result. [`solve_reference`] judges the bracket,
//! hands the monitor to the caller's run of the solver, and concludes.

use vstd::prelude::*;
use crate::binary64::Binary64;
use crate::bracketing::{admission_of, classify, Admission};
use crate::outcome::{Bracket, Config, FailureKind, SolveResult};

verus! {

/// What the outside solver reported when it returned.
#[derive(Clone, Copy, Debug, PartialEq, Eq, Structural)]
pub enum Reported {
    /// It stopped at `root`, where the function has the value `residual`.
    Root { root: Binary64, residual: Binary64 },
    /// The values at the ends of the bracket do not bracket zero.
    NoBracketing,
    /// It did not converge within the iteration limit.
    NoConvergency,
    /// It met a derivative of zero.
    ZeroDerivative,
}

/// The watch kept over one run of the outside solver.
#[derive(Clone, Copy, Debug, PartialEq, Eq, Structural)]
pub struct Monitor {
    /// The bracket that the solver was given.
    pub bracket: Bracket,
    /// The stopping rule.
    pub config: Config,
    /// The number of iterations that the solver last reported.
    pub iterations: u32,
    /// Whether a value that is not finite was seen.
    pub unstable: bool,
}

/// What comes back from one run of the outside solver.
#[derive(Clone, Copy, Debug, PartialEq, Eq, Structural)]
pub struct Search {
    /// The monitor as the run left it.
    pub monitor: Monitor,
    /// What the solver reported.
    pub reported: Reported,
    /// The last point at which the solver evaluated the function.
    pub last: Binary64,
}

/// Where a reference solve stands after its bracket was looked at.
#[derive(Clone, Copy, Debug, PartialEq, Eq, Structural)]
pub enum Monitoring {
    /// The outside solver is to be run under this monitor.
    Continue(Monitor),
    /// The solve is over.
    Done(SolveResult),
}

/// An iteration count as the outside solver gives it, cut off at the largest
/// count that a result can carry.
pub open spec fn clamp_count(iteration: usize) -> u32 {
    if iteration > u32::MAX {
        u32::MAX
    } else {
        iteration as u32
    }
}

impl Monitor {
    /// The invariant of a monitor: a valid bracket and a valid stopping rule.
    pub open spec fn wf(self) -> bool {
        self.bracket.valid() && self.config.valid()
    }

    /// The absolute criterion that both tests use: the magnitude of `x` is
    /// below the tolerance.
    pub open spec fn small(self, x: Binary64) -> bool {
        !x.nan() && x.magnitude() < self.config.tolerance.scaled()
    }

    /// How a solve begins, given the function values at the two ends.
    pub open spec fn start_of(
        bracket: Bracket,
        at_low: Binary64,
        at_high: Binary64,
        config: Config,
    ) -> Monitoring {
        match admission_of(at_low, at_high) {
            Admission::RootAtLow => Monitoring::Done(
                SolveResult::Converged { root: bracket.low, residual: at_low, iterations: 0 },
            ),
            Admission::RootAtHigh => Monitoring::Done(
                SolveResult::Converged { root: bracket.high, residual: at_high, iterations: 0 },
            ),
            Admission::Undefined => Monitoring::Done(
                SolveResult::Failed {
                    reason: FailureKind::NumericalInstability,
                    last_estimate: bracket.low,
                },
            ),
            Admission::NoSignChange => Monitoring::Done(
                SolveResult::Failed {
                    reason: FailureKind::NoSignChange,
                    last_estimate: bracket.low,
                },
            ),
            Admission::SignChange => Monitoring::Continue(
                Monitor { bracket, config, iterations: 0, unstable: false },
            ),
        }
    }

    /// The estimate that a failed solve reports: the last point that the
    /// solver evaluated if it lies in the bracket, else the low end.
    pub open spec fn fallback(self, last: Binary64) -> Binary64 {
        if self.bracket.holds(last) {
            last
        } else {
            self.bracket.low
        }
    }

    /// The result that follows from what the solver reported. `last` is the
    /// last point at which the solver evaluated the function.
    pub open spec fn conclusion_of(self, reported: Reported, last: Binary64) -> SolveResult {
        if self.unstable {
            SolveResult::Failed {
                reason: FailureKind::NumericalInstability,
                last_estimate: self.fallback(last),
            }
        } else {
            match reported {
                Reported::Root { root, residual } => {
                    if self.bracket.holds(root) && residual.finite() {
                        SolveResult::Converged { root, residual, iterations: self.iterations }
                    } else {
                        SolveResult::Failed {
                            reason: FailureKind::NumericalInstability,
                            last_estimate: self.fallback(last),
                        }
                    }
                },
                Reported::NoBracketing => SolveResult::Failed {
                    reason: FailureKind::NoSignChange,
                    last_estimate: self.bracket.low,
                },
                Reported::NoConvergency => SolveResult::Failed {
                    reason: FailureKind::DidNotConverge,
                    last_estimate: self.fallback(last),
                },
                Reported::ZeroDerivative => SolveResult::Failed {
                    reason: FailureKind::ZeroDerivative,
                    last_estimate: self.fallback(last),
                },
            }
        }
    }

    /// Begins a reference solve on `bracket`, at whose ends the function has
    /// the values `at_low` and `at_high`. The bracket is judged as bisection
    /// judges it; only a bracket with a sign change reaches the solver.
    pub fn start(bracket: Bracket, at_low: Binary64, at_high: Binary64, config: Config) -> (r:
        Monitoring)
        requires
            bracket.valid(),
            config.valid(),
        ensures
            r == Self::start_of(bracket, at_low, at_high, config),
            r matches Monitoring::Continue(monitor) ==> monitor.wf(),
    {
        match classify(at_low, at_high) {
            Admission::RootAtLow => Monitoring::Done(
                SolveResult::Converged { root: bracket.low, residual: at_low, iterations: 0 },
            ),
            Admission::RootAtHigh => Monitoring::Done(
                SolveResult::Converged { root: bracket.high, residual: at_high, iterations: 0 },
            ),
            Admission::Undefined => Monitoring::Done(
                SolveResult::Failed {
                    reason: FailureKind::NumericalInstability,
                    last_estimate: bracket.low,
                },
            ),
            Admission::NoSignChange => Monitoring::Done(
                SolveResult::Failed {
                    reason: FailureKind::NoSignChange,
                    last_estimate: bracket.low,
                },
            ),
            Admission::SignChange => Monitoring::Continue(
                Monitor { bracket, config, iterations: 0, unstable: false },
            ),
        }
    }

    /// Answers whether the function value `value` counts as a root: whether
    /// its magnitude is below the tolerance. A value that is not finite
    /// marks the run as unstable; on an unstable run the answer is no.
    pub fn root_found(&mut self, value: Binary64) -> (r: bool)
        requires
            old(self).wf(),
        ensures
            *final(self) == (Monitor {
                unstable: old(self).unstable || !value.finite(),
                ..*old(self)
            }),
            r == (!final(self).unstable && old(self).small(value)),
    {
        if !value.is_finite() {
            self.unstable = true;
        }
        !self.unstable && value.abs().lt(self.config.tolerance)
    }

    /// Answers whether two points are close enough, given their difference
    /// `gap`: whether its magnitude is below the tolerance. A difference that
    /// is not finite marks the run as unstable; on an unstable run the
    /// answer is no.
    pub fn converged(&mut self, gap: Binary64) -> (r: bool)
        requires
            old(self).wf(),
        ensures
            *final(self) == (Monitor {
                unstable: old(self).unstable || !gap.finite(),
                ..*old(self)
            }),
            r == (!final(self).unstable && old(self).small(gap)),
    {
        if !gap.is_finite() {
            self.unstable = true;
        }
        !self.unstable && gap.abs().lt(self.config.tolerance)
    }

    /// Answers whether the solver has to stop after `iteration` iterations,
    /// and notes the count: it has once the budget is reached, and at once on
    /// an unstable run.
    pub fn iteration_limit_reached(&mut self, iteration: usize) -> (r: bool)
        requires
            old(self).wf(),
        ensures
            *final(self) == (Monitor { iterations: clamp_count(iteration), ..*old(self) }),
            r == (old(self).unstable || iteration >= old(self).config.max_iterations),
    {
        let count: u32 = if iteration > u32::MAX as usize {
            u32::MAX
        } else {
            iteration as u32
        };
        self.iterations = count;
        self.unstable || count >= self.config.max_iterations
    }

    /// Turns what the solver reported into the result of the solve. `last`
    /// is the last point at which the solver evaluated the function.
    ///
    /// A run marked unstable fails as unstable whatever was reported, and so
    /// does a root outside the bracket or a residual that is not finite.
    pub fn conclude(&self, reported: Reported, last: Binary64) -> (r: SolveResult)
        requires
            self.wf(),
        ensures
            r == self.conclusion_of(reported, last),
    {
        let fallback = if self.bracket.contains(last) {
            last
        } else {
            self.bracket.low
        };
        let unstable = SolveResult::Failed {
            reason: FailureKind::NumericalInstability,
            last_estimate: fallback,
        };
        if self.unstable {
            return unstable;
        }
        match reported {
            Reported::Root { root, residual } => {
                if self.bracket.contains(root) && residual.is_finite() {
                    SolveResult::Converged { root, residual, iterations: self.iterations }
                } else {
                    unstable
                }
            },
            Reported::NoBracketing => SolveResult::Failed {
                reason: FailureKind::NoSignChange,
                last_estimate: self.bracket.low,
            },
            Reported::NoConvergency => SolveResult::Failed {
                reason: FailureKind::DidNotConverge,
                last_estimate: fallback,
            },
            Reported::ZeroDerivative => SolveResult::Failed {
                reason: FailureKind::ZeroDerivative,
                last_estimate: fallback,
            },
        }
    }

    /// Every estimate that a reference solve returns lies in the bracket and
    /// is finite, and a run marked unstable never ends as converged.
    pub proof fn law_conclusion_in_bracket(self, reported: Reported, last: Binary64)
        requires
            self.wf(),
        ensures
            self.bracket.holds(self.conclusion_of(reported, last).estimate_of()),
            self.conclusion_of(reported, last).estimate_of().finite(),
            self.unstable ==> self.conclusion_of(reported, last).failure_of() == Some(
                FailureKind::NumericalInstability,
            ),
    {
        let estimate = self.conclusion_of(reported, last).estimate_of();
        assert(self.bracket.holds(self.bracket.low));
        assert(self.bracket.holds(estimate));
        estimate.lemma_between_finite(self.bracket.low, self.bracket.high);
    }

    /// A bracket is judged alike by bisection and by the reference solve:
    /// both end at once with the same result, or both go on.
    pub proof fn law_start_agrees_with_bisection(
        bracket: Bracket,
        at_low: Binary64,
        at_high: Binary64,
        config: Config,
    )
        ensures
            match Self::start_of(bracket, at_low, at_high, config) {
                Monitoring::Done(result) => crate::bisection::Bisection::start_of(
                    bracket,
                    at_low,
                    at_high,
                    config,
                ) == crate::bisection::Bisecting::Done(result),
                Monitoring::Continue(_) => crate::bisection::Bisection::start_of(
                    bracket,
                    at_low,
                    at_high,
                    config,
                ) is Continue,
            },
    {
    }
}

/// The result of a reference solve whose run came back as `found`, having
/// begun under `monitor`. Of the monitor that came back, only what a run
/// changes is read: the iteration count and the mark of instability.
pub open spec fn result_of(monitor: Monitor, found: Search) -> SolveResult {
    (Monitor {
        iterations: found.monitor.iterations,
        unstable: found.monitor.unstable,
        ..monitor
    }).conclusion_of(found.reported, found.last)
}

/// Solves on `bracket`, at whose ends the function has the values `at_low`
/// and `at_high`, with the outside solver. The bracket is judged first, as
/// bisection judges it. If it shows a sign change, `search` is called once
/// with a fresh monitor: it runs the outside solver, answers the solver's
/// questions from the monitor, and returns the monitor with what the solver
/// reported.
///
/// Without a sign change `search` is never called. The estimate of the
/// result is a finite number in the bracket.
pub fn solve_reference<S: Fn(Monitor) -> Search>(
    bracket: Bracket,
    at_low: Binary64,
    at_high: Binary64,
    config: Config,
    search: S,
) -> (r: SolveResult)
    requires
        bracket.valid(),
        config.valid(),
        forall|monitor: Monitor| monitor.wf() ==> search.requires((monitor,)),
    ensures
        match Monitor::start_of(bracket, at_low, at_high, config) {
            Monitoring::Done(result) => r == result,
            Monitoring::Continue(monitor) => exists|found: Search| #[trigger]
                search.ensures((monitor,), found) && r == result_of(monitor, found),
        },
        !at_low.nan() && !at_high.nan() && at_low.scaled() * at_high.scaled() > 0 ==> r == (
        SolveResult::Failed { reason: FailureKind::NoSignChange, last_estimate: bracket.low }),
        bracket.holds(r.estimate_of()),
        r.estimate_of().finite(),
{
    proof {
        crate::bracketing::law_no_sign_change_is_positive_product(at_low, at_high);
        crate::binary64::lemma_magnitude_zero(at_low.magnitude_bits());
        crate::binary64::lemma_magnitude_zero(at_high.magnitude_bits());
    }
    match Monitor::start(bracket, at_low, at_high, config) {
        Monitoring::Done(result) => result,
        Monitoring::Continue(monitor) => {
            let found = search(monitor);
            let closing = Monitor {
                bracket: monitor.bracket,
                config: monitor.config,
                iterations: found.monitor.iterations,
                unstable: found.monitor.unstable,
            };
            proof {
                closing.law_conclusion_in_bracket(found.reported, found.last);
            }
            closing.conclude(found.reported, found.last)
        },
    }
}

} // verus!