//! Newton-Raphson: following the tangent from one estimate to the next.
//!
//! The caller computes the derivative at the current estimate, the estimate
//! that the tangent leads to, and the function value there; this module
//! decides what follows from them. A solve is one call of [`Newton::start`]
//! and then one call of [`Newton::step`] per tangent, until a step returns a
//! result; [`solve_newton`] makes these calls and asks the caller for each
//! tangent. A step is looked at in this order: a derivative that is not finite
//! ends the solve as unstable; a derivative of exactly zero leaves the
//! tangent step undefined; a next estimate or a residual that is not finite
//! is unstable; a step shorter than the bound is convergence; the last
//! permitted step without convergence exhausts the budget; otherwise the
//! next estimate becomes the current one. No step is damped and no other
//! method is ever substituted.

use vstd::prelude::*;
use crate::binary64::Binary64;
use crate::outcome::{Config, FailureKind, SolveResult};

verus! {

/// One tangent step, as the caller computed it from the current estimate.
#[derive(Clone, Copy, Debug, PartialEq, Eq, Structural)]
pub struct Tangent {
    /// The derivative of the function at the current estimate.
    pub derivative: Binary64,
    /// Where the tangent meets the axis: the current estimate minus the
    /// function value over the derivative.
    pub next: Binary64,
    /// The next estimate minus the current one.
    pub step: Binary64,
    /// The tolerance times the magnitude of the next estimate.
    pub bound: Binary64,
    /// The function value at the next estimate.
    pub residual: Binary64,
}

/// A Newton iteration under way.
#[derive(Clone, Copy, Debug, PartialEq, Eq, Structural)]
pub struct Newton {
    /// The current estimate.
    pub estimate: Binary64,
    /// The number of tangent steps taken so far.
    pub iterations: u32,
    /// The stopping rule.
    pub config: Config,
}

/// Where a Newton iteration stands after a step.
#[derive(Clone, Copy, Debug, PartialEq, Eq, Structural)]
pub enum Iterating {
    /// Another tangent is wanted, at the estimate of this state.
    Continue(Newton),
    /// The solve is over.
    Done(SolveResult),
}

impl Newton {
    /// The invariant of an iteration under way: a valid stopping rule with
    /// budget left.
    pub open spec fn wf(self) -> bool {
        &&& self.config.valid()
        &&& self.iterations < self.config.max_iterations
    }

    /// The relative step criterion: the magnitude of the step is below the
    /// bound, both being numbers.
    pub open spec fn close(seen: Tangent) -> bool {
        &&& !seen.step.nan()
        &&& !seen.bound.nan()
        &&& seen.step.magnitude() < seen.bound.scaled()
    }

    /// What follows from one tangent step.
    pub open spec fn step_of(self, seen: Tangent) -> Iterating {
        let count = (self.iterations + 1) as u32;
        if !seen.derivative.finite() {
            Iterating::Done(
                SolveResult::Failed {
                    reason: FailureKind::NumericalInstability,
                    last_estimate: self.estimate,
                },
            )
        } else if seen.derivative.zero() {
            Iterating::Done(
                SolveResult::Failed {
                    reason: FailureKind::ZeroDerivative,
                    last_estimate: self.estimate,
                },
            )
        } else if !seen.next.finite() || !seen.residual.finite() {
            Iterating::Done(
                SolveResult::Failed {
                    reason: FailureKind::NumericalInstability,
                    last_estimate: self.estimate,
                },
            )
        } else if Self::close(seen) {
            Iterating::Done(
                SolveResult::Converged {
                    root: seen.next,
                    residual: seen.residual,
                    iterations: count,
                },
            )
        } else if count == self.config.max_iterations {
            Iterating::Done(
                SolveResult::Failed {
                    reason: FailureKind::DidNotConverge,
                    last_estimate: seen.next,
                },
            )
        } else {
            Iterating::Continue(Newton { estimate: seen.next, iterations: count, ..self })
        }
    }

    /// What follows from a sequence of tangent steps: they are taken in order
    /// until one ends the solve or the sequence runs out.
    pub open spec fn run(self, seen: Seq<Tangent>) -> Iterating
        decreases seen.len(),
    {
        if seen.len() == 0 {
            Iterating::Continue(self)
        } else {
            match self.step_of(seen[0]) {
                Iterating::Done(result) => Iterating::Done(result),
                Iterating::Continue(next) => next.run(seen.skip(1)),
            }
        }
    }

    /// Whether `seen` is what `probe` answered, tangent by tangent, when it
    /// was asked in the states that a run from this state passes through.
    #[verifier::opaque]
    pub open spec fn answered<P: Fn(Newton) -> Tangent>(self, probe: P, seen: Seq<Tangent>) -> bool {
        forall|i: int|
            0 <= i < seen.len() ==> {
                &&& (#[trigger] self.run(seen.take(i))) is Continue
                &&& probe.ensures((self.run(seen.take(i))->Continue_0,), seen[i])
            }
    }

    /// Begins a solve at the starting point `x0`.
    pub fn start(x0: Binary64, config: Config) -> (r: Newton)
        requires
            config.valid(),
        ensures
            r == (Newton { estimate: x0, iterations: 0, config }),
            r.wf(),
    {
        Newton { estimate: x0, iterations: 0, config }
    }

    /// Takes one step: decides what follows from the tangent `seen` at the
    /// current estimate.
    pub fn step(self, seen: Tangent) -> (r: Iterating)
        requires
            self.wf(),
        ensures
            r == self.step_of(seen),
            r matches Iterating::Continue(next) ==> next.wf(),
    {
        let count: u32 = self.iterations + 1;
        if !seen.derivative.is_finite() {
            return Iterating::Done(
                SolveResult::Failed {
                    reason: FailureKind::NumericalInstability,
                    last_estimate: self.estimate,
                },
            );
        }
        if seen.derivative.is_zero() {
            return Iterating::Done(
                SolveResult::Failed {
                    reason: FailureKind::ZeroDerivative,
                    last_estimate: self.estimate,
                },
            );
        }
        if !seen.next.is_finite() || !seen.residual.is_finite() {
            return Iterating::Done(
                SolveResult::Failed {
                    reason: FailureKind::NumericalInstability,
                    last_estimate: self.estimate,
                },
            );
        }
        if seen.step.abs().lt(seen.bound) {
            return Iterating::Done(
                SolveResult::Converged {
                    root: seen.next,
                    residual: seen.residual,
                    iterations: count,
                },
            );
        }
        if count == self.config.max_iterations {
            return Iterating::Done(
                SolveResult::Failed {
                    reason: FailureKind::DidNotConverge,
                    last_estimate: seen.next,
                },
            );
        }
        Iterating::Continue(Newton { estimate: seen.next, iterations: count, config: self.config })
    }

    /// A run over a sequence with one more tangent at its end is the run over
    /// the sequence, followed by the step on that tangent if the run has not
    /// ended before.
    pub proof fn lemma_run_push(self, seen: Seq<Tangent>, last: Tangent)
        ensures
            self.run(seen.push(last)) == match self.run(seen) {
                Iterating::Done(result) => Iterating::Done(result),
                Iterating::Continue(state) => state.step_of(last),
            },
        decreases seen.len(),
    {
        let longer = seen.push(last);
        if seen.len() == 0 {
            assert(longer.skip(1) =~= Seq::<Tangent>::empty());
            assert(longer[0] == last);
            match self.step_of(last) {
                Iterating::Done(_) => {},
                Iterating::Continue(next) => {
                    assert(next.run(Seq::<Tangent>::empty()) == Iterating::Continue(next));
                },
            }
        } else {
            assert(longer[0] == seen[0]);
            assert(longer.skip(1) =~= seen.skip(1).push(last));
            match self.step_of(seen[0]) {
                Iterating::Done(_) => {},
                Iterating::Continue(next) => {
                    next.lemma_run_push(seen.skip(1), last);
                },
            }
        }
    }

    /// Whatever the tangents are: while a run goes on, the invariant holds
    /// and every tangent was counted; when it has ended, a converged result
    /// has a finite root and residual and counts at least one iteration and
    /// at most the budget, and the failure is never a missing sign change.
    pub proof fn law_run_result(self, seen: Seq<Tangent>)
        requires
            self.wf(),
        ensures
            match self.run(seen) {
                Iterating::Continue(next) => {
                    &&& next.wf()
                    &&& next.iterations == self.iterations + seen.len()
                    &&& next.config == self.config
                },
                Iterating::Done(result) => {
                    &&& result matches SolveResult::Converged { root, residual, iterations } ==> {
                        &&& root.finite()
                        &&& residual.finite()
                        &&& self.iterations < iterations <= self.config.max_iterations
                    }
                    &&& result matches SolveResult::Failed { reason, .. } ==> reason
                        != FailureKind::NoSignChange
                },
            },
        decreases seen.len(),
    {
        if seen.len() > 0 {
            match self.step_of(seen[0]) {
                Iterating::Done(_) => {
                    self.law_step_result(seen[0]);
                },
                Iterating::Continue(next) => {
                    self.law_step_advances(seen[0]);
                    next.law_run_result(seen.skip(1));
                },
            }
        }
    }

    /// A vanishing derivative ends the solve at once, at the estimate where
    /// it was met, whatever else the tangent holds.
    pub proof fn law_zero_derivative(self, seen: Tangent)
        requires
            seen.derivative.zero(),
        ensures
            self.step_of(seen) == Iterating::Done(
                SolveResult::Failed {
                    reason: FailureKind::ZeroDerivative,
                    last_estimate: self.estimate,
                },
            ),
    {
    }

    /// A step that goes on keeps the invariant, counts one more tangent and
    /// stands on the finite estimate that the tangent led to.
    pub proof fn law_step_advances(self, seen: Tangent)
        requires
            self.wf(),
            self.step_of(seen) is Continue,
        ensures
            ({
                let next = self.step_of(seen)->Continue_0;
                &&& next.wf()
                &&& next.iterations == self.iterations + 1
                &&& next.config == self.config
                &&& next.estimate == seen.next
                &&& next.estimate.finite()
                &&& !Self::close(seen)
            }),
    {
    }

    /// A result that a step returns counts no more iterations than the budget
    /// allows. It is convergence only if the step met the criterion, with a
    /// finite root and residual; it is an exhausted budget only at the last
    /// permitted step, and then the criterion was not met.
    pub proof fn law_step_result(self, seen: Tangent)
        requires
            self.wf(),
            self.step_of(seen) is Done,
        ensures
            ({
                let result = self.step_of(seen)->Done_0;
                &&& result matches SolveResult::Converged { root, residual, iterations } ==> {
                    &&& root == seen.next
                    &&& residual == seen.residual
                    &&& root.finite()
                    &&& residual.finite()
                    &&& iterations == self.iterations + 1
                    &&& iterations <= self.config.max_iterations
                    &&& Self::close(seen)
                    &&& !seen.derivative.zero()
                }
                &&& result matches SolveResult::Failed { reason, .. } ==> {
                    &&& reason != FailureKind::NoSignChange
                    &&& reason == FailureKind::DidNotConverge ==> {
                        &&& self.iterations + 1 == self.config.max_iterations
                        &&& !Self::close(seen)
                    }
                }
            }),
    {
    }

    /// With a budget of one iteration, a sound tangent whose step does not
    /// meet the criterion exhausts the budget.
    pub proof fn law_budget_of_one(self, seen: Tangent)
        requires
            self.wf(),
            self.config.max_iterations == 1,
            seen.derivative.finite(),
            !seen.derivative.zero(),
            seen.next.finite(),
            seen.residual.finite(),
            !Self::close(seen),
        ensures
            self.step_of(seen) == Iterating::Done(
                SolveResult::Failed {
                    reason: FailureKind::DidNotConverge,
                    last_estimate: seen.next,
                },
            ),
    {
    }

    /// The budget bounds every solve: whatever the tangents are, a run over
    /// as many of them as the budget has left has ended.
    pub proof fn law_budget(self, seen: Seq<Tangent>)
        requires
            self.wf(),
            seen.len() >= self.config.max_iterations - self.iterations,
        ensures
            self.run(seen) is Done,
        decreases seen.len(),
    {
        match self.step_of(seen[0]) {
            Iterating::Done(_) => {},
            Iterating::Continue(next) => {
                next.law_budget(seen.skip(1));
            },
        }
    }

    /// One more answer: if a run over `seen` was answered by `probe` and has
    /// not ended, and `last` is an answer of `probe` in the state that the
    /// run stands in, the run over `seen` with `last` at its end was answered
    /// by `probe`.
    pub proof fn lemma_answered_push<P: Fn(Newton) -> Tangent>(
        self,
        probe: P,
        seen: Seq<Tangent>,
        last: Tangent,
    )
        requires
            self.answered(probe, seen),
            self.run(seen) is Continue,
            probe.ensures((self.run(seen)->Continue_0,), last),
        ensures
            self.answered(probe, seen.push(last)),
    {
        reveal(Newton::answered);
        let longer = seen.push(last);
        assert forall|i: int| 0 <= i < longer.len() implies {
            &&& (#[trigger] self.run(longer.take(i))) is Continue
            &&& probe.ensures((self.run(longer.take(i))->Continue_0,), longer[i])
        } by {
            if i < seen.len() {
                assert(longer.take(i) =~= seen.take(i));
                assert(longer[i] == seen[i]);
            } else {
                assert(longer.take(i) =~= seen);
                assert(longer[i] == last);
            }
        }
    }

    /// What is left of the answers of `probe` after the first step: if a run
    /// over `seen` was answered by `probe` and its first step goes on, the
    /// run from the next state over the rest was answered by `probe` too.
    pub proof fn lemma_answered_rest<P: Fn(Newton) -> Tangent>(self, probe: P, seen: Seq<Tangent>)
        requires
            seen.len() > 0,
            self.answered(probe, seen),
            self.step_of(seen[0]) is Continue,
        ensures
            (self.step_of(seen[0])->Continue_0).answered(probe, seen.skip(1)),
    {
        reveal(Newton::answered);
        let next = self.step_of(seen[0])->Continue_0;
        let rest = seen.skip(1);
        assert forall|i: int| 0 <= i < rest.len() implies {
            &&& (#[trigger] next.run(rest.take(i))) is Continue
            &&& probe.ensures((next.run(rest.take(i))->Continue_0,), rest[i])
        } by {
            let head = seen.take(i + 1);
            assert(head[0] == seen[0]);
            assert(head.skip(1) =~= rest.take(i));
            assert(self.run(head) == next.run(rest.take(i)));
            assert(self.run(seen.take(i + 1)) is Continue);
        }
    }

    /// Solving twice gives the same result. Where `probe` is a function, so
    /// that its answer in a state is determined by the state, two runs from
    /// one state that `probe` answered and that have both ended, ended with
    /// the same result.
    pub proof fn law_solve_repeatable<P: Fn(Newton) -> Tangent>(
        self,
        probe: P,
        seen: Seq<Tangent>,
        again: Seq<Tangent>,
    )
        requires
            forall|state: Newton, a: Tangent, b: Tangent|
                probe.ensures((state,), a) && probe.ensures((state,), b) ==> a == b,
            self.answered(probe, seen),
            self.answered(probe, again),
            self.run(seen) is Done,
            self.run(again) is Done,
        ensures
            self.run(seen) == self.run(again),
        decreases seen.len(),
    {
        reveal(Newton::answered);
        assert(seen.take(0) =~= Seq::<Tangent>::empty());
        assert(again.take(0) =~= Seq::<Tangent>::empty());
        assert(self.run(seen.take(0)) == Iterating::Continue(self));
        assert(self.run(again.take(0)) == Iterating::Continue(self));
        assert(seen[0] == again[0]);
        match self.step_of(seen[0]) {
            Iterating::Done(_) => {},
            Iterating::Continue(next) => {
                self.lemma_answered_rest(probe, seen);
                self.lemma_answered_rest(probe, again);
                next.law_solve_repeatable(probe, seen.skip(1), again.skip(1));
            },
        }
    }
}

/// Solves by Newton-Raphson from the starting point `x0`. Each tangent is
/// asked of `probe`, which is handed the state at whose estimate the
/// tangent is to be taken.
///
/// The result is the outcome of the run over the tangents that `probe`
/// answered, of which there is at least one and no more than the budget
/// allows. A converged result has a finite root and residual.
pub fn solve_newton<P: Fn(Newton) -> Tangent>(x0: Binary64, config: Config, probe: P) -> (r:
    SolveResult)
    requires
        config.valid(),
        forall|state: Newton| state.wf() ==> probe.requires((state,)),
    ensures
        exists|seen: Seq<Tangent>|
            {
                &&& 1 <= seen.len() <= config.max_iterations
                &&& #[trigger] (Newton { estimate: x0, iterations: 0, config }).run(seen)
                    == Iterating::Done(r)
                &&& (Newton { estimate: x0, iterations: 0, config }).answered(probe, seen)
            },
        r matches SolveResult::Converged { root, residual, iterations } ==> {
            &&& root.finite()
            &&& residual.finite()
            &&& 1 <= iterations <= config.max_iterations
        },
        r matches SolveResult::Failed { reason, .. } ==> reason != FailureKind::NoSignChange,
{
    let mut state = Newton::start(x0, config);
    let ghost first = state;
    let ghost mut seen: Seq<Tangent> = Seq::empty();
    proof {
        reveal(Newton::answered);
    }
    loop
        invariant
            config.valid(),
            first == (Newton { estimate: x0, iterations: 0, config }),
            state.wf(),
            state.config == config,
            first.run(seen) == Iterating::Continue(state),
            seen.len() == state.iterations,
            first.answered(probe, seen),
            forall|any: Newton| any.wf() ==> probe.requires((any,)),
        decreases config.max_iterations - state.iterations,
    {
        let observed = probe(state);
        let ghost longer = seen.push(observed);
        proof {
            first.lemma_run_push(seen, observed);
            first.lemma_answered_push(probe, seen, observed);
        }
        match state.step(observed) {
            Iterating::Done(result) => {
                proof {
                    state.law_step_result(observed);
                }
                return result;
            },
            Iterating::Continue(next) => {
                proof {
                    state.law_step_advances(observed);
                    seen = longer;
                }
                state = next;
            },
        }
    }
}

} // verus!
