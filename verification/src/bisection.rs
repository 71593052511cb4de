//! Bisection: halving a bracket that holds a sign change.
//!
//! The caller computes each midpoint and the function value there; this
//! module decides what follows from them. A solve is one call of
//! [`Bisection::start`] and then one call of [`Bisection::step`] per midpoint,
//! until a step returns a result; [`solve_bisection`] makes these calls and
//! asks the caller for each midpoint. A step is looked at in this order: a
//! midpoint outside the bracket or a value that is not finite ends the solve
//! as unstable; a value of exactly zero is a root; a relative change below the
//! tolerance is convergence; the last permitted step without convergence
//! exhausts the budget; otherwise the half with the sign change is kept.

use vstd::prelude::*;
use crate::binary64::{Binary64, Sign};
use crate::bracketing::{admission_of, classify, Admission};
use crate::outcome::{Bracket, Config, FailureKind, SolveResult};

verus! {

/// One midpoint, as the caller saw it.
#[derive(Clone, Copy, Debug, PartialEq, Eq, Structural)]
pub struct Midpoint {
    /// The midpoint of the current bracket.
    pub estimate: Binary64,
    /// The function value at the midpoint.
    pub value: Binary64,
    /// The difference from the previous midpoint, divided by this one; its
    /// magnitude is the relative change. Not read at the first midpoint,
    /// which has no predecessor.
    pub change: Binary64,
}

/// A bisection under way.
#[derive(Clone, Copy, Debug, PartialEq, Eq, Structural)]
pub struct Bisection {
    /// The low end of the current bracket.
    pub low: Binary64,
    /// The high end of the current bracket.
    pub high: Binary64,
    /// The sign of the function at the low end; at the high end it is the
    /// opposite.
    pub low_sign: Sign,
    /// The midpoint of the step before, if there was one.
    pub previous: Option<Binary64>,
    /// The number of midpoints taken so far.
    pub iterations: u32,
    /// The stopping rule.
    pub config: Config,
}

/// Where a bisection stands after a call.
#[derive(Clone, Copy, Debug, PartialEq, Eq, Structural)]
pub enum Bisecting {
    /// Another midpoint is wanted, of the bracket of this state.
    Continue(Bisection),
    /// The solve is over.
    Done(SolveResult),
}

impl Bisection {
    /// The invariant of a bisection under way: a valid stopping rule with
    /// budget left, a bracket of finite ends in order, a sign at the low end,
    /// and a previous midpoint, after the first step, that is one of the ends.
    pub open spec fn wf(self) -> bool {
        &&& self.config.valid()
        &&& self.iterations < self.config.max_iterations
        &&& self.low.finite()
        &&& self.high.finite()
        &&& self.low.at_most(self.high)
        &&& self.low_sign != Sign::Zero
        &&& match self.previous {
            None => self.iterations == 0,
            Some(p) => self.iterations > 0 && (p == self.low || p == self.high),
        }
    }

    /// The current bracket.
    pub open spec fn bracket(self) -> Bracket {
        Bracket { low: self.low, high: self.high }
    }

    /// The estimate that a solve falls back on when a step is unusable: the
    /// previous midpoint, or the low end before the first step.
    pub open spec fn fallback(self) -> Binary64 {
        match self.previous {
            None => self.low,
            Some(p) => p,
        }
    }

    /// The relative change criterion: the magnitude of the change is below
    /// the tolerance.
    pub open spec fn close(self, seen: Midpoint) -> bool {
        !seen.change.nan() && seen.change.magnitude() < self.config.tolerance.scaled()
    }

    /// How a solve begins, given the function values at the two ends.
    pub open spec fn start_of(
        bracket: Bracket,
        at_low: Binary64,
        at_high: Binary64,
        config: Config,
    ) -> Bisecting {
        match admission_of(at_low, at_high) {
            Admission::RootAtLow => Bisecting::Done(
                SolveResult::Converged { root: bracket.low, residual: at_low, iterations: 0 },
            ),
            Admission::RootAtHigh => Bisecting::Done(
                SolveResult::Converged { root: bracket.high, residual: at_high, iterations: 0 },
            ),
            Admission::Undefined => Bisecting::Done(
                SolveResult::Failed {
                    reason: FailureKind::NumericalInstability,
                    last_estimate: bracket.low,
                },
            ),
            Admission::NoSignChange => Bisecting::Done(
                SolveResult::Failed {
                    reason: FailureKind::NoSignChange,
                    last_estimate: bracket.low,
                },
            ),
            Admission::SignChange => Bisecting::Continue(
                Bisection {
                    low: bracket.low,
                    high: bracket.high,
                    low_sign: at_low.sign_of(),
                    previous: None,
                    iterations: 0,
                    config,
                },
            ),
        }
    }

    /// What follows from one midpoint.
    pub open spec fn step_of(self, seen: Midpoint) -> Bisecting {
        let count = (self.iterations + 1) as u32;
        if !self.bracket().holds(seen.estimate) || !seen.value.finite() {
            Bisecting::Done(
                SolveResult::Failed {
                    reason: FailureKind::NumericalInstability,
                    last_estimate: self.fallback(),
                },
            )
        } else if seen.value.zero() {
            Bisecting::Done(
                SolveResult::Converged {
                    root: seen.estimate,
                    residual: seen.value,
                    iterations: count,
                },
            )
        } else if self.previous is Some && self.close(seen) {
            Bisecting::Done(
                SolveResult::Converged {
                    root: seen.estimate,
                    residual: seen.value,
                    iterations: count,
                },
            )
        } else if count == self.config.max_iterations {
            Bisecting::Done(
                SolveResult::Failed {
                    reason: FailureKind::DidNotConverge,
                    last_estimate: seen.estimate,
                },
            )
        } else if seen.value.sign_of() != self.low_sign {
            Bisecting::Continue(
                Bisection {
                    high: seen.estimate,
                    previous: Some(seen.estimate),
                    iterations: count,
                    ..self
                },
            )
        } else {
            Bisecting::Continue(
                Bisection {
                    low: seen.estimate,
                    previous: Some(seen.estimate),
                    iterations: count,
                    ..self
                },
            )
        }
    }

    /// What follows from a sequence of midpoints: the steps are taken in
    /// order until one ends the solve or the sequence runs out.
    pub open spec fn run(self, seen: Seq<Midpoint>) -> Bisecting
        decreases seen.len(),
    {
        if seen.len() == 0 {
            Bisecting::Continue(self)
        } else {
            match self.step_of(seen[0]) {
                Bisecting::Done(result) => Bisecting::Done(result),
                Bisecting::Continue(next) => next.run(seen.skip(1)),
            }
        }
    }

    /// The outcome of a whole solve: the bracket is judged by the function
    /// values at its ends, and if it is taken up, the midpoints are run.
    pub open spec fn solve_of(
        bracket: Bracket,
        at_low: Binary64,
        at_high: Binary64,
        config: Config,
        seen: Seq<Midpoint>,
    ) -> Bisecting {
        match Self::start_of(bracket, at_low, at_high, config) {
            Bisecting::Done(result) => Bisecting::Done(result),
            Bisecting::Continue(state) => state.run(seen),
        }
    }

    /// Whether `seen` is what `probe` answered, midpoint by midpoint, when it
    /// was asked in the states that a run from this state passes through.
    #[verifier::opaque]
    pub open spec fn answered<P: Fn(Bisection) -> Midpoint>(
        self,
        probe: P,
        seen: Seq<Midpoint>,
    ) -> bool {
        forall|i: int|
            0 <= i < seen.len() ==> {
                &&& (#[trigger] self.run(seen.take(i))) is Continue
                &&& probe.ensures((self.run(seen.take(i))->Continue_0,), seen[i])
            }
    }

    /// Begins a solve on `bracket`, at whose ends the function has the values
    /// `at_low` and `at_high`.
    ///
    /// An end where the function is zero is returned as the root at once. A
    /// value that is not a number fails the solve as unstable, equal signs
    /// fail it for want of a sign change; an infinite value counts by its
    /// sign. Otherwise the first midpoint is wanted.
    pub fn start(bracket: Bracket, at_low: Binary64, at_high: Binary64, config: Config) -> (r:
        Bisecting)
        requires
            bracket.valid(),
            config.valid(),
        ensures
            r == Self::start_of(bracket, at_low, at_high, config),
            r matches Bisecting::Continue(state) ==> state.wf(),
    {
        match classify(at_low, at_high) {
            Admission::RootAtLow => Bisecting::Done(
                SolveResult::Converged { root: bracket.low, residual: at_low, iterations: 0 },
            ),
            Admission::RootAtHigh => Bisecting::Done(
                SolveResult::Converged { root: bracket.high, residual: at_high, iterations: 0 },
            ),
            Admission::Undefined => Bisecting::Done(
                SolveResult::Failed {
                    reason: FailureKind::NumericalInstability,
                    last_estimate: bracket.low,
                },
            ),
            Admission::NoSignChange => Bisecting::Done(
                SolveResult::Failed {
                    reason: FailureKind::NoSignChange,
                    last_estimate: bracket.low,
                },
            ),
            Admission::SignChange => {
                proof {
                    crate::binary64::lemma_magnitude_zero(at_low.magnitude_bits());
                }
                let low_sign = match at_low.sign() {
                    Some(Sign::Negative) => Sign::Negative,
                    _ => Sign::Positive,
                };
                Bisecting::Continue(
                    Bisection {
                        low: bracket.low,
                        high: bracket.high,
                        low_sign,
                        previous: None,
                        iterations: 0,
                        config,
                    },
                )
            },
        }
    }

    /// Takes one step: decides what follows from the midpoint `seen` of the
    /// current bracket.
    pub fn step(self, seen: Midpoint) -> (r: Bisecting)
        requires
            self.wf(),
        ensures
            r == self.step_of(seen),
            r matches Bisecting::Continue(next) ==> next.wf(),
    {
        let count: u32 = self.iterations + 1;
        let inside = self.low.le(seen.estimate) && seen.estimate.le(self.high);
        if !inside || !seen.value.is_finite() {
            let last_estimate = match self.previous {
                None => self.low,
                Some(p) => p,
            };
            return Bisecting::Done(
                SolveResult::Failed { reason: FailureKind::NumericalInstability, last_estimate },
            );
        }
        proof {
            seen.estimate.lemma_between_finite(self.low, self.high);
            crate::binary64::lemma_magnitude_zero(seen.value.magnitude_bits());
        }
        let value_sign = match seen.value.sign() {
            Some(Sign::Negative) => Sign::Negative,
            Some(Sign::Positive) => Sign::Positive,
            _ => {
                return Bisecting::Done(
                    SolveResult::Converged {
                        root: seen.estimate,
                        residual: seen.value,
                        iterations: count,
                    },
                );
            },
        };
        if self.previous.is_some() && seen.change.abs().lt(self.config.tolerance) {
            return Bisecting::Done(
                SolveResult::Converged {
                    root: seen.estimate,
                    residual: seen.value,
                    iterations: count,
                },
            );
        }
        if count == self.config.max_iterations {
            return Bisecting::Done(
                SolveResult::Failed {
                    reason: FailureKind::DidNotConverge,
                    last_estimate: seen.estimate,
                },
            );
        }
        if value_sign != self.low_sign {
            Bisecting::Continue(
                Bisection {
                    low: self.low,
                    high: seen.estimate,
                    low_sign: self.low_sign,
                    previous: Some(seen.estimate),
                    iterations: count,
                    config: self.config,
                },
            )
        } else {
            Bisecting::Continue(
                Bisection {
                    low: seen.estimate,
                    high: self.high,
                    low_sign: self.low_sign,
                    previous: Some(seen.estimate),
                    iterations: count,
                    config: self.config,
                },
            )
        }
    }

    /// A run over a sequence with one more midpoint at its end is the run
    /// over the sequence, followed by the step on that midpoint if the run
    /// has not ended before.
    pub proof fn lemma_run_push(self, seen: Seq<Midpoint>, last: Midpoint)
        ensures
            self.run(seen.push(last)) == match self.run(seen) {
                Bisecting::Done(result) => Bisecting::Done(result),
                Bisecting::Continue(state) => state.step_of(last),
            },
        decreases seen.len(),
    {
        let longer = seen.push(last);
        if seen.len() == 0 {
            assert(longer.skip(1) =~= Seq::<Midpoint>::empty());
            assert(longer[0] == last);
            match self.step_of(last) {
                Bisecting::Done(_) => {},
                Bisecting::Continue(next) => {
                    assert(next.run(Seq::<Midpoint>::empty()) == Bisecting::Continue(next));
                },
            }
        } else {
            assert(longer[0] == seen[0]);
            assert(longer.skip(1) =~= seen.skip(1).push(last));
            match self.step_of(seen[0]) {
                Bisecting::Done(_) => {},
                Bisecting::Continue(next) => {
                    next.lemma_run_push(seen.skip(1), last);
                },
            }
        }
    }

    /// A step that goes on keeps the invariant, counts one more midpoint,
    /// makes the midpoint an end of the new bracket, and moves neither end
    /// outwards. The end that is replaced is the one where the function has
    /// the sign that it has at the midpoint, so the sign change stays inside.
    pub proof fn law_step_narrows(self, seen: Midpoint)
        requires
            self.wf(),
            self.step_of(seen) is Continue,
        ensures
            ({
                let next = self.step_of(seen)->Continue_0;
                &&& next.wf()
                &&& next.iterations == self.iterations + 1
                &&& next.config == self.config
                &&& next.low_sign == self.low_sign
                &&& self.low.at_most(next.low)
                &&& next.high.at_most(self.high)
                &&& next.previous == Some(seen.estimate)
                &&& seen.value.sign_of() != Sign::Zero
                &&& if seen.value.sign_of() == self.low_sign {
                    next.low == seen.estimate && next.high == self.high
                } else {
                    next.low == self.low && next.high == seen.estimate
                }
            }),
    {
        seen.estimate.lemma_between_finite(self.low, self.high);
        crate::binary64::lemma_magnitude_zero(seen.value.magnitude_bits());
    }

    /// A result that a step returns counts no more iterations than the budget
    /// allows, and is convergence only if the value at the midpoint is zero
    /// or the change fell below the tolerance after an earlier midpoint.
    pub proof fn law_step_result(self, seen: Midpoint)
        requires
            self.wf(),
            self.step_of(seen) is Done,
        ensures
            ({
                let result = self.step_of(seen)->Done_0;
                &&& result matches SolveResult::Converged { root, residual, iterations } ==> {
                    &&& root == seen.estimate
                    &&& residual == seen.value
                    &&& iterations == self.iterations + 1
                    &&& iterations <= self.config.max_iterations
                    &&& self.bracket().holds(root)
                    &&& root.finite()
                    &&& (seen.value.zero() || (self.iterations > 0 && self.close(seen)))
                }
                &&& result matches SolveResult::Failed { reason, .. } ==> {
                    ||| reason == FailureKind::NumericalInstability
                    ||| (reason == FailureKind::DidNotConverge && self.iterations + 1
                        == self.config.max_iterations)
                }
            }),
    {
        if self.bracket().holds(seen.estimate) {
            seen.estimate.lemma_between_finite(self.low, self.high);
        }
    }

    /// The first midpoint has no predecessor to be close to: it ends the
    /// solve as converged only where the function is exactly zero. With a
    /// budget of one iteration every other sound midpoint exhausts the budget.
    pub proof fn law_first_step(self, seen: Midpoint)
        requires
            self.wf(),
            self.iterations == 0,
            self.bracket().holds(seen.estimate),
            seen.value.finite(),
            !seen.value.zero(),
        ensures
            !(self.step_of(seen) matches Bisecting::Done(SolveResult::Converged { .. })),
            self.config.max_iterations == 1 ==> self.step_of(seen) == Bisecting::Done(
                SolveResult::Failed {
                    reason: FailureKind::DidNotConverge,
                    last_estimate: seen.estimate,
                },
            ),
    {
    }

    /// The budget bounds every solve: whatever the midpoints are, a run over
    /// as many of them as the budget has left has ended.
    pub proof fn law_budget(self, seen: Seq<Midpoint>)
        requires
            self.wf(),
            seen.len() >= self.config.max_iterations - self.iterations,
        ensures
            self.run(seen) is Done,
        decreases seen.len(),
    {
        match self.step_of(seen[0]) {
            Bisecting::Done(_) => {},
            Bisecting::Continue(next) => {
                self.law_step_narrows(seen[0]);
                next.law_budget(seen.skip(1));
            },
        }
    }

    /// Whatever the midpoints are, a run keeps inside the bracket that it
    /// began with. While it goes on, the invariant holds, every midpoint was
    /// counted and the bracket has only narrowed. When it has ended, the
    /// estimate of the result is a finite number in the bracket, a converged
    /// result counts at least one iteration and at most the budget, and the
    /// failure is instability or an exhausted budget.
    pub proof fn law_run_keeps_bracket(self, seen: Seq<Midpoint>)
        requires
            self.wf(),
        ensures
            match self.run(seen) {
                Bisecting::Continue(next) => {
                    &&& next.wf()
                    &&& next.iterations == self.iterations + seen.len()
                    &&& next.config == self.config
                    &&& self.low.at_most(next.low)
                    &&& next.high.at_most(self.high)
                },
                Bisecting::Done(result) => {
                    &&& self.bracket().holds(result.estimate_of())
                    &&& result.estimate_of().finite()
                    &&& result matches SolveResult::Converged { iterations, .. } ==> self.iterations
                        < iterations <= self.config.max_iterations
                    &&& result matches SolveResult::Failed { reason, .. } ==> (reason
                        == FailureKind::NumericalInstability || reason
                        == FailureKind::DidNotConverge)
                },
            },
        decreases seen.len(),
    {
        if seen.len() > 0 {
            match self.step_of(seen[0]) {
                Bisecting::Done(result) => {
                    self.law_step_result(seen[0]);
                    result.estimate_of().lemma_between_finite(self.low, self.high);
                },
                Bisecting::Continue(next) => {
                    self.law_step_narrows(seen[0]);
                    next.law_run_keeps_bracket(seen.skip(1));
                },
            }
        }
    }

    /// Where the function values at the two ends are numbers whose product is
    /// above zero, the solve fails for want of a sign change, and no midpoint
    /// has any part in it.
    pub proof fn law_no_sign_change(
        bracket: Bracket,
        at_low: Binary64,
        at_high: Binary64,
        config: Config,
        seen: Seq<Midpoint>,
    )
        requires
            !at_low.nan(),
            !at_high.nan(),
            at_low.scaled() * at_high.scaled() > 0,
        ensures
            Self::solve_of(bracket, at_low, at_high, config, seen) == Bisecting::Done(
                SolveResult::Failed {
                    reason: FailureKind::NoSignChange,
                    last_estimate: bracket.low,
                },
            ),
    {
        crate::bracketing::law_no_sign_change_is_positive_product(at_low, at_high);
    }

    /// A whole solve on a valid bracket, under a valid stopping rule, has
    /// ended once as many midpoints were seen as the budget allows; and
    /// whenever it has ended, the estimate that it returns is a finite number
    /// in the bracket, and a converged result counts no more iterations than
    /// the budget.
    pub proof fn law_solve_bounded(
        bracket: Bracket,
        at_low: Binary64,
        at_high: Binary64,
        config: Config,
        seen: Seq<Midpoint>,
    )
        requires
            bracket.valid(),
            config.valid(),
        ensures
            seen.len() >= config.max_iterations ==> Self::solve_of(
                bracket,
                at_low,
                at_high,
                config,
                seen,
            ) is Done,
            Self::solve_of(bracket, at_low, at_high, config, seen) matches Bisecting::Done(result)
                ==> {
                &&& bracket.holds(result.estimate_of())
                &&& result.estimate_of().finite()
                &&& result matches SolveResult::Converged { iterations, .. } ==> iterations
                    <= config.max_iterations
            },
    {
        crate::binary64::lemma_magnitude_zero(at_low.magnitude_bits());
        match Self::start_of(bracket, at_low, at_high, config) {
            Bisecting::Done(_) => {},
            Bisecting::Continue(state) => {
                state.law_run_keeps_bracket(seen);
                if seen.len() >= config.max_iterations {
                    state.law_budget(seen);
                }
            },
        }
    }

    /// One more answer: if a run over `seen` was answered by `probe` and has
    /// not ended, and `last` is an answer of `probe` in the state that the
    /// run stands in, the run over `seen` with `last` at its end was answered
    /// by `probe`.
    pub proof fn lemma_answered_push<P: Fn(Bisection) -> Midpoint>(
        self,
        probe: P,
        seen: Seq<Midpoint>,
        last: Midpoint,
    )
        requires
            self.answered(probe, seen),
            self.run(seen) is Continue,
            probe.ensures((self.run(seen)->Continue_0,), last),
        ensures
            self.answered(probe, seen.push(last)),
    {
        reveal(Bisection::answered);
        let longer = seen.push(last);
        assert forall|i: int| 0 <= i < longer.len() implies {
            &&& (#[trigger] self.run(longer.take(i))) is Continue
            &&& probe.ensures((self.run(longer.take(i))->Continue_0,), longer[i])
        } by {
            if i < seen.len() {
                assert(longer.take(i) =~= seen.take(i));
                assert(longer[i] == seen[i]);
            } else {
                assert(longer.take(i) =~= seen);
                assert(longer[i] == last);
            }
        }
    }

    /// What is left of the answers of `probe` after the first step: if a run
    /// over `seen` was answered by `probe` and its first step goes on, the
    /// run from the next state over the rest was answered by `probe` too.
    pub proof fn lemma_answered_rest<P: Fn(Bisection) -> Midpoint>(
        self,
        probe: P,
        seen: Seq<Midpoint>,
    )
        requires
            seen.len() > 0,
            self.answered(probe, seen),
            self.step_of(seen[0]) is Continue,
        ensures
            (self.step_of(seen[0])->Continue_0).answered(probe, seen.skip(1)),
    {
        reveal(Bisection::answered);
        let next = self.step_of(seen[0])->Continue_0;
        let rest = seen.skip(1);
        assert forall|i: int| 0 <= i < rest.len() implies {
            &&& (#[trigger] next.run(rest.take(i))) is Continue
            &&& probe.ensures((next.run(rest.take(i))->Continue_0,), rest[i])
        } by {
            let head = seen.take(i + 1);
            assert(head[0] == seen[0]);
            assert(head.skip(1) =~= rest.take(i));
            assert(self.run(head) == next.run(rest.take(i)));
            assert(self.run(seen.take(i + 1)) is Continue);
        }
    }

    /// Solving twice gives the same result. Where `probe` is a function, so
    /// that its answer in a state is determined by the state, two runs from
    /// one state that `probe` answered and that have both ended, ended with
    /// the same result.
    pub proof fn law_solve_repeatable<P: Fn(Bisection) -> Midpoint>(
        self,
        probe: P,
        seen: Seq<Midpoint>,
        again: Seq<Midpoint>,
    )
        requires
            forall|state: Bisection, a: Midpoint, b: Midpoint|
                probe.ensures((state,), a) && probe.ensures((state,), b) ==> a == b,
            self.answered(probe, seen),
            self.answered(probe, again),
            self.run(seen) is Done,
            self.run(again) is Done,
        ensures
            self.run(seen) == self.run(again),
        decreases seen.len(),
    {
        reveal(Bisection::answered);
        assert(seen.take(0) =~= Seq::<Midpoint>::empty());
        assert(again.take(0) =~= Seq::<Midpoint>::empty());
        assert(self.run(seen.take(0)) == Bisecting::Continue(self));
        assert(self.run(again.take(0)) == Bisecting::Continue(self));
        assert(seen[0] == again[0]);
        match self.step_of(seen[0]) {
            Bisecting::Done(_) => {},
            Bisecting::Continue(next) => {
                self.lemma_answered_rest(probe, seen);
                self.lemma_answered_rest(probe, again);
                next.law_solve_repeatable(probe, seen.skip(1), again.skip(1));
            },
        }
    }
}

/// Solves by bisection on `bracket`, at whose ends the function has the
/// values `at_low` and `at_high`. Each midpoint is asked of `probe`, which
/// is handed the state whose bracket is to be halved and answers with the
/// midpoint, the function value there, and the relative change from the
/// midpoint before.
///
/// The result is the outcome of the solve over the midpoints that `probe`
/// answered, of which there are no more than the budget allows. Without
/// a sign change `probe` is never asked.
pub fn solve_bisection<P: Fn(Bisection) -> Midpoint>(
    bracket: Bracket,
    at_low: Binary64,
    at_high: Binary64,
    config: Config,
    probe: P,
) -> (r: SolveResult)
    requires
        bracket.valid(),
        config.valid(),
        forall|state: Bisection| state.wf() ==> probe.requires((state,)),
    ensures
        exists|seen: Seq<Midpoint>|
            {
                &&& seen.len() <= config.max_iterations
                &&& #[trigger] Bisection::solve_of(bracket, at_low, at_high, config, seen)
                    == Bisecting::Done(r)
                &&& Bisection::start_of(bracket, at_low, at_high, config) matches Bisecting::Continue(
                    first,
                ) ==> first.answered(probe, seen)
            },
        Bisection::start_of(bracket, at_low, at_high, config) matches Bisecting::Done(result) ==> r
            == result,
        !at_low.nan() && !at_high.nan() && at_low.scaled() * at_high.scaled() > 0 ==> r == (
        SolveResult::Failed {
            reason: FailureKind::NoSignChange,
            last_estimate: bracket.low,
        }),
        bracket.holds(r.estimate_of()),
        r.estimate_of().finite(),
        r matches SolveResult::Converged { iterations, .. } ==> iterations
            <= config.max_iterations,
{
    proof {
        crate::bracketing::law_no_sign_change_is_positive_product(at_low, at_high);
    }
    let mut state = match Bisection::start(bracket, at_low, at_high, config) {
        Bisecting::Done(result) => {
            proof {
                assert(Bisection::solve_of(bracket, at_low, at_high, config, Seq::empty())
                    == Bisecting::Done(result));
                Bisection::law_solve_bounded(bracket, at_low, at_high, config, Seq::empty());
            }
            return result;
        },
        Bisecting::Continue(state) => state,
    };
    let ghost first = state;
    let ghost mut seen: Seq<Midpoint> = Seq::empty();
    proof {
        reveal(Bisection::answered);
    }
    loop
        invariant
            config.valid(),
            first.wf(),
            state.wf(),
            state.config == config,
            Bisection::start_of(bracket, at_low, at_high, config) == Bisecting::Continue(first),
            first.run(seen) == Bisecting::Continue(state),
            seen.len() == state.iterations,
            first.answered(probe, seen),
            bracket.valid(),
            admission_of(at_low, at_high) is SignChange,
            forall|any: Bisection| any.wf() ==> probe.requires((any,)),
        decreases config.max_iterations - state.iterations,
    {
        let observed = probe(state);
        let ghost longer = seen.push(observed);
        proof {
            first.lemma_run_push(seen, observed);
            first.lemma_answered_push(probe, seen, observed);
        }
        match state.step(observed) {
            Bisecting::Done(result) => {
                proof {
                    assert(Bisection::solve_of(bracket, at_low, at_high, config, longer)
                        == Bisecting::Done(result));
                    Bisection::law_solve_bounded(bracket, at_low, at_high, config, longer);
                    crate::bracketing::law_no_sign_change_is_positive_product(at_low, at_high);
                }
                return result;
            },
            Bisecting::Continue(next) => {
                proof {
                    state.law_step_narrows(observed);
                    seen = longer;
                }
                state = next;
            },
        }
    }
}

} // verus!
