//! How fast bisection converges when the caller's arithmetic is exact.
//!
//! The library never computes a midpoint, so nothing here holds of every
//! caller. What is proved is what bisection promises once the arithmetic
//! makes no rounding error: every step halves the bracket, and a solve on a
//! bracket that keeps away from zero by at least one has converged after
//! `n` midpoints, for every `n` from two on with `2^n` no less than the
//! width of the bracket over the tolerance.

use vstd::prelude::*;
use crate::bisection::{Bisecting, Bisection, Midpoint};
use crate::bracketing::admission_of;
use crate::binary64::Binary64;
use crate::outcome::{Bracket, Config, SolveResult};

verus! {

/// The number one on the scale of [`Binary64::scaled`]: `2^1074`.
pub open spec fn unit() -> int {
    vstd::arithmetic::power2::pow2(1074) as int
}

/// The magnitude of an integer.
pub open spec fn size(x: int) -> int {
    if x < 0 {
        -x
    } else {
        x
    }
}

/// The double `1.0` denotes the unit.
pub proof fn lemma_unit_is_one()
    ensures
        (Binary64 { bits: 0x3ff0_0000_0000_0000 }).scaled() == unit(),
        unit() > 0,
{
    let one = Binary64 { bits: 0x3ff0_0000_0000_0000 };
    assert(one.magnitude_bits() == 0x3ff0_0000_0000_0000);
    assert(one.exponent_field() == 1023);
    assert(one.fraction_field() == 0);
    vstd::arithmetic::power2::lemma_pow2_adds(52, 1022);
    vstd::arithmetic::power2::lemma2_to64_rest();
    vstd::arithmetic::power2::lemma_pow2_pos(1074);
    assert(one.magnitude() == 0x10_0000_0000_0000 * vstd::arithmetic::power2::pow2(1022));
}

impl Bisection {
    /// The width of the current bracket, on the scale of
    /// [`Binary64::scaled`].
    pub open spec fn width(self) -> int {
        self.high.scaled() - self.low.scaled()
    }

    /// Whether the bracket keeps away from zero by at least one: it lies at
    /// or above `1`, or at or below `-1`.
    pub open spec fn beyond_one(self) -> bool {
        self.low.scaled() >= unit() || self.high.scaled() <= -unit()
    }

    /// Whether `seen` is what exact arithmetic finds in this state: the
    /// estimate is the midpoint of the bracket, the function value there is
    /// finite, and the change is below the tolerance exactly when the
    /// distance from the previous midpoint is below the tolerance times the
    /// magnitude of this one.
    pub open spec fn exact(self, seen: Midpoint) -> bool {
        &&& !seen.estimate.nan()
        &&& 2 * seen.estimate.scaled() == self.low.scaled() + self.high.scaled()
        &&& seen.value.finite()
        &&& self.previous matches Some(p) ==> (self.close(seen) <==> size(
            seen.estimate.scaled() - p.scaled(),
        ) * unit() < self.config.tolerance.scaled() * size(seen.estimate.scaled()))
    }

    /// Whether every midpoint of `seen` that a run from this state comes to
    /// is what exact arithmetic finds in the state that the run is in.
    pub open spec fn all_exact(self, seen: Seq<Midpoint>) -> bool
        decreases seen.len(),
    {
        seen.len() == 0 || (self.exact(seen[0]) && match self.step_of(seen[0]) {
            Bisecting::Done(_) => true,
            Bisecting::Continue(next) => next.all_exact(seen.skip(1)),
        })
    }

    /// A step on an exact midpoint is never unstable, and if it goes on, the
    /// bracket is half as wide as before.
    pub proof fn law_exact_step_halves(self, seen: Midpoint)
        requires
            self.wf(),
            self.exact(seen),
        ensures
            self.bracket().holds(seen.estimate),
            self.step_of(seen) matches Bisecting::Continue(next) ==> 2 * next.width()
                == self.width(),
    {
    }

    /// In a state past the first step, once the bracket is no wider than
    /// twice the tolerance and keeps away from zero by at least one, an exact
    /// midpoint meets the relative change criterion.
    pub proof fn lemma_narrow_is_close(self, seen: Midpoint)
        requires
            self.wf(),
            self.exact(seen),
            self.beyond_one(),
            self.previous is Some,
            self.width() <= 2 * self.config.tolerance.scaled(),
        ensures
            self.close(seen),
    {
        let low = self.low.scaled();
        let high = self.high.scaled();
        let mid = seen.estimate.scaled();
        let before = self.previous->Some_0.scaled();
        let tolerance = self.config.tolerance.scaled();
        let one = unit();
        lemma_unit_is_one();
        assert(2 * size(mid - before) == high - low);
        assert(size(mid - before) <= tolerance);
        if high == low {
            assert(size(mid - before) * one == 0) by (nonlinear_arith)
                requires
                    size(mid - before) == 0,
            ;
            assert(tolerance * size(mid) > 0) by (nonlinear_arith)
                requires
                    tolerance > 0,
                    size(mid) > 0,
            ;
        } else {
            assert(size(mid) > one);
            assert(size(mid - before) * one <= tolerance * one) by (nonlinear_arith)
                requires
                    size(mid - before) <= tolerance,
                    one > 0,
            ;
            assert(tolerance * one < tolerance * size(mid)) by (nonlinear_arith)
                requires
                    tolerance > 0,
                    one < size(mid),
            ;
        }
    }

    /// The induction behind [`Bisection::law_rate`]: from a state after `k`
    /// steps whose bracket is the `2^k`-th part of `initial`.
    proof fn lemma_rate(self, seen: Seq<Midpoint>, n: nat, initial: int)
        requires
            self.wf(),
            self.beyond_one(),
            self.all_exact(seen),
            self.width() * vstd::arithmetic::power2::pow2(self.iterations as nat) == initial,
            2 <= n <= self.config.max_iterations,
            self.iterations < n,
            vstd::arithmetic::power2::pow2(n) * self.config.tolerance.scaled() >= initial,
            seen.len() >= n - self.iterations,
        ensures
            self.run(seen) matches Bisecting::Done(SolveResult::Converged { iterations, .. })
                && iterations <= n,
        decreases n - self.iterations,
    {
        let first = seen[0];
        let k = self.iterations as nat;
        let tolerance = self.config.tolerance.scaled();
        let scale = vstd::arithmetic::power2::pow2(k) as int;
        self.law_exact_step_halves(first);
        vstd::arithmetic::power2::lemma_pow2_pos(k);
        vstd::arithmetic::power2::lemma_pow2_unfold(k + 1);
        if k + 1 == n {
            assert(self.width() <= 2 * tolerance) by (nonlinear_arith)
                requires
                    self.width() * scale == initial,
                    (2 * scale) * tolerance >= initial,
                    scale > 0,
            ;
            self.lemma_narrow_is_close(first);
        } else {
            match self.step_of(first) {
                Bisecting::Done(_) => {},
                Bisecting::Continue(next) => {
                    self.law_step_narrows(first);
                    assert(next.width() * (2 * scale) == initial) by (nonlinear_arith)
                        requires
                            2 * next.width() == self.width(),
                            self.width() * scale == initial,
                    ;
                    next.lemma_rate(seen.skip(1), n, initial);
                },
            }
        }
    }

    /// The rate of bisection. A solve begins on a bracket with a sign change
    /// that keeps away from zero by at least one, and every midpoint is
    /// exact. Then for every `n` from two on, within the budget, with `2^n`
    /// times the tolerance no less than the width of the bracket, the solve
    /// has converged once `n` midpoints were seen, and counts no more than
    /// `n` iterations.
    pub proof fn law_rate(
        bracket: Bracket,
        at_low: Binary64,
        at_high: Binary64,
        config: Config,
        seen: Seq<Midpoint>,
        n: nat,
    )
        requires
            bracket.valid(),
            config.valid(),
            admission_of(at_low, at_high) is SignChange,
            bracket.low.scaled() >= unit() || bracket.high.scaled() <= -unit(),
            Self::start_of(bracket, at_low, at_high, config) matches Bisecting::Continue(first)
                && first.all_exact(seen),
            2 <= n <= config.max_iterations,
            vstd::arithmetic::power2::pow2(n) * config.tolerance.scaled() >= bracket.high.scaled()
                - bracket.low.scaled(),
            seen.len() >= n,
        ensures
            Self::solve_of(bracket, at_low, at_high, config, seen) matches Bisecting::Done(
                SolveResult::Converged { iterations, .. },
            ) && iterations <= n,
    {
        let first = Self::start_of(bracket, at_low, at_high, config)->Continue_0;
        crate::binary64::lemma_magnitude_zero(at_low.magnitude_bits());
        vstd::arithmetic::power2::lemma2_to64();
        assert(first.width() * vstd::arithmetic::power2::pow2(0) == first.width());
        first.lemma_rate(seen, n, first.width());
    }
}

} // verus!
