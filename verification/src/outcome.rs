//! What a solve is given and what it returns.

use vstd::prelude::*;
use crate::binary64::Binary64;

verus! {

/// Why a solve did not converge.
#[derive(Clone, Copy, Debug, PartialEq, Eq, Structural)]
pub enum FailureKind {
    /// The function has the same sign at both ends of the bracket.
    NoSignChange,
    /// The derivative vanished, so the tangent step is undefined.
    ZeroDerivative,
    /// The iteration budget was spent before the tolerance was met.
    DidNotConverge,
    /// A value that the method needed was not a number, or left the range
    /// that the method keeps it in.
    NumericalInstability,
}

/// The outcome of one solve.
#[derive(Clone, Copy, Debug, PartialEq, Eq, Structural)]
pub enum SolveResult {
    /// The method stopped at `root`, where the function has the value
    /// `residual`, after `iterations` iterations.
    Converged { root: Binary64, residual: Binary64, iterations: u32 },
    /// The method gave up for `reason`; `last_estimate` is the last estimate
    /// it stood on.
    Failed { reason: FailureKind, last_estimate: Binary64 },
}

impl SolveResult {
    /// The estimate that the result carries: the root, or the last estimate
    /// of a failed solve.
    pub open spec fn estimate_of(self) -> Binary64 {
        match self {
            SolveResult::Converged { root, .. } => root,
            SolveResult::Failed { last_estimate, .. } => last_estimate,
        }
    }

    /// The reason of a failed solve.
    pub open spec fn failure_of(self) -> Option<FailureKind> {
        match self {
            SolveResult::Converged { .. } => None,
            SolveResult::Failed { reason, .. } => Some(reason),
        }
    }

    /// Whether the solve converged.
    pub fn is_converged(&self) -> (r: bool)
        ensures
            r == (*self is Converged),
    {
        match self {
            SolveResult::Converged { .. } => true,
            SolveResult::Failed { .. } => false,
        }
    }

    /// The root of a converged solve, the last estimate of a failed one.
    pub fn estimate(&self) -> (r: Binary64)
        ensures
            r == self.estimate_of(),
    {
        match self {
            SolveResult::Converged { root, .. } => *root,
            SolveResult::Failed { last_estimate, .. } => *last_estimate,
        }
    }

    /// The reason of a failed solve, `None` for a converged one.
    pub fn failure(&self) -> (r: Option<FailureKind>)
        ensures
            r == self.failure_of(),
    {
        match self {
            SolveResult::Converged { .. } => None,
            SolveResult::Failed { reason, .. } => Some(*reason),
        }
    }
}

/// The stopping rule of a solve.
#[derive(Clone, Copy, Debug, PartialEq, Eq, Structural)]
pub struct Config {
    /// The tolerance that a convergence measure has to fall below.
    pub tolerance: Binary64,
    /// The number of iterations that may be spent.
    pub max_iterations: u32,
}

impl Config {
    /// A tolerance above zero and a budget of at least one iteration.
    pub open spec fn valid(self) -> bool {
        &&& !self.tolerance.nan()
        &&& self.tolerance.scaled() > 0
        &&& self.max_iterations > 0
    }

    /// The stopping rule with the given tolerance and budget, or `None` if
    /// the tolerance is not a number above zero or the budget is empty.
    pub fn new(tolerance: Binary64, max_iterations: u32) -> (r: Option<Config>)
        ensures
            r == if (Config { tolerance, max_iterations }).valid() {
                Some(Config { tolerance, max_iterations })
            } else {
                None
            },
    {
        let zero = Binary64::from_bits(0);
        assert(zero.scaled() == 0 && !zero.nan());
        if zero.lt(tolerance) && max_iterations > 0 {
            Some(Config { tolerance, max_iterations })
        } else {
            None
        }
    }
}

/// An interval in which a root is sought.
#[derive(Clone, Copy, Debug, PartialEq, Eq, Structural)]
pub struct Bracket {
    pub low: Binary64,
    pub high: Binary64,
}

impl Bracket {
    /// Two finite ends, the low one strictly below the high one.
    pub open spec fn valid(self) -> bool {
        &&& self.low.finite()
        &&& self.high.finite()
        &&& self.low.below(self.high)
    }

    /// Whether `x` is a number between the two ends, ends included.
    pub open spec fn holds(self, x: Binary64) -> bool {
        self.low.at_most(x) && x.at_most(self.high)
    }

    /// The bracket with the given ends, or `None` unless both are finite and
    /// `low < high`.
    pub fn new(low: Binary64, high: Binary64) -> (r: Option<Bracket>)
        ensures
            r == if (Bracket { low, high }).valid() {
                Some(Bracket { low, high })
            } else {
                None
            },
    {
        if low.is_finite() && high.is_finite() && low.lt(high) {
            Some(Bracket { low, high })
        } else {
            None
        }
    }

    /// Whether `x` lies in the bracket.
    pub fn contains(&self, x: Binary64) -> (r: bool)
        ensures
            r == self.holds(x),
    {
        self.low.le(x) && x.le(self.high)
    }
}

} // verus!
