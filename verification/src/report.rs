//! Holding a result against a known root.
//!
//! The subtraction and the division are the caller's; what is decided here is
//! exact: the errors are the magnitudes of what the caller computed, and two
//! estimates agree when their distance is below the larger of two tolerances.

use vstd::prelude::*;
use crate::binary64::Binary64;
use crate::outcome::SolveResult;

verus! {

/// How far an estimate is from the root it is compared with.
#[derive(Clone, Copy, Debug, PartialEq, Eq, Structural)]
pub struct Comparison {
    /// The magnitude of the estimate minus the root.
    pub abs_error: Binary64,
    /// The magnitude of that difference over the root.
    pub rel_error: Binary64,
}

/// Whether `x` is a number whose magnitude is below the number `tolerance`.
pub open spec fn within(x: Binary64, tolerance: Binary64) -> bool {
    !x.nan() && !tolerance.nan() && x.magnitude() < tolerance.scaled()
}

impl Comparison {
    /// The comparison of an estimate with a root, given their `difference`
    /// and the `ratio` of that difference to the root. Both errors are
    /// magnitudes: their sign bits are clear.
    pub fn new(difference: Binary64, ratio: Binary64) -> (r: Comparison)
        ensures
            r.abs_error.bits == difference.magnitude_bits(),
            r.rel_error.bits == ratio.magnitude_bits(),
            r.abs_error.scaled() == difference.magnitude(),
            r.rel_error.scaled() == ratio.magnitude(),
            r.abs_error.nan() == difference.nan(),
            r.rel_error.nan() == ratio.nan(),
            !r.abs_error.negative(),
            !r.rel_error.negative(),
    {
        Comparison { abs_error: difference.abs(), rel_error: ratio.abs() }
    }

    /// Whether the absolute error is below `tolerance`.
    pub fn accurate(&self, tolerance: Binary64) -> (r: bool)
        ensures
            r == self.abs_error.below(tolerance),
    {
        self.abs_error.lt(tolerance)
    }
}

/// Compares the estimate of `result` with `true_root`. The estimate is the
/// root of a converged solve and the last estimate of a failed one. The
/// arithmetic is asked of `deviation`, which is handed the estimate and the
/// root and answers with their difference and with the ratio of that
/// difference to the root; the errors are the magnitudes of the two.
pub fn compare<D: Fn(Binary64, Binary64) -> (Binary64, Binary64)>(
    result: &SolveResult,
    true_root: Binary64,
    deviation: D,
) -> (r: Comparison)
    requires
        deviation.requires((result.estimate_of(), true_root)),
    ensures
        exists|difference: Binary64, ratio: Binary64|
            {
                &&& #[trigger] deviation.ensures(
                    (result.estimate_of(), true_root),
                    (difference, ratio),
                )
                &&& r.abs_error.bits == difference.magnitude_bits()
                &&& r.rel_error.bits == ratio.magnitude_bits()
            },
        !r.abs_error.negative(),
        !r.rel_error.negative(),
{
    let (difference, ratio) = deviation(result.estimate(), true_root);
    Comparison::new(difference, ratio)
}

/// Whether two estimates whose difference is `distance` agree: whether the
/// magnitude of the distance is below the larger of the two tolerances under
/// which they were found.
pub fn agree(distance: Binary64, first: Binary64, second: Binary64) -> (r: bool)
    ensures
        r == (within(distance, first) || within(distance, second)),
        !first.nan() && !second.nan() ==> r == (!distance.nan() && distance.magnitude() < (
        if first.scaled() >= second.scaled() {
            first.scaled()
        } else {
            second.scaled()
        })),
{
    let size = distance.abs();
    size.lt(first) || size.lt(second)
}

} // verus!
