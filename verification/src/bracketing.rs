//! The test that every bracketing method makes before it starts: do the
//! function values at the two ends of the interval show a sign change?

use vstd::prelude::*;
use crate::binary64::Binary64;

verus! {

/// How the function values at the two ends of a bracket stand to each other.
#[derive(Clone, Copy, Debug, PartialEq, Eq, Structural)]
pub enum Admission {
    /// The value at the low end is zero: that end is a root.
    RootAtLow,
    /// The value at the high end is zero: that end is a root.
    RootAtHigh,
    /// One of the values is not a number.
    Undefined,
    /// Both values are above zero, or both below: no root is bracketed.
    NoSignChange,
    /// One value is above zero and one below: a root is bracketed.
    SignChange,
}

/// The admission of a bracket at whose ends the function takes the values
/// `at_low` and `at_high`. A zero at an end is looked for first, at the low
/// end before the high one.
pub open spec fn admission_of(at_low: Binary64, at_high: Binary64) -> Admission {
    if at_low.zero() {
        Admission::RootAtLow
    } else if at_high.zero() {
        Admission::RootAtHigh
    } else if at_low.nan() || at_high.nan() {
        Admission::Undefined
    } else if at_low.negative() == at_high.negative() {
        Admission::NoSignChange
    } else {
        Admission::SignChange
    }
}

/// Classifies the function values at the two ends of a bracket.
pub fn classify(at_low: Binary64, at_high: Binary64) -> (r: Admission)
    ensures
        r == admission_of(at_low, at_high),
{
    if at_low.is_zero() {
        Admission::RootAtLow
    } else if at_high.is_zero() {
        Admission::RootAtHigh
    } else if at_low.is_nan() || at_high.is_nan() {
        Admission::Undefined
    } else if at_low.is_sign_negative() == at_high.is_sign_negative() {
        Admission::NoSignChange
    } else {
        Admission::SignChange
    }
}

/// A bracket is refused for want of a sign change exactly when the two
/// function values are numbers whose product is above zero.
pub proof fn law_no_sign_change_is_positive_product(at_low: Binary64, at_high: Binary64)
    ensures
        admission_of(at_low, at_high) is NoSignChange <==> (!at_low.nan() && !at_high.nan()
            && at_low.scaled() * at_high.scaled() > 0),
{
    let a = at_low.scaled();
    let b = at_high.scaled();
    crate::binary64::lemma_magnitude_zero(at_low.magnitude_bits());
    crate::binary64::lemma_magnitude_zero(at_high.magnitude_bits());
    assert(a * b > 0 <==> ((a > 0 && b > 0) || (a < 0 && b < 0))) by (nonlinear_arith);
    // A value that is not a number has a set fraction bit, so it is not zero.
    assert(at_low.nan() ==> !at_low.zero());
    assert(at_high.nan() ==> !at_high.zero());
}

/// A bracket is taken up for iteration exactly when the two function values
/// are numbers whose product is below zero.
pub proof fn law_sign_change_is_negative_product(at_low: Binary64, at_high: Binary64)
    ensures
        admission_of(at_low, at_high) is SignChange <==> (!at_low.nan() && !at_high.nan()
            && at_low.scaled() * at_high.scaled() < 0),
{
    let a = at_low.scaled();
    let b = at_high.scaled();
    crate::binary64::lemma_magnitude_zero(at_low.magnitude_bits());
    crate::binary64::lemma_magnitude_zero(at_high.magnitude_bits());
    assert(a * b < 0 <==> ((a > 0 && b < 0) || (a < 0 && b > 0))) by (nonlinear_arith);
    assert(at_low.nan() ==> !at_low.zero());
    assert(at_high.nan() ==> !at_high.zero());
}

} // verus!
