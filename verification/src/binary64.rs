//! IEEE 754 double-precision values read through their bit patterns.
//!
//! A pattern has a sign bit, an 11-bit exponent field and a 52-bit fraction
//! field. Everything here is exact: a pattern is classified, its sign is taken
//! and two patterns are ordered, all without rounding. The order is stated
//! over [`Binary64::scaled`], the integer that the pattern denotes once it is
//! multiplied by `2^1074`, and proved to agree with a comparison of the bits.

use vstd::prelude::*;

verus! {

/// The sign bit, `2^63`.
pub const SIGN_BIT: u64 = 0x8000_0000_0000_0000;

/// Every bit but the sign bit.
pub const MAGNITUDE_MASK: u64 = 0x7fff_ffff_ffff_ffff;

/// The magnitude bits of an infinity: exponent field all ones, fraction zero.
pub const INFINITY_MAGNITUDE: u64 = 0x7ff0_0000_0000_0000;

/// The weight of the exponent field, `2^52`; also the implicit leading bit of
/// a normal significand.
pub const HIDDEN_BIT: u64 = 0x0010_0000_0000_0000;

/// The exponent field of infinities and of values that are not numbers.
pub const SPECIAL_EXPONENT: u64 = 2047;

/// The sign of a number.
#[derive(Clone, Copy, Debug, PartialEq, Eq, Structural)]
pub enum Sign {
    Negative,
    Zero,
    Positive,
}

/// A double-precision value, held as its 64 bits.
#[derive(Clone, Copy, Debug, PartialEq, Eq, Structural)]
pub struct Binary64 {
    pub bits: u64,
}

/// What the magnitude bits `m` (exponent field times `2^52`, plus the fraction
/// field) denote, multiplied by `2^1074`.
///
/// A subnormal pattern denotes `fraction * 2^-1074`; a normal one denotes
/// `(2^52 + fraction) * 2^(exponent - 1075)`. The same formula is used for the
/// special exponent, which puts an infinity one binade above every finite
/// number.
pub open spec fn magnitude_of(m: nat) -> nat {
    let exponent = m / (HIDDEN_BIT as nat);
    let fraction = m % (HIDDEN_BIT as nat);
    if exponent == 0 {
        fraction
    } else {
        (HIDDEN_BIT + fraction) as nat * vstd::arithmetic::power2::pow2((exponent - 1) as nat)
    }
}

/// The least magnitude that has the exponent field `e`.
pub open spec fn binade_floor(e: nat) -> nat {
    (HIDDEN_BIT as nat) * vstd::arithmetic::power2::pow2(e)
}

/// The floors of the binades never decrease with the exponent.
pub proof fn lemma_binade_floor_monotonic(e1: nat, e2: nat)
    requires
        e1 <= e2,
    ensures
        binade_floor(e1) <= binade_floor(e2),
{
    let p1 = vstd::arithmetic::power2::pow2(e1);
    let p2 = vstd::arithmetic::power2::pow2(e2);
    if e1 < e2 {
        vstd::arithmetic::power2::lemma_pow2_strictly_increases(e1, e2);
    }
    assert(HIDDEN_BIT as nat * p1 <= HIDDEN_BIT as nat * p2) by (nonlinear_arith)
        requires
            p1 <= p2,
    ;
}

/// A magnitude lies in the binade that its exponent field names: at or above
/// the floor of the binade below it, and under its own.
pub proof fn lemma_magnitude_in_binade(m: nat)
    ensures
        magnitude_of(m) < binade_floor(m / (HIDDEN_BIT as nat)),
        m / (HIDDEN_BIT as nat) > 0 ==> magnitude_of(m) >= binade_floor(
            (m / (HIDDEN_BIT as nat) - 1) as nat,
        ),
{
    let exponent = m / (HIDDEN_BIT as nat);
    let fraction = m % (HIDDEN_BIT as nat);
    if exponent == 0 {
        vstd::arithmetic::power2::lemma2_to64();
    } else {
        let below = vstd::arithmetic::power2::pow2((exponent - 1) as nat);
        vstd::arithmetic::power2::lemma_pow2_unfold(exponent);
        vstd::arithmetic::power2::lemma_pow2_pos((exponent - 1) as nat);
        assert((HIDDEN_BIT + fraction) as nat * below < HIDDEN_BIT as nat * (2 * below))
            by (nonlinear_arith)
            requires
                fraction < HIDDEN_BIT,
                below > 0,
        ;
        assert((HIDDEN_BIT + fraction) as nat * below >= HIDDEN_BIT as nat * below)
            by (nonlinear_arith)
            requires
                fraction >= 0,
                below > 0,
        ;
    }
}

/// Larger magnitude bits denote a larger magnitude: the bits of non-negative
/// doubles are ordered as the numbers are.
pub proof fn lemma_magnitude_strictly_monotonic(m1: nat, m2: nat)
    requires
        m1 < m2,
    ensures
        magnitude_of(m1) < magnitude_of(m2),
{
    let e1 = m1 / (HIDDEN_BIT as nat);
    let e2 = m2 / (HIDDEN_BIT as nat);
    let f1 = m1 % (HIDDEN_BIT as nat);
    let f2 = m2 % (HIDDEN_BIT as nat);
    if e1 == e2 {
        if e1 > 0 {
            let p = vstd::arithmetic::power2::pow2((e1 - 1) as nat);
            vstd::arithmetic::power2::lemma_pow2_pos((e1 - 1) as nat);
            assert((HIDDEN_BIT + f1) as nat * p < (HIDDEN_BIT + f2) as nat * p)
                by (nonlinear_arith)
                requires
                    f1 < f2,
                    p > 0,
            ;
        }
    } else {
        lemma_magnitude_in_binade(m1);
        lemma_magnitude_in_binade(m2);
        lemma_binade_floor_monotonic(e1, (e2 - 1) as nat);
    }
}

/// Only the all-zero magnitude bits denote zero.
pub proof fn lemma_magnitude_zero(m: nat)
    ensures
        magnitude_of(m) == 0 <==> m == 0,
{
    if m > 0 {
        lemma_magnitude_strictly_monotonic(0, m);
    }
}

/// The magnitude bits of finite numbers, and only theirs, denote a magnitude
/// under the floor of the special binade.
pub proof fn lemma_finite_magnitude(m: nat)
    ensures
        m / (HIDDEN_BIT as nat) < SPECIAL_EXPONENT <==> magnitude_of(m) < binade_floor(
            (SPECIAL_EXPONENT - 1) as nat,
        ),
{
    let e = m / (HIDDEN_BIT as nat);
    lemma_magnitude_in_binade(m);
    if e < SPECIAL_EXPONENT {
        lemma_binade_floor_monotonic(e, (SPECIAL_EXPONENT - 1) as nat);
    } else {
        lemma_binade_floor_monotonic((SPECIAL_EXPONENT - 1) as nat, (e - 1) as nat);
    }
}

impl Binary64 {
    /// Whether the sign bit is set.
    pub open spec fn negative(self) -> bool {
        self.bits >= SIGN_BIT
    }

    /// The bits without the sign bit.
    pub open spec fn magnitude_bits(self) -> nat {
        (self.bits % SIGN_BIT) as nat
    }

    /// The exponent field, from 0 to 2047.
    pub open spec fn exponent_field(self) -> nat {
        self.magnitude_bits() / (HIDDEN_BIT as nat)
    }

    /// The fraction field, below `2^52`.
    pub open spec fn fraction_field(self) -> nat {
        self.magnitude_bits() % (HIDDEN_BIT as nat)
    }

    /// Not a number: special exponent, some fraction bit set.
    pub open spec fn nan(self) -> bool {
        self.exponent_field() == SPECIAL_EXPONENT && self.fraction_field() != 0
    }

    /// An infinity: special exponent, no fraction bit set.
    pub open spec fn infinite(self) -> bool {
        self.exponent_field() == SPECIAL_EXPONENT && self.fraction_field() == 0
    }

    /// A finite number: zero, subnormal or normal.
    pub open spec fn finite(self) -> bool {
        self.exponent_field() < SPECIAL_EXPONENT
    }

    /// Positive or negative zero.
    pub open spec fn zero(self) -> bool {
        self.magnitude_bits() == 0
    }

    /// The absolute value that the pattern denotes, multiplied by `2^1074`.
    pub open spec fn magnitude(self) -> nat {
        magnitude_of(self.magnitude_bits())
    }

    /// The number that the pattern denotes, multiplied by `2^1074`.
    ///
    /// It is exact for finite patterns. An infinity gets the number one binade
    /// beyond the finite range, so that it compares as it should. For a
    /// pattern that is not a number the result means nothing.
    pub open spec fn scaled(self) -> int {
        if self.negative() {
            -(self.magnitude() as int)
        } else {
            self.magnitude() as int
        }
    }

    /// The sign of the number that the pattern denotes.
    pub open spec fn sign_of(self) -> Sign {
        if self.scaled() < 0 {
            Sign::Negative
        } else if self.scaled() == 0 {
            Sign::Zero
        } else {
            Sign::Positive
        }
    }

    /// The IEEE 754 relation `<`: both are numbers and the first is smaller.
    pub open spec fn below(self, other: Binary64) -> bool {
        !self.nan() && !other.nan() && self.scaled() < other.scaled()
    }

    /// The IEEE 754 relation `<=`: both are numbers and the first is not larger.
    pub open spec fn at_most(self, other: Binary64) -> bool {
        !self.nan() && !other.nan() && self.scaled() <= other.scaled()
    }

    /// The value with the given bits.
    pub fn from_bits(bits: u64) -> (r: Binary64)
        ensures
            r.bits == bits,
    {
        Binary64 { bits }
    }

    /// The bits of the value.
    pub fn to_bits(self) -> (r: u64)
        ensures
            r == self.bits,
    {
        self.bits
    }

    /// The bits without the sign bit.
    fn magnitude_word(self) -> (m: u64)
        ensures
            m == self.magnitude_bits(),
            m < SIGN_BIT,
    {
        let bits = self.bits;
        assert(bits & 0x7fff_ffff_ffff_ffff == bits % 0x8000_0000_0000_0000) by (bit_vector);
        bits & MAGNITUDE_MASK
    }

    /// Whether the sign bit is set. True of `-0.0` too.
    pub fn is_sign_negative(self) -> (r: bool)
        ensures
            r == self.negative(),
    {
        self.bits >= SIGN_BIT
    }

    /// Whether the value is not a number.
    pub fn is_nan(self) -> (r: bool)
        ensures
            r == self.nan(),
    {
        self.magnitude_word() > INFINITY_MAGNITUDE
    }

    /// Whether the value is an infinity.
    pub fn is_infinite(self) -> (r: bool)
        ensures
            r == self.infinite(),
    {
        self.magnitude_word() == INFINITY_MAGNITUDE
    }

    /// Whether the value is a finite number.
    pub fn is_finite(self) -> (r: bool)
        ensures
            r == self.finite(),
    {
        self.magnitude_word() < INFINITY_MAGNITUDE
    }

    /// Whether the value is zero, of either sign.
    pub fn is_zero(self) -> (r: bool)
        ensures
            r == self.zero(),
            r == (!self.nan() && self.scaled() == 0),
    {
        proof {
            lemma_magnitude_zero(self.magnitude_bits());
        }
        self.magnitude_word() == 0
    }

    /// The sign of the value, or `None` if it is not a number.
    pub fn sign(self) -> (r: Option<Sign>)
        ensures
            r == if self.nan() {
                None
            } else {
                Some(self.sign_of())
            },
    {
        proof {
            lemma_magnitude_zero(self.magnitude_bits());
        }
        let m = self.magnitude_word();
        if m > INFINITY_MAGNITUDE {
            None
        } else if m == 0 {
            Some(Sign::Zero)
        } else if self.bits >= SIGN_BIT {
            Some(Sign::Negative)
        } else {
            Some(Sign::Positive)
        }
    }

    /// The absolute value: the same bits with the sign bit cleared.
    pub fn abs(self) -> (r: Binary64)
        ensures
            r.bits == self.magnitude_bits(),
            !r.negative(),
            r.nan() == self.nan(),
            r.scaled() == self.magnitude(),
    {
        Binary64 { bits: self.magnitude_word() }
    }

    /// Whether `self < other` as numbers. False if either is not a number;
    /// the two zeros are equal.
    pub fn lt(self, other: Binary64) -> (r: bool)
        ensures
            r == self.below(other),
    {
        let a = self.magnitude_word();
        let b = other.magnitude_word();
        if a > INFINITY_MAGNITUDE || b > INFINITY_MAGNITUDE {
            return false;
        }
        proof {
            lemma_magnitude_zero(a as nat);
            lemma_magnitude_zero(b as nat);
            if a < b {
                lemma_magnitude_strictly_monotonic(a as nat, b as nat);
            }
            if b < a {
                lemma_magnitude_strictly_monotonic(b as nat, a as nat);
            }
        }
        let a_negative = self.bits >= SIGN_BIT;
        let b_negative = other.bits >= SIGN_BIT;
        if a_negative {
            if b_negative {
                b < a
            } else {
                a != 0 || b != 0
            }
        } else {
            if b_negative {
                false
            } else {
                a < b
            }
        }
    }

    /// Whether `self <= other` as numbers. False if either is not a number.
    pub fn le(self, other: Binary64) -> (r: bool)
        ensures
            r == self.at_most(other),
    {
        let a = self.magnitude_word();
        let b = other.magnitude_word();
        if a > INFINITY_MAGNITUDE || b > INFINITY_MAGNITUDE {
            return false;
        }
        proof {
            lemma_magnitude_zero(a as nat);
            lemma_magnitude_zero(b as nat);
            if a < b {
                lemma_magnitude_strictly_monotonic(a as nat, b as nat);
            }
            if b < a {
                lemma_magnitude_strictly_monotonic(b as nat, a as nat);
            }
        }
        let a_negative = self.bits >= SIGN_BIT;
        let b_negative = other.bits >= SIGN_BIT;
        if a_negative {
            if b_negative {
                b <= a
            } else {
                true
            }
        } else {
            if b_negative {
                a == 0 && b == 0
            } else {
                a <= b
            }
        }
    }

    /// Two patterns that are numbers denote the same number exactly when
    /// they are the same pattern or both are zeros: apart from the two zeros,
    /// no number has two patterns.
    pub proof fn law_same_number(self, other: Binary64)
        requires
            !self.nan(),
            !other.nan(),
        ensures
            self.scaled() == other.scaled() <==> (self.bits == other.bits || (self.zero()
                && other.zero())),
    {
        let a = self.magnitude_bits();
        let b = other.magnitude_bits();
        lemma_magnitude_zero(a);
        lemma_magnitude_zero(b);
        if a < b {
            lemma_magnitude_strictly_monotonic(a, b);
        }
        if b < a {
            lemma_magnitude_strictly_monotonic(b, a);
        }
    }

    /// Of two patterns that are numbers, either one is below the other or
    /// they denote the same number, and only one of the three holds.
    pub proof fn law_order_is_total(self, other: Binary64)
        requires
            !self.nan(),
            !other.nan(),
        ensures
            self.below(other) || other.below(self) || self.scaled() == other.scaled(),
            !(self.below(other) && other.below(self)),
            self.at_most(other) <==> !other.below(self),
    {
    }

    /// A number between two finite numbers is finite.
    pub proof fn lemma_between_finite(self, low: Binary64, high: Binary64)
        requires
            low.finite(),
            high.finite(),
            low.at_most(self),
            self.at_most(high),
        ensures
            self.finite(),
    {
        lemma_finite_magnitude(self.magnitude_bits());
        lemma_finite_magnitude(low.magnitude_bits());
        lemma_finite_magnitude(high.magnitude_bits());
    }
}

} // verus!
