//! Binary64 numbers held by their bit patterns.
//!
//! Everything here is decided on the encoding alone: whether a number is
//! zero, one or minus one, on which side of zero it lies, and where it stands
//! in the total order of the format.

use vstd::prelude::*;

verus! {

/// The bit that carries the sign.
pub const SIGN_BIT: u64 = 0x8000_0000_0000_0000;

/// The encoding of positive infinity; every larger magnitude is a NaN.
pub const INFINITY_BITS: u64 = 0x7FF0_0000_0000_0000;

/// The encoding of `1.0`.
pub const ONE_BITS: u64 = 0x3FF0_0000_0000_0000;

/// The encoding of `-1.0`.
pub const MINUS_ONE_BITS: u64 = 0xBFF0_0000_0000_0000;

/// A binary64 number, carried as the 64 bits of its encoding.
///
/// The derived `==` compares encodings, so it tells `0.0` from `-0.0` and
/// finds a NaN equal to itself. Numeric comparisons are the methods below.
#[derive(Clone, Copy, Debug, PartialEq, Eq)]
pub struct Scalar {
    pub bits: u64,
}

impl Scalar {
    /// Whether the sign bit is set.
    pub open spec fn sign(self) -> bool {
        self.bits >= SIGN_BIT
    }

    /// The encoding without its sign bit: biased exponent and fraction.
    pub open spec fn magnitude(self) -> int {
        if self.sign() {
            self.bits - SIGN_BIT
        } else {
            self.bits as int
        }
    }

    /// Not a number: the exponent is all ones and the fraction is not zero.
    pub open spec fn spec_is_nan(self) -> bool {
        self.magnitude() > INFINITY_BITS
    }

    /// Numerically equal to zero: `0.0` or `-0.0`.
    pub open spec fn spec_is_zero(self) -> bool {
        self.magnitude() == 0
    }

    /// Numerically equal to one.
    pub open spec fn spec_is_one(self) -> bool {
        self.bits == ONE_BITS
    }

    /// Numerically equal to minus one.
    pub open spec fn spec_is_minus_one(self) -> bool {
        self.bits == MINUS_ONE_BITS
    }

    /// Numerically less than zero. Neither zero nor any NaN is.
    pub open spec fn spec_is_negative(self) -> bool {
        self.sign() && 0 < self.magnitude() <= INFINITY_BITS
    }

    /// Numerically less than or equal to zero. No NaN is.
    pub open spec fn spec_is_nonpositive(self) -> bool {
        self.spec_is_zero() || self.spec_is_negative()
    }

    /// The place of the number in the total order of the format: negative
    /// NaNs, negative infinity, the negative numbers, `-0.0`, `0.0`, the
    /// positive numbers, positive infinity, positive NaNs.
    pub open spec fn rank(self) -> int {
        if self.sign() {
            -self.magnitude() - 1
        } else {
            self.magnitude()
        }
    }

    /// Strictly before `other` in the total order.
    pub open spec fn spec_precedes(self, other: Scalar) -> bool {
        self.rank() < other.rank()
    }

    /// The number with the opposite sign bit: the negation of the format,
    /// which turns `0.0` into `-0.0` and leaves a NaN a NaN.
    pub open spec fn spec_negated(self) -> Scalar {
        if self.sign() {
            Scalar { bits: (self.bits - SIGN_BIT) as u64 }
        } else {
            Scalar { bits: (self.bits + SIGN_BIT) as u64 }
        }
    }

    /// The number `0.0`.
    pub fn zero() -> (value: Scalar)
        ensures
            value.bits == 0,
    {
        Scalar { bits: 0 }
    }

    /// The number `1.0`.
    pub fn one() -> (value: Scalar)
        ensures
            value.bits == ONE_BITS,
    {
        Scalar { bits: ONE_BITS }
    }

    #[verifier::when_used_as_spec(spec_is_nan)]
    pub fn is_nan(self) -> (answer: bool)
        ensures
            answer == self.spec_is_nan(),
    {
        if self.bits >= SIGN_BIT {
            self.bits - SIGN_BIT > INFINITY_BITS
        } else {
            self.bits > INFINITY_BITS
        }
    }

    #[verifier::when_used_as_spec(spec_is_zero)]
    pub fn is_zero(self) -> (answer: bool)
        ensures
            answer == self.spec_is_zero(),
    {
        self.bits == 0 || self.bits == SIGN_BIT
    }

    #[verifier::when_used_as_spec(spec_is_one)]
    pub fn is_one(self) -> (answer: bool)
        ensures
            answer == self.spec_is_one(),
    {
        self.bits == ONE_BITS
    }

    #[verifier::when_used_as_spec(spec_is_minus_one)]
    pub fn is_minus_one(self) -> (answer: bool)
        ensures
            answer == self.spec_is_minus_one(),
    {
        self.bits == MINUS_ONE_BITS
    }

    #[verifier::when_used_as_spec(spec_is_negative)]
    pub fn is_negative(self) -> (answer: bool)
        ensures
            answer == self.spec_is_negative(),
    {
        self.bits > SIGN_BIT && self.bits - SIGN_BIT <= INFINITY_BITS
    }

    #[verifier::when_used_as_spec(spec_is_nonpositive)]
    pub fn is_nonpositive(self) -> (answer: bool)
        ensures
            answer == self.spec_is_nonpositive(),
    {
        self.is_zero() || self.is_negative()
    }

    /// The negation of the number.
    #[verifier::when_used_as_spec(spec_negated)]
    pub fn negated(self) -> (value: Scalar)
        ensures
            value == self.spec_negated(),
    {
        if self.bits >= SIGN_BIT {
            Scalar { bits: self.bits - SIGN_BIT }
        } else {
            Scalar { bits: self.bits + SIGN_BIT }
        }
    }

    /// Whether `self` comes strictly before `other` in the total order.
    #[verifier::when_used_as_spec(spec_precedes)]
    pub fn precedes(self, other: Scalar) -> (answer: bool)
        ensures
            answer == self.spec_precedes(other),
    {
        if self.bits >= SIGN_BIT {
            if other.bits >= SIGN_BIT {
                self.bits > other.bits
            } else {
                true
            }
        } else {
            if other.bits >= SIGN_BIT {
                false
            } else {
                self.bits < other.bits
            }
        }
    }
}

/// The total order is irreflexive and transitive, and any two different
/// encodings are ordered one way or the other.
pub proof fn total_order_is_strict_and_total(a: Scalar, b: Scalar, c: Scalar)
    ensures
        !a.spec_precedes(a),
        a.spec_precedes(b) && b.spec_precedes(c) ==> a.spec_precedes(c),
        a.spec_precedes(b) || b.spec_precedes(a) || a == b,
{
}

} // verus!
