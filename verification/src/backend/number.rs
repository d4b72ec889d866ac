//! Numbers of the language: IEEE 754 binary64, held as their 64 bits.
//!
//! What can be read off the bits is decided here: the sign, whether a pattern
//! is a NaN, the order and equality of two numbers, and negation. Addition,
//! subtraction, multiplication, division, and the conversions from and to
//! decimal text are the caller's work.

use vstd::prelude::*;

verus! {

/// The sign bit of a binary64 pattern.
pub const SIGN_BIT: u64 = 0x8000_0000_0000_0000;

/// The pattern of positive infinity: every exponent bit set, no fraction bit.
pub const INFINITY_BITS: u64 = 0x7ff0_0000_0000_0000;

/// A binary64 number, given by its bit pattern.
#[derive(Clone, Copy, Debug)]
pub struct Number {
    pub bits: u64,
}

impl Number {
    /// The pattern without its sign bit.
    pub open spec fn magnitude(self) -> int {
        if self.bits >= SIGN_BIT {
            self.bits - SIGN_BIT
        } else {
            self.bits as int
        }
    }

    pub open spec fn is_negative(self) -> bool {
        self.bits >= SIGN_BIT
    }

    /// A NaN has every exponent bit set and some fraction bit set.
    pub open spec fn is_nan(self) -> bool {
        self.magnitude() > INFINITY_BITS
    }

    /// An integer that orders the numbers that are no NaN as their values
    /// are ordered. Both zeros have rank 0.
    pub open spec fn rank(self) -> int {
        if self.is_negative() {
            -self.magnitude()
        } else {
            self.magnitude()
        }
    }

    /// Numeric equality: a NaN equals nothing, the two zeros are equal.
    pub open spec fn equal_to(self, other: Number) -> bool {
        !self.is_nan() && !other.is_nan() && self.rank() == other.rank()
    }

    /// Numeric order: nothing is below or above a NaN.
    pub open spec fn less_than(self, other: Number) -> bool {
        !self.is_nan() && !other.is_nan() && self.rank() < other.rank()
    }

    pub open spec fn less_or_equal_to(self, other: Number) -> bool {
        !self.is_nan() && !other.is_nan() && self.rank() <= other.rank()
    }

    /// The number with the opposite sign.
    pub open spec fn negated(self) -> Number {
        Number {
            bits: if self.bits >= SIGN_BIT {
                (self.bits - SIGN_BIT) as u64
            } else {
                (self.bits + SIGN_BIT) as u64
            },
        }
    }

    pub fn from_bits(bits: u64) -> (r: Number)
        ensures
            r.bits == bits,
    {
        Number { bits }
    }

    pub fn to_bits(&self) -> (r: u64)
        ensures
            r == self.bits,
    {
        self.bits
    }

    pub fn is_not_a_number(&self) -> (r: bool)
        ensures
            r == self.is_nan(),
    {
        let magnitude: u64 = if self.bits >= SIGN_BIT {
            self.bits - SIGN_BIT
        } else {
            self.bits
        };
        magnitude > INFINITY_BITS
    }

    fn ordinal(&self) -> (r: i128)
        ensures
            r == self.rank(),
    {
        if self.bits >= SIGN_BIT {
            let magnitude: u64 = self.bits - SIGN_BIT;
            0 - (magnitude as i128)
        } else {
            self.bits as i128
        }
    }

    pub fn equals(&self, other: &Number) -> (r: bool)
        ensures
            r == self.equal_to(*other),
    {
        !self.is_not_a_number() && !other.is_not_a_number() && self.ordinal() == other.ordinal()
    }

    pub fn less(&self, other: &Number) -> (r: bool)
        ensures
            r == self.less_than(*other),
    {
        !self.is_not_a_number() && !other.is_not_a_number() && self.ordinal() < other.ordinal()
    }

    pub fn less_or_equal(&self, other: &Number) -> (r: bool)
        ensures
            r == self.less_or_equal_to(*other),
    {
        !self.is_not_a_number() && !other.is_not_a_number() && self.ordinal() <= other.ordinal()
    }

    pub fn greater(&self, other: &Number) -> (r: bool)
        ensures
            r == other.less_than(*self),
    {
        other.less(self)
    }

    pub fn greater_or_equal(&self, other: &Number) -> (r: bool)
        ensures
            r == other.less_or_equal_to(*self),
    {
        other.less_or_equal(self)
    }

    pub fn negate(&self) -> (r: Number)
        ensures
            r == self.negated(),
    {
        if self.bits >= SIGN_BIT {
            Number { bits: self.bits - SIGN_BIT }
        } else {
            Number { bits: self.bits + SIGN_BIT }
        }
    }
}

/// Negating twice gives the number back.
pub proof fn lemma_negation_involutive(n: Number)
    ensures
        n.negated().negated() == n,
{
}

/// A number that is no NaN equals itself.
pub proof fn lemma_number_equality_reflexive(n: Number)
    ensures
        n.equal_to(n) <==> !n.is_nan(),
{
}

} // verus!
