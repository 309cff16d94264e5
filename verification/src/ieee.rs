//! Binary floating-point numbers as bit patterns.
//!
//! The library stores, compares and hands on such numbers; it does not
//! compute with them. Both formats order their patterns alike: apart from the
//! sign bit, a greater pattern is a greater magnitude, and patterns beyond the
//! one of infinity are not numbers.

use vstd::prelude::*;

verus! {

/// A double-precision number (64 bits), by its bit pattern.
#[derive(Clone, Copy, Debug, PartialEq, Eq, Structural)]
pub struct Double {
    pub bits: u64,
}

/// A single-precision number (32 bits), by its bit pattern.
#[derive(Clone, Copy, Debug, PartialEq, Eq, Structural)]
pub struct Single {
    pub bits: u32,
}

/// The pattern of the double-precision infinity.
pub const DOUBLE_INFINITY: u64 = 0x7FF0_0000_0000_0000;

/// The sign bit of a double-precision number.
pub const DOUBLE_SIGN: u64 = 0x8000_0000_0000_0000;

/// The pattern of the single-precision infinity.
pub const SINGLE_INFINITY: u32 = 0x7F80_0000;

/// The sign bit of a single-precision number.
pub const SINGLE_SIGN: u32 = 0x8000_0000;

/// 1.0
pub const DOUBLE_ONE: u64 = 0x3FF0_0000_0000_0000;

/// 2.5
pub const DOUBLE_TWO_AND_A_HALF: u64 = 0x4004_0000_0000_0000;

/// 10.0
pub const DOUBLE_TEN: u64 = 0x4024_0000_0000_0000;

/// 39.0
pub const DOUBLE_THIRTY_NINE: u64 = 0x4043_8000_0000_0000;

/// -77.0
pub const DOUBLE_MINUS_SEVENTY_SEVEN: u64 = 0xC053_4000_0000_0000;

/// 14.0
pub const SINGLE_FOURTEEN: u32 = 0x4160_0000;

/// 20.0
pub const SINGLE_TWENTY: u32 = 0x41A0_0000;

impl Double {
    /// Where the number stands among all numbers: both zeros at 0, every
    /// other one at its signed magnitude.
    pub open spec fn rank(self) -> int {
        if self.bits < DOUBLE_SIGN {
            self.bits as int
        } else {
            DOUBLE_SIGN - self.bits
        }
    }

    /// Whether the pattern is not a number.
    pub open spec fn is_nan(self) -> bool {
        !(-DOUBLE_INFINITY <= self.rank() <= DOUBLE_INFINITY)
    }

    /// Numeric equality: nothing equals what is not a number, and the two
    /// zeros are equal.
    pub open spec fn equals(self, other: Double) -> bool {
        !self.is_nan() && !other.is_nan() && self.rank() == other.rank()
    }

    /// Numeric order.
    pub open spec fn at_most(self, other: Double) -> bool {
        !self.is_nan() && !other.is_nan() && self.rank() <= other.rank()
    }

    fn signed(self) -> (rank: i128)
        ensures
            rank == self.rank(),
    {
        if self.bits < DOUBLE_SIGN {
            self.bits as i128
        } else {
            DOUBLE_SIGN as i128 - self.bits as i128
        }
    }

    fn not_a_number(self) -> (yes: bool)
        ensures
            yes == self.is_nan(),
    {
        let r: i128 = self.signed();
        r > DOUBLE_INFINITY as i128 || r < -(DOUBLE_INFINITY as i128)
    }

    /// Whether two numbers are equal.
    pub fn same(self, other: Double) -> (yes: bool)
        ensures
            yes == self.equals(other),
    {
        !self.not_a_number() && !other.not_a_number() && self.signed() == other.signed()
    }

    /// Whether this number is at most the other.
    pub fn le(self, other: Double) -> (yes: bool)
        ensures
            yes == self.at_most(other),
    {
        !self.not_a_number() && !other.not_a_number() && self.signed() <= other.signed()
    }
}

impl Single {
    /// Where the number stands among all numbers.
    pub open spec fn rank(self) -> int {
        if self.bits < SINGLE_SIGN {
            self.bits as int
        } else {
            SINGLE_SIGN - self.bits
        }
    }

    /// Whether the pattern is not a number.
    pub open spec fn is_nan(self) -> bool {
        !(-SINGLE_INFINITY <= self.rank() <= SINGLE_INFINITY)
    }

    /// Numeric equality.
    pub open spec fn equals(self, other: Single) -> bool {
        !self.is_nan() && !other.is_nan() && self.rank() == other.rank()
    }

    /// Whether the number is greater than zero.
    pub open spec fn positive(self) -> bool {
        !self.is_nan() && self.rank() > 0
    }

    fn signed(self) -> (rank: i64)
        ensures
            rank == self.rank(),
    {
        if self.bits < SINGLE_SIGN {
            self.bits as i64
        } else {
            SINGLE_SIGN as i64 - self.bits as i64
        }
    }

    fn not_a_number(self) -> (yes: bool)
        ensures
            yes == self.is_nan(),
    {
        let r: i64 = self.signed();
        r > SINGLE_INFINITY as i64 || r < -(SINGLE_INFINITY as i64)
    }

    /// Whether two numbers are equal.
    pub fn same(self, other: Single) -> (yes: bool)
        ensures
            yes == self.equals(other),
    {
        !self.not_a_number() && !other.not_a_number() && self.signed() == other.signed()
    }

    /// Whether the number is greater than zero.
    pub fn is_positive(self) -> (yes: bool)
        ensures
            yes == self.positive(),
    {
        !self.not_a_number() && self.signed() > 0
    }
}

/// What is not a number: a pattern whose magnitude is beyond that of infinity.
/// Nothing equals it, it is not in order with anything, and a single one is not
/// positive.
pub proof fn what_is_no_number(a: Double, b: Double, s: Single, t: Single)
    ensures
        a.is_nan() <==> a.bits % 0x8000_0000_0000_0000 > 0x7FF0_0000_0000_0000,
        a.is_nan() ==> !a.equals(b) && !b.equals(a) && !a.at_most(b) && !b.at_most(a),
        s.is_nan() <==> s.bits % 0x8000_0000 > 0x7F80_0000,
        s.is_nan() ==> !s.equals(t) && !t.equals(s) && !s.positive(),
{
}

/// Numbers are equal if and only if their patterns are, or both are a zero.
pub proof fn equal_numbers_have_equal_patterns(a: Double, b: Double, s: Single, t: Single)
    requires
        !a.is_nan(),
        !b.is_nan(),
        !s.is_nan(),
        !t.is_nan(),
    ensures
        a.equals(b) <==> a.bits == b.bits || (a.bits % 0x8000_0000_0000_0000 == 0 && b.bits
            % 0x8000_0000_0000_0000 == 0),
        s.equals(t) <==> s.bits == t.bits || (s.bits % 0x8000_0000 == 0 && t.bits % 0x8000_0000
            == 0),
{
}

/// Numbers without a sign are ordered as their patterns, those with a sign the
/// other way round, and every negative one comes before every one that is not.
pub proof fn numbers_are_ordered(a: Double, b: Double)
    requires
        !a.is_nan(),
        !b.is_nan(),
    ensures
        a.bits < 0x8000_0000_0000_0000 && b.bits < 0x8000_0000_0000_0000 ==> (a.at_most(b) <==> a.bits
            <= b.bits),
        a.bits > 0x8000_0000_0000_0000 && b.bits > 0x8000_0000_0000_0000 ==> (a.at_most(b) <==> a.bits
            >= b.bits),
        a.bits > 0x8000_0000_0000_0000 && b.bits < 0x8000_0000_0000_0000 ==> a.at_most(b)
            && !b.at_most(a),
        a.at_most(b) || b.at_most(a),
        a.at_most(b) && b.at_most(a) <==> a.equals(b),
{
}

/// Positive numbers are those without a sign, but zero.
pub proof fn positive_numbers_have_no_sign(s: Single)
    ensures
        s.positive() <==> 0 < s.bits <= 0x7F80_0000,
{
}

} // verus!
