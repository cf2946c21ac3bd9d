//! The two formats as bit patterns: their fields, their total order, their
//! constants.

use vstd::prelude::*;
use vstd::arithmetic::power2::pow2;
use std::cmp::Ordering;

verus! {

/// How two integers compare.
pub open spec fn int_ordering(a: int, b: int) -> Ordering {
    if a < b {
        Ordering::Less
    } else if a == b {
        Ordering::Equal
    } else {
        Ordering::Greater
    }
}

/// A binary64 ("double precision") value, given by its 64 bits.
#[derive(Debug, Copy, Clone, PartialEq, Eq, Structural)]
pub struct Binary64 {
    pub bits: u64,
}

/// A binary32 ("single precision") value, given by its 32 bits.
#[derive(Debug, Copy, Clone, PartialEq, Eq, Structural)]
pub struct Binary32 {
    pub bits: u32,
}

impl Binary64 {
    /// Whether the sign bit is set.
    pub open spec fn negative(self) -> bool {
        self.bits >= 0x8000_0000_0000_0000
    }

    /// The bits without the sign bit.
    pub open spec fn magnitude(self) -> nat {
        (self.bits % 0x8000_0000_0000_0000) as nat
    }

    /// The biased exponent field.
    pub open spec fn exponent(self) -> nat {
        self.magnitude() / 0x10_0000_0000_0000
    }

    /// The fraction field.
    pub open spec fn fraction(self) -> nat {
        self.magnitude() % 0x10_0000_0000_0000
    }

    /// Whether the value is a NaN.
    pub open spec fn nan(self) -> bool {
        self.magnitude() > 0x7ff0_0000_0000_0000
    }

    /// Whether the value is neither a NaN nor an infinity.
    pub open spec fn finite(self) -> bool {
        self.magnitude() < 0x7ff0_0000_0000_0000
    }

    /// Whether the value is `+0.0` or `-0.0`.
    pub open spec fn zero(self) -> bool {
        self.magnitude() == 0
    }

    /// The absolute value of a finite `self`, multiplied by `2^1074`.
    ///
    /// Every finite binary64 is a multiple of `2^-1074`, so this is an
    /// integer, and it determines the magnitude bits.
    pub open spec fn scaled_magnitude(self) -> nat {
        if self.exponent() == 0 {
            self.fraction()
        } else {
            (0x10_0000_0000_0000 + self.fraction()) * pow2((self.exponent() - 1) as nat)
        }
    }

    /// The rank of `self` in the total order of IEEE 754: negative values
    /// below positive ones, `-0.0` below `+0.0`, NaNs at both ends.
    pub open spec fn order_key(self) -> int {
        if self.negative() {
            0x7fff_ffff_ffff_ffff - self.bits
        } else {
            self.bits as int
        }
    }

    /// The bits of `self` with the sign bit flipped.
    pub open spec fn spec_negated(self) -> Binary64 {
        if self.negative() {
            Binary64 { bits: (self.bits - 0x8000_0000_0000_0000) as u64 }
        } else {
            Binary64 { bits: (self.bits + 0x8000_0000_0000_0000) as u64 }
        }
    }

    /// The value with the given bits.
    pub fn from_bits(bits: u64) -> (r: Self)
        ensures
            r.bits == bits,
    {
        Binary64 { bits }
    }

    /// The bits of the value.
    pub fn to_bits(self) -> (r: u64)
        ensures
            r == self.bits,
    {
        self.bits
    }

    /// Returns `true` if the value is a NaN.
    pub fn is_nan(&self) -> (r: bool)
        ensures
            r == self.nan(),
    {
        self.bits % 0x8000_0000_0000_0000 > 0x7ff0_0000_0000_0000
    }

    /// Returns `true` if the value is `+0.0` or `-0.0`.
    pub fn is_zero(&self) -> (r: bool)
        ensures
            r == self.zero(),
    {
        self.bits % 0x8000_0000_0000_0000 == 0
    }

    /// Returns `true` if the sign bit is set.
    pub fn is_sign_negative(&self) -> (r: bool)
        ensures
            r == self.negative(),
    {
        self.bits >= 0x8000_0000_0000_0000
    }

    /// The value with the opposite sign.
    pub fn negated(self) -> (r: Self)
        ensures
            r == self.spec_negated(),
            r.negative() != self.negative(),
            r.magnitude() == self.magnitude(),
    {
        if self.bits >= 0x8000_0000_0000_0000 {
            Binary64 { bits: self.bits - 0x8000_0000_0000_0000 }
        } else {
            Binary64 { bits: self.bits + 0x8000_0000_0000_0000 }
        }
    }

    /// Compares by the total order of IEEE 754.
    pub fn total_cmp(&self, other: &Self) -> (r: Ordering)
        ensures
            r == int_ordering(self.order_key(), other.order_key()),
    {
        let below = self.bits >= 0x8000_0000_0000_0000;
        let other_below = other.bits >= 0x8000_0000_0000_0000;
        if below != other_below {
            if below {
                Ordering::Less
            } else {
                Ordering::Greater
            }
        } else if self.bits == other.bits {
            Ordering::Equal
        } else if (self.bits < other.bits) != below {
            Ordering::Less
        } else {
            Ordering::Greater
        }
    }

    /// Positive zero.
    pub fn zero_value() -> (r: Self)
        ensures
            r.bits == 0,
    {
        Binary64 { bits: 0 }
    }

    /// The value one.
    pub fn one_value() -> (r: Self)
        ensures
            r.bits == 0x3ff0_0000_0000_0000,
    {
        Binary64 { bits: 0x3ff0_0000_0000_0000 }
    }

    /// The smallest finite value.
    pub fn min_value() -> (r: Self)
        ensures
            r.bits == 0xffef_ffff_ffff_ffff,
    {
        Binary64 { bits: 0xffef_ffff_ffff_ffff }
    }

    /// The largest finite value.
    pub fn max_value() -> (r: Self)
        ensures
            r.bits == 0x7fef_ffff_ffff_ffff,
    {
        Binary64 { bits: 0x7fef_ffff_ffff_ffff }
    }

    /// The canonical quiet NaN.
    pub fn nan_value() -> (r: Self)
        ensures
            r.bits == 0x7ff8_0000_0000_0000,
            r.nan(),
    {
        Binary64 { bits: 0x7ff8_0000_0000_0000 }
    }
}

impl Binary32 {
    /// Whether the sign bit is set.
    pub open spec fn negative(self) -> bool {
        self.bits >= 0x8000_0000
    }

    /// The bits without the sign bit.
    pub open spec fn magnitude(self) -> nat {
        (self.bits % 0x8000_0000) as nat
    }

    /// The biased exponent field.
    pub open spec fn exponent(self) -> nat {
        self.magnitude() / 0x80_0000
    }

    /// The fraction field.
    pub open spec fn fraction(self) -> nat {
        self.magnitude() % 0x80_0000
    }

    /// Whether the value is a NaN.
    pub open spec fn nan(self) -> bool {
        self.magnitude() > 0x7f80_0000
    }

    /// Whether the value is neither a NaN nor an infinity.
    pub open spec fn finite(self) -> bool {
        self.magnitude() < 0x7f80_0000
    }

    /// Whether the value is `+0.0` or `-0.0`.
    pub open spec fn zero(self) -> bool {
        self.magnitude() == 0
    }

    /// The absolute value of a finite `self`, multiplied by `2^149`.
    pub open spec fn scaled_magnitude(self) -> nat {
        if self.exponent() == 0 {
            self.fraction()
        } else {
            (0x80_0000 + self.fraction()) * pow2((self.exponent() - 1) as nat)
        }
    }

    /// The rank of `self` in the total order of IEEE 754.
    pub open spec fn order_key(self) -> int {
        if self.negative() {
            0x7fff_ffff - self.bits
        } else {
            self.bits as int
        }
    }

    /// The bits of `self` with the sign bit flipped.
    pub open spec fn spec_negated(self) -> Binary32 {
        if self.negative() {
            Binary32 { bits: (self.bits - 0x8000_0000) as u32 }
        } else {
            Binary32 { bits: (self.bits + 0x8000_0000) as u32 }
        }
    }

    /// The value with the given bits.
    pub fn from_bits(bits: u32) -> (r: Self)
        ensures
            r.bits == bits,
    {
        Binary32 { bits }
    }

    /// The bits of the value.
    pub fn to_bits(self) -> (r: u32)
        ensures
            r == self.bits,
    {
        self.bits
    }

    /// Returns `true` if the value is a NaN.
    pub fn is_nan(&self) -> (r: bool)
        ensures
            r == self.nan(),
    {
        self.bits % 0x8000_0000 > 0x7f80_0000
    }

    /// Returns `true` if the value is `+0.0` or `-0.0`.
    pub fn is_zero(&self) -> (r: bool)
        ensures
            r == self.zero(),
    {
        self.bits % 0x8000_0000 == 0
    }

    /// Returns `true` if the sign bit is set.
    pub fn is_sign_negative(&self) -> (r: bool)
        ensures
            r == self.negative(),
    {
        self.bits >= 0x8000_0000
    }

    /// The value with the opposite sign.
    pub fn negated(self) -> (r: Self)
        ensures
            r == self.spec_negated(),
            r.negative() != self.negative(),
            r.magnitude() == self.magnitude(),
    {
        if self.bits >= 0x8000_0000 {
            Binary32 { bits: self.bits - 0x8000_0000 }
        } else {
            Binary32 { bits: self.bits + 0x8000_0000 }
        }
    }

    /// Compares by the total order of IEEE 754.
    pub fn total_cmp(&self, other: &Self) -> (r: Ordering)
        ensures
            r == int_ordering(self.order_key(), other.order_key()),
    {
        let below = self.bits >= 0x8000_0000;
        let other_below = other.bits >= 0x8000_0000;
        if below != other_below {
            if below {
                Ordering::Less
            } else {
                Ordering::Greater
            }
        } else if self.bits == other.bits {
            Ordering::Equal
        } else if (self.bits < other.bits) != below {
            Ordering::Less
        } else {
            Ordering::Greater
        }
    }

    /// Positive zero.
    pub fn zero_value() -> (r: Self)
        ensures
            r.bits == 0,
    {
        Binary32 { bits: 0 }
    }

    /// The value one.
    pub fn one_value() -> (r: Self)
        ensures
            r.bits == 0x3f80_0000,
    {
        Binary32 { bits: 0x3f80_0000 }
    }

    /// The smallest finite value.
    pub fn min_value() -> (r: Self)
        ensures
            r.bits == 0xff7f_ffff,
    {
        Binary32 { bits: 0xff7f_ffff }
    }

    /// The largest finite value.
    pub fn max_value() -> (r: Self)
        ensures
            r.bits == 0x7f7f_ffff,
    {
        Binary32 { bits: 0x7f7f_ffff }
    }

    /// The canonical quiet NaN.
    pub fn nan_value() -> (r: Self)
        ensures
            r.bits == 0x7fc0_0000,
            r.nan(),
    {
        Binary32 { bits: 0x7fc0_0000 }
    }
}

/// The total order is total and antisymmetric on bit patterns: two values
/// rank equal exactly when their bits are equal.
pub proof fn lemma_order_key_injective(a: Binary64, b: Binary64)
    ensures
        a.order_key() == b.order_key() <==> a == b,
{
}

/// Two binary32 values rank equal exactly when their bits are equal.
pub proof fn lemma_order_key_injective_32(a: Binary32, b: Binary32)
    ensures
        a.order_key() == b.order_key() <==> a == b,
{
}

} // verus!
