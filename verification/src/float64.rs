//! Binary64 values carried as their IEEE-754 bit patterns.
//!
//! The library never performs floating-point arithmetic. Where its logic
//! reads a `f64` (whether a hyperparameter is finite, non-negative, at
//! most one), it reads the bit pattern, whose fields fix the answer
//! exactly: sign in bit 63, an 11-bit exponent field in bits 52..63 and
//! a 52-bit fraction field below it.
use vstd::prelude::*;

verus! {

/// A binary64 value held as its bit pattern.
#[derive(Debug, Clone, Copy, PartialEq, Eq, Structural)]
pub struct Float64 {
    /// The IEEE-754 binary64 encoding.
    pub bits: u64,
}

/// The 11-bit biased exponent field.
pub open spec fn exponent_field(bits: u64) -> u64 {
    (bits >> 52u64) & 0x7ffu64
}

/// The 52-bit fraction field.
pub open spec fn fraction_field(bits: u64) -> u64 {
    bits & 0xf_ffff_ffff_ffffu64
}

/// Bit pattern of `1.0`.
pub open spec fn one_bits() -> u64 {
    0x3ff0_0000_0000_0000u64
}

/// Bit pattern of `-0.0`: the only pattern with the sign bit set that
/// compares equal to zero.
pub open spec fn negative_zero_bits() -> u64 {
    0x8000_0000_0000_0000u64
}

impl Float64 {
    /// Not-a-number: all-ones exponent and a non-zero fraction.
    pub open spec fn spec_is_nan(self) -> bool {
        exponent_field(self.bits) == 0x7ffu64 && fraction_field(self.bits) != 0
    }

    /// Finite: the exponent field is not all ones.
    pub open spec fn spec_is_finite(self) -> bool {
        exponent_field(self.bits) != 0x7ffu64
    }

    /// The sign bit is set.
    pub open spec fn spec_sign_set(self) -> bool {
        self.bits >= negative_zero_bits()
    }

    /// `+0.0` or `-0.0`.
    pub open spec fn spec_is_zero(self) -> bool {
        self.bits == 0 || self.bits == negative_zero_bits()
    }

    /// `x >= 0.0`: not NaN, and either non-negative in sign or `-0.0`.
    pub open spec fn spec_ge_zero(self) -> bool {
        !self.spec_is_nan() && (!self.spec_sign_set() || self.bits == negative_zero_bits())
    }

    /// `x > 0.0`: not NaN, sign clear, not `+0.0`.
    pub open spec fn spec_gt_zero(self) -> bool {
        !self.spec_is_nan() && !self.spec_sign_set() && self.bits != 0
    }

    /// `x <= 1.0`: not NaN, and either negative or at most the pattern
    /// of `1.0` (binary64 patterns with the sign bit clear order as the
    /// values they encode).
    pub open spec fn spec_le_one(self) -> bool {
        !self.spec_is_nan() && (self.spec_sign_set() || self.bits <= one_bits())
    }

    /// `x < 1.0`.
    pub open spec fn spec_lt_one(self) -> bool {
        !self.spec_is_nan() && (self.spec_sign_set() || self.bits < one_bits())
    }

    /// The value with the given bit pattern.
    pub fn from_bits(bits: u64) -> (x: Self)
        ensures
            x.bits == bits,
    {
        Float64 { bits }
    }

    /// The bit pattern of this value.
    pub fn to_bits(self) -> (b: u64)
        ensures
            b == self.bits,
    {
        self.bits
    }

    /// `+0.0`.
    pub fn zero() -> (x: Self)
        ensures
            x.bits == 0,
    {
        Float64 { bits: 0 }
    }

    /// `1.0`.
    pub fn one() -> (x: Self)
        ensures
            x.bits == one_bits(),
    {
        Float64 { bits: 0x3ff0_0000_0000_0000 }
    }

    /// `f64::is_nan`.
    pub fn is_nan(self) -> (b: bool)
        ensures
            b == self.spec_is_nan(),
    {
        (self.bits >> 52u64) & 0x7ffu64 == 0x7ffu64 && self.bits & 0xf_ffff_ffff_ffffu64 != 0
    }

    /// `f64::is_finite`.
    pub fn is_finite(self) -> (b: bool)
        ensures
            b == self.spec_is_finite(),
    {
        (self.bits >> 52u64) & 0x7ffu64 != 0x7ffu64
    }

    /// `x >= 0.0`.
    pub fn ge_zero(self) -> (b: bool)
        ensures
            b == self.spec_ge_zero(),
    {
        !self.is_nan() && (self.bits < 0x8000_0000_0000_0000 || self.bits == 0x8000_0000_0000_0000)
    }

    /// `x > 0.0`.
    pub fn gt_zero(self) -> (b: bool)
        ensures
            b == self.spec_gt_zero(),
    {
        !self.is_nan() && self.bits < 0x8000_0000_0000_0000 && self.bits != 0
    }

    /// `x <= 1.0`.
    pub fn le_one(self) -> (b: bool)
        ensures
            b == self.spec_le_one(),
    {
        !self.is_nan() && (self.bits >= 0x8000_0000_0000_0000 || self.bits <= 0x3ff0_0000_0000_0000)
    }

    /// `x < 1.0`.
    pub fn lt_one(self) -> (b: bool)
        ensures
            b == self.spec_lt_one(),
    {
        !self.is_nan() && (self.bits >= 0x8000_0000_0000_0000 || self.bits < 0x3ff0_0000_0000_0000)
    }
}

} // verus!
