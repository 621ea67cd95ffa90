//! IEEE 754 binary64 values held by their bit patterns.
//!
//! The configuration carries temperatures and duty cycles as binary64
//! numbers. The library never does arithmetic on them; it only compares
//! them, and comparison of binary64 values is exactly described by the bit
//! pattern: NaN is unordered, both zeros are equal, and otherwise values are
//! ordered by sign and magnitude.

use vstd::prelude::*;

verus! {

/// The sign bit of a binary64 pattern.
pub const SIGN_MASK: u64 = 0x8000_0000_0000_0000;

/// Everything but the sign bit: the magnitude of a binary64 pattern.
pub const MAGNITUDE_MASK: u64 = 0x7fff_ffff_ffff_ffff;

/// The exponent field.
pub const EXPONENT_MASK: u64 = 0x7ff0_0000_0000_0000;

/// The fraction (mantissa) field.
pub const FRACTION_MASK: u64 = 0x000f_ffff_ffff_ffff;

/// A binary64 (`f64`) value, stored as its bit pattern.
#[derive(Clone, Copy, Debug)]
pub struct Binary64 {
    /// The IEEE 754 bit pattern (`f64::to_bits`).
    pub bits: u64,
}

/// Whether a bit pattern is a NaN: all exponent bits set and a non-zero fraction.
pub open spec fn spec_is_nan(bits: u64) -> bool {
    (bits & EXPONENT_MASK) == EXPONENT_MASK && (bits & FRACTION_MASK) != 0
}

/// The position of a non-NaN pattern on the number line: its magnitude,
/// negated when the sign bit is set. Both zeros map to 0.
pub open spec fn spec_order_key(bits: u64) -> int {
    let magnitude = (bits & MAGNITUDE_MASK) as int;
    if bits >= SIGN_MASK {
        -magnitude
    } else {
        magnitude
    }
}

/// `a <= b` on binary64 values.
pub open spec fn spec_le(a: u64, b: u64) -> bool {
    !spec_is_nan(a) && !spec_is_nan(b) && spec_order_key(a) <= spec_order_key(b)
}

/// `a < b` on binary64 values.
pub open spec fn spec_lt(a: u64, b: u64) -> bool {
    !spec_is_nan(a) && !spec_is_nan(b) && spec_order_key(a) < spec_order_key(b)
}

/// `a == b` on binary64 values (NaN equals nothing, `-0.0 == 0.0`).
pub open spec fn spec_eq(a: u64, b: u64) -> bool {
    !spec_is_nan(a) && !spec_is_nan(b) && spec_order_key(a) == spec_order_key(b)
}

/// `lo <= x && x <= hi`, the meaning of `(lo..=hi).contains(&x)`.
pub open spec fn spec_in_closed_range(x: u64, lo: u64, hi: u64) -> bool {
    spec_le(lo, x) && spec_le(x, hi)
}

/// A pattern below the exponent field's all-ones value with the sign bit
/// clear is a finite, non-negative number whose order key is the pattern itself.
pub proof fn lemma_nonnegative_finite(bits: u64)
    requires
        bits < EXPONENT_MASK,
    ensures
        !spec_is_nan(bits),
        spec_order_key(bits) == bits as int,
{
    assert(bits & 0x7fff_ffff_ffff_ffff == bits) by (bit_vector)
        requires
            bits < 0x7ff0_0000_0000_0000u64,
    ;
    assert(bits & 0x7ff0_0000_0000_0000 != 0x7ff0_0000_0000_0000u64) by (bit_vector)
        requires
            bits < 0x7ff0_0000_0000_0000u64,
    ;
}

impl Binary64 {
    pub fn is_nan(self) -> (r: bool)
        ensures
            r == spec_is_nan(self.bits),
    {
        (self.bits & EXPONENT_MASK) == EXPONENT_MASK && (self.bits & FRACTION_MASK) != 0
    }

    /// `self <= other` as `f64` compares.
    pub fn le(self, other: Binary64) -> (r: bool)
        ensures
            r == spec_le(self.bits, other.bits),
    {
        if self.is_nan() || other.is_nan() {
            return false;
        }
        let neg_a = self.bits >= SIGN_MASK;
        let neg_b = other.bits >= SIGN_MASK;
        let mag_a = self.bits & MAGNITUDE_MASK;
        let mag_b = other.bits & MAGNITUDE_MASK;
        if !neg_a && !neg_b {
            mag_a <= mag_b
        } else if neg_a && neg_b {
            mag_b <= mag_a
        } else if neg_a {
            true
        } else {
            mag_a == 0 && mag_b == 0
        }
    }

    /// `self < other` as `f64` compares.
    pub fn lt(self, other: Binary64) -> (r: bool)
        ensures
            r == spec_lt(self.bits, other.bits),
    {
        if self.is_nan() || other.is_nan() {
            return false;
        }
        let neg_a = self.bits >= SIGN_MASK;
        let neg_b = other.bits >= SIGN_MASK;
        let mag_a = self.bits & MAGNITUDE_MASK;
        let mag_b = other.bits & MAGNITUDE_MASK;
        if !neg_a && !neg_b {
            mag_a < mag_b
        } else if neg_a && neg_b {
            mag_b < mag_a
        } else if neg_a {
            mag_a != 0 || mag_b != 0
        } else {
            false
        }
    }

    /// `self == other` as `f64` compares.
    pub fn ieee_eq(self, other: Binary64) -> (r: bool)
        ensures
            r == spec_eq(self.bits, other.bits),
    {
        self.le(other) && other.le(self)
    }

    /// `(lo..=hi).contains(&self)`.
    pub fn in_closed_range(self, lo: Binary64, hi: Binary64) -> (r: bool)
        ensures
            r == spec_in_closed_range(self.bits, lo.bits, hi.bits),
    {
        lo.le(self) && self.le(hi)
    }
}

} // verus!
