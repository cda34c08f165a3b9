//! Real numbers, carried as raw IEEE 754 single-precision bit patterns.
//!
//! The transcoder never computes with reals; it only stores them and
//! compares them against the two defaults that drive elision, zero and one.
//! Carrying the bit pattern keeps those comparisons exact: zero has two
//! encodings (positive and negative), one has exactly one, and a NaN —
//! which compares unequal to every number — matches neither.

use vstd::prelude::*;

verus! {

/// An IEEE 754 single-precision value, represented by its bit pattern.
#[derive(Clone, Copy, PartialEq, Eq, Structural, Debug)]
pub struct Real {
    pub bits: u32,
}

impl Real {
    /// True exactly when the encoded number equals floating-point zero,
    /// that is, for the two zero encodings and for nothing else.
    pub open spec fn spec_is_zero(self) -> bool {
        self.bits == 0u32 || self.bits == 0x8000_0000u32
    }

    /// True exactly when the encoded number equals floating-point one,
    /// which has a single encoding.
    pub open spec fn spec_is_one(self) -> bool {
        self.bits == 0x3f80_0000u32
    }

    pub fn is_zero(&self) -> (r: bool)
        ensures
            r == self.spec_is_zero(),
    {
        self.bits == 0 || self.bits == 0x8000_0000
    }

    pub fn is_one(&self) -> (r: bool)
        ensures
            r == self.spec_is_one(),
    {
        self.bits == 0x3f80_0000
    }

    pub fn from_bits(bits: u32) -> (r: Real)
        ensures
            r.bits == bits,
    {
        Real { bits }
    }
}

} // verus!
