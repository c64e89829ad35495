//! Numbers as the bits of IEEE-754 doubles.
//!
//! Equality on the bits is total where every NaN counts as one number:
//! [`canonical`] sends each NaN to one chosen NaN and leaves every other
//! number as it is, so that equal numbers have equal bits and one hash slot.

use vstd::prelude::*;

verus! {

/// The bits of the exponent of a double.
pub const EXPONENT: u64 = 0x7ff0_0000_0000_0000;

/// The bits of the fraction of a double.
pub const FRACTION: u64 = 0x000f_ffff_ffff_ffff;

/// The NaN that stands for every NaN.
pub const NAN: u64 = 0x7ff8_0000_0000_0000;

/// Whether `bits` are those of a NaN: all exponent bits set, and a fraction
/// that is not zero.
pub open spec fn is_nan_bits(bits: u64) -> bool {
    bits & EXPONENT == EXPONENT && bits & FRACTION != 0
}

/// The bits that stand for the number with the bits `bits`.
pub open spec fn canonical_bits(bits: u64) -> u64 {
    if is_nan_bits(bits) {
        NAN
    } else {
        bits
    }
}

/// Whether `bits` are those of a NaN.
pub fn is_nan(bits: u64) -> (r: bool)
    ensures
        r == is_nan_bits(bits),
{
    bits & EXPONENT == EXPONENT && bits & FRACTION != 0
}

/// The bits that stand for the number with the bits `bits`.
pub fn canonical(bits: u64) -> (r: u64)
    ensures
        r == canonical_bits(bits),
{
    if is_nan(bits) {
        NAN
    } else {
        bits
    }
}

/// Whether two numbers are the same: both NaN, or of the same bits.
pub fn same_number(a: u64, b: u64) -> (r: bool)
    ensures
        r == (canonical_bits(a) == canonical_bits(b)),
{
    canonical(a) == canonical(b)
}

/// Every NaN is the same number as every other NaN and as no number that
/// is not a NaN; numbers that are not NaN are the same only with the same
/// bits; and the bits that stand for a number stand for themselves.
pub proof fn lemma_same_number(a: u64, b: u64)
    ensures
        is_nan_bits(a) && is_nan_bits(b) ==> canonical_bits(a) == canonical_bits(b),
        is_nan_bits(a) && !is_nan_bits(b) ==> canonical_bits(a) != canonical_bits(b),
        !is_nan_bits(a) && !is_nan_bits(b) ==> (canonical_bits(a) == canonical_bits(b) <==> a == b),
        is_nan_bits(canonical_bits(a)) == is_nan_bits(a),
        canonical_bits(canonical_bits(a)) == canonical_bits(a),
{
    assert(0x7ff8_0000_0000_0000u64 & 0x7ff0_0000_0000_0000u64 == 0x7ff0_0000_0000_0000u64)
        by (bit_vector);
    assert(0x7ff8_0000_0000_0000u64 & 0x000f_ffff_ffff_ffffu64 != 0) by (bit_vector);
}

} // verus!
