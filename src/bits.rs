//! Bit-field updates on `u16` words, through the `bit_field` crate.

use bit_field::BitField;
use vstd::prelude::*;

verus! {

/// The mask of the bits `lo..hi` of a 16-bit word.
pub open spec fn field_mask(lo: u16, hi: u16) -> u16 {
    (!(0xFFFFu16 << ((hi - lo) as u16))) << lo
}

/// `x` with bit `bit` set to `value`.
pub open spec fn with_bit(x: u16, bit: u16, value: bool) -> u16 {
    if value {
        x | (1u16 << bit)
    } else {
        x & !(1u16 << bit)
    }
}

/// `x` with the bits `lo..hi` replaced by `value`.
pub open spec fn with_bits(x: u16, lo: u16, hi: u16, value: u16) -> u16 {
    (x & !field_mask(lo, hi)) | (value << lo)
}

/// Relies on `BitField::set_bit` for `u16`: sets one bit to `value` and leaves
/// the others as they were; it panics only for `bit >= 16`.
#[verifier::external_body]
pub(crate) fn set_bit_u16(x: &mut u16, bit: usize, value: bool)
    requires
        bit < 16,
    ensures
        *final(x) == with_bit(*old(x), bit as u16, value),
{
    x.set_bit(bit, value);
}

/// Relies on `BitField::set_bits` for `u16`: replaces the bits `lo..hi` by the
/// low bits of `value`; it panics on a range out of the word or on a value
/// that does not fit the range.
#[verifier::external_body]
pub(crate) fn set_bits_u16(x: &mut u16, lo: usize, hi: usize, value: u16)
    requires
        lo < hi < 16,
        value < (1u16 << ((hi - lo) as u16)),
    ensures
        *final(x) == with_bits(*old(x), lo as u16, hi as u16, value),
{
    x.set_bits(lo..hi, value);
}

} // verus!
