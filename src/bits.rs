//! Fixed-width little-endian reads and packed bit fields of 32-bit words.

use bitfield::BitRange;
use vstd::prelude::*;

verus! {

/// The mask that keeps the low `width` bits of a word, for `1 <= width <= 32`.
pub open spec fn low_mask(width: u32) -> u32 {
    0xffff_ffffu32 >> ((32 - width) as u32)
}

/// Bits `lsb..=msb` of `word`, moved down to bit 0.
pub open spec fn bit_field(word: u32, msb: u32, lsb: u32) -> u32 {
    (word >> lsb) & low_mask((msb - lsb + 1) as u32)
}

/// `word` with bits `lsb..=msb` replaced by the low bits of `value`.
pub open spec fn with_bit_field(word: u32, msb: u32, lsb: u32, value: u32) -> u32 {
    (word & !(low_mask((msb - lsb + 1) as u32) << lsb)) | ((value << lsb) & (low_mask(
        (msb - lsb + 1) as u32,
    ) << lsb))
}

/// Relies on bitfield's `BitRange<u32> for u32`: `bit_range(msb, lsb)` returns bits
/// `lsb..=msb` shifted down to bit 0 (it shifts out of range for `msb > 31` or `lsb > msb`).
#[verifier::external_body]
pub(crate) fn get_bits(word: u32, msb: usize, lsb: usize) -> (r: u32)
    requires
        lsb <= msb < 32,
    ensures
        r == bit_field(word, msb as u32, lsb as u32),
{
    BitRange::<u32>::bit_range(&word, msb, lsb)
}

/// Relies on bitfield's `BitRange<u32> for u32`: `set_bit_range(msb, lsb, value)` clears
/// bits `lsb..=msb` and writes the low bits of `value` there, leaving the others.
#[verifier::external_body]
pub(crate) fn set_bits(word: &mut u32, msb: usize, lsb: usize, value: u32)
    requires
        lsb <= msb < 32,
    ensures
        *final(word) == with_bit_field(*old(word), msb as u32, lsb as u32, value),
{
    BitRange::<u32>::set_bit_range(word, msb, lsb, value)
}

/// The little-endian word made of four bytes.
pub open spec fn u32_le(b0: u8, b1: u8, b2: u8, b3: u8) -> u32 {
    (b0 as u32) | ((b1 as u32) << 8u32) | ((b2 as u32) << 16u32) | ((b3 as u32) << 24u32)
}

/// The little-endian word at `pos` of `bytes`.
pub open spec fn u32_at(bytes: Seq<u8>, pos: int) -> u32 {
    u32_le(bytes[pos], bytes[pos + 1], bytes[pos + 2], bytes[pos + 3])
}

/// Reads the little-endian `u32` at `pos`, or `None` where fewer than four bytes remain.
pub fn read_u32(bytes: &[u8], pos: usize) -> (r: Option<u32>)
    ensures
        r == (if pos + 4 <= bytes@.len() {
            Some(u32_at(bytes@, pos as int))
        } else {
            None::<u32>
        }),
{
    if pos > bytes.len() || bytes.len() - pos < 4 {
        return None;
    }
    let b0 = bytes[pos] as u32;
    let b1 = bytes[pos + 1] as u32;
    let b2 = bytes[pos + 2] as u32;
    let b3 = bytes[pos + 3] as u32;
    Some(b0 | (b1 << 8u32) | (b2 << 16u32) | (b3 << 24u32))
}

/// Reads the little-endian `i32` at `pos`, or `None` where fewer than four bytes remain.
#[verifier::truncate]
pub fn read_i32(bytes: &[u8], pos: usize) -> (r: Option<i32>)
    ensures
        r == (if pos + 4 <= bytes@.len() {
            Some(u32_at(bytes@, pos as int) as i32)
        } else {
            None::<i32>
        }),
{
    match read_u32(bytes, pos) {
        Some(w) => Some(w as i32),
        None => None,
    }
}

} // verus!
