//! Single-bit helpers over bytes.

use bit_field::BitField;
use vstd::prelude::*;

verus! {

/// Bit `i` of `v` (bit 0 is the least significant).
pub open spec fn bit_of(v: u8, i: u8) -> bool {
    (v >> i) & 1u8 == 1u8
}

/// `v` with bit `i` set to `level` and every other bit kept.
pub open spec fn with_bit(v: u8, i: u8, level: bool) -> u8 {
    if level {
        v | (1u8 << i)
    } else {
        v & !(1u8 << i)
    }
}

/// Relies on `BitField::get_bit` for `u8`: it asserts `bit < 8`, then
/// returns whether `v & (1 << bit)` is non-zero.
#[verifier::external_body]
pub(crate) fn get_bit(v: u8, bit: usize) -> (r: bool)
    requires
        bit < 8,
    ensures
        r == (v & (1u8 << bit as u8) != 0u8),
{
    v.get_bit(bit)
}

/// Bit `i` of `v`, read through the bit-field accessor.
pub fn test_bit(v: u8, i: usize) -> (r: bool)
    requires
        i < 8,
    ensures
        r == bit_of(v, i as u8),
{
    let r = get_bit(v, i);
    let k = i as u8;
    assert((v & (1u8 << k) != 0u8) == ((v >> k) & 1u8 == 1u8)) by (bit_vector)
        requires
            k < 8,
    ;
    r
}

/// Sets bit `i` of `v` to `level`.
pub fn update_bit(v: &mut u8, i: usize, level: bool)
    requires
        i < 8,
    ensures
        *final(v) == with_bit(*old(v), i as u8, level),
{
    let k = i as u8;
    if level {
        *v = *v | (1u8 << k);
    } else {
        *v = *v & !(1u8 << k);
    }
}

} // verus!
