//! The bit patterns of floating-point numbers made from random words.

use vstd::prelude::*;

verus! {

/// The bits of the single-precision number one.
pub const F32_ONE_BITS: u32 = 0x3F80_0000;

/// The bits of the double-precision number one.
pub const F64_ONE_BITS: u64 = 0x3FF0_0000_0000_0000;

/// The bits of the single-precision number from one up to, but not reaching, two whose
/// fraction is the high 23 bits of `mantissa`.
pub fn f32_bits_from_mantissa(mantissa: u32) -> (bits: u32)
    ensures
        bits == F32_ONE_BITS + mantissa / 0x200,
        F32_ONE_BITS <= bits < 0x4000_0000,
{
    assert(0x3F80_0000u32 ^ (mantissa >> 9) == 0x3F80_0000u32 + mantissa / 0x200
        && mantissa / 0x200 < 0x80_0000) by (bit_vector);
    F32_ONE_BITS ^ (mantissa >> 9)
}

/// The bits of the double-precision number from one up to, but not reaching, two whose
/// fraction is the high 52 bits of `mantissa`.
pub fn f64_bits_from_mantissa(mantissa: u64) -> (bits: u64)
    ensures
        bits == F64_ONE_BITS + mantissa / 0x1000,
        F64_ONE_BITS <= bits < 0x4000_0000_0000_0000,
{
    assert(0x3FF0_0000_0000_0000u64 ^ (mantissa >> 12) == 0x3FF0_0000_0000_0000u64 + mantissa
        / 0x1000 && mantissa / 0x1000 < 0x10_0000_0000_0000) by (bit_vector);
    F64_ONE_BITS ^ (mantissa >> 12)
}

} // verus!
