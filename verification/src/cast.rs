//! Width-cast predicates: pure tests deciding whether a wider integer value
//! can be represented losslessly in the next-narrower width. The encoder uses
//! them to pick the most compact wire tag, the decoder to reject values that
//! would not survive narrowing.

use vstd::prelude::*;

verus! {

/// True when the signed 16-bit value fits losslessly in 8 bits.
pub fn can_cast_i16_to_i8(v: i16) -> (r: bool)
    ensures
        r == (-0x80 <= v && v <= 0x7f),
{
    -0x80 <= v && v <= 0x7f
}

/// True when the signed 32-bit value fits losslessly in 16 bits.
pub fn can_cast_i32_to_i16(v: i32) -> (r: bool)
    ensures
        r == (-0x8000 <= v && v <= 0x7fff),
{
    -0x8000 <= v && v <= 0x7fff
}

/// True when the signed 64-bit value fits losslessly in 32 bits.
pub fn can_cast_i64_to_i32(v: i64) -> (r: bool)
    ensures
        r == (-0x8000_0000 <= v && v <= 0x7fff_ffff),
{
    -0x8000_0000 <= v && v <= 0x7fff_ffff
}

/// True when the unsigned 64-bit value fits in 8 bits.
pub fn can_cast_u64_to_u8(v: u64) -> (r: bool)
    ensures
        r == (v <= 0xff),
{
    v <= 0xff
}

/// True when the unsigned 64-bit value fits in 16 bits.
pub fn can_cast_u64_to_u16(v: u64) -> (r: bool)
    ensures
        r == (v <= 0xffff),
{
    v <= 0xffff
}

/// True when the unsigned 64-bit value fits in 32 bits.
pub fn can_cast_u64_to_u32(v: u64) -> (r: bool)
    ensures
        r == (v <= 0xffff_ffff),
{
    v <= 0xffff_ffff
}

/// True when the unsigned 32-bit value fits in 8 bits.
pub fn can_cast_u32_to_u8(v: u32) -> (r: bool)
    ensures
        r == (v <= 0xff),
{
    v <= 0xff
}

/// True when the unsigned 32-bit value fits in 16 bits.
pub fn can_cast_u32_to_u16(v: u32) -> (r: bool)
    ensures
        r == (v <= 0xffff),
{
    v <= 0xffff
}

/// True when the unsigned 16-bit value fits in 8 bits.
pub fn can_cast_u16_to_u8(v: u16) -> (r: bool)
    ensures
        r == (v <= 0xff),
{
    v <= 0xff
}

} // verus!
