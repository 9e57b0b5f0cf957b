//! Little-endian integers as the formats lay them out, and the calls into
//! `byteorder` that decode them.

use byteorder::ByteOrder;
use byteorder::LittleEndian;
use vstd::prelude::*;

verus! {

/// The unsigned 16-bit value whose little-endian encoding starts at `s[i]`.
pub open spec fn le_u16(s: Seq<u8>, i: int) -> int {
    s[i] as int + 256 * (s[i + 1] as int)
}

/// The unsigned 32-bit value whose little-endian encoding starts at `s[i]`.
pub open spec fn le_u32(s: Seq<u8>, i: int) -> int {
    s[i] as int + 256 * (s[i + 1] as int) + 65536 * (s[i + 2] as int) + 16777216 * (s[i + 3] as int)
}

/// The signed 16-bit value whose little-endian two's-complement encoding
/// starts at `s[i]`.
pub open spec fn le_i16(s: Seq<u8>, i: int) -> int {
    if le_u16(s, i) >= 32768 {
        le_u16(s, i) - 65536
    } else {
        le_u16(s, i)
    }
}

/// The signed 32-bit value whose little-endian two's-complement encoding
/// starts at `s[i]`.
pub open spec fn le_i32(s: Seq<u8>, i: int) -> int {
    if le_u32(s, i) >= 2147483648 {
        le_u32(s, i) - 4294967296
    } else {
        le_u32(s, i)
    }
}

/// Calls `byteorder::LittleEndian::read_u32`, which panics on fewer than four
/// bytes and otherwise returns `u32::from_le_bytes` of the first four.
#[verifier::external_body]
pub(crate) fn read_u32_le(buf: &[u8]) -> (v: u32)
    requires
        buf@.len() >= 4,
    ensures
        v as int == le_u32(buf@, 0),
{
    LittleEndian::read_u32(buf)
}

/// Calls `byteorder::LittleEndian::read_i32`, which panics on fewer than four
/// bytes and otherwise returns the first four, read as an unsigned
/// little-endian word and reinterpreted as two's complement.
#[verifier::external_body]
pub(crate) fn read_i32_le(buf: &[u8]) -> (v: i32)
    requires
        buf@.len() >= 4,
    ensures
        v as int == le_i32(buf@, 0),
{
    LittleEndian::read_i32(buf)
}

/// Calls `byteorder::LittleEndian::read_i16`, which panics on fewer than two
/// bytes and otherwise returns the first two, read as an unsigned
/// little-endian half-word and reinterpreted as two's complement.
#[verifier::external_body]
pub(crate) fn read_i16_le(buf: &[u8]) -> (v: i16)
    requires
        buf@.len() >= 2,
    ensures
        v as int == le_i16(buf@, 0),
{
    LittleEndian::read_i16(buf)
}

/// An IEEE-754 single-precision number, held by its bit pattern.
#[derive(Clone, Copy, Debug, PartialEq, Eq, Structural)]
pub struct Float32 {
    /// The 32 bits of the number, sign bit highest.
    pub bits: u32,
}

} // verus!
