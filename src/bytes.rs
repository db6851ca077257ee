//! Little-endian integers read out of byte buffers.
use byteorder::{ByteOrder, LittleEndian};
use vstd::prelude::*;

verus! {

/// The unsigned 16-bit little-endian value of `b[pos]`, `b[pos + 1]`.
pub open spec fn le_u16(b: Seq<u8>, pos: int) -> int {
    b[pos] as int + 256 * (b[pos + 1] as int)
}

/// The unsigned 32-bit little-endian value of the four bytes at `pos`.
pub open spec fn le_u32(b: Seq<u8>, pos: int) -> int {
    le_u16(b, pos) + 65536 * le_u16(b, pos + 2)
}

/// The two's complement reading of a 16-bit pattern.
pub open spec fn as_signed16(v: int) -> int {
    if v < 32768 {
        v
    } else {
        v - 65536
    }
}

/// The signed 16-bit little-endian value of the two bytes at `pos`.
pub open spec fn le_i16(b: Seq<u8>, pos: int) -> int {
    as_signed16(le_u16(b, pos))
}

/// Relies on byteorder's `LittleEndian::read_u32`, which reads the first four
/// bytes of its argument as `u32::from_le_bytes` and panics on fewer than four.
#[verifier::external_body]
pub(crate) fn read_u32_at(data: &[u8], pos: usize) -> (r: u32)
    requires
        pos + 4 <= data@.len(),
    ensures
        r as int == le_u32(data@, pos as int),
{
    LittleEndian::read_u32(&data[pos..])
}

/// Relies on byteorder's `LittleEndian::read_i16`, which reads the first two
/// bytes of its argument as `u16::from_le_bytes` and casts the result to `i16`;
/// it panics on fewer than two.
#[verifier::external_body]
pub(crate) fn read_i16_at(data: &[u8], pos: usize) -> (r: i16)
    requires
        pos + 2 <= data@.len(),
    ensures
        r as int == le_i16(data@, pos as int),
{
    LittleEndian::read_i16(&data[pos..])
}

} // verus!
