//! Little-endian integer decoding of byte buffers, backed by `byteorder`.

use byteorder::{ByteOrder, LittleEndian};
use vstd::prelude::*;

verus! {

/// The unsigned integer encoded little-endian in the first two bytes.
pub open spec fn le_u16(b: Seq<u8>) -> u16 {
    (b[0] as int + b[1] as int * 0x100) as u16
}

/// The unsigned integer encoded little-endian in the first four bytes.
pub open spec fn le_u32(b: Seq<u8>) -> u32 {
    (b[0] as int + b[1] as int * 0x100 + b[2] as int * 0x1_0000 + b[3] as int * 0x100_0000) as u32
}

/// The unsigned integer encoded little-endian in the first eight bytes.
pub open spec fn le_u64(b: Seq<u8>) -> u64 {
    (le_u32(b) as int + le_u32(b.subrange(4, 8)) as int * 0x1_0000_0000) as u64
}

/// `LittleEndian::read_u16`: decodes the first two bytes (it panics on shorter buffers).
#[verifier::external_body]
pub fn read_u16_le(buf: &[u8]) -> (r: u16)
    requires
        buf@.len() >= 2,
    ensures
        r == le_u16(buf@),
{
    LittleEndian::read_u16(buf)
}

/// `LittleEndian::read_u32`: decodes the first four bytes (it panics on shorter buffers).
#[verifier::external_body]
pub fn read_u32_le(buf: &[u8]) -> (r: u32)
    requires
        buf@.len() >= 4,
    ensures
        r == le_u32(buf@),
{
    LittleEndian::read_u32(buf)
}

/// `LittleEndian::read_u64`: decodes the first eight bytes (it panics on shorter buffers).
#[verifier::external_body]
pub fn read_u64_le(buf: &[u8]) -> (r: u64)
    requires
        buf@.len() >= 8,
    ensures
        r == le_u64(buf@),
{
    LittleEndian::read_u64(buf)
}

} // verus!
