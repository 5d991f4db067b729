//! Fixed-width little-endian fields, read and written through `byteorder`.

use byteorder::ByteOrder;
use byteorder::LittleEndian;
use vstd::prelude::*;

verus! {

/// The value of a 16-bit pattern read as a two's-complement number.
pub open spec fn as_signed_16(n: nat) -> int {
    if n < 0x8000 {
        n as int
    } else {
        n - 0x1_0000
    }
}

/// The 16-bit pattern of a two's-complement number.
pub open spec fn as_unsigned_16(n: int) -> nat {
    if n < 0 {
        (n + 0x1_0000) as nat
    } else {
        n as nat
    }
}

/// Calls `byteorder::LittleEndian::read_u32`, which takes the first four bytes
/// of `buf` as a little-endian number and panics on a shorter slice.
#[verifier::external_body]
pub(crate) fn read_u32(buf: &[u8]) -> (n: u32)
    requires
        buf@.len() >= 4,
    ensures
        n as int == buf@[0] as int + 0x100 * buf@[1] as int + 0x1_0000 * buf@[2] as int + 0x100_0000
            * buf@[3] as int,
{
    LittleEndian::read_u32(buf)
}

/// Calls `byteorder::LittleEndian::read_u16`, which takes the first two bytes
/// of `buf` as a little-endian number and panics on a shorter slice.
#[verifier::external_body]
pub(crate) fn read_u16(buf: &[u8]) -> (n: u16)
    requires
        buf@.len() >= 2,
    ensures
        n as int == buf@[0] as int + 0x100 * buf@[1] as int,
{
    LittleEndian::read_u16(buf)
}

/// Calls `byteorder::LittleEndian::read_i16`, which takes the first two bytes
/// of `buf` as a little-endian two's-complement number and panics on a
/// shorter slice.
#[verifier::external_body]
pub(crate) fn read_i16(buf: &[u8]) -> (n: i16)
    requires
        buf@.len() >= 2,
    ensures
        n as int == as_signed_16(buf@[0] as nat + 0x100 * buf@[1] as nat),
{
    LittleEndian::read_i16(buf)
}

/// Calls `byteorder::LittleEndian::write_u32` on a four-byte buffer, which
/// fills it with the little-endian bytes of `n`.
#[verifier::external_body]
pub(crate) fn u32_bytes(n: u32) -> (buf: [u8; 4])
    ensures
        buf@[0] as int == n as int % 0x100,
        buf@[1] as int == n as int / 0x100 % 0x100,
        buf@[2] as int == n as int / 0x1_0000 % 0x100,
        buf@[3] as int == n as int / 0x100_0000,
{
    let mut buf = [0u8; 4];
    LittleEndian::write_u32(&mut buf, n);
    buf
}

/// Calls `byteorder::LittleEndian::write_u16` on a two-byte buffer, which
/// fills it with the little-endian bytes of `n`.
#[verifier::external_body]
pub(crate) fn u16_bytes(n: u16) -> (buf: [u8; 2])
    ensures
        buf@[0] as int == n as int % 0x100,
        buf@[1] as int == n as int / 0x100,
{
    let mut buf = [0u8; 2];
    LittleEndian::write_u16(&mut buf, n);
    buf
}

/// Calls `byteorder::LittleEndian::write_i16` on a two-byte buffer, which
/// fills it with the little-endian bytes of the two's-complement pattern of
/// `n`.
#[verifier::external_body]
pub(crate) fn i16_bytes(n: i16) -> (buf: [u8; 2])
    ensures
        buf@[0] as int == as_unsigned_16(n as int) as int % 0x100,
        buf@[1] as int == as_unsigned_16(n as int) as int / 0x100,
{
    let mut buf = [0u8; 2];
    LittleEndian::write_i16(&mut buf, n);
    buf
}

} // verus!
