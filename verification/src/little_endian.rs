//! Four-byte integers, least significant byte first.

use vstd::prelude::*;

verus! {

/// The four bytes of `x`, least significant first.
pub open spec fn u32_le(x: u32) -> Seq<u8> {
    seq![
        (x % 0x100) as u8,
        (x / 0x100 % 0x100) as u8,
        (x / 0x1_0000 % 0x100) as u8,
        (x / 0x100_0000) as u8,
    ]
}

/// The number whose four bytes are `bytes`, least significant first.
pub open spec fn u32_from_le(bytes: Seq<u8>) -> u32 {
    (bytes[0] + 0x100 * bytes[1] + 0x1_0000 * bytes[2] + 0x100_0000 * bytes[3]) as u32
}

/// The same four bytes read as a signed number in two's complement.
pub open spec fn i32_from_le(bytes: Seq<u8>) -> i32 {
    let unsigned = u32_from_le(bytes);
    if unsigned > i32::MAX {
        (unsigned - 0x1_0000_0000) as i32
    } else {
        unsigned as i32
    }
}

/// Writes `x` as four bytes, least significant first.
pub fn u32_to_le_bytes(x: u32) -> (bytes: Vec<u8>)
    ensures
        bytes@ == u32_le(x),
{
    let mut bytes: Vec<u8> = Vec::new();
    bytes.push((x % 0x100) as u8);
    bytes.push((x / 0x100 % 0x100) as u8);
    bytes.push((x / 0x1_0000 % 0x100) as u8);
    bytes.push((x / 0x100_0000) as u8);
    bytes
}

/// Reads four bytes, least significant first, as an unsigned number.
pub fn u32_from_le_bytes(bytes: &[u8]) -> (x: u32)
    requires
        bytes@.len() == 4,
    ensures
        x == u32_from_le(bytes@),
{
    bytes[0] as u32 + 0x100 * (bytes[1] as u32) + 0x1_0000 * (bytes[2] as u32) + 0x100_0000 * (
    bytes[3] as u32)
}

/// Reads four bytes, least significant first, as a signed number.
pub fn i32_from_le_bytes(bytes: &[u8]) -> (x: i32)
    requires
        bytes@.len() == 4,
    ensures
        x == i32_from_le(bytes@),
{
    let unsigned: u32 = u32_from_le_bytes(bytes);
    if unsigned > 0x7fff_ffff {
        (unsigned as i64 - 0x1_0000_0000) as i32
    } else {
        unsigned as i32
    }
}

/// Reading back what was written gives the number again.
pub proof fn law_read_after_write(x: u32)
    ensures
        u32_le(x).len() == 4,
        u32_from_le(u32_le(x)) == x,
        x <= i32::MAX ==> i32_from_le(u32_le(x)) == x,
{
}

/// Writing what was read gives the bytes again.
pub proof fn law_write_after_read(bytes: Seq<u8>)
    requires
        bytes.len() == 4,
    ensures
        u32_le(u32_from_le(bytes)) == bytes,
        i32_from_le(bytes) >= 0 ==> u32_le(i32_from_le(bytes) as u32) == bytes,
{
    let x = u32_from_le(bytes);
    let (b0, b1, b2, b3) = (bytes[0], bytes[1], bytes[2], bytes[3]);
    assert(x == b0 + 0x100 * b1 + 0x1_0000 * b2 + 0x100_0000 * b3);
    assert(x / 0x100 == b1 + 0x100 * b2 + 0x1_0000 * b3);
    assert(x / 0x1_0000 == b2 + 0x100 * b3);
    assert(x / 0x100_0000 == b3);
    assert(u32_le(x) =~= bytes);
}

/// Four bytes are the digits of a number to the base 256, the lowest first. As a
/// signed number they stand for the same up to the largest that is positive, and
/// for what is missing to 4294967296 from there on.
pub proof fn law_bytes_are_digits(x: u32, bytes: Seq<u8>)
    requires
        bytes.len() == 4,
    ensures
        u32_le(x).len() == 4,
        u32_le(x)[0] + 256 * u32_le(x)[1] + 65536 * u32_le(x)[2] + 16777216 * u32_le(x)[3] == x,
        u32_from_le(bytes) == bytes[0] + 256 * bytes[1] + 65536 * bytes[2] + 16777216 * bytes[3],
        u32_from_le(bytes) < 2147483648 ==> i32_from_le(bytes) == u32_from_le(bytes),
        u32_from_le(bytes) >= 2147483648 ==> i32_from_le(bytes) == u32_from_le(bytes) - 4294967296,
{
}

} // verus!
