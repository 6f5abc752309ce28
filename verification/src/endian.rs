//! Little-endian numbers in byte strings.

use vstd::prelude::*;

verus! {

/// The 16-bit little-endian number at `at`.
pub open spec fn le16(bytes: Seq<u8>, at: int) -> u16 {
    (bytes[at] + 256 * bytes[at + 1]) as u16
}

/// The 32-bit little-endian number at `at`.
pub open spec fn le32(bytes: Seq<u8>, at: int) -> u32 {
    (le16(bytes, at) + 65536 * le16(bytes, at + 2)) as u32
}

/// The 64-bit little-endian number at `at`.
pub open spec fn le64(bytes: Seq<u8>, at: int) -> u64 {
    (le32(bytes, at) + 4294967296 * le32(bytes, at + 4)) as u64
}

/// Reads the 16-bit little-endian number at `at`.
pub fn read_le16(bytes: &[u8], at: usize) -> (v: u16)
    requires
        at + 2 <= bytes@.len(),
    ensures
        v == le16(bytes@, at as int),
{
    bytes[at] as u16 + 256 * (bytes[at + 1] as u16)
}

/// Reads the 32-bit little-endian number at `at`.
pub fn read_le32(bytes: &[u8], at: usize) -> (v: u32)
    requires
        at + 4 <= bytes@.len(),
    ensures
        v == le32(bytes@, at as int),
{
    let len = bytes.len();
    assert(at + 4 <= len);
    read_le16(bytes, at) as u32 + 65536 * (read_le16(bytes, at + 2) as u32)
}

/// Reads the 64-bit little-endian number at `at`.
pub fn read_le64(bytes: &[u8], at: usize) -> (v: u64)
    requires
        at + 8 <= bytes@.len(),
    ensures
        v == le64(bytes@, at as int),
{
    let len = bytes.len();
    assert(at + 8 <= len);
    read_le32(bytes, at) as u64 + 4294967296 * (read_le32(bytes, at + 4) as u64)
}

} // verus!
