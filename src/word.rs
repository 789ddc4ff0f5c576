//! Rotations and little-endian word reads shared by both engines.

use vstd::prelude::*;

verus! {

/// Left rotation of a 32-bit word by `r` bits.
pub open spec fn rotl32(x: u32, r: u32) -> u32 {
    (x << r) | (x >> ((32 - r) as u32))
}

/// Left rotation of a 64-bit word by `r` bits.
pub open spec fn rotl64(x: u64, r: u64) -> u64 {
    (x << r) | (x >> ((64 - r) as u64))
}

/// The little-endian 32-bit word held by `s[i..i + 4]`.
pub open spec fn read32(s: Seq<u8>, i: int) -> u32 {
    (s[i] as u32) | ((s[i + 1] as u32) << 8u32) | ((s[i + 2] as u32) << 16u32) | ((s[i + 3] as u32)
        << 24u32)
}

/// The little-endian 64-bit word held by `s[i..i + 8]`.
pub open spec fn read64(s: Seq<u8>, i: int) -> u64 {
    (read32(s, i) as u64) | ((read32(s, i + 4) as u64) << 32u64)
}

pub(crate) fn rotate32(x: u32, r: u32) -> (res: u32)
    requires
        0 < r < 32,
    ensures
        res == rotl32(x, r),
{
    (x << r) | (x >> (32 - r))
}

pub(crate) fn rotate64(x: u64, r: u64) -> (res: u64)
    requires
        0 < r < 64,
    ensures
        res == rotl64(x, r),
{
    (x << r) | (x >> (64 - r))
}

pub(crate) fn load32(b: &[u8], i: usize) -> (res: u32)
    requires
        i + 4 <= b.len(),
    ensures
        res == read32(b@, i as int),
{
    (b[i] as u32) | ((b[i + 1] as u32) << 8u32) | ((b[i + 2] as u32) << 16u32) | ((b[i + 3] as u32)
        << 24u32)
}

pub(crate) fn load64(b: &[u8], i: usize) -> (res: u64)
    requires
        i + 8 <= b.len(),
    ensures
        res == read64(b@, i as int),
{
    let lo = load32(b, i);
    let hi = load32(b, i + 4);
    (lo as u64) | ((hi as u64) << 32u64)
}

} // verus!
