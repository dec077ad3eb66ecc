//! Little-endian integers in byte sequences.

use vstd::prelude::*;

verus! {

/// The 16-bit little-endian integer at `at`.
pub open spec fn le_u16(b: Seq<u8>, at: int) -> u16 {
    (b[at] as int + 0x100 * (b[at + 1] as int)) as u16
}

/// The 32-bit little-endian integer at `at`.
pub open spec fn le_u32(b: Seq<u8>, at: int) -> u32 {
    (b[at] as int + 0x100 * (b[at + 1] as int) + 0x1_0000 * (b[at + 2] as int) + 0x100_0000 * (b[at
        + 3] as int)) as u32
}

/// The 64-bit little-endian integer at `at`.
pub open spec fn le_u64(b: Seq<u8>, at: int) -> u64 {
    (le_u32(b, at) as int + 0x1_0000_0000 * (le_u32(b, at + 4) as int)) as u64
}

/// Reads the 16-bit little-endian integer at `at`.
pub fn read_u16(b: &[u8], at: usize) -> (v: u16)
    requires
        at + 2 <= b.len(),
    ensures
        v == le_u16(b@, at as int),
{
    let b0: u16 = b[at] as u16;
    let b1: u16 = b[at + 1] as u16;
    b0 + b1 * 0x100
}

/// Reads the 32-bit little-endian integer at `at`.
pub fn read_u32(b: &[u8], at: usize) -> (v: u32)
    requires
        at + 4 <= b.len(),
    ensures
        v == le_u32(b@, at as int),
{
    let b0: u32 = b[at] as u32;
    let b1: u32 = b[at + 1] as u32;
    let b2: u32 = b[at + 2] as u32;
    let b3: u32 = b[at + 3] as u32;
    b0 + b1 * 0x100 + b2 * 0x1_0000 + b3 * 0x100_0000
}

/// Reads the 64-bit little-endian integer at `at`.
pub fn read_u64(b: &[u8], at: usize) -> (v: u64)
    requires
        at + 8 <= b.len(),
    ensures
        v == le_u64(b@, at as int),
{
    let lo: u64 = read_u32(b, at) as u64;
    let hi: u64 = read_u32(b, at + 4) as u64;
    lo + hi * 0x1_0000_0000
}

} // verus!
