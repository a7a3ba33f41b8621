//! Host-order (little-endian) fixed-width field reads at byte offsets.

use vstd::prelude::*;

verus! {

/// The unsigned 16-bit value stored at `off` in little-endian order.
pub open spec fn le_u16(b: Seq<u8>, off: int) -> int {
    b[off] as int + 256 * (b[off + 1] as int)
}

/// The unsigned 32-bit value stored at `off` in little-endian order.
pub open spec fn le_u32(b: Seq<u8>, off: int) -> int {
    b[off] as int + 256 * (b[off + 1] as int) + 65536 * (b[off + 2] as int) + 16777216 * (
    b[off + 3] as int)
}

/// The signed 32-bit value (two's complement) stored at `off`.
pub open spec fn le_i32(b: Seq<u8>, off: int) -> int {
    if le_u32(b, off) >= 0x8000_0000 {
        le_u32(b, off) - 0x1_0000_0000
    } else {
        le_u32(b, off)
    }
}

pub fn read_u16(b: &[u8], off: usize) -> (r: u16)
    requires
        off + 2 <= b@.len(),
    ensures
        r as int == le_u16(b@, off as int),
{
    b[off] as u16 + 256 * (b[off + 1] as u16)
}

pub fn read_u32(b: &[u8], off: usize) -> (r: u32)
    requires
        off + 4 <= b@.len(),
    ensures
        r as int == le_u32(b@, off as int),
{
    b[off] as u32 + 256 * (b[off + 1] as u32) + 65536 * (b[off + 2] as u32) + 16777216 * (
    b[off + 3] as u32)
}

pub fn read_i32(b: &[u8], off: usize) -> (r: i32)
    requires
        off + 4 <= b@.len(),
    ensures
        r as int == le_i32(b@, off as int),
{
    let u = read_u32(b, off);
    if u >= 0x8000_0000 {
        let low = (u - 0x8000_0000) as i32;
        low - 0x7fff_ffff - 1
    } else {
        u as i32
    }
}

/// A copy of `b[start..end]`.
pub fn copy_range(b: &[u8], start: usize, end: usize) -> (r: Vec<u8>)
    requires
        start <= end <= b@.len(),
    ensures
        r@ == b@.subrange(start as int, end as int),
{
    let mut r: Vec<u8> = Vec::new();
    let mut i: usize = start;
    while i < end
        invariant
            start <= i <= end <= b@.len(),
            r@ == b@.subrange(start as int, i as int),
        decreases end - i,
    {
        r.push(b[i]);
        i = i + 1;
    }
    r
}

} // verus!
