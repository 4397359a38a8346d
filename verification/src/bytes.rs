//! Little-endian readers over a byte buffer.
//!
//! All multi-byte fields of a PE image are stored little-endian; these are the
//! only primitive reads the parser needs.

use vstd::prelude::*;

verus! {

/// The 16-bit little-endian value stored at offset `i` of `s`.
pub open spec fn u16_le_spec(s: Seq<u8>, i: int) -> u16
    recommends
        0 <= i,
        i + 2 <= s.len(),
{
    (s[i] as u16) | ((s[i + 1] as u16) << 8)
}

/// The 32-bit little-endian value stored at offset `i` of `s`.
pub open spec fn u32_le_spec(s: Seq<u8>, i: int) -> u32
    recommends
        0 <= i,
        i + 4 <= s.len(),
{
    (s[i] as u32) | ((s[i + 1] as u32) << 8) | ((s[i + 2] as u32) << 16) | ((s[i + 3] as u32)
        << 24)
}

/// Reads the 16-bit little-endian value at offset `off` of `data`.
pub fn read_u16_le(data: &[u8], off: usize) -> (r: u16)
    requires
        off + 2 <= data@.len(),
    ensures
        r == u16_le_spec(data@, off as int),
{
    let _len: usize = data.len();
    let b0 = *vstd::slice::slice_index_get(data, off);
    let b1 = *vstd::slice::slice_index_get(data, off + 1);
    (b0 as u16) | ((b1 as u16) << 8)
}

/// Reads the 32-bit little-endian value at offset `off` of `data`.
pub fn read_u32_le(data: &[u8], off: usize) -> (r: u32)
    requires
        off + 4 <= data@.len(),
    ensures
        r == u32_le_spec(data@, off as int),
{
    let _len: usize = data.len();
    let b0 = *vstd::slice::slice_index_get(data, off);
    let b1 = *vstd::slice::slice_index_get(data, off + 1);
    let b2 = *vstd::slice::slice_index_get(data, off + 2);
    let b3 = *vstd::slice::slice_index_get(data, off + 3);
    (b0 as u32) | ((b1 as u32) << 8) | ((b2 as u32) << 16) | ((b3 as u32) << 24)
}

} // verus!
