//! Little-endian decoding of fixed-width unsigned integers from a byte
//! buffer, the only primitive the header and table readers need.

use vstd::prelude::*;

verus! {

/// The value of the two bytes of `b` starting at `off`, read as a
/// little-endian unsigned 16-bit integer.
pub open spec fn le16_at(b: Seq<u8>, off: int) -> u16
    recommends
        0 <= off,
        off + 2 <= b.len(),
{
    (b[off] + 0x100 * b[off + 1]) as u16
}

/// The value of the four bytes of `b` starting at `off`, read as a
/// little-endian unsigned 32-bit integer.
pub open spec fn le32_at(b: Seq<u8>, off: int) -> u32
    recommends
        0 <= off,
        off + 4 <= b.len(),
{
    (b[off] + 0x100 * b[off + 1] + 0x1_0000 * b[off + 2] + 0x100_0000 * b[off + 3]) as u32
}

/// Reads the little-endian 16-bit integer stored at `off` in `bytes`.
pub fn read_u16(bytes: &[u8], off: usize) -> (r: u16)
    requires
        off + 2 <= bytes@.len(),
    ensures
        r == le16_at(bytes@, off as int),
{
    // Binding the length shows the verifier that the indices below fit in
    // a usize.
    let _n: usize = bytes.len();
    let b0: u8 = *vstd::slice::slice_index_get(bytes, off);
    let b1: u8 = *vstd::slice::slice_index_get(bytes, off + 1);
    (b0 as u16) + 0x100 * (b1 as u16)
}

/// Reads the little-endian 32-bit integer stored at `off` in `bytes`.
pub fn read_u32(bytes: &[u8], off: usize) -> (r: u32)
    requires
        off + 4 <= bytes@.len(),
    ensures
        r == le32_at(bytes@, off as int),
{
    // Binding the length shows the verifier that the indices below fit in
    // a usize.
    let _n: usize = bytes.len();
    let b0: u8 = *vstd::slice::slice_index_get(bytes, off);
    let b1: u8 = *vstd::slice::slice_index_get(bytes, off + 1);
    let b2: u8 = *vstd::slice::slice_index_get(bytes, off + 2);
    let b3: u8 = *vstd::slice::slice_index_get(bytes, off + 3);
    (b0 as u32) + 0x100 * (b1 as u32) + 0x1_0000 * (b2 as u32) + 0x100_0000 * (b3 as u32)
}

} // verus!
