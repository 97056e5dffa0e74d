//! Big-endian integer codecs for the wire formats.

use vstd::prelude::*;

verus! {

/// The value of the first two bytes of `s`, read big-endian.
pub open spec fn be16_of(s: Seq<u8>) -> int
    recommends
        s.len() >= 2,
{
    s[0] as int * 256 + s[1] as int
}

/// The value of the first four bytes of `s`, read big-endian.
pub open spec fn be32_of(s: Seq<u8>) -> int
    recommends
        s.len() >= 4,
{
    s[0] as int * 16777216 + s[1] as int * 65536 + s[2] as int * 256 + s[3] as int
}

/// The two big-endian bytes of `v`.
pub open spec fn be16_bytes(v: u16) -> Seq<u8> {
    seq![(v / 256) as u8, (v % 256) as u8]
}

/// Reads a `u16` from the first two bytes of `data`, big-endian.
pub fn data_to_u16(data: &[u8]) -> (r: u16)
    requires
        data@.len() >= 2,
    ensures
        r as int == be16_of(data@),
{
    let hi: u16 = data[0] as u16;
    let lo: u16 = data[1] as u16;
    hi * 256 + lo
}

/// Reads a `u32` from the first four bytes of `data`, big-endian.
pub fn data_to_u32(data: &[u8]) -> (r: u32)
    requires
        data@.len() >= 4,
    ensures
        r as int == be32_of(data@),
{
    let b0: u32 = data[0] as u32;
    let b1: u32 = data[1] as u32;
    let b2: u32 = data[2] as u32;
    let b3: u32 = data[3] as u32;
    b0 * 16777216 + b1 * 65536 + b2 * 256 + b3
}

/// Writes `val` as two big-endian bytes.
pub fn u16_to_data(val: u16) -> (r: [u8; 2])
    ensures
        r@ == be16_bytes(val),
        be16_of(r@) == val as int,
{
    let r: [u8; 2] = [(val / 256) as u8, (val % 256) as u8];
    assert(r@ =~= be16_bytes(val));
    r
}

} // verus!
