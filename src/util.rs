//! Byte-order helpers.
use vstd::prelude::*;

verus! {

/// The big-endian value of two bytes.
pub open spec fn be16_value(b: Seq<u8>) -> int {
    b[0] as int * 0x100 + b[1] as int
}

/// The big-endian value of four bytes.
pub open spec fn be32_value(b: Seq<u8>) -> int {
    b[0] as int * 0x100_0000 + b[1] as int * 0x1_0000 + b[2] as int * 0x100 + b[3] as int
}

/// The two big-endian bytes of `v`.
pub open spec fn be16_bytes(v: int) -> Seq<u8> {
    seq![(v / 0x100 % 0x100) as u8, (v % 0x100) as u8]
}

/// The four big-endian bytes of `v`.
pub open spec fn be32_bytes(v: int) -> Seq<u8> {
    seq![
        (v / 0x100_0000 % 0x100) as u8,
        (v / 0x1_0000 % 0x100) as u8,
        (v / 0x100 % 0x100) as u8,
        (v % 0x100) as u8,
    ]
}

/// The little-endian value of four bytes.
pub open spec fn le32_value(b: Seq<u8>) -> u32 {
    (b[0] as int + b[1] as int * 0x100 + b[2] as int * 0x1_0000 + b[3] as int * 0x100_0000) as u32
}

/// The four little-endian bytes of `v`.
pub open spec fn le32_bytes(v: u32) -> Seq<u8> {
    seq![
        (v % 0x100) as u8,
        (v / 0x100 % 0x100) as u8,
        (v / 0x1_0000 % 0x100) as u8,
        (v / 0x100_0000 % 0x100) as u8,
    ]
}

/// Adds `by` to the big-endian 16-bit number held in `data`, wrapping around.
pub fn wrapping_add_to_u16_be_bytes(data: &mut [u8], by: u16)
    requires
        old(data)@.len() == 2,
    ensures
        final(data)@ == be16_bytes((be16_value(old(data)@) + by) % 0x1_0000),
{
    let n: u32 = data[0] as u32 * 0x100 + data[1] as u32;
    let s: u32 = (n + by as u32) % 0x1_0000;
    data[0] = (s / 0x100) as u8;
    data[1] = (s % 0x100) as u8;
    assert(final(data)@ =~= be16_bytes((be16_value(old(data)@) + by) % 0x1_0000));
}

/// Adds `by` to the big-endian 32-bit number held in `data`, wrapping around.
pub fn wrapping_add_to_u32_be_bytes(data: &mut [u8], by: u32)
    requires
        old(data)@.len() == 4,
    ensures
        final(data)@ == be32_bytes((be32_value(old(data)@) + by) % 0x1_0000_0000),
{
    let n: u64 = data[0] as u64 * 0x100_0000 + data[1] as u64 * 0x1_0000 + data[2] as u64 * 0x100
        + data[3] as u64;
    let s: u64 = (n + by as u64) % 0x1_0000_0000;
    data[0] = (s / 0x100_0000 % 0x100) as u8;
    data[1] = (s / 0x1_0000 % 0x100) as u8;
    data[2] = (s / 0x100 % 0x100) as u8;
    data[3] = (s % 0x100) as u8;
    assert(final(data)@ =~= be32_bytes((be32_value(old(data)@) + by) % 0x1_0000_0000));
}

/// Reads a little-endian 32-bit number.
pub fn u32_from_le_bytes(b: [u8; 4]) -> (r: u32)
    ensures
        r == le32_value(b@),
{
    b[0] as u32 + b[1] as u32 * 0x100 + b[2] as u32 * 0x1_0000 + b[3] as u32 * 0x100_0000
}

/// Writes a 32-bit number as four little-endian bytes.
pub fn u32_to_le_bytes(v: u32) -> (r: [u8; 4])
    ensures
        r@ == le32_bytes(v),
{
    let r = [
        (v % 0x100) as u8,
        (v / 0x100 % 0x100) as u8,
        (v / 0x1_0000 % 0x100) as u8,
        (v / 0x100_0000 % 0x100) as u8,
    ];
    assert(r@ =~= le32_bytes(v));
    r
}

/// A number read from four little-endian bytes writes back as those bytes.
pub proof fn lemma_le32_bytes_round_trip(b: Seq<u8>)
    requires
        b.len() == 4,
    ensures
        le32_bytes(le32_value(b)) == b,
{
    let (b0, b1, b2, b3) = (b[0] as u32, b[1] as u32, b[2] as u32, b[3] as u32);
    let w = le32_value(b);
    assert(w == b0 + b1 * 0x100 + b2 * 0x1_0000 + b3 * 0x100_0000);
    assert(w % 0x100 == b0 && w / 0x100 % 0x100 == b1 && w / 0x1_0000 % 0x100 == b2 && w / 0x100_0000
        % 0x100 == b3) by (bit_vector)
        requires
            b0 < 0x100 && b1 < 0x100 && b2 < 0x100 && b3 < 0x100,
            w == b0 + b1 * 0x100 + b2 * 0x1_0000 + b3 * 0x100_0000,
    ;
    assert(le32_bytes(w) =~= b);
}

/// A 32-bit number written as four big-endian bytes reads back as itself.
pub proof fn lemma_be32_round_trip(x: u32)
    ensures
        be32_value(be32_bytes(x as int)) == x,
{
    assert((x / 0x100_0000 % 0x100) * 0x100_0000 + (x / 0x1_0000 % 0x100) * 0x1_0000 + (x / 0x100
        % 0x100) * 0x100 + x % 0x100 == x) by (bit_vector);
    assert(be32_bytes(x as int)[0] == x / 0x100_0000 % 0x100);
    assert(be32_bytes(x as int)[1] == x / 0x1_0000 % 0x100);
    assert(be32_bytes(x as int)[2] == x / 0x100 % 0x100);
    assert(be32_bytes(x as int)[3] == x % 0x100);
}

/// A 16-bit number written as two big-endian bytes reads back as itself.
pub proof fn lemma_be16_round_trip(x: u16)
    ensures
        be16_value(be16_bytes(x as int)) == x,
{
    assert((x / 0x100 % 0x100) * 0x100 + x % 0x100 == x) by (bit_vector);
    assert(be16_bytes(x as int)[0] == x / 0x100 % 0x100);
    assert(be16_bytes(x as int)[1] == x % 0x100);
}

} // verus!
