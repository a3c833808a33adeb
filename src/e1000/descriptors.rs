//! Receive and transmit descriptors and the rings that hold them.
//!
//! A descriptor is 16 bytes of guest memory in the datasheet's layout. Its
//! packed form is those bytes in reverse order, so that byte `k` of memory is
//! byte `15 - k` of the packed array and bit `n` of the descriptor is bit `n % 8`
//! of memory byte `n / 8`.
use vstd::prelude::*;

use crate::e1000::E1000Error;
use crate::NicContext;

verus! {

pub const DESCRIPTOR_LENGTH: usize = 16;

/// Memory byte `k` of a packed descriptor.
pub open spec fn mem(p: Seq<u8>, k: int) -> u8 {
    p[15 - k]
}

/// A byte of eight flags, bit 0 first.
pub open spec fn flag_byte(
    f0: bool,
    f1: bool,
    f2: bool,
    f3: bool,
    f4: bool,
    f5: bool,
    f6: bool,
    f7: bool,
) -> u8 {
    (if f0 { 1u8 } else { 0u8 }) | (if f1 { 2u8 } else { 0u8 }) | (if f2 { 4u8 } else { 0u8 }) | (
    if f3 { 8u8 } else { 0u8 }) | (if f4 { 16u8 } else { 0u8 }) | (if f5 { 32u8 } else { 0u8 }) | (
    if f6 { 64u8 } else { 0u8 }) | (if f7 { 128u8 } else { 0u8 })
}

/// The flags of a byte can be read back one by one, and two flag bytes combine by `|`.
pub proof fn lemma_flag_byte(
    f0: bool,
    f1: bool,
    f2: bool,
    f3: bool,
    f4: bool,
    f5: bool,
    f6: bool,
    f7: bool,
)
    ensures
        (flag_byte(f0, f1, f2, f3, f4, f5, f6, f7) & 1u8 != 0) == f0,
        (flag_byte(f0, f1, f2, f3, f4, f5, f6, f7) & 2u8 != 0) == f1,
        (flag_byte(f0, f1, f2, f3, f4, f5, f6, f7) & 4u8 != 0) == f2,
        (flag_byte(f0, f1, f2, f3, f4, f5, f6, f7) & 8u8 != 0) == f3,
        (flag_byte(f0, f1, f2, f3, f4, f5, f6, f7) & 16u8 != 0) == f4,
        (flag_byte(f0, f1, f2, f3, f4, f5, f6, f7) & 32u8 != 0) == f5,
        (flag_byte(f0, f1, f2, f3, f4, f5, f6, f7) & 64u8 != 0) == f6,
        (flag_byte(f0, f1, f2, f3, f4, f5, f6, f7) & 128u8 != 0) == f7,
{
    let x = flag_byte(f0, f1, f2, f3, f4, f5, f6, f7);
    assert(x == (if f0 { 1u8 } else { 0u8 }) | (if f1 { 2u8 } else { 0u8 }) | (if f2 {
        4u8
    } else {
        0u8
    }) | (if f3 { 8u8 } else { 0u8 }) | (if f4 { 16u8 } else { 0u8 }) | (if f5 {
        32u8
    } else {
        0u8
    }) | (if f6 { 64u8 } else { 0u8 }) | (if f7 { 128u8 } else { 0u8 }));
    assert(((x & 1u8 != 0) == f0) && ((x & 2u8 != 0) == f1) && ((x & 4u8 != 0) == f2) && ((x & 8u8
        != 0) == f3) && ((x & 16u8 != 0) == f4) && ((x & 32u8 != 0) == f5) && ((x & 64u8 != 0)
        == f6) && ((x & 128u8 != 0) == f7)) by (bit_vector)
        requires
            x == (if f0 { 1u8 } else { 0u8 }) | (if f1 { 2u8 } else { 0u8 }) | (if f2 {
                4u8
            } else {
                0u8
            }) | (if f3 { 8u8 } else { 0u8 }) | (if f4 { 16u8 } else { 0u8 }) | (if f5 {
                32u8
            } else {
                0u8
            }) | (if f6 { 64u8 } else { 0u8 }) | (if f7 { 128u8 } else { 0u8 }),
    ;
}

/// Little-endian bytes of a 64-bit value read back as that value, and the other way round.
pub proof fn lemma_le64(v: u64, b: Seq<u8>)
    requires
        b.len() == 8,
    ensures
        (v % 0x100) + (v / 0x100 % 0x100) * 0x100 + (v / 0x1_0000 % 0x100) * 0x1_0000 + (v
            / 0x100_0000 % 0x100) * 0x100_0000 + (v / 0x1_0000_0000 % 0x100) * 0x1_0000_0000 + (v
            / 0x100_0000_0000 % 0x100) * 0x100_0000_0000 + (v / 0x1_0000_0000_0000 % 0x100)
            * 0x1_0000_0000_0000 + (v / 0x100_0000_0000_0000 % 0x100) * 0x100_0000_0000_0000 == v,
        ({
            let w = b[0] as int + b[1] as int * 0x100 + b[2] as int * 0x1_0000 + b[3] as int
                * 0x100_0000 + b[4] as int * 0x1_0000_0000 + b[5] as int * 0x100_0000_0000 + b[6] as int
                * 0x1_0000_0000_0000 + b[7] as int * 0x100_0000_0000_0000;
            &&& w % 0x100 == b[0]
            &&& w / 0x100 % 0x100 == b[1]
            &&& w / 0x1_0000 % 0x100 == b[2]
            &&& w / 0x100_0000 % 0x100 == b[3]
            &&& w / 0x1_0000_0000 % 0x100 == b[4]
            &&& w / 0x100_0000_0000 % 0x100 == b[5]
            &&& w / 0x1_0000_0000_0000 % 0x100 == b[6]
            &&& w / 0x100_0000_0000_0000 % 0x100 == b[7]
        }),
{
    assert((v % 0x100) + (v / 0x100 % 0x100) * 0x100 + (v / 0x1_0000 % 0x100) * 0x1_0000 + (v
        / 0x100_0000 % 0x100) * 0x100_0000 + (v / 0x1_0000_0000 % 0x100) * 0x1_0000_0000 + (v
        / 0x100_0000_0000 % 0x100) * 0x100_0000_0000 + (v / 0x1_0000_0000_0000 % 0x100)
        * 0x1_0000_0000_0000 + (v / 0x100_0000_0000_0000 % 0x100) * 0x100_0000_0000_0000 == v)
        by (bit_vector);
    let (b0, b1, b2, b3, b4, b5, b6, b7) = (b[0] as u64, b[1] as u64, b[2] as u64, b[3] as u64, b[4] as u64, b[5] as u64, b[6] as u64, b[7] as u64);
    let w: u64 = b0 | (b1 << 8u64) | (b2 << 16u64) | (b3 << 24u64) | (b4 << 32u64) | (b5 << 40u64) | (b6 << 48u64) | (b7 << 56u64);
    assert(w == b0 + b1 * 0x100 + b2 * 0x1_0000 + b3 * 0x100_0000 + b4 * 0x1_0000_0000 + b5
        * 0x100_0000_0000 + b6 * 0x1_0000_0000_0000 + b7 * 0x100_0000_0000_0000 && w % 0x100 == b0
        && w / 0x100 % 0x100 == b1 && w / 0x1_0000 % 0x100 == b2 && w / 0x100_0000 % 0x100 == b3
        && w / 0x1_0000_0000 % 0x100 == b4 && w / 0x100_0000_0000 % 0x100 == b5 && w
        / 0x1_0000_0000_0000 % 0x100 == b6 && w / 0x100_0000_0000_0000 % 0x100 == b7)
        by (bit_vector)
        requires
            b0 < 0x100 && b1 < 0x100 && b2 < 0x100 && b3 < 0x100 && b4 < 0x100 && b5 < 0x100 && b6
                < 0x100 && b7 < 0x100,
            w == b0 | (b1 << 8u64) | (b2 << 16u64) | (b3 << 24u64) | (b4 << 32u64) | (b5 << 40u64)
                | (b6 << 48u64) | (b7 << 56u64),
    ;
}

/// Two flag bytes combine by `|` into the flag byte of their disjunctions.
pub proof fn lemma_flag_byte_or(a: Seq<bool>, b: Seq<bool>)
    requires
        a.len() == 8,
        b.len() == 8,
    ensures
        flag_byte(a[0], a[1], a[2], a[3], a[4], a[5], a[6], a[7]) | flag_byte(
            b[0],
            b[1],
            b[2],
            b[3],
            b[4],
            b[5],
            b[6],
            b[7],
        ) == flag_byte(
            a[0] || b[0],
            a[1] || b[1],
            a[2] || b[2],
            a[3] || b[3],
            a[4] || b[4],
            a[5] || b[5],
            a[6] || b[6],
            a[7] || b[7],
        ),
{
    let x = flag_byte(a[0], a[1], a[2], a[3], a[4], a[5], a[6], a[7]);
    let y = flag_byte(b[0], b[1], b[2], b[3], b[4], b[5], b[6], b[7]);
    let z = flag_byte(
        a[0] || b[0],
        a[1] || b[1],
        a[2] || b[2],
        a[3] || b[3],
        a[4] || b[4],
        a[5] || b[5],
        a[6] || b[6],
        a[7] || b[7],
    );
    lemma_flag_byte(a[0], a[1], a[2], a[3], a[4], a[5], a[6], a[7]);
    lemma_flag_byte(b[0], b[1], b[2], b[3], b[4], b[5], b[6], b[7]);
    lemma_flag_byte(
        a[0] || b[0],
        a[1] || b[1],
        a[2] || b[2],
        a[3] || b[3],
        a[4] || b[4],
        a[5] || b[5],
        a[6] || b[6],
        a[7] || b[7],
    );
    assert((x | y) == z) by (bit_vector)
        requires
            (z & 1u8 != 0) == ((x & 1u8 != 0) || (y & 1u8 != 0)),
            (z & 2u8 != 0) == ((x & 2u8 != 0) || (y & 2u8 != 0)),
            (z & 4u8 != 0) == ((x & 4u8 != 0) || (y & 4u8 != 0)),
            (z & 8u8 != 0) == ((x & 8u8 != 0) || (y & 8u8 != 0)),
            (z & 16u8 != 0) == ((x & 16u8 != 0) || (y & 16u8 != 0)),
            (z & 32u8 != 0) == ((x & 32u8 != 0) || (y & 32u8 != 0)),
            (z & 64u8 != 0) == ((x & 64u8 != 0) || (y & 64u8 != 0)),
            (z & 128u8 != 0) == ((x & 128u8 != 0) || (y & 128u8 != 0)),
    ;
}

/// Facts on single bytes that the codecs rely on.
pub proof fn lemma_byte_facts(x: u8, n: u8, d: u8)
    ensures
        x | 0u8 == x,
        0u8 | x == x,
        (((x / 16) * 16) as u8) | (x % 16) == x,
        (((x / 16) * 16) as u8) | x == x,
        n < 16 && d < 16 ==> (((d * 16) as u8) | n) % 16 == n && (((d * 16) as u8) | n) / 16 == d,
{
    assert(x | 0u8 == x) by (bit_vector);
    assert(0u8 | x == x) by (bit_vector);
    assert((((x / 16) * 16) as u8) | (x % 16) == x) by (bit_vector);
    assert((((x / 16) * 16) as u8) | x == x) by (bit_vector);
    assert(n < 16 && d < 16 ==> (((d * 16) as u8) | n) % 16 == n && (((d * 16) as u8) | n) / 16 == d)
        by (bit_vector);
}

/// Little-endian value of bytes `k..k + 8` of memory.
pub open spec fn le64_at(p: Seq<u8>, k: int) -> u64 {
    (mem(p, k) as int + mem(p, k + 1) as int * 0x100 + mem(p, k + 2) as int * 0x1_0000 + mem(p, k + 3) as int
        * 0x100_0000 + mem(p, k + 4) as int * 0x1_0000_0000 + mem(p, k + 5) as int * 0x100_0000_0000
        + mem(p, k + 6) as int * 0x1_0000_0000_0000 + mem(p, k + 7) as int * 0x100_0000_0000_0000) as u64
}

/// Little-endian value of bytes `k..k + 2` of memory.
pub open spec fn le16_at(p: Seq<u8>, k: int) -> u16 {
    (mem(p, k) as int + mem(p, k + 1) as int * 0x100) as u16
}

/// The 20-bit value of bytes `k`, `k + 1` and the low half of `k + 2`.
pub open spec fn le20_at(p: Seq<u8>, k: int) -> u32 {
    (mem(p, k) as int + mem(p, k + 1) as int * 0x100 + (mem(p, k + 2) % 16) as int * 0x1_0000) as u32
}

/// Byte `k` of the little-endian form of `v`.
pub open spec fn le_byte(v: int, k: int) -> u8 {
    (if k == 0 {
        v % 0x100
    } else if k == 1 {
        v / 0x100 % 0x100
    } else if k == 2 {
        v / 0x1_0000 % 0x100
    } else if k == 3 {
        v / 0x100_0000 % 0x100
    } else if k == 4 {
        v / 0x1_0000_0000 % 0x100
    } else if k == 5 {
        v / 0x100_0000_0000 % 0x100
    } else if k == 6 {
        v / 0x1_0000_0000_0000 % 0x100
    } else {
        v / 0x100_0000_0000_0000 % 0x100
    }) as u8
}

/// The packed form whose memory byte `k` is `m(k)`.
pub open spec fn packed_from(m: spec_fn(int) -> u8) -> Seq<u8> {
    Seq::new(16, |i: int| m(15 - i))
}

pub proof fn lemma_small_le(v: u32, w: u16, a: u8, b: u8, c: u8)
    ensures
        w as int % 0x100 + (w as int / 0x100 % 0x100) * 0x100 == w,
        ((a as int + b as int * 0x100) % 0x100) == a,
        ((a as int + b as int * 0x100) / 0x100 % 0x100) == b,
        v < 0x10_0000 ==> v as int % 0x100 + (v as int / 0x100 % 0x100) * 0x100 + (v as int / 0x1_0000
            % 16) * 0x1_0000 == v,
        ({
            let t = a as int + b as int * 0x100 + (c % 16) as int * 0x1_0000;
            &&& t % 0x100 == a
            &&& t / 0x100 % 0x100 == b
            &&& t / 0x1_0000 % 16 == c % 16
            &&& t < 0x10_0000
        }),
{
    assert(w as int % 0x100 + (w as int / 0x100 % 0x100) * 0x100 == w) by (nonlinear_arith);
    assert(((a as int + b as int * 0x100) % 0x100) == a) by (nonlinear_arith);
    assert(((a as int + b as int * 0x100) / 0x100 % 0x100) == b) by (nonlinear_arith);
    assert(v < 0x10_0000 ==> v as int % 0x100 + (v as int / 0x100 % 0x100) * 0x100 + (v as int
        / 0x1_0000 % 16) * 0x1_0000 == v) by (nonlinear_arith);
    let t = a as int + b as int * 0x100 + (c % 16) as int * 0x1_0000;
    assert(t % 0x100 == a && t / 0x100 % 0x100 == b && t / 0x1_0000 % 16 == c % 16 && t
        < 0x10_0000) by (nonlinear_arith)
        requires
            t == a as int + b as int * 0x100 + (c % 16) as int * 0x1_0000,
            a < 0x100,
            b < 0x100,
    ;
}

/// The low 16 bits of a value hold its two low bytes.
pub proof fn lemma_low16(v: u32)
    ensures
        (v % 0x1_0000) as u16 % 0x100 == v % 0x100,
        (v % 0x1_0000) as u16 / 0x100 % 0x100 == v / 0x100 % 0x100,
{
    assert((v % 0x1_0000) % 0x100 == v % 0x100) by (bit_vector);
    assert((v % 0x1_0000) / 0x100 % 0x100 == v / 0x100 % 0x100) by (bit_vector);
}

// Executable byte access in memory order.

fn get_le64(p: &[u8; 16], k: usize) -> (r: u64)
    requires
        k + 8 <= 16,
    ensures
        r == le64_at(p@, k as int),
{
    p[15 - k] as u64 + p[14 - k] as u64 * 0x100 + p[13 - k] as u64 * 0x1_0000 + p[12 - k] as u64
        * 0x100_0000 + p[11 - k] as u64 * 0x1_0000_0000 + p[10 - k] as u64 * 0x100_0000_0000
        + p[9 - k] as u64 * 0x1_0000_0000_0000 + p[8 - k] as u64 * 0x100_0000_0000_0000
}

fn get_le16(p: &[u8; 16], k: usize) -> (r: u16)
    requires
        k + 2 <= 16,
    ensures
        r == le16_at(p@, k as int),
{
    p[15 - k] as u16 + p[14 - k] as u16 * 0x100
}

fn get_le20(p: &[u8; 16], k: usize) -> (r: u32)
    requires
        k + 3 <= 16,
    ensures
        r == le20_at(p@, k as int),
        r < 0x10_0000,
{
    p[15 - k] as u32 + p[14 - k] as u32 * 0x100 + (p[13 - k] % 16) as u32 * 0x1_0000
}

fn put_le64(p: &mut [u8; 16], k: usize, v: u64)
    requires
        k + 8 <= 16,
    ensures
        forall|i: int| 0 <= i < 16 && !(k <= i < k + 8) ==> mem(final(p)@, i) == mem(old(p)@, i),
        mem(final(p)@, k as int) == (v % 0x100) as u8,
        mem(final(p)@, k + 1) == (v / 0x100 % 0x100) as u8,
        mem(final(p)@, k + 2) == (v / 0x1_0000 % 0x100) as u8,
        mem(final(p)@, k + 3) == (v / 0x100_0000 % 0x100) as u8,
        mem(final(p)@, k + 4) == (v / 0x1_0000_0000 % 0x100) as u8,
        mem(final(p)@, k + 5) == (v / 0x100_0000_0000 % 0x100) as u8,
        mem(final(p)@, k + 6) == (v / 0x1_0000_0000_0000 % 0x100) as u8,
        mem(final(p)@, k + 7) == (v / 0x100_0000_0000_0000 % 0x100) as u8,
{
    p[15 - k] = (v % 0x100) as u8;
    p[14 - k] = (v / 0x100 % 0x100) as u8;
    p[13 - k] = (v / 0x1_0000 % 0x100) as u8;
    p[12 - k] = (v / 0x100_0000 % 0x100) as u8;
    p[11 - k] = (v / 0x1_0000_0000 % 0x100) as u8;
    p[10 - k] = (v / 0x100_0000_0000 % 0x100) as u8;
    p[9 - k] = (v / 0x1_0000_0000_0000 % 0x100) as u8;
    p[8 - k] = (v / 0x100_0000_0000_0000 % 0x100) as u8;
}

fn put_le16(p: &mut [u8; 16], k: usize, v: u16)
    requires
        k + 2 <= 16,
    ensures
        forall|i: int| 0 <= i < 16 && !(k <= i < k + 2) ==> mem(final(p)@, i) == mem(old(p)@, i),
        mem(final(p)@, k as int) == (v % 0x100) as u8,
        mem(final(p)@, k + 1) == (v / 0x100 % 0x100) as u8,
{
    p[15 - k] = (v % 0x100) as u8;
    p[14 - k] = (v / 0x100 % 0x100) as u8;
}

fn put_byte(p: &mut [u8; 16], k: usize, v: u8)
    requires
        k < 16,
    ensures
        forall|i: int| 0 <= i < 16 && i != k ==> mem(final(p)@, i) == mem(old(p)@, i),
        mem(final(p)@, k as int) == v,
{
    p[15 - k] = v;
}

fn flags(f0: bool, f1: bool, f2: bool, f3: bool, f4: bool, f5: bool, f6: bool, f7: bool) -> (r: u8)
    ensures
        r == flag_byte(f0, f1, f2, f3, f4, f5, f6, f7),
{
    (if f0 { 1u8 } else { 0u8 }) | (if f1 { 2u8 } else { 0u8 }) | (if f2 { 4u8 } else { 0u8 }) | (
    if f3 { 8u8 } else { 0u8 }) | (if f4 { 16u8 } else { 0u8 }) | (if f5 { 32u8 } else { 0u8 }) | (
    if f6 { 64u8 } else { 0u8 }) | (if f7 { 128u8 } else { 0u8 })
}

/// A receive descriptor, written back by the device once a frame is placed.
#[derive(Debug, Clone, Copy, PartialEq, Eq, Structural)]
pub struct ReceiveDescriptor {
    /// Guest address of the receive buffer (bits 0..64).
    pub buffer: u64,
    /// Length of the received frame (bits 64..80).
    pub length: u16,
    /// Descriptor done (bit 96).
    pub status_dd: bool,
    /// End of packet (bit 97).
    pub status_eop: bool,
}

impl ReceiveDescriptor {
    /// Memory byte `k` of the descriptor; "ignore checksum indication" (bit 98) is always set.
    pub open spec fn spec_mem_byte(self, k: int) -> u8 {
        if k < 8 {
            le_byte(self.buffer as int, k)
        } else if k < 10 {
            le_byte(self.length as int, k - 8)
        } else if k == 12 {
            flag_byte(self.status_dd, self.status_eop, true, false, false, false, false, false)
        } else {
            0
        }
    }

    pub open spec fn spec_pack(self) -> Seq<u8> {
        packed_from(|k: int| self.spec_mem_byte(k))
    }

    pub open spec fn spec_unpack(p: Seq<u8>) -> ReceiveDescriptor {
        ReceiveDescriptor {
            buffer: le64_at(p, 0),
            length: le16_at(p, 8),
            status_dd: mem(p, 12) & 1u8 != 0,
            status_eop: mem(p, 12) & 2u8 != 0,
        }
    }

    /// Memory bytes that the model fully describes: the bits outside its fields are
    /// zero and "ignore checksum indication" is set.
    pub open spec fn is_canonical(p: Seq<u8>) -> bool {
        &&& p.len() == 16
        &&& mem(p, 10) == 0 && mem(p, 11) == 0 && mem(p, 13) == 0 && mem(p, 14) == 0 && mem(p, 15)
            == 0
        &&& mem(p, 12) == flag_byte(
            mem(p, 12) & 1u8 != 0,
            mem(p, 12) & 2u8 != 0,
            true,
            false,
            false,
            false,
            false,
            false,
        )
    }

    pub fn pack(&self) -> (r: [u8; 16])
        ensures
            r@ == self.spec_pack(),
    {
        let mut p = [0u8; 16];
        put_le64(&mut p, 0, self.buffer);
        put_le16(&mut p, 8, self.length);
        put_byte(&mut p, 12, flags(self.status_dd, self.status_eop, true, false, false, false, false, false));
        assert(p@ =~= self.spec_pack()) by {
            assert forall|i: int| 0 <= i < 16 implies p@[i] == self.spec_pack()[i] by {
                assert(p@[i] == mem(p@, 15 - i));
            }
        }
        p
    }

    pub fn unpack(p: &[u8; 16]) -> (r: ReceiveDescriptor)
        ensures
            r == Self::spec_unpack(p@),
    {
        ReceiveDescriptor {
            buffer: get_le64(p, 0),
            length: get_le16(p, 8),
            status_dd: p[3] & 1u8 != 0,
            status_eop: p[3] & 2u8 != 0,
        }
    }
}

/// Unpacking a packed receive descriptor gives it back.
pub proof fn lemma_receive_descriptor_round_trip(d: ReceiveDescriptor)
    ensures
        ReceiveDescriptor::spec_unpack(d.spec_pack()) == d,
{
    let p = d.spec_pack();
    assert forall|k: int| 0 <= k < 16 implies mem(p, k) == d.spec_mem_byte(k) by {}
    lemma_le64(d.buffer, seq![0u8, 0, 0, 0, 0, 0, 0, 0]);
    lemma_small_le(0, d.length, 0, 0, 0);
    lemma_flag_byte(d.status_dd, d.status_eop, true, false, false, false, false, false);
}

/// Descriptor memory bytes, reversed into packed form, unpacked, packed and reversed
/// again, are the bytes themselves, where the model describes all their bits.
pub proof fn lemma_receive_descriptor_bytes_round_trip(b: Seq<u8>)
    requires
        b.len() == 16,
        ReceiveDescriptor::is_canonical(b.reverse()),
    ensures
        ReceiveDescriptor::spec_unpack(b.reverse()).spec_pack().reverse() == b,
{
    let p = b.reverse();
    let d = ReceiveDescriptor::spec_unpack(p);
    let q = d.spec_pack();
    let m = seq![mem(p, 0), mem(p, 1), mem(p, 2), mem(p, 3), mem(p, 4), mem(p, 5), mem(p, 6), mem(p, 7)];
    lemma_le64(0, m);
    lemma_small_le(0, 0, mem(p, 8), mem(p, 9), 0);
    lemma_flag_byte(mem(p, 12) & 1u8 != 0, mem(p, 12) & 2u8 != 0, true, false, false, false, false, false);
    assert forall|k: int| 0 <= k < 16 implies mem(q, k) == mem(p, k) by {}
    assert(q =~= p);
    assert(q.reverse() =~= b);
}

/// The fields that all transmit descriptors share.
#[derive(Debug, Clone, Copy, PartialEq, Eq, Structural)]
pub struct TransmitDescriptorCommon {
    /// Extension type (bits 84..88): 0 for a TCP/IP context, 1 for TCP/IP data.
    pub dtyp: u8,
    /// Report status (bit 91).
    pub cmd_rs: bool,
    /// Report packet sent (bit 92), treated like report status.
    pub cmd_rps: bool,
    /// Extension (bit 93): clear for a legacy descriptor.
    pub cmd_dext: bool,
    /// Descriptor done (bit 96).
    pub status_dd: bool,
}

impl TransmitDescriptorCommon {
    pub open spec fn spec_mem_byte(self, k: int) -> u8 {
        if k == 10 {
            (self.dtyp as int * 16) as u8
        } else if k == 11 {
            flag_byte(false, false, false, self.cmd_rs, self.cmd_rps, self.cmd_dext, false, false)
        } else if k == 12 {
            flag_byte(self.status_dd, false, false, false, false, false, false, false)
        } else {
            0
        }
    }

    pub open spec fn spec_pack(self) -> Seq<u8> {
        packed_from(|k: int| self.spec_mem_byte(k))
    }

    pub open spec fn spec_unpack(p: Seq<u8>) -> TransmitDescriptorCommon {
        TransmitDescriptorCommon {
            dtyp: mem(p, 10) / 16,
            cmd_rs: mem(p, 11) & 8u8 != 0,
            cmd_rps: mem(p, 11) & 16u8 != 0,
            cmd_dext: mem(p, 11) & 32u8 != 0,
            status_dd: mem(p, 12) & 1u8 != 0,
        }
    }

    pub open spec fn spec_report_status(self) -> bool {
        self.cmd_rs || self.cmd_rps
    }

    /// Whether the driver asks for the descriptor to be written back when done.
    pub fn report_status(&self) -> (r: bool)
        ensures
            r == self.spec_report_status(),
    {
        self.cmd_rs || self.cmd_rps
    }

    pub fn pack(&self) -> (r: [u8; 16])
        requires
            self.dtyp < 16,
        ensures
            r@ == self.spec_pack(),
    {
        let mut p = [0u8; 16];
        put_byte(&mut p, 10, self.dtyp * 16);
        put_byte(&mut p, 11, flags(false, false, false, self.cmd_rs, self.cmd_rps, self.cmd_dext, false, false));
        put_byte(&mut p, 12, flags(self.status_dd, false, false, false, false, false, false, false));
        assert(p@ =~= self.spec_pack()) by {
            assert forall|i: int| 0 <= i < 16 implies p@[i] == self.spec_pack()[i] by {
                assert(p@[i] == mem(p@, 15 - i));
            }
        }
        p
    }

    pub fn unpack(p: &[u8; 16]) -> (r: TransmitDescriptorCommon)
        ensures
            r == Self::spec_unpack(p@),
    {
        TransmitDescriptorCommon {
            dtyp: p[5] / 16,
            cmd_rs: p[4] & 8u8 != 0,
            cmd_rps: p[4] & 16u8 != 0,
            cmd_dext: p[4] & 32u8 != 0,
            status_dd: p[3] & 1u8 != 0,
        }
    }
}

/// Legacy transmit descriptor.
#[derive(Debug, Clone, Copy, PartialEq, Eq, Structural)]
pub struct TransmitDescriptorLegacy {
    /// Guest address of the data (bits 0..64).
    pub buffer: u64,
    /// Length of the data (bits 64..80).
    pub length: u16,
    /// Checksum offset (bits 80..88).
    pub cso: u8,
    /// End of packet (bit 88).
    pub cmd_eop: bool,
    /// Insert checksum (bit 90).
    pub cmd_ic: bool,
    /// Checksum start (bits 104..112).
    pub css: u8,
    /// Kept so that a write-back does not clear it (bits 112..128).
    pub special: u16,
}

impl TransmitDescriptorLegacy {
    pub open spec fn spec_mem_byte(self, k: int) -> u8 {
        if k < 8 {
            le_byte(self.buffer as int, k)
        } else if k < 10 {
            le_byte(self.length as int, k - 8)
        } else if k == 10 {
            self.cso
        } else if k == 11 {
            flag_byte(self.cmd_eop, false, self.cmd_ic, false, false, false, false, false)
        } else if k == 13 {
            self.css
        } else if k >= 14 {
            le_byte(self.special as int, k - 14)
        } else {
            0
        }
    }

    pub open spec fn spec_pack(self) -> Seq<u8> {
        packed_from(|k: int| self.spec_mem_byte(k))
    }

    pub open spec fn spec_unpack(p: Seq<u8>) -> TransmitDescriptorLegacy {
        TransmitDescriptorLegacy {
            buffer: le64_at(p, 0),
            length: le16_at(p, 8),
            cso: mem(p, 10),
            cmd_eop: mem(p, 11) & 1u8 != 0,
            cmd_ic: mem(p, 11) & 4u8 != 0,
            css: mem(p, 13),
            special: le16_at(p, 14),
        }
    }

    pub fn pack(&self) -> (r: [u8; 16])
        ensures
            r@ == self.spec_pack(),
    {
        let mut p = [0u8; 16];
        put_le64(&mut p, 0, self.buffer);
        put_le16(&mut p, 8, self.length);
        put_byte(&mut p, 10, self.cso);
        put_byte(&mut p, 11, flags(self.cmd_eop, false, self.cmd_ic, false, false, false, false, false));
        put_byte(&mut p, 13, self.css);
        put_le16(&mut p, 14, self.special);
        assert(p@ =~= self.spec_pack()) by {
            assert forall|i: int| 0 <= i < 16 implies p@[i] == self.spec_pack()[i] by {
                assert(p@[i] == mem(p@, 15 - i));
            }
        }
        p
    }

    pub fn unpack(p: &[u8; 16]) -> (r: TransmitDescriptorLegacy)
        ensures
            r == Self::spec_unpack(p@),
    {
        TransmitDescriptorLegacy {
            buffer: get_le64(p, 0),
            length: get_le16(p, 8),
            cso: p[5],
            cmd_eop: p[4] & 1u8 != 0,
            cmd_ic: p[4] & 4u8 != 0,
            css: p[2],
            special: get_le16(p, 14),
        }
    }
}

/// TCP/IP context transmit descriptor: carries no data, and sets up checksum
/// offload and segmentation for the data descriptors that follow it.
#[derive(Debug, Clone, Copy, PartialEq, Eq, Structural)]
pub struct TransmitDescriptorTcpContext {
    /// IP checksum start (bits 0..8).
    pub ip_css: u8,
    /// IP checksum offset (bits 8..16).
    pub ip_cso: u8,
    /// IP checksum end, inclusive; zero for the end of the packet (bits 16..32).
    pub ip_cse: u16,
    /// TCP/UDP checksum start (bits 32..40).
    pub tu_css: u8,
    /// TCP/UDP checksum offset (bits 40..48).
    pub tu_cso: u8,
    /// TCP/UDP checksum end, inclusive; zero for the end of the packet (bits 48..64).
    pub tu_cse: u16,
    /// Payload length, 20 bits (bits 64..84).
    pub paylen: u32,
    /// TCP rather than UDP (bit 88).
    pub tucmd_tcp: bool,
    /// IPv4 rather than IPv6 (bit 89).
    pub tucmd_ip: bool,
    /// TCP segmentation enable (bit 90).
    pub tucmd_tse: bool,
    /// Header length (bits 104..112).
    pub hdrlen: u8,
    /// Maximum segment size (bits 112..128).
    pub mss: u16,
}

impl TransmitDescriptorTcpContext {
    pub open spec fn spec_mem_byte(self, k: int) -> u8 {
        if k == 0 {
            self.ip_css
        } else if k == 1 {
            self.ip_cso
        } else if k < 4 {
            le_byte(self.ip_cse as int, k - 2)
        } else if k == 4 {
            self.tu_css
        } else if k == 5 {
            self.tu_cso
        } else if k < 8 {
            le_byte(self.tu_cse as int, k - 6)
        } else if k < 10 {
            le_byte(self.paylen as int, k - 8)
        } else if k == 10 {
            (self.paylen as int / 0x1_0000 % 16) as u8
        } else if k == 11 {
            flag_byte(self.tucmd_tcp, self.tucmd_ip, self.tucmd_tse, false, false, false, false, false)
        } else if k == 13 {
            self.hdrlen
        } else if k >= 14 {
            le_byte(self.mss as int, k - 14)
        } else {
            0
        }
    }

    pub open spec fn spec_pack(self) -> Seq<u8> {
        packed_from(|k: int| self.spec_mem_byte(k))
    }

    pub open spec fn spec_unpack(p: Seq<u8>) -> TransmitDescriptorTcpContext {
        TransmitDescriptorTcpContext {
            ip_css: mem(p, 0),
            ip_cso: mem(p, 1),
            ip_cse: le16_at(p, 2),
            tu_css: mem(p, 4),
            tu_cso: mem(p, 5),
            tu_cse: le16_at(p, 6),
            paylen: le20_at(p, 8),
            tucmd_tcp: mem(p, 11) & 1u8 != 0,
            tucmd_ip: mem(p, 11) & 2u8 != 0,
            tucmd_tse: mem(p, 11) & 4u8 != 0,
            hdrlen: mem(p, 13),
            mss: le16_at(p, 14),
        }
    }

    pub fn pack(&self) -> (r: [u8; 16])
        ensures
            r@ == self.spec_pack(),
    {
        let mut p = [0u8; 16];
        put_byte(&mut p, 0, self.ip_css);
        put_byte(&mut p, 1, self.ip_cso);
        put_le16(&mut p, 2, self.ip_cse);
        put_byte(&mut p, 4, self.tu_css);
        put_byte(&mut p, 5, self.tu_cso);
        put_le16(&mut p, 6, self.tu_cse);
        put_le16(&mut p, 8, (self.paylen % 0x1_0000) as u16);
        proof {
            lemma_low16(self.paylen);
        }
        put_byte(&mut p, 10, (self.paylen / 0x1_0000 % 16) as u8);
        put_byte(&mut p, 11, flags(self.tucmd_tcp, self.tucmd_ip, self.tucmd_tse, false, false, false, false, false));
        put_byte(&mut p, 13, self.hdrlen);
        put_le16(&mut p, 14, self.mss);
        assert(p@ =~= self.spec_pack()) by {
            assert forall|i: int| 0 <= i < 16 implies p@[i] == self.spec_pack()[i] by {
                assert(p@[i] == mem(p@, 15 - i));
            }
        }
        p
    }

    pub fn unpack(p: &[u8; 16]) -> (r: TransmitDescriptorTcpContext)
        ensures
            r == Self::spec_unpack(p@),
    {
        TransmitDescriptorTcpContext {
            ip_css: p[15],
            ip_cso: p[14],
            ip_cse: get_le16(p, 2),
            tu_css: p[11],
            tu_cso: p[10],
            tu_cse: get_le16(p, 6),
            paylen: get_le20(p, 8),
            tucmd_tcp: p[4] & 1u8 != 0,
            tucmd_ip: p[4] & 2u8 != 0,
            tucmd_tse: p[4] & 4u8 != 0,
            hdrlen: p[2],
            mss: get_le16(p, 14),
        }
    }
}

/// TCP/IP data transmit descriptor.
#[derive(Debug, Clone, Copy, PartialEq, Eq, Structural)]
pub struct TransmitDescriptorTcpData {
    /// Guest address of the data (bits 0..64).
    pub buffer: u64,
    /// Length of the data, 20 bits (bits 64..84).
    pub length: u32,
    /// End of packet (bit 88).
    pub dcmd_eop: bool,
    /// Insert IP checksum (bit 104).
    pub popts_ixsm: bool,
    /// Insert TCP/UDP checksum (bit 105).
    pub popts_txsm: bool,
    /// Kept so that a write-back does not clear it (bits 112..128).
    pub special: u16,
}

impl TransmitDescriptorTcpData {
    pub open spec fn spec_mem_byte(self, k: int) -> u8 {
        if k < 8 {
            le_byte(self.buffer as int, k)
        } else if k < 10 {
            le_byte(self.length as int, k - 8)
        } else if k == 10 {
            (self.length as int / 0x1_0000 % 16) as u8
        } else if k == 11 {
            flag_byte(self.dcmd_eop, false, false, false, false, false, false, false)
        } else if k == 13 {
            flag_byte(self.popts_ixsm, self.popts_txsm, false, false, false, false, false, false)
        } else if k >= 14 {
            le_byte(self.special as int, k - 14)
        } else {
            0
        }
    }

    pub open spec fn spec_pack(self) -> Seq<u8> {
        packed_from(|k: int| self.spec_mem_byte(k))
    }

    pub open spec fn spec_unpack(p: Seq<u8>) -> TransmitDescriptorTcpData {
        TransmitDescriptorTcpData {
            buffer: le64_at(p, 0),
            length: le20_at(p, 8),
            dcmd_eop: mem(p, 11) & 1u8 != 0,
            popts_ixsm: mem(p, 13) & 1u8 != 0,
            popts_txsm: mem(p, 13) & 2u8 != 0,
            special: le16_at(p, 14),
        }
    }

    pub fn pack(&self) -> (r: [u8; 16])
        ensures
            r@ == self.spec_pack(),
    {
        let mut p = [0u8; 16];
        put_le64(&mut p, 0, self.buffer);
        put_le16(&mut p, 8, (self.length % 0x1_0000) as u16);
        proof {
            lemma_low16(self.length);
        }
        put_byte(&mut p, 10, (self.length / 0x1_0000 % 16) as u8);
        put_byte(&mut p, 11, flags(self.dcmd_eop, false, false, false, false, false, false, false));
        put_byte(&mut p, 13, flags(self.popts_ixsm, self.popts_txsm, false, false, false, false, false, false));
        put_le16(&mut p, 14, self.special);
        assert(p@ =~= self.spec_pack()) by {
            assert forall|i: int| 0 <= i < 16 implies p@[i] == self.spec_pack()[i] by {
                assert(p@[i] == mem(p@, 15 - i));
            }
        }
        p
    }

    pub fn unpack(p: &[u8; 16]) -> (r: TransmitDescriptorTcpData)
        ensures
            r == Self::spec_unpack(p@),
    {
        TransmitDescriptorTcpData {
            buffer: get_le64(p, 0),
            length: get_le20(p, 8),
            dcmd_eop: p[4] & 1u8 != 0,
            popts_ixsm: p[2] & 1u8 != 0,
            popts_txsm: p[2] & 2u8 != 0,
            special: get_le16(p, 14),
        }
    }
}

#[derive(Debug, Clone, Copy, PartialEq, Eq, Structural)]
pub enum TransmitDescriptorVariant {
    Legacy(TransmitDescriptorLegacy),
    TcpContext(TransmitDescriptorTcpContext),
    TcpData(TransmitDescriptorTcpData),
}

/// A transmit descriptor: the shared fields and the fields of its type.
#[derive(Debug, Clone, Copy, PartialEq, Eq, Structural)]
pub struct TransmitDescriptor {
    pub common: TransmitDescriptorCommon,
    pub variant: TransmitDescriptorVariant,
}

/// Bytewise `|` of two packed forms.
pub open spec fn or_bytes(a: Seq<u8>, b: Seq<u8>) -> Seq<u8> {
    Seq::new(16, |i: int| a[i] | b[i])
}

impl TransmitDescriptorVariant {
    pub open spec fn spec_pack(self) -> Seq<u8> {
        match self {
            TransmitDescriptorVariant::Legacy(d) => d.spec_pack(),
            TransmitDescriptorVariant::TcpContext(d) => d.spec_pack(),
            TransmitDescriptorVariant::TcpData(d) => d.spec_pack(),
        }
    }
}

impl TransmitDescriptor {
    /// The shared fields agree with the type, and every field fits its bits.
    pub open spec fn wf(self) -> bool {
        &&& self.common.dtyp < 16
        &&& match self.variant {
            TransmitDescriptorVariant::Legacy(d) => !self.common.cmd_dext && self.common.dtyp == d.cso
                / 16,
            TransmitDescriptorVariant::TcpContext(d) => self.common.cmd_dext && self.common.dtyp == 0
                && d.paylen < 0x10_0000,
            TransmitDescriptorVariant::TcpData(d) => self.common.cmd_dext && self.common.dtyp == 1
                && d.length < 0x10_0000,
        }
    }

    pub open spec fn spec_pack(self) -> Seq<u8> {
        or_bytes(self.common.spec_pack(), self.variant.spec_pack())
    }

    /// The descriptor that packed bytes hold: the extension bit and type select the variant.
    pub open spec fn spec_unpack(p: Seq<u8>) -> Result<TransmitDescriptor, E1000Error> {
        let common = TransmitDescriptorCommon::spec_unpack(p);
        if !common.cmd_dext {
            Ok(
                TransmitDescriptor {
                    common,
                    variant: TransmitDescriptorVariant::Legacy(
                        TransmitDescriptorLegacy::spec_unpack(p),
                    ),
                },
            )
        } else if common.dtyp == 0 {
            Ok(
                TransmitDescriptor {
                    common,
                    variant: TransmitDescriptorVariant::TcpContext(
                        TransmitDescriptorTcpContext::spec_unpack(p),
                    ),
                },
            )
        } else if common.dtyp == 1 {
            Ok(
                TransmitDescriptor {
                    common,
                    variant: TransmitDescriptorVariant::TcpData(
                        TransmitDescriptorTcpData::spec_unpack(p),
                    ),
                },
            )
        } else {
            Err(E1000Error::BadDescriptor)
        }
    }

    /// Memory bytes that the model fully describes: a known type, and no bits set
    /// in the command, status and option bytes outside the type's fields.
    pub open spec fn is_canonical(p: Seq<u8>) -> bool {
        let c = mem(p, 11);
        let st = mem(p, 12);
        let dext = c & 32u8 != 0;
        let dtyp = mem(p, 10) / 16;
        &&& p.len() == 16
        &&& st == flag_byte(st & 1u8 != 0, false, false, false, false, false, false, false)
        &&& if !dext {
            &&& c == flag_byte(c & 1u8 != 0, false, c & 4u8 != 0, c & 8u8 != 0, c & 16u8 != 0, false, false, false)
            &&& mem(p, 12) == st
        } else if dtyp == 0 {
            c == flag_byte(c & 1u8 != 0, c & 2u8 != 0, c & 4u8 != 0, c & 8u8 != 0, c & 16u8 != 0, true, false, false)
        } else if dtyp == 1 {
            &&& c == flag_byte(c & 1u8 != 0, false, false, c & 8u8 != 0, c & 16u8 != 0, true, false, false)
            &&& mem(p, 13) == flag_byte(mem(p, 13) & 1u8 != 0, mem(p, 13) & 2u8 != 0, false, false, false, false, false, false)
        } else {
            false
        }
    }

    pub fn pack(&self) -> (r: [u8; 16])
        requires
            self.common.dtyp < 16,
        ensures
            r@ == self.spec_pack(),
    {
        let common = self.common.pack();
        let variant = match &self.variant {
            TransmitDescriptorVariant::Legacy(d) => d.pack(),
            TransmitDescriptorVariant::TcpContext(d) => d.pack(),
            TransmitDescriptorVariant::TcpData(d) => d.pack(),
        };
        let mut combined = common;
        let mut i: usize = 0;
        while i < 16
            invariant
                0 <= i <= 16,
                common@ == self.common.spec_pack(),
                variant@ == self.variant.spec_pack(),
                forall|j: int| 0 <= j < i ==> combined@[j] == common@[j] | variant@[j],
                forall|j: int| i <= j < 16 ==> combined@[j] == common@[j],
            decreases 16 - i,
        {
            combined[i] = combined[i] | variant[i];
            i = i + 1;
        }
        assert(combined@ =~= self.spec_pack());
        combined
    }

    pub fn unpack(p: &[u8; 16]) -> (r: Result<TransmitDescriptor, E1000Error>)
        ensures
            r == Self::spec_unpack(p@),
    {
        let common = TransmitDescriptorCommon::unpack(p);
        if !common.cmd_dext {
            Ok(
                TransmitDescriptor {
                    common,
                    variant: TransmitDescriptorVariant::Legacy(TransmitDescriptorLegacy::unpack(p)),
                },
            )
        } else if common.dtyp == 0 {
            Ok(
                TransmitDescriptor {
                    common,
                    variant: TransmitDescriptorVariant::TcpContext(
                        TransmitDescriptorTcpContext::unpack(p),
                    ),
                },
            )
        } else if common.dtyp == 1 {
            Ok(
                TransmitDescriptor {
                    common,
                    variant: TransmitDescriptorVariant::TcpData(TransmitDescriptorTcpData::unpack(p)),
                },
            )
        } else {
            Err(E1000Error::BadDescriptor)
        }
    }

    pub open spec fn spec_report_status(self) -> bool {
        self.common.spec_report_status()
    }

    /// Whether the driver asks for the descriptor to be written back when done.
    pub fn report_status(&self) -> (r: bool)
        ensures
            r == self.spec_report_status(),
    {
        self.common.report_status()
    }
}

proof fn lemma_legacy_round_trip(c: TransmitDescriptorCommon, v: TransmitDescriptorLegacy)
    requires
        (TransmitDescriptor { common: c, variant: TransmitDescriptorVariant::Legacy(v) }).wf(),
    ensures
        ({
            let d = TransmitDescriptor { common: c, variant: TransmitDescriptorVariant::Legacy(v) };
            TransmitDescriptor::spec_unpack(d.spec_pack()) == Ok::<TransmitDescriptor, E1000Error>(d)
        }),
{
    let d = TransmitDescriptor { common: c, variant: TransmitDescriptorVariant::Legacy(v) };
    let p = d.spec_pack();
    assert forall|k: int| 0 <= k < 16 && k != 10 && k != 11 && k != 12 implies mem(p, k)
        == v.spec_mem_byte(k) by {
        lemma_byte_facts(v.spec_mem_byte(k), 0, 0);
    }
    lemma_byte_facts(v.cso, 0, 0);
    assert(mem(p, 10) == v.cso);
    lemma_flag_byte_or(
        seq![false, false, false, c.cmd_rs, c.cmd_rps, c.cmd_dext, false, false],
        seq![v.cmd_eop, false, v.cmd_ic, false, false, false, false, false],
    );
    lemma_flag_byte(v.cmd_eop, false, v.cmd_ic, c.cmd_rs, c.cmd_rps, c.cmd_dext, false, false);
    assert(mem(p, 11) == flag_byte(v.cmd_eop, false, v.cmd_ic, c.cmd_rs, c.cmd_rps, c.cmd_dext, false, false));
    lemma_byte_facts(flag_byte(c.status_dd, false, false, false, false, false, false, false), 0, 0);
    lemma_flag_byte(c.status_dd, false, false, false, false, false, false, false);
    assert(mem(p, 12) == flag_byte(c.status_dd, false, false, false, false, false, false, false));
    lemma_le64(v.buffer, seq![0u8, 0, 0, 0, 0, 0, 0, 0]);
    lemma_small_le(0, v.length, 0, 0, 0);
    lemma_small_le(0, v.special, 0, 0, 0);
}

proof fn lemma_context_round_trip(c: TransmitDescriptorCommon, v: TransmitDescriptorTcpContext)
    requires
        (TransmitDescriptor { common: c, variant: TransmitDescriptorVariant::TcpContext(v) }).wf(),
    ensures
        ({
            let d = TransmitDescriptor { common: c, variant: TransmitDescriptorVariant::TcpContext(v) };
            TransmitDescriptor::spec_unpack(d.spec_pack()) == Ok::<TransmitDescriptor, E1000Error>(d)
        }),
{
    let d = TransmitDescriptor { common: c, variant: TransmitDescriptorVariant::TcpContext(v) };
    let p = d.spec_pack();
    assert forall|k: int| 0 <= k < 16 && k != 10 && k != 11 && k != 12 implies mem(p, k)
        == v.spec_mem_byte(k) by {
        lemma_byte_facts(v.spec_mem_byte(k), 0, 0);
    }
    let nibble = (v.paylen as int / 0x1_0000 % 16) as u8;
    lemma_byte_facts(0, nibble, 0);
    assert(mem(p, 10) == 0u8 | nibble);
    lemma_flag_byte_or(
        seq![false, false, false, c.cmd_rs, c.cmd_rps, c.cmd_dext, false, false],
        seq![v.tucmd_tcp, v.tucmd_ip, v.tucmd_tse, false, false, false, false, false],
    );
    lemma_flag_byte(v.tucmd_tcp, v.tucmd_ip, v.tucmd_tse, c.cmd_rs, c.cmd_rps, c.cmd_dext, false, false);
    assert(mem(p, 11) == flag_byte(v.tucmd_tcp, v.tucmd_ip, v.tucmd_tse, c.cmd_rs, c.cmd_rps, c.cmd_dext, false, false));
    lemma_byte_facts(flag_byte(c.status_dd, false, false, false, false, false, false, false), 0, 0);
    lemma_flag_byte(c.status_dd, false, false, false, false, false, false, false);
    assert(mem(p, 12) == flag_byte(c.status_dd, false, false, false, false, false, false, false));
    lemma_small_le(v.paylen, v.ip_cse, 0, 0, 0);
    lemma_small_le(0, v.tu_cse, 0, 0, 0);
    lemma_small_le(0, v.mss, 0, 0, 0);
}

proof fn lemma_data_round_trip(c: TransmitDescriptorCommon, v: TransmitDescriptorTcpData)
    requires
        (TransmitDescriptor { common: c, variant: TransmitDescriptorVariant::TcpData(v) }).wf(),
    ensures
        ({
            let d = TransmitDescriptor { common: c, variant: TransmitDescriptorVariant::TcpData(v) };
            TransmitDescriptor::spec_unpack(d.spec_pack()) == Ok::<TransmitDescriptor, E1000Error>(d)
        }),
{
    let d = TransmitDescriptor { common: c, variant: TransmitDescriptorVariant::TcpData(v) };
    let p = d.spec_pack();
    assert forall|k: int| 0 <= k < 16 && k != 10 && k != 11 && k != 12 implies mem(p, k)
        == v.spec_mem_byte(k) by {
        lemma_byte_facts(v.spec_mem_byte(k), 0, 0);
    }
    let nibble = (v.length as int / 0x1_0000 % 16) as u8;
    lemma_byte_facts(0, nibble, 1);
    assert(mem(p, 10) == 16u8 | nibble);
    lemma_flag_byte_or(
        seq![false, false, false, c.cmd_rs, c.cmd_rps, c.cmd_dext, false, false],
        seq![v.dcmd_eop, false, false, false, false, false, false, false],
    );
    lemma_flag_byte(v.dcmd_eop, false, false, c.cmd_rs, c.cmd_rps, c.cmd_dext, false, false);
    assert(mem(p, 11) == flag_byte(v.dcmd_eop, false, false, c.cmd_rs, c.cmd_rps, c.cmd_dext, false, false));
    lemma_byte_facts(flag_byte(c.status_dd, false, false, false, false, false, false, false), 0, 0);
    lemma_flag_byte(c.status_dd, false, false, false, false, false, false, false);
    assert(mem(p, 12) == flag_byte(c.status_dd, false, false, false, false, false, false, false));
    lemma_flag_byte(v.popts_ixsm, v.popts_txsm, false, false, false, false, false, false);
    lemma_le64(v.buffer, seq![0u8, 0, 0, 0, 0, 0, 0, 0]);
    lemma_small_le(v.length, v.special, 0, 0, 0);
}

/// Packing a transmit descriptor of any type and unpacking it gives it back.
pub proof fn lemma_transmit_descriptor_round_trip(d: TransmitDescriptor)
    requires
        d.wf(),
    ensures
        TransmitDescriptor::spec_unpack(d.spec_pack()) == Ok::<TransmitDescriptor, E1000Error>(d),
{
    match d.variant {
        TransmitDescriptorVariant::Legacy(v) => lemma_legacy_round_trip(d.common, v),
        TransmitDescriptorVariant::TcpContext(v) => lemma_context_round_trip(d.common, v),
        TransmitDescriptorVariant::TcpData(v) => lemma_data_round_trip(d.common, v),
    }
}

/// Descriptor memory bytes, reversed into packed form, unpacked, packed and reversed
/// again, are the bytes themselves, for each type of transmit descriptor, where the
/// model describes all their bits.
pub proof fn lemma_transmit_descriptor_bytes_round_trip(b: Seq<u8>)
    requires
        b.len() == 16,
        TransmitDescriptor::is_canonical(b.reverse()),
    ensures
        TransmitDescriptor::spec_unpack(b.reverse()) is Ok,
        TransmitDescriptor::spec_unpack(b.reverse())->Ok_0.spec_pack().reverse() == b,
{
    let p = b.reverse();
    let d = TransmitDescriptor::spec_unpack(p)->Ok_0;
    let q = d.spec_pack();
    let c = d.common;
    let x11 = mem(p, 11);
    let x12 = mem(p, 12);
    let x13 = mem(p, 13);
    lemma_le64(0, seq![mem(p, 0), mem(p, 1), mem(p, 2), mem(p, 3), mem(p, 4), mem(p, 5), mem(p, 6), mem(p, 7)]);
    lemma_small_le(0, 0, mem(p, 8), mem(p, 9), mem(p, 10));
    lemma_small_le(0, 0, mem(p, 2), mem(p, 3), 0);
    lemma_small_le(0, 0, mem(p, 6), mem(p, 7), 0);
    lemma_small_le(0, 0, mem(p, 14), mem(p, 15), 0);
    lemma_byte_facts(mem(p, 10), 0, 0);
    lemma_byte_facts(x12, 0, 0);
    lemma_flag_byte(x12 & 1u8 != 0, false, false, false, false, false, false, false);
    assert forall|k: int| 0 <= k < 16 && k != 10 && k != 11 implies mem(q, k) == mem(p, k) by {
        lemma_byte_facts(mem(p, k), 0, 0);
        lemma_byte_facts(mem(d.variant.spec_pack(), k), 0, 0);
        lemma_flag_byte(x13 & 1u8 != 0, x13 & 2u8 != 0, false, false, false, false, false, false);
    }
    match d.variant {
        TransmitDescriptorVariant::Legacy(v) => {
            lemma_flag_byte_or(
                seq![false, false, false, c.cmd_rs, c.cmd_rps, c.cmd_dext, false, false],
                seq![v.cmd_eop, false, v.cmd_ic, false, false, false, false, false],
            );
        },
        TransmitDescriptorVariant::TcpContext(v) => {
            lemma_flag_byte_or(
                seq![false, false, false, c.cmd_rs, c.cmd_rps, c.cmd_dext, false, false],
                seq![v.tucmd_tcp, v.tucmd_ip, v.tucmd_tse, false, false, false, false, false],
            );
        },
        TransmitDescriptorVariant::TcpData(v) => {
            lemma_flag_byte_or(
                seq![false, false, false, c.cmd_rs, c.cmd_rps, c.cmd_dext, false, false],
                seq![v.dcmd_eop, false, false, false, false, false, false, false],
            );
        },
    }
    assert(mem(q, 10) == mem(p, 10));
    assert(mem(q, 11) == mem(p, 11));
    assert forall|k: int| 0 <= k < 16 implies mem(q, k) == mem(p, k) by {}
    assert(q =~= p);
    assert(q.reverse() =~= b);
}

/// Reverses the byte order of a descriptor: memory order to packed form and back.
pub fn reverse_descriptor(d: [u8; 16]) -> (r: [u8; 16])
    ensures
        r@ == d@.reverse(),
{
    let r = [
        d[15], d[14], d[13], d[12], d[11], d[10], d[9], d[8], d[7], d[6], d[5], d[4], d[3], d[2], d[1], d[0],
    ];
    assert(r@ =~= d@.reverse());
    r
}

/// A ring of descriptors in guest memory. Hardware owns the slots from `head`
/// up to, not including, `tail`, modulo `length`.
#[derive(Debug, Clone, Copy, PartialEq, Eq, Structural)]
pub struct DescriptorRing {
    pub ring_address: usize,
    pub length: usize,
    pub head: usize,
    pub tail: usize,
}

/// The number of slots from `head` up to `tail` around a ring of `length`.
pub open spec fn owned_count(head: int, tail: int, length: int) -> int {
    if tail >= head {
        tail - head
    } else {
        tail + length - head
    }
}

impl DescriptorRing {
    /// Head and tail lie within the ring, which has at most 2^16 slots.
    pub open spec fn wf(&self) -> bool {
        &&& 0 < self.length <= 0x1_0000
        &&& self.head < self.length
        &&& self.tail < self.length
    }

    pub open spec fn spec_is_empty(&self) -> bool {
        self.head == self.tail
    }

    /// Number of descriptors that hardware owns.
    pub fn hardware_owned_descriptors(&self) -> (r: usize)
        requires
            self.wf(),
        ensures
            r == owned_count(self.head as int, self.tail as int, self.length as int),
            r < self.length,
    {
        let mut tail = self.tail;
        if tail < self.head {
            tail = tail + self.length;
        }
        tail - self.head
    }

    /// Whether hardware owns no descriptor.
    pub fn is_empty(&self) -> (r: bool)
        ensures
            r == self.spec_is_empty(),
    {
        self.head == self.tail
    }

    /// Hands the head descriptor back to software.
    pub fn advance_head(&mut self)
        requires
            old(self).wf(),
        ensures
            final(self).wf(),
            final(self).head == (old(self).head + 1) % (old(self).length as int),
            final(self).tail == old(self).tail,
            final(self).length == old(self).length,
            final(self).ring_address == old(self).ring_address,
    {
        self.head = (self.head + 1) % self.length;
    }

    /// Reads descriptor `index` from guest memory, in packed form.
    pub(crate) fn read_descriptor<C: NicContext>(&self, index: usize, nic_ctx: &mut C) -> (r: [u8; 16])
        requires
            self.wf(),
            index < self.length,
    {
        nic_ctx.dma_prepare(self.ring_address, self.length * DESCRIPTOR_LENGTH);
        let mut data = [0u8; 16];
        nic_ctx.dma_read(self.ring_address, &mut data, index * DESCRIPTOR_LENGTH);
        reverse_descriptor(data)
    }

    /// Writes a packed descriptor to slot `index` of guest memory.
    pub(crate) fn write_descriptor<C: NicContext>(&self, packed: &[u8; 16], index: usize, nic_ctx: &mut C)
        requires
            self.wf(),
            index < self.length,
    {
        nic_ctx.dma_prepare(self.ring_address, self.length * DESCRIPTOR_LENGTH);
        let data = reverse_descriptor(*packed);
        nic_ctx.dma_write(self.ring_address, &data, index * DESCRIPTOR_LENGTH);
    }

    /// Reads the head descriptor, in packed form; fails where hardware owns none.
    pub fn read_head<C: NicContext>(&self, nic_ctx: &mut C) -> (r: Result<[u8; 16], E1000Error>)
        requires
            self.wf(),
        ensures
            self.spec_is_empty() ==> r == Err::<[u8; 16], E1000Error>(E1000Error::EmptyRingHeadAccess)
                && *final(nic_ctx) == *old(nic_ctx),
            !self.spec_is_empty() ==> r is Ok,
    {
        if self.is_empty() {
            return Err(E1000Error::EmptyRingHeadAccess);
        }
        Ok(self.read_descriptor(self.head, nic_ctx))
    }

    /// Writes a packed descriptor back to the head slot and hands it to software;
    /// fails, with the ring unchanged, where hardware owns none.
    pub fn write_and_advance_head<C: NicContext>(&mut self, packed: &[u8; 16], nic_ctx: &mut C) -> (r:
        Result<(), E1000Error>)
        requires
            old(self).wf(),
        ensures
            final(self).wf(),
            old(self).spec_is_empty() ==> r == Err::<(), E1000Error>(E1000Error::EmptyRingHeadAccess)
                && *final(self) == *old(self) && *final(nic_ctx) == *old(nic_ctx),
            !old(self).spec_is_empty() ==> r is Ok && final(self).head == (old(self).head + 1) % (
            old(self).length as int),
            final(self).tail == old(self).tail,
            final(self).length == old(self).length,
            final(self).ring_address == old(self).ring_address,
    {
        if self.is_empty() {
            return Err(E1000Error::EmptyRingHeadAccess);
        }
        self.write_descriptor(packed, self.head, nic_ctx);
        self.advance_head();
        Ok(())
    }
}

} // verus!
