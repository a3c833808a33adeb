//! The transmit pipeline: descriptor sequences, segmentation and checksum offload.
use vstd::prelude::*;

use crate::e1000::descriptors::{
    owned_count, DescriptorRing, TransmitDescriptor, TransmitDescriptorCommon,
    TransmitDescriptorTcpContext, TransmitDescriptorVariant,
};
use crate::e1000::registers::{Registers, ICR_TXDW, ICR_TXQE};
use crate::e1000::{E1000, E1000Error, HostEffect};
use crate::NicContext;
use crate::util::{
    be16_bytes, be16_value, be32_bytes, be32_value, wrapping_add_to_u16_be_bytes,
    wrapping_add_to_u32_be_bytes,
};

verus! {

// Field offsets in the headers.
pub const IPV4_PAYLOAD_LENGTH_OFFSET: usize = 2;

pub const IPV4_IDENTIFICATION_OFFSET: usize = 4;

pub const IPV6_PAYLOAD_LENGTH_OFFSET: usize = 4;

pub const UDP_LENGTH_OFFSET: usize = 4;

pub const TCP_SEQUENCE_NUMBER_OFFSET: usize = 4;

/// The TCP header byte that holds the FIN and PSH flags.
pub const TCP_FLAGS_OFFSET: usize = 13;

/// FIN and PSH.
pub const TCP_FLAGS_MASK: u8 = 9;

/// A two-byte internet checksum, updated for the two bytes `old` of the summed data
/// replaced by `new` (RFC 1624, equation 3: `HC' = ~(~HC + ~m + m')` in ones'
/// complement arithmetic).
pub open spec fn checksum_update_of(checksum: Seq<u8>, old: Seq<u8>, new: Seq<u8>) -> Seq<u8> {
    be16_bytes(
        0xFFFF - ones_complement_fold(
            (0xFFFF - be16_value(checksum)) + (0xFFFF - be16_value(old)) + be16_value(new),
        ),
    )
}

/// Word `k` of `data`: two bytes big-endian, a lone last byte padded with zero.
pub open spec fn be_word(data: Seq<u8>, k: int) -> int {
    data[2 * k] as int * 0x100 + if 2 * k + 1 < data.len() {
        data[2 * k + 1] as int
    } else {
        0
    }
}

/// The sum of the first `n` words of `data`.
pub open spec fn be_words_sum(data: Seq<u8>, n: int) -> int
    decreases n,
{
    if n <= 0 {
        0
    } else {
        be_words_sum(data, n - 1) + be_word(data, n - 1)
    }
}

/// A sum reduced to 16 bits with end-around carry (ones' complement addition).
pub open spec fn ones_complement_fold(s: int) -> int {
    if s <= 0 {
        0
    } else {
        (s - 1) % 0xFFFF + 1
    }
}

/// The RFC 1071 internet checksum of `data`, as two bytes in network order: the
/// complement of the ones' complement sum of its 16-bit words.
pub open spec fn internet_checksum_of(data: Seq<u8>) -> Seq<u8> {
    let n = data.len() / 2 + data.len() % 2;
    be16_bytes(0xFFFF - ones_complement_fold(be_words_sum(data, n as int)))
}

/// Adding a word to a folded sum folds the new sum.
proof fn lemma_fold_add(s: int, w: int)
    requires
        s >= 0,
        0 <= w <= 0xFFFF,
    ensures
        ({
            let t = ones_complement_fold(s) + w;
            ones_complement_fold(s + w) == if t > 0xFFFF {
                t - 0xFFFF
            } else {
                t
            }
        }),
{
    if s == 0 {
        if w > 0 {
            vstd::arithmetic::div_mod::lemma_fundamental_div_mod_converse(w - 1, 0xFFFF, 0, w - 1);
        }
    } else {
        let q = (s - 1) / 0xFFFF;
        let r = (s - 1) % 0xFFFF;
        vstd::arithmetic::div_mod::lemma_fundamental_div_mod(s - 1, 0xFFFF);
        if r + w < 0xFFFF {
            vstd::arithmetic::div_mod::lemma_fundamental_div_mod_converse(s + w - 1, 0xFFFF, q, r + w);
        } else {
            vstd::arithmetic::div_mod::lemma_fundamental_div_mod_converse(
                s + w - 1,
                0xFFFF,
                q + 1,
                r + w - 0xFFFF,
            );
        }
    }
}

/// The internet checksum of `data` (RFC 1071).
pub fn checksum(data: &[u8]) -> (r: [u8; 2])
    ensures
        r@ == internet_checksum_of(data@),
{
    let len = data.len();
    let n = len / 2 + len % 2;
    let mut acc: u32 = 0;
    let mut k: usize = 0;
    while k < n
        invariant
            n == data@.len() / 2 + data@.len() % 2,
            len == data@.len(),
            0 <= k <= n,
            acc <= 0xFFFF,
            acc == ones_complement_fold(be_words_sum(data@, k as int)),
            be_words_sum(data@, k as int) >= 0,
        decreases n - k,
    {
        let low: u32 = if 2 * k + 1 < len {
            data[2 * k + 1] as u32
        } else {
            0
        };
        let w: u32 = data[2 * k] as u32 * 0x100 + low;
        proof {
            lemma_fold_add(be_words_sum(data@, k as int), w as int);
        }
        acc = acc + w;
        if acc > 0xFFFF {
            acc = acc - 0xFFFF;
        }
        k = k + 1;
    }
    let c = 0xFFFF - acc;
    let r: [u8; 2] = [(c / 0x100) as u8, (c % 0x100) as u8];
    assert(r@ =~= internet_checksum_of(data@));
    r
}

/// Relies on `internet_checksum::update`: the checksum updated for `old` replaced by
/// `new` after RFC 1624 (ones' complement sums do not depend on byte order, so its
/// native-order words give the same bytes). It panics unless both have one length;
/// two-byte fields stay clear of its accumulator's overflow.
#[verifier::external_body]
fn checksum_update(checksum: [u8; 2], old: &[u8], new: &[u8]) -> (r: [u8; 2])
    requires
        old@.len() == 2,
        new@.len() == 2,
    ensures
        r@ == checksum_update_of(checksum@, old@, new@),
{
    internet_checksum::update(checksum, old, new)
}

/// `p` with the two bytes of `b` placed at `at`.
pub open spec fn put2(p: Seq<u8>, at: int, b: Seq<u8>) -> Seq<u8> {
    p.update(at, b[0]).update(at + 1, b[1])
}

/// `p` with the four bytes of `b` placed at `at`.
pub open spec fn put4(p: Seq<u8>, at: int, b: Seq<u8>) -> Seq<u8> {
    p.update(at, b[0]).update(at + 1, b[1]).update(at + 2, b[2]).update(at + 3, b[3])
}

/// The bytes that a checksum from `start` to `inclusive_end` covers; an end of zero
/// stands for the end of the packet.
pub open spec fn checksum_range(p: Seq<u8>, start: int, inclusive_end: int) -> Seq<u8> {
    if inclusive_end != 0 {
        p.subrange(start, inclusive_end + 1)
    } else {
        p.subrange(start, p.len() as int)
    }
}

/// The checksum range and the checksum field lie within a packet of `len` bytes.
pub open spec fn checksum_fits(len: int, offset: int, start: int, inclusive_end: int) -> bool {
    &&& offset + 2 <= len
    &&& if inclusive_end != 0 {
        start <= inclusive_end + 1 <= len
    } else {
        start <= len
    }
}

/// The packet with the checksum of its range written at `offset`.
pub open spec fn with_checksum(p: Seq<u8>, offset: int, start: int, inclusive_end: int) -> Seq<u8> {
    put2(p, offset, internet_checksum_of(checksum_range(p, start, inclusive_end)))
}

/// Writes the internet checksum of a range of the packet at `offset`; the range may
/// hold the checksum field itself, whose bytes then count as a partial checksum.
pub fn write_internet_checksum(data: &mut Vec<u8>, offset: usize, start: usize, inclusive_end: usize)
    requires
        checksum_fits(old(data)@.len() as int, offset as int, start as int, inclusive_end as int),
    ensures
        final(data)@ == with_checksum(old(data)@, offset as int, start as int, inclusive_end as int),
{
    let len = data.len();
    let sum = if inclusive_end != 0 {
        checksum(&data.as_slice()[start..inclusive_end + 1])
    } else {
        checksum(&data.as_slice()[start..len])
    };
    data.set(offset, sum[0]);
    data.set(offset + 1, sum[1]);
}

/// The header fields that segmentation patches lie within a packet of `len` bytes.
pub open spec fn headers_fit(c: TransmitDescriptorTcpContext, len: int, tcp_checksum: bool) -> bool {
    &&& c.ip_css + 6 <= len
    &&& if c.tucmd_tcp {
        c.tu_css + 14 <= len
    } else {
        c.tu_css + 6 <= len
    }
    &&& tcp_checksum ==> c.tu_cso + 2 <= len
}

/// The IP header of a segment patched: the length field becomes the length from the
/// IP header on, and the IPv4 identification advances by the segment index.
pub open spec fn patched_ip(p: Seq<u8>, c: TransmitDescriptorTcpContext, index: int) -> Seq<u8> {
    let ip = c.ip_css as int;
    let ip_length = be16_bytes((p.len() - ip) % 0x1_0000);
    if c.tucmd_ip {
        let q = put2(p, ip + 2, ip_length);
        put2(q, ip + 4, be16_bytes((be16_value(q.subrange(ip + 4, ip + 6)) + index) % 0x1_0000))
    } else {
        put2(p, ip + 4, ip_length)
    }
}

/// The length from the TCP/UDP header on, as two big-endian bytes.
pub open spec fn length_after_ip(len: int, c: TransmitDescriptorTcpContext) -> Seq<u8> {
    be16_bytes((len - c.tu_css) % 0x1_0000)
}

/// The partial TCP/UDP checksum updated for the length after the IP header.
pub open spec fn patched_checksum(p: Seq<u8>, c: TransmitDescriptorTcpContext, after_ip: Seq<u8>) -> Seq<u8> {
    let cso = c.tu_cso as int;
    put2(p, cso, checksum_update_of(p.subrange(cso, cso + 2), after_ip, seq![0u8, 0u8]))
}

/// The TCP header of a segment patched (sequence number advanced by the bytes of the
/// segments before; FIN and PSH cleared but in the last segment), or the UDP length set.
pub open spec fn patched_transport(
    p: Seq<u8>,
    c: TransmitDescriptorTcpContext,
    index: int,
    last_frame: bool,
    after_ip: Seq<u8>,
) -> Seq<u8> {
    let tu = c.tu_css as int;
    if c.tucmd_tcp {
        let q = put4(
            p,
            tu + 4,
            be32_bytes((be32_value(p.subrange(tu + 4, tu + 8)) + (c.mss * index) % 0x1_0000_0000)
                % 0x1_0000_0000),
        );
        if last_frame {
            q
        } else {
            q.update(tu + 13, q[tu + 13] & !TCP_FLAGS_MASK)
        }
    } else {
        put2(p, tu + 4, after_ip)
    }
}

/// Segment `index` with its prototype header patched, in this order: IP header,
/// partial TCP/UDP checksum where offloaded, TCP/UDP header.
pub open spec fn patched_headers(
    p: Seq<u8>,
    c: TransmitDescriptorTcpContext,
    index: int,
    last_frame: bool,
    tcp_checksum: bool,
) -> Seq<u8> {
    let after_ip = length_after_ip(p.len() as int, c);
    let p1 = patched_ip(p, c, index);
    let p2 = if tcp_checksum {
        patched_checksum(p1, c, after_ip)
    } else {
        p1
    };
    patched_transport(p2, c, index, last_frame, after_ip)
}

/// The TCP sequence number of segment `index` is the prototype's, advanced by the
/// bytes of the segments before it (modulo 2^32), where the fields patched before it
/// lie apart from it.
pub proof fn lemma_segment_sequence_number(
    p: Seq<u8>,
    c: TransmitDescriptorTcpContext,
    index: int,
    last_frame: bool,
    tcp_checksum: bool,
)
    requires
        headers_fit(c, p.len() as int, tcp_checksum),
        c.tucmd_tcp,
        0 <= index,
        c.ip_css + 6 <= c.tu_css + 4 || c.tu_css + 8 <= c.ip_css + 2,
        tcp_checksum ==> c.tu_cso + 2 <= c.tu_css + 4 || c.tu_css + 8 <= c.tu_cso,
    ensures
        ({
            let q = patched_headers(p, c, index, last_frame, tcp_checksum);
            let at = c.tu_css + 4;
            be32_value(q.subrange(at, at + 4)) == (be32_value(p.subrange(at, at + 4)) + (c.mss * index)
                % 0x1_0000_0000) % 0x1_0000_0000
        }),
{
    let at = c.tu_css + 4;
    let after_ip = length_after_ip(p.len() as int, c);
    let p1 = patched_ip(p, c, index);
    let p2 = if tcp_checksum {
        patched_checksum(p1, c, after_ip)
    } else {
        p1
    };
    assert(p1.subrange(at, at + 4) =~= p.subrange(at, at + 4));
    assert(p2.subrange(at, at + 4) =~= p.subrange(at, at + 4));
    let v = (be32_value(p.subrange(at, at + 4)) + (c.mss * index) % 0x1_0000_0000) % 0x1_0000_0000;
    let q = patched_headers(p, c, index, last_frame, tcp_checksum);
    assert(q.subrange(at, at + 4) =~= be32_bytes(v));
    crate::util::lemma_be32_round_trip(v as u32);
}

fn put_be16(data: &mut Vec<u8>, at: usize, b: [u8; 2])
    requires
        at + 2 <= old(data)@.len(),
    ensures
        final(data)@ == put2(old(data)@, at as int, b@),
{
    let len = data.len();
    assert(at + 2 <= len);
    data.set(at, b[0]);
    data.set(at + 1, b[1]);
}

fn update_ip_header(data: &mut Vec<u8>, tcp_context: &TransmitDescriptorTcpContext, segment_index: usize)
    requires
        tcp_context.ip_css + 6 <= old(data)@.len(),
    ensures
        final(data)@ == patched_ip(old(data)@, *tcp_context, segment_index as int),
{
    let ghost p = data@;
    let ip_offset = tcp_context.ip_css as usize;
    let len = data.len();
    let ip_length = ((len - ip_offset) % 0x1_0000) as u16;
    let ip_length_bytes: [u8; 2] = [(ip_length / 0x100) as u8, (ip_length % 0x100) as u8];
    assert(ip_length_bytes@ =~= be16_bytes((p.len() - ip_offset) % 0x1_0000));
    if tcp_context.tucmd_ip {
        // IPv4: total length, and identification advanced by the segment index
        put_be16(data, ip_offset + IPV4_PAYLOAD_LENGTH_OFFSET, ip_length_bytes);
        let at = ip_offset + IPV4_IDENTIFICATION_OFFSET;
        let mut id: [u8; 2] = [data[at], data[at + 1]];
        let ghost before = data@.subrange(at as int, at + 2);
        assert(id@ =~= before);
        wrapping_add_to_u16_be_bytes(&mut id, (segment_index % 0x1_0000) as u16);
        assert((be16_value(before) + (segment_index % 0x1_0000) as u16) % 0x1_0000 == (be16_value(before)
            + segment_index as int) % 0x1_0000) by (nonlinear_arith);
        put_be16(data, at, id);
    } else {
        // IPv6: payload length
        put_be16(data, ip_offset + IPV6_PAYLOAD_LENGTH_OFFSET, ip_length_bytes);
    }
}

fn update_transport_header(
    data: &mut Vec<u8>,
    tcp_context: &TransmitDescriptorTcpContext,
    segment_index: usize,
    last_frame: bool,
    after_ip: [u8; 2],
)
    requires
        if tcp_context.tucmd_tcp {
            tcp_context.tu_css + 14 <= old(data)@.len()
        } else {
            tcp_context.tu_css + 6 <= old(data)@.len()
        },
        segment_index < 0x1_0000_0000,
    ensures
        final(data)@ == patched_transport(old(data)@, *tcp_context, segment_index as int, last_frame, after_ip@),
{
    let tcp_udp_offset = tcp_context.tu_css as usize;
    if tcp_context.tucmd_tcp {
        // TCP: sequence number advanced by the bytes of the segments before
        let at = tcp_udp_offset + TCP_SEQUENCE_NUMBER_OFFSET;
        let mut sequence: [u8; 4] = [data[at], data[at + 1], data[at + 2], data[at + 3]];
        assert(sequence@ =~= data@.subrange(at as int, at + 4));
        let mss = tcp_context.mss as u64;
        let index = segment_index as u64;
        assert(mss * index < 0x1_0000_0000_0000) by (nonlinear_arith)
            requires
                mss < 0x1_0000,
                index < 0x1_0000_0000,
        ;
        let advance = ((mss * index) % 0x1_0000_0000) as u32;
        wrapping_add_to_u32_be_bytes(&mut sequence, advance);
        data.set(at, sequence[0]);
        data.set(at + 1, sequence[1]);
        data.set(at + 2, sequence[2]);
        data.set(at + 3, sequence[3]);
        if !last_frame {
            let at = tcp_udp_offset + TCP_FLAGS_OFFSET;
            let flags = data[at] & !TCP_FLAGS_MASK;
            data.set(at, flags);
        }
    } else {
        // UDP: length
        put_be16(data, tcp_udp_offset + UDP_LENGTH_OFFSET, after_ip);
    }
}

/// Patches the prototype header of segment `segment_index` (see `patched_headers`).
pub fn update_prototype_headers(
    data: &mut Vec<u8>,
    tcp_context: &TransmitDescriptorTcpContext,
    segment_index: usize,
    last_frame: bool,
    tcp_checksum_offloaded: bool,
)
    requires
        headers_fit(*tcp_context, old(data)@.len() as int, tcp_checksum_offloaded),
        segment_index < 0x1_0000_0000,
    ensures
        final(data)@ == patched_headers(
            old(data)@,
            *tcp_context,
            segment_index as int,
            last_frame,
            tcp_checksum_offloaded,
        ),
{
    let len = data.len();
    let after_ip = ((len - tcp_context.tu_css as usize) % 0x1_0000) as u16;
    let after_ip_bytes: [u8; 2] = [(after_ip / 0x100) as u8, (after_ip % 0x100) as u8];
    assert(after_ip_bytes@ =~= length_after_ip(len as int, *tcp_context));
    update_ip_header(data, tcp_context, segment_index);
    if tcp_checksum_offloaded {
        // The length after the IP header counts in the TCP/UDP checksum
        let at = tcp_context.tu_cso as usize;
        let previous: [u8; 2] = [data[at], data[at + 1]];
        assert(previous@ =~= data@.subrange(at as int, at + 2));
        let zero: [u8; 2] = [0, 0];
        assert(zero@ =~= seq![0u8, 0u8]);
        let updated = checksum_update(previous, &after_ip_bytes, &zero);
        put_be16(data, at, updated);
    }
    update_transport_header(data, tcp_context, segment_index, last_frame, after_ip_bytes);
}

/// Number of segments of at most `mss` bytes that `len` bytes make.
pub open spec fn segment_count(len: int, mss: int) -> int {
    len / mss + if len % mss != 0 {
        1int
    } else {
        0int
    }
}

/// The bytes of segment `i`.
pub open spec fn segment_of(payload: Seq<u8>, mss: int, i: int) -> Seq<u8> {
    let end = if (i + 1) * mss < payload.len() {
        (i + 1) * mss
    } else {
        payload.len() as int
    };
    payload.subrange(i * mss, end)
}

/// Segmentation applies: the data holds the header and a payload of the length the
/// context gives, the segment size is not zero, and the patched fields lie in the header.
pub open spec fn segmentation_applies(data: Seq<u8>, c: TransmitDescriptorTcpContext, tcp_checksum: bool) -> bool {
    &&& data.len() >= c.hdrlen
    &&& data.len() - c.hdrlen == c.paylen
    &&& c.mss > 0
    &&& headers_fit(c, c.hdrlen as int, tcp_checksum)
}

/// The packets that segmentation makes: the header prototype, patched, before each segment.
pub open spec fn segmented(data: Seq<u8>, c: TransmitDescriptorTcpContext, tcp_checksum: bool) -> Seq<Seq<u8>> {
    let header = data.subrange(0, c.hdrlen as int);
    let payload = data.subrange(c.hdrlen as int, data.len() as int);
    let n = segment_count(payload.len() as int, c.mss as int);
    Seq::new(
        n as nat,
        |i: int|
            patched_headers(
                header + segment_of(payload, c.mss as int, i),
                c,
                i,
                (i + 1) * c.mss >= payload.len(),
                tcp_checksum,
            ),
    )
}

/// The checksum ranges and fields that a packet needs lie within it.
pub open spec fn checksums_fit(p: Seq<u8>, c: TransmitDescriptorTcpContext, ip: bool, tcp: bool) -> bool {
    &&& ip ==> checksum_fits(p.len() as int, c.ip_cso as int, c.ip_css as int, c.ip_cse as int)
    &&& tcp ==> checksum_fits(p.len() as int, c.tu_cso as int, c.tu_css as int, c.tu_cse as int)
}

/// Every packet has room for the checksums it needs.
pub open spec fn all_fit(packets: Seq<Seq<u8>>, c: TransmitDescriptorTcpContext, ip: bool, tcp: bool) -> bool {
    forall|i: int| 0 <= i < packets.len() ==> #[trigger] checksums_fit(packets[i], c, ip, tcp)
}

/// The packet with its TCP/UDP checksum, then its IP checksum, inserted as asked.
pub open spec fn with_checksums(p: Seq<u8>, c: TransmitDescriptorTcpContext, ip: bool, tcp: bool) -> Seq<u8> {
    let p1 = if tcp {
        with_checksum(p, c.tu_cso as int, c.tu_css as int, c.tu_cse as int)
    } else {
        p
    };
    if ip {
        with_checksum(p1, c.ip_cso as int, c.ip_css as int, c.ip_cse as int)
    } else {
        p1
    }
}

/// Segment `i` of a payload starts within it.
proof fn lemma_segment_start(len: int, mss: int, i: int)
    requires
        mss > 0,
        0 <= i < segment_count(len, mss),
    ensures
        i * mss < len,
{
    let q = len / mss;
    vstd::arithmetic::div_mod::lemma_fundamental_div_mod(len, mss);
    if i < q {
        assert(i * mss <= q * mss - mss) by (nonlinear_arith)
            requires
                i + 1 <= q,
                mss > 0,
        ;
    } else {
        assert(i == q);
    }
}

/// The bytes `from..to` of `src`, copied.
fn copy_range(src: &Vec<u8>, from: usize, to: usize) -> (r: Vec<u8>)
    requires
        from <= to <= src@.len(),
    ensures
        r@ == src@.subrange(from as int, to as int),
{
    let mut r: Vec<u8> = Vec::new();
    let mut i = from;
    while i < to
        invariant
            from <= i <= to <= src@.len(),
            r@ == src@.subrange(from as int, i as int),
        decreases to - i,
    {
        r.push(src[i]);
        i = i + 1;
        assert(r@ =~= src@.subrange(from as int, i as int));
    }
    r
}

/// Inserts the checksums that the sequence asks for, `None` where they do not fit.
fn finish_packet(mut p: Vec<u8>, c: &TransmitDescriptorTcpContext, ip: bool, tcp: bool) -> (r: Option<Vec<u8>>)
    ensures
        checksums_fit(p@, *c, ip, tcp) ==> r is Some && r->Some_0@ == with_checksums(p@, *c, ip, tcp),
        !checksums_fit(p@, *c, ip, tcp) ==> r is None,
{
    let len = p.len();
    if ip && !checksum_fits_exec(len, c.ip_cso as usize, c.ip_css as usize, c.ip_cse as usize) {
        return None;
    }
    if tcp && !checksum_fits_exec(len, c.tu_cso as usize, c.tu_css as usize, c.tu_cse as usize) {
        return None;
    }
    if tcp {
        write_internet_checksum(&mut p, c.tu_cso as usize, c.tu_css as usize, c.tu_cse as usize);
    }
    if ip {
        write_internet_checksum(&mut p, c.ip_cso as usize, c.ip_css as usize, c.ip_cse as usize);
    }
    Some(p)
}

fn checksum_fits_exec(len: usize, offset: usize, start: usize, inclusive_end: usize) -> (r: bool)
    requires
        offset < 0x1_0000 && start < 0x1_0000 && inclusive_end < 0x1_0000,
    ensures
        r == checksum_fits(len as int, offset as int, start as int, inclusive_end as int),
{
    if offset + 2 > len {
        return false;
    }
    if inclusive_end != 0 {
        start <= inclusive_end + 1 && inclusive_end + 1 <= len
    } else {
        start <= len
    }
}

/// Whether the patched header fields lie within `len` bytes.
fn headers_fit_exec(c: &TransmitDescriptorTcpContext, len: usize, tcp_checksum: bool) -> (r: bool)
    ensures
        r == headers_fit(*c, len as int, tcp_checksum),
{
    if c.ip_css as usize + 6 > len {
        return false;
    }
    if c.tucmd_tcp {
        if c.tu_css as usize + 14 > len {
            return false;
        }
    } else if c.tu_css as usize + 6 > len {
        return false;
    }
    !tcp_checksum || c.tu_cso as usize + 2 <= len
}

/// The one frame of a sequence without segmentation, with its checksums.
fn finalize_single(data: Vec<u8>, c: &TransmitDescriptorTcpContext, ip: bool, tcp: bool) -> (r: Result<
    Vec<Vec<u8>>,
    E1000Error,
>)
    ensures
        !all_fit(seq![data@], *c, ip, tcp) ==> r == Err::<Vec<Vec<u8>>, E1000Error>(E1000Error::BadDescriptor),
        all_fit(seq![data@], *c, ip, tcp) ==> r is Ok && holds_packets(
            r->Ok_0@,
            seq![data@].map_values(|p: Seq<u8>| with_checksums(p, *c, ip, tcp)),
        ),
{
    let ghost base = seq![data@];
    assert(base[0] == data@);
    match finish_packet(data, c, ip, tcp) {
        Some(p) => {
            let mut packets: Vec<Vec<u8>> = Vec::new();
            packets.push(p);
            assert(base.map_values(|p: Seq<u8>| with_checksums(p, *c, ip, tcp))[0] == packets@[0]@);
            Ok(packets)
        },
        None => {
            assert(!checksums_fit(base[0], *c, ip, tcp));
            Err(E1000Error::BadDescriptor)
        },
    }
}

/// The vector holds the packets of the sequence.
pub open spec fn holds_packets(v: Seq<Vec<u8>>, packets: Seq<Seq<u8>>) -> bool {
    &&& v.len() == packets.len()
    &&& forall|i: int| 0 <= i < v.len() ==> #[trigger] v[i]@ == packets[i]
}

/// The descriptors of one packet gathered so far, as values.
pub ghost struct Gathering {
    pub data: Seq<u8>,
    pub done: bool,
    pub tcp_context: Option<TransmitDescriptorTcpContext>,
    pub insert_ip_checksum: bool,
    pub insert_tcp_checksum: bool,
}

/// Nothing gathered yet.
pub open spec fn fresh_gathering() -> Gathering {
    Gathering {
        data: Seq::empty(),
        done: false,
        tcp_context: None,
        insert_ip_checksum: false,
        insert_tcp_checksum: false,
    }
}

/// The frames that a completed packet makes: the data itself, or, with
/// segmentation on, one frame per segment; each with the checksums asked for.
pub open spec fn frames_of(g: Gathering) -> Result<Seq<Seq<u8>>, E1000Error> {
    match g.tcp_context {
        None => Ok(seq![g.data]),
        Some(c) => {
            let base = if !c.tucmd_tse {
                seq![g.data]
            } else {
                segmented(g.data, c, g.insert_tcp_checksum)
            };
            if c.tucmd_tse && !segmentation_applies(g.data, c, g.insert_tcp_checksum) {
                Err(E1000Error::BadDescriptor)
            } else if !all_fit(base, c, g.insert_ip_checksum, g.insert_tcp_checksum) {
                Err(E1000Error::BadDescriptor)
            } else {
                Ok(
                    base.map_values(
                        |p: Seq<u8>|
                            with_checksums(p, c, g.insert_ip_checksum, g.insert_tcp_checksum),
                    ),
                )
            }
        },
    }
}

/// Where a descriptor joins the packet with bytes of guest memory: their address and
/// length. A descriptor that is refused reads none.
pub open spec fn buffer_read(g: Gathering, d: TransmitDescriptor) -> Option<(u64, usize)> {
    match d.variant {
        TransmitDescriptorVariant::Legacy(l) => if g.tcp_context is None && !l.cmd_ic && l.buffer != 0 {
            Some((l.buffer, l.length as usize))
        } else {
            None
        },
        TransmitDescriptorVariant::TcpContext(_) => None,
        TransmitDescriptorVariant::TcpData(t) => if g.tcp_context is Some && t.buffer != 0 {
            Some((t.buffer, t.length as usize))
        } else {
            None
        },
    }
}

/// A descriptor joining the packet, with `buffer` the bytes of guest memory it
/// points to: legacy and data descriptors add their bytes and may end the packet; a
/// context descriptor sets up the offloads of the data descriptors after it; the
/// first data descriptor latches the checksum options. A descriptor out of sequence
/// is refused.
pub open spec fn spec_add(g: Gathering, d: TransmitDescriptor, buffer: Seq<u8>) -> (Result<(), E1000Error>, Gathering) {
    match d.variant {
        TransmitDescriptorVariant::Legacy(l) => if g.tcp_context is Some {
            (Err(E1000Error::BadDescriptor), g)
        } else if l.cmd_ic {
            (Err(E1000Error::Unimplemented), g)
        } else if l.buffer == 0 {
            (Err(E1000Error::NullTransmitBuffer), g)
        } else {
            (Ok(()), Gathering { data: g.data + buffer, done: l.cmd_eop, ..g })
        },
        TransmitDescriptorVariant::TcpContext(c) => if g.tcp_context is Some {
            (Err(E1000Error::BadDescriptor), g)
        } else {
            (Ok(()), Gathering { tcp_context: Some(c), ..g })
        },
        TransmitDescriptorVariant::TcpData(t) => if g.tcp_context is None {
            (Err(E1000Error::BadDescriptor), g)
        } else {
            let latch = g.data.len() == 0;
            let g1 = Gathering {
                insert_ip_checksum: if latch { t.popts_ixsm } else { g.insert_ip_checksum },
                insert_tcp_checksum: if latch { t.popts_txsm } else { g.insert_tcp_checksum },
                ..g
            };
            if t.buffer == 0 {
                (Err(E1000Error::NullTransmitBuffer), g1)
            } else {
                (Ok(()), Gathering { data: g1.data + buffer, done: t.dcmd_eop, ..g1 })
            }
        },
    }
}

/// The descriptors of one packet, gathered while the transmit ring is drained.
#[derive(Debug)]
pub struct TransmitDescriptorSequence {
    pub data: Vec<u8>,
    pub done: bool,
    pub tcp_context: Option<TransmitDescriptorTcpContext>,
    pub insert_ip_checksum: bool,
    pub insert_tcp_checksum: bool,
}

impl TransmitDescriptorSequence {
    pub fn new() -> (r: TransmitDescriptorSequence)
        ensures
            r.data@.len() == 0,
            !r.done,
            r.tcp_context is None,
            !r.insert_ip_checksum,
            !r.insert_tcp_checksum,
    {
        TransmitDescriptorSequence {
            data: Vec::new(),
            done: false,
            tcp_context: None,
            insert_ip_checksum: false,
            insert_tcp_checksum: false,
        }
    }

    /// The packet being gathered, as values.
    pub open spec fn gathering(&self) -> Gathering {
        Gathering {
            data: self.data@,
            done: self.done,
            tcp_context: self.tcp_context,
            insert_ip_checksum: self.insert_ip_checksum,
            insert_tcp_checksum: self.insert_tcp_checksum,
        }
    }

    /// The frames a completed sequence makes (see `finalize`).
    pub open spec fn spec_frames(&self) -> Result<Seq<Seq<u8>>, E1000Error> {
        frames_of(self.gathering())
    }

    /// Segments the data with the context; each packet gets its checksums.
    fn segment(
        &self,
        c: &TransmitDescriptorTcpContext,
    ) -> (r: Result<Vec<Vec<u8>>, E1000Error>)
        requires
            segmentation_applies(self.data@, *c, self.insert_tcp_checksum),
        ensures
            ({
                let base = segmented(self.data@, *c, self.insert_tcp_checksum);
                if !all_fit(base, *c, self.insert_ip_checksum, self.insert_tcp_checksum) {
                    r == Err::<Vec<Vec<u8>>, E1000Error>(E1000Error::BadDescriptor)
                } else {
                    r is Ok && holds_packets(r->Ok_0@, base.map_values(|p: Seq<u8>| with_checksums(p, *c, self.insert_ip_checksum, self.insert_tcp_checksum)))
                }
            }),
    {
        let ghost base = segmented(self.data@, *c, self.insert_tcp_checksum);
        let ghost expected = base.map_values(|p: Seq<u8>| with_checksums(p, *c, self.insert_ip_checksum, self.insert_tcp_checksum));
        let header_length = c.hdrlen as usize;
        let segment_size = c.mss as usize;
        let data_length = self.data.len();
        let payload_length = data_length - header_length;
        let count = payload_length / segment_size + if payload_length % segment_size != 0 {
            1
        } else {
            0
        };
        let header = copy_range(&self.data, 0, header_length);
        let mut packets: Vec<Vec<u8>> = Vec::new();
        let mut i: usize = 0;
        while i < count
            invariant
                segmentation_applies(self.data@, *c, self.insert_tcp_checksum),
                header_length == c.hdrlen,
                segment_size == c.mss,
                data_length == self.data@.len(),
                payload_length == data_length - header_length,
                count == segment_count(payload_length as int, segment_size as int),
                base == segmented(self.data@, *c, self.insert_tcp_checksum),
                expected == base.map_values(|p: Seq<u8>| with_checksums(p, *c, self.insert_ip_checksum, self.insert_tcp_checksum)),
                base.len() == count,
                header@ == self.data@.subrange(0, header_length as int),
                0 <= i <= count,
                packets@.len() == i,
                forall|j: int| 0 <= j < i ==> checksums_fit(#[trigger] base[j], *c, self.insert_ip_checksum, self.insert_tcp_checksum),
                forall|j: int| 0 <= j < i ==> #[trigger] packets@[j]@ == expected[j],
            decreases count - i,
        {
            proof {
                lemma_segment_start(payload_length as int, segment_size as int, i as int);
            }
            let start = header_length + i * segment_size;
            let last = data_length - start <= segment_size;
            let end = if last {
                data_length
            } else {
                start + segment_size
            };
            let mut packet = copy_range(&header, 0, header_length);
            let mut tail = copy_range(&self.data, start, end);
            packet.append(&mut tail);
            let ghost payload = self.data@.subrange(header_length as int, data_length as int);
            let ghost seg_end = if (i + 1) * segment_size < payload.len() {
                (i + 1) * segment_size
            } else {
                payload.len() as int
            };
            assert(end - header_length == seg_end) by (nonlinear_arith)
                requires
                    start == header_length + i * segment_size,
                    last == (data_length - start <= segment_size),
                    end == if last { data_length as int } else { start + segment_size },
                    payload.len() == data_length - header_length,
                    seg_end == if (i + 1) * segment_size < payload.len() {
                        (i + 1) * segment_size
                    } else {
                        payload.len() as int
                    },
            ;
            assert(self.data@.subrange(start as int, end as int) =~= payload.subrange(i * segment_size, seg_end));
            assert(packet@ =~= self.data@.subrange(0, header_length as int) + segment_of(payload, segment_size as int, i as int));
            update_prototype_headers(&mut packet, c, i, last, self.insert_tcp_checksum);
            assert(packet@ == base[i as int]);
            match finish_packet(packet, c, self.insert_ip_checksum, self.insert_tcp_checksum) {
                Some(p) => {
                    packets.push(p);
                },
                None => {
                    assert(!checksums_fit(base[i as int], *c, self.insert_ip_checksum, self.insert_tcp_checksum));
                    return Err(E1000Error::BadDescriptor);
                },
            }
            i = i + 1;
        }
        Ok(packets)
    }

    /// The frames that a completed sequence sends: the data itself, or, with
    /// segmentation on, one frame per segment; each with the checksums asked for.
    /// Segmentation that does not apply, or checksums that do not fit, refuse the
    /// sequence.
    pub fn finalize(self) -> (r: Result<Vec<Vec<u8>>, E1000Error>)
        ensures
            match self.spec_frames() {
                Ok(frames) => r is Ok && holds_packets(r->Ok_0@, frames),
                Err(e) => r == Err::<Vec<Vec<u8>>, E1000Error>(e),
            },
    {
        match self.tcp_context {
            None => {
                let ghost data = self.data@;
                let mut packets: Vec<Vec<u8>> = Vec::new();
                packets.push(self.data);
                assert(holds_packets(packets@, seq![data]));
                Ok(packets)
            },
            Some(c) => {
                if c.tucmd_tse {
                    if self.data.len() < c.hdrlen as usize || self.data.len() - c.hdrlen as usize
                        != c.paylen as usize || c.mss == 0 || !headers_fit_exec(
                        &c,
                        c.hdrlen as usize,
                        self.insert_tcp_checksum,
                    ) {
                        return Err(E1000Error::BadDescriptor);
                    }
                    self.segment(&c)
                } else {
                    finalize_single(self.data, &c, self.insert_ip_checksum, self.insert_tcp_checksum)
                }
            },
        }
    }

    /// Where `descriptor` would join the packet with bytes of guest memory (see `buffer_read`).
    pub fn buffer_to_read(&self, descriptor: &TransmitDescriptor) -> (r: Option<(u64, usize)>)
        ensures
            r == buffer_read(self.gathering(), *descriptor),
    {
        match &descriptor.variant {
            TransmitDescriptorVariant::Legacy(l) => if self.tcp_context.is_none() && !l.cmd_ic && l.buffer != 0 {
                Some((l.buffer, l.length as usize))
            } else {
                None
            },
            TransmitDescriptorVariant::TcpContext(_) => None,
            TransmitDescriptorVariant::TcpData(t) => if self.tcp_context.is_some() && t.buffer != 0 {
                Some((t.buffer, t.length as usize))
            } else {
                None
            },
        }
    }

    /// Adds a descriptor to the packet, with `buffer` the bytes of guest memory it
    /// points to (see `spec_add`).
    pub fn add_descriptor(&mut self, descriptor: &TransmitDescriptor, buffer: Vec<u8>) -> (r: Result<(), E1000Error>)
        ensures
            (r, final(self).gathering()) == spec_add(old(self).gathering(), *descriptor, buffer@),
    {
        let mut buffer = buffer;
        match &descriptor.variant {
            TransmitDescriptorVariant::Legacy(d) => {
                if self.tcp_context.is_some() {
                    return Err(E1000Error::BadDescriptor);
                }
                if d.cmd_ic {
                    // Checksum insertion by legacy descriptors is not emulated
                    return Err(E1000Error::Unimplemented);
                }
                if d.buffer == 0 {
                    // Null descriptors only pad receive rings
                    return Err(E1000Error::NullTransmitBuffer);
                }
                self.data.append(&mut buffer);
                self.done = d.cmd_eop;
            },
            TransmitDescriptorVariant::TcpContext(d) => {
                if self.tcp_context.is_some() {
                    return Err(E1000Error::BadDescriptor);
                }
                self.tcp_context = Some(*d);
            },
            TransmitDescriptorVariant::TcpData(d) => {
                if self.tcp_context.is_none() {
                    return Err(E1000Error::BadDescriptor);
                }
                // Only the options of the first data descriptor count
                if self.data.len() == 0 {
                    self.insert_ip_checksum = d.popts_ixsm;
                    self.insert_tcp_checksum = d.popts_txsm;
                }
                if d.buffer == 0 {
                    return Err(E1000Error::NullTransmitBuffer);
                }
                self.data.append(&mut buffer);
                self.done = d.dcmd_eop;
            },
        }
        Ok(())
    }
}

/// Handing the head back to software leaves one descriptor fewer to hardware.
proof fn lemma_advance_owned(old_ring: DescriptorRing, new_ring: DescriptorRing)
    requires
        old_ring.wf(),
        !old_ring.spec_is_empty(),
        new_ring.length == old_ring.length,
        new_ring.tail == old_ring.tail,
        new_ring.head == (old_ring.head + 1) % (old_ring.length as int),
    ensures
        owned_count(new_ring.head as int, new_ring.tail as int, new_ring.length as int) == owned_count(
            old_ring.head as int,
            old_ring.tail as int,
            old_ring.length as int,
        ) - 1,
{
    if old_ring.head + 1 < old_ring.length {
        vstd::arithmetic::div_mod::lemma_small_mod((old_ring.head + 1) as nat, old_ring.length as nat);
    } else {
        vstd::arithmetic::div_mod::lemma_mod_self_0(old_ring.length as int);
    }
}


impl Default for TransmitDescriptorSequence {
    fn default() -> (r: TransmitDescriptorSequence)
        ensures
            r.data@.len() == 0,
            !r.done,
            r.tcp_context is None,
    {
        TransmitDescriptorSequence::new()
    }
}

/// The descriptor with descriptor done set.
pub open spec fn with_done(d: TransmitDescriptor) -> TransmitDescriptor {
    TransmitDescriptor { common: TransmitDescriptorCommon { status_dd: true, ..d.common }, ..d }
}

/// The packed descriptor that the drain writes back once the packet being gathered
/// has `taken` it: with descriptor done set, where the driver asked for status.
pub open spec fn spec_tx_writeback(d: TransmitDescriptor, taken: bool) -> Option<Seq<u8>> {
    if taken && d.spec_report_status() {
        Some(with_done(d).spec_pack())
    } else {
        None
    }
}

/// The write-back decision of the drain for one descriptor (see `spec_tx_writeback`).
pub fn tx_writeback(d: &TransmitDescriptor, taken: bool) -> (r: Option<[u8; 16]>)
    requires
        d.common.dtyp < 16,
    ensures
        match r {
            Some(p) => spec_tx_writeback(*d, taken) == Some(p@),
            None => spec_tx_writeback(*d, taken) is None,
        },
{
    if taken && d.report_status() {
        let mut done = *d;
        done.common.status_dd = true;
        Some(done.pack())
    } else {
        None
    }
}

/// The calls that read the head slot `index` of a ring, whose memory held `slot`.
pub open spec fn slot_read_calls(ring: DescriptorRing, index: int, slot: Seq<u8>) -> Seq<HostEffect> {
    seq![
        HostEffect::DmaPrepare { address: ring.ring_address, length: (ring.length * 16) as usize },
        HostEffect::DmaRead { address: ring.ring_address, offset: (index * 16) as usize, bytes: Ghost(slot) },
    ]
}

/// The sends of a packet's frames, in order.
pub open spec fn send_calls(frames: Seq<Seq<u8>>) -> Seq<HostEffect> {
    frames.map_values(|f: Seq<u8>| HostEffect::Send { frame: Ghost(f) })
}

/// One descriptor of a drain, from what the host returned: the memory bytes of slot
/// `index`, and the bytes read from its buffer where it has one to read. Returns the
/// calls made, the packet gathered after it, and whether it was written back.
pub open spec fn drain_step(
    g: Gathering,
    ring: DescriptorRing,
    index: int,
    slot: Seq<u8>,
    buffer: Seq<u8>,
) -> (Seq<HostEffect>, Gathering, bool) {
    let reads = slot_read_calls(ring, index, slot);
    match TransmitDescriptor::spec_unpack(slot.reverse()) {
        Err(_) => (reads, g, false),
        Ok(d) => {
            let (added, g2) = spec_add(g, d, buffer);
            let written = added is Ok && d.spec_report_status();
            (
                reads + buffer_calls(g, d, buffer) + writeback_calls(ring, index, d, written) + done_calls(g2),
                after_done(g2),
                written,
            )
        },
    }
}

/// The calls that read the buffer of `d`, where it joins the packet with one.
pub open spec fn buffer_calls(g: Gathering, d: TransmitDescriptor, buffer: Seq<u8>) -> Seq<HostEffect> {
    match buffer_read(g, d) {
        Some((address, length)) => seq![
            HostEffect::DmaPrepare { address: #[verifier::truncate] (address as usize), length },
            HostEffect::DmaRead {
                address: #[verifier::truncate] (address as usize),
                offset: 0,
                bytes: Ghost(buffer),
            },
        ],
        None => Seq::empty(),
    }
}

/// The calls that write `d` back to slot `index` with descriptor done set, where `written`.
pub open spec fn writeback_calls(ring: DescriptorRing, index: int, d: TransmitDescriptor, written: bool) -> Seq<HostEffect> {
    if written {
        seq![
            HostEffect::DmaPrepare { address: ring.ring_address, length: (ring.length * 16) as usize },
            HostEffect::DmaWrite {
                address: ring.ring_address,
                offset: (index * 16) as usize,
                bytes: Ghost(with_done(d).spec_pack().reverse()),
            },
        ]
    } else {
        Seq::empty()
    }
}

/// The sends of a packet once it is done: its frames, or none where it is refused.
pub open spec fn done_calls(g: Gathering) -> Seq<HostEffect> {
    if g.done {
        match frames_of(g) {
            Ok(frames) => send_calls(frames),
            Err(_) => Seq::empty(),
        }
    } else {
        Seq::empty()
    }
}

/// A packet that is done is sent and a new one begins.
pub open spec fn after_done(g: Gathering) -> Gathering {
    if g.done {
        fresh_gathering()
    } else {
        g
    }
}

/// The slot of step `i` of a drain that starts at the head of `ring`.
pub open spec fn step_slot(ring: DescriptorRing, i: int) -> int {
    (ring.head + i) % (ring.length as int)
}

/// The packet gathered after the steps of a drain.
pub open spec fn drain_gathering(ring: DescriptorRing, steps: Seq<(Seq<u8>, Seq<u8>)>) -> Gathering
    decreases steps.len(),
{
    if steps.len() == 0 {
        fresh_gathering()
    } else {
        let k = steps.len() - 1;
        drain_step(drain_gathering(ring, steps.take(k)), ring, step_slot(ring, k), steps[k].0, steps[k].1).1
    }
}

/// The host calls of the steps of a drain, in order.
pub open spec fn drain_calls(ring: DescriptorRing, steps: Seq<(Seq<u8>, Seq<u8>)>) -> Seq<HostEffect>
    decreases steps.len(),
{
    if steps.len() == 0 {
        Seq::empty()
    } else {
        let k = steps.len() - 1;
        drain_calls(ring, steps.take(k)) + drain_step(
            drain_gathering(ring, steps.take(k)),
            ring,
            step_slot(ring, k),
            steps[k].0,
            steps[k].1,
        ).0
    }
}

/// Some step of a drain wrote its descriptor back.
pub open spec fn drain_writes_back(ring: DescriptorRing, steps: Seq<(Seq<u8>, Seq<u8>)>) -> bool
    decreases steps.len(),
{
    if steps.len() == 0 {
        false
    } else {
        let k = steps.len() - 1;
        drain_writes_back(ring, steps.take(k)) || drain_step(
            drain_gathering(ring, steps.take(k)),
            ring,
            step_slot(ring, k),
            steps[k].0,
            steps[k].1,
        ).2
    }
}

/// A drain step depends on the ring's address and length alone.
proof fn lemma_drain_step_ring(g: Gathering, r1: DescriptorRing, r2: DescriptorRing, index: int, slot: Seq<u8>, buffer: Seq<u8>)
    requires
        r1.ring_address == r2.ring_address,
        r1.length == r2.length,
    ensures
        drain_step(g, r1, index, slot, buffer) == drain_step(g, r2, index, slot, buffer),
{
}

/// What a drain of the transmit ring did.
#[derive(Debug)]
pub struct TransmitOutcome {
    /// A descriptor asked for its status to be reported, and was written back.
    pub report_status: bool,
    /// The faults of the descriptors and frames that were skipped.
    pub errors: Vec<E1000Error>,
}

impl<C: NicContext> E1000<C> {
    /// The ring that a drain from state `o` runs over: up to the tail in TDT.
    pub open spec fn drain_ring(o: Self) -> DescriptorRing {
        let before = o.tx_ring->Some_0;
        DescriptorRing { tail: ((o.regs.td_t.bits % 0x1_0000) % (before.length as u32)) as usize, ..before }
    }

    /// From state `o`, the transmit ring was drained from its head up to the tail in
    /// TDT, one `drain_step` per slot, with `report_status` telling whether a
    /// descriptor was written back; then the transmit interrupts were reported.
    pub open spec fn tx_drained(&self, o: Self, report_status: bool) -> bool {
        let ring = Self::drain_ring(o);
        let n = self.tx_ring->Some_0;
        &&& self.wf()
        &&& self.tx_ring is Some
        &&& n == (DescriptorRing { head: ring.tail, ..ring })
        &&& self.regs.td_h.bits == n.head
        &&& self.regs.interrupt_cause.bits == if report_status {
            o.regs.interrupt_cause.bits | ICR_TXDW | ICR_TXQE
        } else {
            o.regs.interrupt_cause.bits | ICR_TXQE
        }
        &&& self.regs == (Registers {
            td_h: self.regs.td_h,
            interrupt_cause: self.regs.interrupt_cause,
            ..o.regs
        })
        &&& self.rx_ring == o.rx_ring
        &&& self.receive_state == o.receive_state
        &&& self.eeprom == o.eeprom
        &&& self.phy == o.phy
        &&& exists|steps: Seq<(Seq<u8>, Seq<u8>)>|
            {
                &&& steps.len() == owned_count(ring.head as int, ring.tail as int, ring.length as int)
                &&& report_status == #[trigger] drain_writes_back(ring, steps)
                &&& self.delivered(
                    o,
                    drain_calls(ring, steps),
                    self.regs.interrupt_cause.bits & o.regs.interrupt_mask.bits != 0,
                )
            }
    }

    /// Reads `length` bytes of guest memory at `address`.
    fn read_buffer(&mut self, address: u64, length: usize) -> (r: Vec<u8>)
        ensures
            final(self).only_host_changed(*old(self)),
            final(self).effects@ == old(self).effects@ + seq![
                HostEffect::DmaPrepare { address: #[verifier::truncate] (address as usize), length },
                HostEffect::DmaRead { address: #[verifier::truncate] (address as usize), offset: 0, bytes: Ghost(r@) },
            ],
    {
        let address = #[verifier::truncate] (address as usize);
        self.host_dma_prepare(address, length);
        let mut buffer = vec![0u8; length];
        self.host_dma_read(address, buffer.as_mut_slice(), 0);
        assert(self.effects@ =~= old(self).effects@ + seq![
            HostEffect::DmaPrepare { address: #[verifier::truncate] (address as usize), length },
            HostEffect::DmaRead { address: #[verifier::truncate] (address as usize), offset: 0, bytes: Ghost(buffer@) },
        ]);
        buffer
    }

    /// Sends the frames of a packet, in order; a failed or short send is a fault.
    fn send_frames(&mut self, frames: &Vec<Vec<u8>>, errors: &mut Vec<E1000Error>)
        ensures
            final(self).only_host_changed(*old(self)),
            final(self).effects@ == old(self).effects@ + send_calls(frames@.map_values(|f: Vec<u8>| f@)),
    {
        let ghost views = frames@.map_values(|f: Vec<u8>| f@);
        let mut k: usize = 0;
        while k < frames.len()
            invariant
                0 <= k <= frames@.len(),
                views == frames@.map_values(|f: Vec<u8>| f@),
                self.only_host_changed(*old(self)),
                self.effects@ == old(self).effects@ + send_calls(views.take(k as int)),
            decreases frames.len() - k,
        {
            match self.host_send(frames[k].as_slice()) {
                Ok(n) => {
                    if n != frames[k].len() {
                        errors.push(E1000Error::SendFailure);
                    }
                },
                Err(()) => {
                    errors.push(E1000Error::SendFailure);
                },
            }
            assert(send_calls(views.take(k + 1)) =~= send_calls(views.take(k as int)).push(
                HostEffect::Send { frame: Ghost(frames@[k as int]@) },
            ));
            k = k + 1;
        }
        assert(views.take(frames@.len() as int) =~= views);
    }

    /// Joins `descriptor` to the packet: reads its buffer where it has one to join
    /// with, and writes it back to the head slot of `ring` with descriptor done set where
    /// it was taken and asks for status. Returns whether it was written back, and the
    /// bytes read.
    fn take_descriptor(
        &mut self,
        ring: &DescriptorRing,
        sequence: &mut TransmitDescriptorSequence,
        descriptor: &TransmitDescriptor,
        errors: &mut Vec<E1000Error>,
    ) -> (r: (bool, Ghost<Seq<u8>>))
        requires
            ring.wf(),
            descriptor.common.dtyp < 16,
        ensures
            ({
                let (added, g2) = spec_add(old(sequence).gathering(), *descriptor, r.1@);
                let written = added is Ok && descriptor.spec_report_status();
                &&& final(self).effects@ == old(self).effects@ + buffer_calls(
                    old(sequence).gathering(),
                    *descriptor,
                    r.1@,
                ) + writeback_calls(*ring, ring.head as int, *descriptor, written)
                &&& final(sequence).gathering() == g2
                &&& r.0 == written
            }),
            final(self).only_host_changed(*old(self)),
    {
        let ghost g = sequence.gathering();
        let buffer = match sequence.buffer_to_read(descriptor) {
            Some((address, length)) => self.read_buffer(address, length),
            None => Vec::new(),
        };
        let ghost bytes = buffer@;
        let ghost after_read = self.effects@;
        assert(after_read =~= old(self).effects@ + buffer_calls(g, *descriptor, bytes));
        let taken = match sequence.add_descriptor(descriptor, buffer) {
            Ok(()) => true,
            Err(e) => {
                errors.push(e);
                false
            },
        };
        let mut written = false;
        match tx_writeback(descriptor, taken) {
            Some(done) => {
                // Written back with descriptor done set
                self.write_ring_head(ring, &done);
                written = true;
            },
            None => {},
        }
        assert(self.effects@ =~= after_read + writeback_calls(*ring, ring.head as int, *descriptor, written));
        (written, Ghost(bytes))
    }

    /// Sends a packet that is done and begins a new one.
    fn send_if_done(&mut self, sequence: &mut TransmitDescriptorSequence, errors: &mut Vec<E1000Error>)
        ensures
            final(self).effects@ == old(self).effects@ + done_calls(old(sequence).gathering()),
            final(sequence).gathering() == after_done(old(sequence).gathering()),
            final(self).only_host_changed(*old(self)),
    {
        if sequence.done {
            let mut complete = TransmitDescriptorSequence::new();
            core::mem::swap(sequence, &mut complete);
            assert(sequence.data@ =~= Seq::<u8>::empty());
            match complete.finalize() {
                Ok(frames) => {
                    self.send_frames(&frames, errors);
                    assert(frames@.map_values(|f: Vec<u8>| f@) =~= complete.spec_frames()->Ok_0);
                },
                Err(e) => {
                    errors.push(e);
                    assert(self.effects@ =~= old(self).effects@ + Seq::<HostEffect>::empty());
                },
            }
        } else {
            assert(self.effects@ =~= old(self).effects@ + Seq::<HostEffect>::empty());
        }
    }

    /// One step of the drain on the head slot of `ring` (see `drain_step`). Returns
    /// whether the descriptor was written back, the slot's memory bytes and the bytes
    /// read from its buffer.
    fn drain_one(
        &mut self,
        ring: &DescriptorRing,
        sequence: &mut TransmitDescriptorSequence,
        errors: &mut Vec<E1000Error>,
    ) -> (r: (bool, Ghost<Seq<u8>>, Ghost<Seq<u8>>))
        requires
            ring.wf(),
            !old(sequence).done,
        ensures
            ({
                let step = drain_step(old(sequence).gathering(), *ring, ring.head as int, r.1@, r.2@);
                &&& final(self).effects@ == old(self).effects@ + step.0
                &&& final(sequence).gathering() == step.1
                &&& r.0 == step.2
            }),
            !final(sequence).done,
            final(self).only_host_changed(*old(self)),
    {
        let ghost g = sequence.gathering();
        let packed = self.read_ring_head(ring);
        let ghost slot = packed@.reverse();
        assert(slot.reverse() =~= packed@);
        let ghost reads = slot_read_calls(*ring, ring.head as int, slot);
        let ghost after_reads = self.effects@;
        assert(after_reads =~= old(self).effects@ + reads);
        match TransmitDescriptor::unpack(&packed) {
            Err(e) => {
                errors.push(e);
                (false, Ghost(slot), Ghost(Seq::empty()))
            },
            Ok(descriptor) => {
                let (written, bytes) = self.take_descriptor(ring, sequence, &descriptor, errors);
                let ghost g2 = sequence.gathering();
                let ghost after_take = self.effects@;
                self.send_if_done(sequence, errors);
                proof {
                    let written_spec = spec_add(g, descriptor, bytes@).0 is Ok && descriptor.spec_report_status();
                    assert(self.effects@ =~= old(self).effects@ + (reads + buffer_calls(g, descriptor, bytes@)
                        + writeback_calls(*ring, ring.head as int, descriptor, written_spec) + done_calls(g2)));
                }
                (written, Ghost(slot), bytes)
            },
        }
    }

    /// Drains the transmit ring from its head up to the tail that TDT holds (see
    /// `drain_step`): each descriptor is read and joins the packet being gathered; one
    /// taken that asks for status is written back with DD set; complete packets are
    /// sent. A faulty descriptor or frame is skipped. Then transmit queue empty is
    /// reported, with descriptor written back exactly where a descriptor was.
    pub fn process_tx_ring(&mut self) -> (r: TransmitOutcome)
        requires
            old(self).wf(),
        ensures
            final(self).wf(),
            old(self).tx_ring is None ==> *final(self) == *old(self) && !r.report_status && r.errors@.len() == 0,
            old(self).tx_ring is Some ==> final(self).tx_drained(*old(self), r.report_status),
    {
        let mut ring = match self.tx_ring {
            Some(ring) => ring,
            None => {
                return TransmitOutcome { report_status: false, errors: Vec::new() };
            },
        };
        ring.tail = ((self.regs.td_t.bits % 0x1_0000) % (ring.length as u32)) as usize;
        let ghost start = *self;
        let ghost ring0 = ring;
        assert(ring0 == Self::drain_ring(*old(self)));
        let ghost mut steps: Seq<(Seq<u8>, Seq<u8>)> = Seq::empty();
        let mut sequence = TransmitDescriptorSequence::new();
        assert(sequence.data@ =~= Seq::<u8>::empty());
        assert(sequence.gathering() == fresh_gathering());
        proof {
            vstd::arithmetic::div_mod::lemma_small_mod(ring0.head as nat, ring0.length as nat);
        }
        let mut report_status = false;
        let mut errors: Vec<E1000Error> = Vec::new();
        while !ring.is_empty()
            invariant
                self.wf(),
                ring.wf(),
                ring0.wf(),
                ring.length == ring0.length,
                ring.ring_address == ring0.ring_address,
                ring.tail == ring0.tail,
                ring.head == step_slot(ring0, steps.len() as int),
                steps.len() + owned_count(ring.head as int, ring.tail as int, ring.length as int) == owned_count(
                    ring0.head as int,
                    ring0.tail as int,
                    ring0.length as int,
                ),
                sequence.gathering() == drain_gathering(ring0, steps),
                !sequence.done,
                report_status == drain_writes_back(ring0, steps),
                self.effects@ == start.effects@ + drain_calls(ring0, steps),
                self.regs == (Registers { td_h: self.regs.td_h, ..start.regs }),
                self.tx_ring == start.tx_ring,
                self.rx_ring == start.rx_ring,
                self.receive_state == start.receive_state,
                self.interrupt_mitigation == start.interrupt_mitigation,
                self.enable_interrupt_mitigation == start.enable_interrupt_mitigation,
                self.eeprom == start.eeprom,
                self.phy == start.phy,
            decreases owned_count(ring.head as int, ring.tail as int, ring.length as int),
        {
            let ghost before = ring;
            let ghost g = sequence.gathering();
            let ghost k = steps.len() as int;
            let ghost effects_before = self.effects@;
            let (written, slot, buffer_bytes) = self.drain_one(&ring, &mut sequence, &mut errors);
            proof {
                lemma_drain_step_ring(g, ring, ring0, ring.head as int, slot@, buffer_bytes@);
                let step = drain_step(g, ring0, ring.head as int, slot@, buffer_bytes@);
                let new_steps = steps.push((slot@, buffer_bytes@));
                assert(new_steps.take(k) =~= steps);
                assert(new_steps.len() - 1 == k);
                assert(new_steps[k] == (slot@, buffer_bytes@));
                assert(step_slot(ring0, k) == ring.head as int);
                assert(drain_gathering(ring0, new_steps.take(k)) == g);
                assert(drain_calls(ring0, new_steps) == drain_calls(ring0, steps) + step.0);
                assert(self.effects@ =~= start.effects@ + drain_calls(ring0, new_steps));
                assert(drain_gathering(ring0, new_steps) == step.1);
                assert(drain_writes_back(ring0, new_steps) == (drain_writes_back(ring0, steps) || step.2));
                steps = new_steps;
            }
            if written {
                report_status = true;
            }
            ring.advance_head();
            proof {
                lemma_advance_owned(before, ring);
                vstd::arithmetic::div_mod::lemma_add_mod_noop(ring0.head + k, 1, ring0.length as int);
                vstd::arithmetic::div_mod::lemma_small_mod(1, ring0.length as nat);
            }
            self.regs.td_h.bits = ring.head as u32;
        }
        self.regs.td_h.bits = ring.head as u32;
        self.tx_ring = Some(ring);
        let ghost mid = *self;
        if report_status {
            self.report_txdw_and_txqe();
            proof {
                Self::lemma_delivered_from(
                    *self,
                    mid,
                    *old(self),
                    drain_calls(ring0, steps),
                    (mid.regs.interrupt_cause.bits | ICR_TXDW | ICR_TXQE) & mid.regs.interrupt_mask.bits != 0,
                );
            }
        } else {
            self.report_txqe();
            proof {
                Self::lemma_delivered_from(
                    *self,
                    mid,
                    *old(self),
                    drain_calls(ring0, steps),
                    (mid.regs.interrupt_cause.bits | ICR_TXQE) & mid.regs.interrupt_mask.bits != 0,
                );
            }
        }
        assert(self.tx_drained(*old(self), report_status));
        TransmitOutcome { report_status, errors }
    }
}

} // verus!
