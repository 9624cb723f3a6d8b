//! IPv4 (RFC 791) packets and the Internet checksum (RFC 1071).

use vstd::prelude::*;
use crate::net::wire::{be16_at, be16_bytes, read_be16, push_be16, push_bytes};

verus! {

pub const HEADER_LEN: usize = 20;
pub const PROTO_ICMP: u8 = 1;
pub const PROTO_TCP: u8 = 6;
pub const PROTO_UDP: u8 = 17;

/// An IPv4 address.
#[derive(Debug, Clone, Copy, PartialEq, Eq)]
pub struct Ipv4Addr(pub [u8; 4]);

/// The 32-bit big-endian value of four bytes.
pub open spec fn be32(s: Seq<u8>) -> u32 {
    (s[0] * 0x1000000 + s[1] * 0x10000 + s[2] * 0x100 + s[3]) as u32
}

impl Ipv4Addr {
    /// The address a.b.c.d.
    pub fn new(a: u8, b: u8, c: u8, d: u8) -> (r: Ipv4Addr)
        ensures
            r.0@ == seq![a, b, c, d],
    {
        let r = Ipv4Addr([a, b, c, d]);
        assert(r.0@ =~= seq![a, b, c, d]);
        r
    }

    /// The address as a big-endian 32-bit value.
    pub fn as_u32(&self) -> (v: u32)
        ensures
            v == be32(self.0@),
    {
        (self.0[0] as u32) * 0x1000000 + (self.0[1] as u32) * 0x10000 + (self.0[2] as u32) * 0x100
            + (self.0[3] as u32)
    }

    /// True iff both addresses agree on the bits selected by `mask`.
    pub fn same_subnet(&self, other: &Ipv4Addr, mask: &Ipv4Addr) -> (b: bool)
        ensures
            b == ((be32(self.0@) & be32(mask.0@)) == (be32(other.0@) & be32(mask.0@))),
    {
        (self.as_u32() & mask.as_u32()) == (other.as_u32() & mask.as_u32())
    }

    /// True iff both addresses hold the same bytes.
    pub fn same(&self, other: &Ipv4Addr) -> (b: bool)
        ensures
            b == (self.0@ == other.0@),
    {
        let r = self.0[0] == other.0[0] && self.0[1] == other.0[1] && self.0[2] == other.0[2]
            && self.0[3] == other.0[3];
        if r {
            assert(self.0@ =~= other.0@);
        }
        r
    }
}

/// Reads four bytes starting at `i` as an address.
pub fn read_ipv4(data: &[u8], i: usize) -> (a: Ipv4Addr)
    requires
        i + 4 <= data@.len(),
    ensures
        a.0@ == data@.subrange(i as int, i + 4),
{
    let a = Ipv4Addr([data[i], data[i + 1], data[i + 2], data[i + 3]]);
    assert(a.0@ =~= data@.subrange(i as int, i + 4));
    a
}

// ===== Internet checksum =====

/// The 16-bit word starting at byte `i` (a missing last byte counts as 0).
pub open spec fn word_at(s: Seq<u8>, i: int) -> int {
    s[i] * 256 + (if i + 1 < s.len() { s[i + 1] as int } else { 0 })
}

/// Sum of the 16-bit words from byte `i` to the end.
pub open spec fn sum_from(s: Seq<u8>, i: int) -> int
    decreases s.len() + 2 - i,
{
    if i < 0 || i >= s.len() {
        0
    } else {
        word_at(s, i) + sum_from(s, i + 2)
    }
}

/// End-around-carry folding of a sum into 16 bits.
pub open spec fn fold_carries(x: int) -> int
    decreases x,
{
    if x < 0x10000 {
        x
    } else {
        fold_carries(x % 0x10000 + x / 0x10000)
    }
}

/// The RFC 1071 checksum: one's complement of the folded word sum.
pub open spec fn internet_checksum(s: Seq<u8>) -> u16 {
    (0xFFFF - fold_carries(sum_from(s, 0))) as u16
}

proof fn lemma_fold_range(x: int)
    requires
        x >= 0,
    ensures
        0 <= fold_carries(x) < 0x10000,
    decreases x,
{
    if x >= 0x10000 {
        lemma_fold_range(x % 0x10000 + x / 0x10000);
    }
}

proof fn lemma_sum_from_nonneg(s: Seq<u8>, i: int)
    ensures
        sum_from(s, i) >= 0,
    decreases s.len() + 2 - i,
{
    if 0 <= i < s.len() {
        lemma_sum_from_nonneg(s, i + 2);
    }
}

/// Computes the Internet checksum of `data`.
pub fn checksum(data: &[u8]) -> (c: u16)
    requires
        data@.len() < 0x20000,
    ensures
        c == internet_checksum(data@),
{
    let mut sum: u32 = 0;
    let mut i: usize = 0;
    while i + 1 < data.len()
        invariant
            i % 2 == 0,
            i <= data@.len(),
            data@.len() < 0x20000,
            sum + sum_from(data@, i as int) == sum_from(data@, 0),
            sum <= i * 0x8000,
        decreases data@.len() - i,
    {
        sum = sum + (data[i] as u32) * 256 + (data[i + 1] as u32);
        i = i + 2;
    }
    if i < data.len() {
        assert(sum_from(data@, i + 2) == 0);
        sum = sum + (data[i] as u32) * 256;
    } else {
        assert(sum_from(data@, i as int) == 0);
    }
    assert(sum == sum_from(data@, 0));
    let ghost total = sum as int;
    while sum >= 0x10000
        invariant
            fold_carries(sum as int) == fold_carries(total),
        decreases sum,
    {
        sum = sum % 0x10000 + sum / 0x10000;
    }
    proof {
        lemma_sum_from_nonneg(data@, 0);
        lemma_fold_range(total);
    }
    0xFFFFu16 - (sum as u16)
}


proof fn lemma_fold_congruent(x: int)
    requires
        x >= 0,
    ensures
        fold_carries(x) % 0xFFFF == x % 0xFFFF,
        x > 0 ==> fold_carries(x) > 0,
    decreases x,
{
    if x >= 0x10000 {
        let q = x / 0x10000;
        let r = x % 0x10000;
        assert(x == 0xFFFF * q + (q + r)) by (nonlinear_arith)
            requires
                q == x / 0x10000,
                r == x % 0x10000,
        ;
        assert((0xFFFF * q + (q + r)) % 0xFFFF == (q + r) % 0xFFFF) by (nonlinear_arith)
            requires
                q >= 0,
                r >= 0,
        ;
        assert(q >= 1);
        lemma_fold_congruent(q + r);
    }
}

proof fn lemma_sum_agree_from(s: Seq<u8>, t: Seq<u8>, i: int)
    requires
        s.len() == t.len(),
        i >= 0,
        forall|j: int| i <= j < s.len() ==> s[j] == t[j],
    ensures
        sum_from(s, i) == sum_from(t, i),
    decreases s.len() + 2 - i,
{
    if i < s.len() {
        lemma_sum_agree_from(s, t, i + 2);
    }
}

proof fn lemma_sum_word_changed(s: Seq<u8>, t: Seq<u8>, i: int, k: int)
    requires
        s.len() == t.len(),
        0 <= i <= k,
        i % 2 == 0,
        k % 2 == 0,
        k + 1 < s.len(),
        forall|j: int| 0 <= j < s.len() && j != k && j != k + 1 ==> s[j] == t[j],
    ensures
        sum_from(t, i) == sum_from(s, i) - word_at(s, k) + word_at(t, k),
    decreases k - i,
{
    if i == k {
        lemma_sum_agree_from(s, t, k + 2);
    } else {
        lemma_sum_word_changed(s, t, i + 2, k);
        assert(word_at(s, i) == word_at(t, i));
    }
}

/// A header whose checksum field was filled by `header_with_checksum`
/// checksums to zero: the receiver-side check of RFC 1071 succeeds.
pub proof fn lemma_checksum_verifies(raw: Seq<u8>)
    requires
        raw.len() == HEADER_LEN,
        raw[10] == 0,
        raw[11] == 0,
    ensures
        internet_checksum(header_with_checksum(raw)) == 0,
{
    let h = header_with_checksum(raw);
    let c = internet_checksum(raw);
    let s = sum_from(raw, 0);
    lemma_sum_from_nonneg(raw, 0);
    lemma_fold_range(s);
    lemma_fold_congruent(s);
    let f = fold_carries(s);
    assert(c == 0xFFFF - f);
    assert(word_at(raw, 10) == 0);
    assert(word_at(h, 10) == c);
    lemma_sum_word_changed(raw, h, 0, 10);
    let s2 = sum_from(h, 0);
    assert(s2 == s + c);
    lemma_fold_range(s2);
    lemma_fold_congruent(s2);
    assert(s2 > 0);
    assert(s2 % 0xFFFF == 0) by (nonlinear_arith)
        requires
            s2 == s + 0xFFFF - f,
            f % 0xFFFF == s % 0xFFFF,
            s >= 0,
            0 <= f,
    ;
    assert(fold_carries(s2) == 0xFFFF);
}

// ===== Packets =====

/// A parsed IPv4 packet borrowing its payload.
#[derive(Debug)]
pub struct Ipv4Packet<'a> {
    pub version: u8,
    pub ihl: u8,
    pub total_length: u16,
    pub identification: u16,
    pub ttl: u8,
    pub protocol: u8,
    pub checksum: u16,
    pub src_ip: Ipv4Addr,
    pub dst_ip: Ipv4Addr,
    pub payload: &'a [u8],
}

/// When parsing accepts `s`: at least 20 bytes, version 4, IHL >= 5, and the
/// whole header present.
pub open spec fn ipv4_accepts(s: Seq<u8>) -> bool {
    &&& s.len() >= HEADER_LEN
    &&& s[0] / 16 == 4
    &&& s[0] % 16 >= 5
    &&& s.len() >= (s[0] % 16) * 4
}

/// Payload of an accepted packet: bytes from the header end up to
/// `min(total_length, len)` (empty when that end is not past the header).
pub open spec fn ipv4_payload(s: Seq<u8>) -> Seq<u8> {
    let header_len = (s[0] % 16) * 4;
    let total = be16_at(s, 2) as int;
    let end = if total < s.len() { total } else { s.len() as int };
    if header_len < end {
        s.subrange(header_len, end)
    } else {
        Seq::empty()
    }
}

impl<'a> Ipv4Packet<'a> {
    /// Parses an IPv4 header; `None` iff `ipv4_accepts` fails.
    pub fn parse(data: &'a [u8]) -> (r: Option<Ipv4Packet<'a>>)
        ensures
            r is Some <==> ipv4_accepts(data@),
            r matches Some(p) ==> {
                &&& p.version == data@[0] / 16
                &&& p.ihl == data@[0] % 16
                &&& p.total_length == be16_at(data@, 2)
                &&& p.identification == be16_at(data@, 4)
                &&& p.ttl == data@[8]
                &&& p.protocol == data@[9]
                &&& p.checksum == be16_at(data@, 10)
                &&& p.src_ip.0@ == data@.subrange(12, 16)
                &&& p.dst_ip.0@ == data@.subrange(16, 20)
                &&& p.payload@ == ipv4_payload(data@)
            },
    {
        if data.len() < HEADER_LEN {
            return None;
        }
        let version = data[0] / 16;
        let ihl = data[0] % 16;
        if version != 4 || ihl < 5 {
            return None;
        }
        let header_len = (ihl as usize) * 4;
        if data.len() < header_len {
            return None;
        }
        let total_length = read_be16(data, 2);
        let identification = read_be16(data, 4);
        let ttl = data[8];
        let protocol = data[9];
        let checksum = read_be16(data, 10);
        let src = read_ipv4(data, 12);
        let dst = read_ipv4(data, 16);
        let payload_end = if (total_length as usize) < data.len() {
            total_length as usize
        } else {
            data.len()
        };
        let payload: &[u8] = if header_len < payload_end {
            &data[header_len..payload_end]
        } else {
            &data[0..0]
        };
        assert(payload@ =~= ipv4_payload(data@));
        Some(Ipv4Packet {
            version,
            ihl,
            total_length,
            identification,
            ttl,
            protocol,
            checksum,
            src_ip: src,
            dst_ip: dst,
            payload,
        })
    }
}

/// The 20 header bytes with a zero checksum field.
pub open spec fn header_raw(src: Seq<u8>, dst: Seq<u8>, protocol: u8, id: u16, ttl: u8, total: u16) -> Seq<u8> {
    seq![0x45u8, 0x00u8] + be16_bytes(total) + be16_bytes(id) + seq![0x40u8, 0x00u8, ttl, protocol, 0u8, 0u8]
        + src + dst
}

/// The header with its checksum filled in at bytes 10 and 11.
pub open spec fn header_with_checksum(raw: Seq<u8>) -> Seq<u8> {
    let c = internet_checksum(raw);
    raw.update(10, (c / 256) as u8).update(11, (c % 256) as u8)
}

/// Total-length field of a packet carrying `n` payload bytes (truncated to 16 bits).
pub open spec fn total_length_for(n: int) -> u16 {
    ((n + 20) % 0x10000) as u16
}

/// The bytes `build_packet` produces.
pub open spec fn packet_bytes(src: Seq<u8>, dst: Seq<u8>, protocol: u8, id: u16, ttl: u8, payload: Seq<u8>) -> Seq<u8> {
    header_with_checksum(header_raw(src, dst, protocol, id, ttl, total_length_for(payload.len() as int)))
        + payload
}

/// Builds an IPv4 packet (version 4, IHL 5, Don't Fragment) with a valid
/// header checksum.
pub fn build_packet(src: Ipv4Addr, dst: Ipv4Addr, protocol: u8, id: u16, ttl: u8, payload: &[u8]) -> (p: Vec<u8>)
    ensures
        p@ == packet_bytes(src.0@, dst.0@, protocol, id, ttl, payload@),
{
    let total_len: u16 = (((payload.len() % 0x10000) + 20) % 0x10000) as u16;
    assert(total_len == total_length_for(payload@.len() as int));
    let mut packet: Vec<u8> = Vec::new();
    packet.push(0x45);
    packet.push(0x00);
    push_be16(&mut packet, total_len);
    push_be16(&mut packet, id);
    packet.push(0x40);
    packet.push(0x00);
    packet.push(ttl);
    packet.push(protocol);
    packet.push(0x00);
    packet.push(0x00);
    push_bytes(&mut packet, src.0.as_slice());
    push_bytes(&mut packet, dst.0.as_slice());
    let ghost raw = header_raw(src.0@, dst.0@, protocol, id, ttl, total_len);
    assert(packet@ =~= raw);
    let cksum = checksum(packet.as_slice());
    packet.set(10, (cksum / 256) as u8);
    packet.set(11, (cksum % 256) as u8);
    assert(packet@ =~= header_with_checksum(raw));
    push_bytes(&mut packet, payload);
    packet
}


/// Parsing a built packet recovers its addresses, protocol, identification,
/// TTL and payload, and its header checksums to zero (payloads of at most
/// 65515 bytes, whose length fits the 16-bit total-length field).
pub proof fn lemma_packet_roundtrip(
    src: Ipv4Addr,
    dst: Ipv4Addr,
    protocol: u8,
    id: u16,
    ttl: u8,
    payload: Seq<u8>,
)
    requires
        payload.len() + HEADER_LEN <= 0xFFFF,
    ensures
        ({
            let p = packet_bytes(src.0@, dst.0@, protocol, id, ttl, payload);
            &&& ipv4_accepts(p)
            &&& p[0] / 16 == 4
            &&& p[0] % 16 == 5
            &&& be16_at(p, 2) == payload.len() + HEADER_LEN
            &&& be16_at(p, 4) == id
            &&& p[8] == ttl
            &&& p[9] == protocol
            &&& p.subrange(12, 16) == src.0@
            &&& p.subrange(16, 20) == dst.0@
            &&& ipv4_payload(p) == payload
            &&& internet_checksum(p.subrange(0, 20)) == 0
        }),
{
    let total = total_length_for(payload.len() as int);
    let raw = header_raw(src.0@, dst.0@, protocol, id, ttl, total);
    let h = header_with_checksum(raw);
    let p = packet_bytes(src.0@, dst.0@, protocol, id, ttl, payload);
    assert(raw.len() == 20);
    assert(h.len() == 20);
    assert(p =~= h + payload);
    assert(p.subrange(0, 20) =~= h);
    lemma_checksum_verifies(raw);
    crate::net::wire::lemma_be16_roundtrip(total);
    crate::net::wire::lemma_be16_roundtrip(id);
    assert(p[2] == raw[2] && p[3] == raw[3]);
    assert(p[4] == raw[4] && p[5] == raw[5]);
    assert(p.subrange(12, 16) =~= src.0@);
    assert(p.subrange(16, 20) =~= dst.0@);
    assert(ipv4_payload(p) =~= payload);
}

} // verus!
