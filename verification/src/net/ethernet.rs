//! Ethernet II frames (IEEE 802.3): 6-byte destination, 6-byte source,
//! 2-byte EtherType, then the payload.

use vstd::prelude::*;
use crate::net::wire::{be16_at, be16_bytes, read_be16, push_be16, push_bytes};

verus! {

/// Maximum transmission unit.
pub const MTU: usize = 1500;
/// Header length (no VLAN tag).
pub const HEADER_LEN: usize = 14;
pub const ETHERTYPE_IPV4: u16 = 0x0800;
pub const ETHERTYPE_ARP: u16 = 0x0806;

/// A 6-byte hardware address.
#[derive(Debug, Clone, Copy, PartialEq, Eq)]
pub struct MacAddress(pub [u8; 6]);



impl MacAddress {
    /// The all-zero address.
    pub fn zero() -> (m: MacAddress)
        ensures
            m.0@ == seq![0u8, 0u8, 0u8, 0u8, 0u8, 0u8],
    {
        let m = MacAddress([0u8; 6]);
        assert(m.0@ =~= seq![0u8, 0u8, 0u8, 0u8, 0u8, 0u8]);
        m
    }

    /// The broadcast address ff:ff:ff:ff:ff:ff.
    pub fn broadcast() -> (m: MacAddress)
        ensures
            m.0@ == seq![0xFFu8, 0xFFu8, 0xFFu8, 0xFFu8, 0xFFu8, 0xFFu8],
    {
        let m = MacAddress([0xFFu8; 6]);
        assert(m.0@ =~= seq![0xFFu8, 0xFFu8, 0xFFu8, 0xFFu8, 0xFFu8, 0xFFu8]);
        m
    }

    /// True iff every byte is 0xFF.
    pub fn is_broadcast(&self) -> (b: bool)
        ensures
            b == (forall|i: int| 0 <= i < 6 ==> #[trigger] self.0@[i] == 0xFF),
    {
        let mut i: usize = 0;
        while i < 6
            invariant
                i <= 6,
                forall|j: int| 0 <= j < i ==> #[trigger] self.0@[j] == 0xFF,
            decreases 6 - i,
        {
            if self.0[i] != 0xFF {
                return false;
            }
            i = i + 1;
        }
        true
    }

    /// True iff both addresses hold the same bytes.
    pub fn same(&self, other: &MacAddress) -> (b: bool)
        ensures
            b == (self.0@ == other.0@),
    {
        let mut i: usize = 0;
        while i < 6
            invariant
                i <= 6,
                forall|j: int| 0 <= j < i ==> self.0@[j] == other.0@[j],
            decreases 6 - i,
        {
            if self.0[i] != other.0[i] {
                return false;
            }
            i = i + 1;
        }
        assert(self.0@ =~= other.0@);
        true
    }
}

/// Reads six bytes starting at `i` as a hardware address.
pub fn read_mac(data: &[u8], i: usize) -> (m: MacAddress)
    requires
        i + 6 <= data@.len(),
    ensures
        m.0@ == data@.subrange(i as int, i + 6),
{
    let m = MacAddress([data[i], data[i + 1], data[i + 2], data[i + 3], data[i + 4], data[i + 5]]);
    assert(m.0@ =~= data@.subrange(i as int, i + 6));
    m
}

/// A parsed Ethernet frame borrowing its payload.
#[derive(Debug)]
pub struct EthernetFrame<'a> {
    pub dst_mac: MacAddress,
    pub src_mac: MacAddress,
    pub ethertype: u16,
    pub payload: &'a [u8],
}

/// The bytes of a frame with the given header fields and payload.
pub open spec fn frame_bytes(dst: Seq<u8>, src: Seq<u8>, ethertype: u16, payload: Seq<u8>) -> Seq<u8> {
    dst + src + be16_bytes(ethertype) + payload
}

impl<'a> EthernetFrame<'a> {
    /// Parses a frame; `None` iff fewer than 14 bytes are given.
    pub fn parse(data: &'a [u8]) -> (r: Option<EthernetFrame<'a>>)
        ensures
            r is None <==> data@.len() < HEADER_LEN,
            r matches Some(f) ==> {
                &&& f.dst_mac.0@ == data@.subrange(0, 6)
                &&& f.src_mac.0@ == data@.subrange(6, 12)
                &&& f.ethertype == be16_at(data@, 12)
                &&& f.payload@ == data@.subrange(14, data@.len() as int)
            },
    {
        if data.len() < HEADER_LEN {
            return None;
        }
        let dst = read_mac(data, 0);
        let src = read_mac(data, 6);
        let ethertype = read_be16(data, 12);
        Some(EthernetFrame { dst_mac: dst, src_mac: src, ethertype, payload: &data[14..data.len()] })
    }
}

/// Builds a frame: destination, source, big-endian EtherType, payload.
pub fn build_frame(dst: MacAddress, src: MacAddress, ethertype: u16, payload: &[u8]) -> (f: Vec<u8>)
    ensures
        f@ == frame_bytes(dst.0@, src.0@, ethertype, payload@),
{
    let mut frame: Vec<u8> = Vec::new();
    push_bytes(&mut frame, dst.0.as_slice());
    push_bytes(&mut frame, src.0.as_slice());
    push_be16(&mut frame, ethertype);
    push_bytes(&mut frame, payload);
    frame
}

/// Parsing a built frame gives back the addresses, EtherType and payload.
pub proof fn lemma_frame_roundtrip(dst: MacAddress, src: MacAddress, ethertype: u16, payload: Seq<u8>)
    ensures
        ({
            let f = frame_bytes(dst.0@, src.0@, ethertype, payload);
            &&& f.len() >= HEADER_LEN
            &&& f.subrange(0, 6) == dst.0@
            &&& f.subrange(6, 12) == src.0@
            &&& be16_at(f, 12) == ethertype
            &&& f.subrange(14, f.len() as int) == payload
        }),
{
    let f = frame_bytes(dst.0@, src.0@, ethertype, payload);
    assert(f.subrange(0, 6) =~= dst.0@);
    assert(f.subrange(6, 12) =~= src.0@);
    assert(f.subrange(14, f.len() as int) =~= payload);
    crate::net::wire::lemma_be16_roundtrip(ethertype);
}

} // verus!
