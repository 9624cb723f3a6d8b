//! ARP for IPv4 over Ethernet (RFC 826): 28-byte packets.

use vstd::prelude::*;
use crate::net::wire::{be16_at, be16_bytes, read_be16, push_be16, push_bytes};
use crate::net::ethernet::{MacAddress, read_mac};
use crate::net::ipv4::{Ipv4Addr, read_ipv4};

verus! {

pub const ARP_LEN: usize = 28;
pub const OP_REQUEST: u16 = 1;
pub const OP_REPLY: u16 = 2;

/// A parsed ARP packet.
#[derive(Debug)]
pub struct ArpPacket {
    pub operation: u16,
    pub sender_mac: MacAddress,
    pub sender_ip: Ipv4Addr,
    pub target_mac: MacAddress,
    pub target_ip: Ipv4Addr,
}

/// Parsing accepts: at least 28 bytes, hardware type 1 (Ethernet),
/// protocol 0x0800 (IPv4), address lengths 6 and 4.
pub open spec fn arp_accepts(s: Seq<u8>) -> bool {
    &&& s.len() >= ARP_LEN
    &&& be16_at(s, 0) == 1
    &&& be16_at(s, 2) == 0x0800
    &&& s[4] == 6
    &&& s[5] == 4
}

impl ArpPacket {
    /// Parses an ARP packet; `None` iff `arp_accepts` fails.
    pub fn parse(data: &[u8]) -> (r: Option<ArpPacket>)
        ensures
            r is Some <==> arp_accepts(data@),
            r matches Some(p) ==> {
                &&& p.operation == be16_at(data@, 6)
                &&& p.sender_mac.0@ == data@.subrange(8, 14)
                &&& p.sender_ip.0@ == data@.subrange(14, 18)
                &&& p.target_mac.0@ == data@.subrange(18, 24)
                &&& p.target_ip.0@ == data@.subrange(24, 28)
            },
    {
        if data.len() < ARP_LEN {
            return None;
        }
        let hw_type = read_be16(data, 0);
        let proto_type = read_be16(data, 2);
        let hw_len = data[4];
        let proto_len = data[5];
        if hw_type != 1 || proto_type != 0x0800 || hw_len != 6 || proto_len != 4 {
            return None;
        }
        Some(ArpPacket {
            operation: read_be16(data, 6),
            sender_mac: read_mac(data, 8),
            sender_ip: read_ipv4(data, 14),
            target_mac: read_mac(data, 18),
            target_ip: read_ipv4(data, 24),
        })
    }
}

/// The 28 bytes of an ARP packet with the given fields.
pub open spec fn arp_bytes(operation: u16, sender_mac: Seq<u8>, sender_ip: Seq<u8>, target_mac: Seq<u8>, target_ip: Seq<u8>) -> Seq<u8> {
    be16_bytes(1) + be16_bytes(0x0800) + seq![6u8, 4u8] + be16_bytes(operation) + sender_mac + sender_ip
        + target_mac + target_ip
}

/// Builds an ARP reply.
pub fn build_reply(our_mac: MacAddress, our_ip: Ipv4Addr, target_mac: MacAddress, target_ip: Ipv4Addr) -> (p: Vec<u8>)
    ensures
        p@ == arp_bytes(OP_REPLY, our_mac.0@, our_ip.0@, target_mac.0@, target_ip.0@),
{
    build_packet(OP_REPLY, our_mac, our_ip, target_mac, target_ip)
}

/// Builds an ARP request (target hardware address all zero).
pub fn build_request(our_mac: MacAddress, our_ip: Ipv4Addr, target_ip: Ipv4Addr) -> (p: Vec<u8>)
    ensures
        p@ == arp_bytes(OP_REQUEST, our_mac.0@, our_ip.0@, seq![0u8, 0u8, 0u8, 0u8, 0u8, 0u8], target_ip.0@),
{
    build_packet(OP_REQUEST, our_mac, our_ip, MacAddress::zero(), target_ip)
}

fn build_packet(operation: u16, sender_mac: MacAddress, sender_ip: Ipv4Addr, target_mac: MacAddress, target_ip: Ipv4Addr) -> (p: Vec<u8>)
    ensures
        p@ == arp_bytes(operation, sender_mac.0@, sender_ip.0@, target_mac.0@, target_ip.0@),
{
    let mut pkt: Vec<u8> = Vec::new();
    push_be16(&mut pkt, 1);
    push_be16(&mut pkt, 0x0800);
    pkt.push(6);
    pkt.push(4);
    push_be16(&mut pkt, operation);
    push_bytes(&mut pkt, sender_mac.0.as_slice());
    push_bytes(&mut pkt, sender_ip.0.as_slice());
    push_bytes(&mut pkt, target_mac.0.as_slice());
    push_bytes(&mut pkt, target_ip.0.as_slice());
    assert(pkt@ =~= arp_bytes(operation, sender_mac.0@, sender_ip.0@, target_mac.0@, target_ip.0@));
    pkt
}

/// Parsing a built ARP packet recovers every field.
pub proof fn lemma_arp_roundtrip(operation: u16, sender_mac: MacAddress, sender_ip: Ipv4Addr, target_mac: MacAddress, target_ip: Ipv4Addr)
    ensures
        ({
            let p = arp_bytes(operation, sender_mac.0@, sender_ip.0@, target_mac.0@, target_ip.0@);
            &&& arp_accepts(p)
            &&& be16_at(p, 6) == operation
            &&& p.subrange(8, 14) == sender_mac.0@
            &&& p.subrange(14, 18) == sender_ip.0@
            &&& p.subrange(18, 24) == target_mac.0@
            &&& p.subrange(24, 28) == target_ip.0@
        }),
{
    let p = arp_bytes(operation, sender_mac.0@, sender_ip.0@, target_mac.0@, target_ip.0@);
    crate::net::wire::lemma_be16_roundtrip(1);
    crate::net::wire::lemma_be16_roundtrip(0x0800);
    crate::net::wire::lemma_be16_roundtrip(operation);
    assert(p.subrange(8, 14) =~= sender_mac.0@);
    assert(p.subrange(14, 18) =~= sender_ip.0@);
    assert(p.subrange(18, 24) =~= target_mac.0@);
    assert(p.subrange(24, 28) =~= target_ip.0@);
}

} // verus!
