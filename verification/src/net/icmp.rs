//! ICMP echo messages (RFC 792).

use vstd::prelude::*;
use crate::net::wire::{be16_at, be16_bytes, read_be16, push_be16, push_bytes};
use crate::net::ipv4::{checksum, internet_checksum};

verus! {

pub const TYPE_ECHO_REPLY: u8 = 0;
pub const TYPE_ECHO_REQUEST: u8 = 8;
pub const TYPE_DEST_UNREACHABLE: u8 = 3;
/// Header length of an echo message.
pub const ECHO_HEADER_LEN: usize = 8;

/// A parsed ICMP message borrowing its data.
#[derive(Debug)]
pub struct IcmpPacket<'a> {
    pub icmp_type: u8,
    pub code: u8,
    pub checksum: u16,
    pub identifier: u16,
    pub sequence: u16,
    pub data: &'a [u8],
}

impl<'a> IcmpPacket<'a> {
    /// Parses an echo header; `None` iff fewer than 8 bytes are given.
    pub fn parse(data: &'a [u8]) -> (r: Option<IcmpPacket<'a>>)
        ensures
            r is None <==> data@.len() < ECHO_HEADER_LEN,
            r matches Some(p) ==> {
                &&& p.icmp_type == data@[0]
                &&& p.code == data@[1]
                &&& p.checksum == be16_at(data@, 2)
                &&& p.identifier == be16_at(data@, 4)
                &&& p.sequence == be16_at(data@, 6)
                &&& p.data@ == crate::net::wire::tail(data@, 8)
            },
    {
        if data.len() < ECHO_HEADER_LEN {
            return None;
        }
        Some(IcmpPacket {
            icmp_type: data[0],
            code: data[1],
            checksum: read_be16(data, 2),
            identifier: read_be16(data, 4),
            sequence: read_be16(data, 6),
            data: &data[8..data.len()],
        })
    }

    /// Type 8, code 0.
    pub fn is_echo_request(&self) -> (b: bool)
        ensures
            b == (self.icmp_type == TYPE_ECHO_REQUEST && self.code == 0),
    {
        self.icmp_type == TYPE_ECHO_REQUEST && self.code == 0
    }

    /// Type 0, code 0.
    pub fn is_echo_reply(&self) -> (b: bool)
        ensures
            b == (self.icmp_type == TYPE_ECHO_REPLY && self.code == 0),
    {
        self.icmp_type == TYPE_ECHO_REPLY && self.code == 0
    }
}

/// An echo message with a zero checksum field.
pub open spec fn echo_raw(msg_type: u8, identifier: u16, sequence: u16, data: Seq<u8>) -> Seq<u8> {
    seq![msg_type, 0u8, 0u8, 0u8] + be16_bytes(identifier) + be16_bytes(sequence) + data
}

/// The echo message with its checksum (over the whole message) filled in.
pub open spec fn echo_bytes(msg_type: u8, identifier: u16, sequence: u16, data: Seq<u8>) -> Seq<u8> {
    let raw = echo_raw(msg_type, identifier, sequence, data);
    let c = internet_checksum(raw);
    raw.update(2, (c / 256) as u8).update(3, (c % 256) as u8)
}

/// Builds an echo reply.
pub fn build_echo_reply(identifier: u16, sequence: u16, data: &[u8]) -> (p: Vec<u8>)
    requires
        data@.len() + ECHO_HEADER_LEN < 0x20000,
    ensures
        p@ == echo_bytes(TYPE_ECHO_REPLY, identifier, sequence, data@),
{
    build_echo(TYPE_ECHO_REPLY, identifier, sequence, data)
}

/// Builds an echo request.
pub fn build_echo_request(identifier: u16, sequence: u16, data: &[u8]) -> (p: Vec<u8>)
    requires
        data@.len() + ECHO_HEADER_LEN < 0x20000,
    ensures
        p@ == echo_bytes(TYPE_ECHO_REQUEST, identifier, sequence, data@),
{
    build_echo(TYPE_ECHO_REQUEST, identifier, sequence, data)
}

fn build_echo(msg_type: u8, identifier: u16, sequence: u16, data: &[u8]) -> (p: Vec<u8>)
    requires
        data@.len() + ECHO_HEADER_LEN < 0x20000,
    ensures
        p@ == echo_bytes(msg_type, identifier, sequence, data@),
{
    let mut packet: Vec<u8> = Vec::new();
    packet.push(msg_type);
    packet.push(0);
    packet.push(0);
    packet.push(0);
    push_be16(&mut packet, identifier);
    push_be16(&mut packet, sequence);
    push_bytes(&mut packet, data);
    let ghost raw = echo_raw(msg_type, identifier, sequence, data@);
    assert(packet@ =~= raw);
    let cksum = checksum(packet.as_slice());
    packet.set(2, (cksum / 256) as u8);
    packet.set(3, (cksum % 256) as u8);
    packet
}

/// Parsing a built echo message recovers its type, identifier, sequence and data.
pub proof fn lemma_echo_roundtrip(msg_type: u8, identifier: u16, sequence: u16, data: Seq<u8>)
    ensures
        ({
            let p = echo_bytes(msg_type, identifier, sequence, data);
            &&& p.len() >= ECHO_HEADER_LEN
            &&& p[0] == msg_type
            &&& p[1] == 0
            &&& be16_at(p, 4) == identifier
            &&& be16_at(p, 6) == sequence
            &&& crate::net::wire::tail(p, 8) == data
        }),
{
    let p = echo_bytes(msg_type, identifier, sequence, data);
    crate::net::wire::lemma_be16_roundtrip(identifier);
    crate::net::wire::lemma_be16_roundtrip(sequence);
    assert(crate::net::wire::tail(p, 8) =~= data);
}

} // verus!
