//! UDP datagrams (RFC 768).

use vstd::prelude::*;
use crate::net::wire::{be16_at, be16_bytes, read_be16, push_be16, push_bytes};
use crate::net::ipv4::Ipv4Packet;
use crate::net::socket::{SocketTable, deliver_udp, delivered};

verus! {

pub const HEADER_LEN: usize = 8;

/// A parsed UDP datagram borrowing its data.
#[derive(Debug)]
pub struct UdpPacket<'a> {
    pub src_port: u16,
    pub dst_port: u16,
    pub length: u16,
    pub checksum: u16,
    pub data: &'a [u8],
}

/// Data of a datagram: bytes 8 up to `min(length, len)` (empty when that end
/// is not past the header).
pub open spec fn udp_data(s: Seq<u8>) -> Seq<u8> {
    let length = be16_at(s, 4) as int;
    let end = if length < s.len() { length } else { s.len() as int };
    if 8 < end {
        s.subrange(8, end)
    } else {
        Seq::empty()
    }
}

impl<'a> UdpPacket<'a> {
    /// Parses a datagram; `None` iff fewer than 8 bytes are given.
    pub fn parse(data: &'a [u8]) -> (r: Option<UdpPacket<'a>>)
        ensures
            r is None <==> data@.len() < HEADER_LEN,
            r matches Some(p) ==> {
                &&& p.src_port == be16_at(data@, 0)
                &&& p.dst_port == be16_at(data@, 2)
                &&& p.length == be16_at(data@, 4)
                &&& p.checksum == be16_at(data@, 6)
                &&& p.data@ == udp_data(data@)
            },
    {
        if data.len() < HEADER_LEN {
            return None;
        }
        let src_port = read_be16(data, 0);
        let dst_port = read_be16(data, 2);
        let length = read_be16(data, 4);
        let checksum = read_be16(data, 6);
        let data_end = if (length as usize) < data.len() {
            length as usize
        } else {
            data.len()
        };
        let payload: &[u8] = if HEADER_LEN < data_end {
            &data[8..data_end]
        } else {
            &data[0..0]
        };
        assert(payload@ =~= udp_data(data@));
        Some(UdpPacket { src_port, dst_port, length, checksum, data: payload })
    }
}

/// Length field of a datagram carrying `n` data bytes (truncated to 16 bits).
pub open spec fn udp_length_for(n: int) -> u16 {
    ((n + 8) % 0x10000) as u16
}

/// The bytes `build_packet` produces (checksum 0: optional over IPv4).
pub open spec fn udp_bytes(src_port: u16, dst_port: u16, data: Seq<u8>) -> Seq<u8> {
    be16_bytes(src_port) + be16_bytes(dst_port) + be16_bytes(udp_length_for(data.len() as int)) + seq![0u8, 0u8]
        + data
}

/// Builds a UDP datagram.
pub fn build_packet(src_port: u16, dst_port: u16, data: &[u8]) -> (p: Vec<u8>)
    ensures
        p@ == udp_bytes(src_port, dst_port, data@),
{
    let length: u16 = (((data.len() % 0x10000) + 8) % 0x10000) as u16;
    assert(length == udp_length_for(data@.len() as int));
    let mut packet: Vec<u8> = Vec::new();
    push_be16(&mut packet, src_port);
    push_be16(&mut packet, dst_port);
    push_be16(&mut packet, length);
    packet.push(0);
    packet.push(0);
    push_bytes(&mut packet, data);
    assert(packet@ =~= udp_bytes(src_port, dst_port, data@));
    packet
}

/// Parsing a built datagram recovers ports and data (data of at most 65527
/// bytes, whose length fits the 16-bit length field).
pub proof fn lemma_udp_roundtrip(src_port: u16, dst_port: u16, data: Seq<u8>)
    requires
        data.len() + HEADER_LEN <= 0xFFFF,
    ensures
        ({
            let p = udp_bytes(src_port, dst_port, data);
            &&& p.len() >= HEADER_LEN
            &&& be16_at(p, 0) == src_port
            &&& be16_at(p, 2) == dst_port
            &&& udp_data(p) == data
        }),
{
    let p = udp_bytes(src_port, dst_port, data);
    crate::net::wire::lemma_be16_roundtrip(src_port);
    crate::net::wire::lemma_be16_roundtrip(dst_port);
    crate::net::wire::lemma_be16_roundtrip(udp_length_for(data.len() as int));
    assert(udp_data(p) =~= data);
}

/// Hands an incoming UDP datagram carried by `ip_pkt` to the sockets bound
/// to its destination port; payloads shorter than a UDP header are ignored.
pub fn process_udp(sockets: &mut SocketTable, ip_pkt: &Ipv4Packet)
    ensures
        final(sockets).next_fd == old(sockets).next_fd,
        ip_pkt.payload@.len() < HEADER_LEN ==> final(sockets).sockets@ == old(sockets).sockets@,
        ip_pkt.payload@.len() >= HEADER_LEN ==> delivered(
            old(sockets).sockets@,
            final(sockets).sockets@,
            ip_pkt.src_ip.0@,
            be16_at(ip_pkt.payload@, 0),
            be16_at(ip_pkt.payload@, 2),
            udp_data(ip_pkt.payload@),
        ),
{
    match UdpPacket::parse(ip_pkt.payload) {
        Some(udp_pkt) => {
            deliver_udp(sockets, ip_pkt.src_ip, udp_pkt.src_port, udp_pkt.dst_port, udp_pkt.data);
        },
        None => {},
    }
}

} // verus!
