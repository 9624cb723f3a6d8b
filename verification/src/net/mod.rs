//! Network protocol codecs and the packet-processing state machine.

pub mod wire;
pub mod ethernet;
pub mod ipv4;
pub mod icmp;
pub mod arp;
pub mod udp;
pub mod socket;
pub mod virtio;
pub mod virtio_init;

use vstd::prelude::*;
use crate::intmap::IntMap;
use crate::arith::{inc, add_len, wrapping_inc, wrapping_sum};
use crate::net::ethernet::{MacAddress, EthernetFrame, build_frame, frame_bytes, ETHERTYPE_ARP, ETHERTYPE_IPV4};
use crate::net::ipv4::{Ipv4Addr, Ipv4Packet, be32, packet_bytes, ipv4_accepts, ipv4_payload, PROTO_ICMP, PROTO_UDP};
use crate::net::arp::{ArpPacket, arp_accepts, arp_bytes, OP_REQUEST, OP_REPLY};
use crate::net::icmp::{IcmpPacket, echo_bytes, TYPE_ECHO_REPLY, TYPE_ECHO_REQUEST};
use crate::net::udp::{udp_bytes, udp_data, HEADER_LEN as UDP_HEADER_LEN};
use crate::net::socket::{Socket, SocketTable, delivered};
use crate::net::wire::{be16_at, tail};

verus! {

/// Interface configuration.
#[derive(Clone, Copy)]
pub struct NetConfig {
    pub our_ip: Ipv4Addr,
    pub netmask: Ipv4Addr,
    pub gateway: Ipv4Addr,
    pub dns: Ipv4Addr,
    pub our_mac: MacAddress,
}

/// Traffic counters.
#[derive(Clone, Copy)]
pub struct NetStats {
    pub tx_packets: u64,
    pub rx_packets: u64,
    pub tx_bytes: u64,
    pub rx_bytes: u64,
    pub arp_replies: u64,
    pub icmp_echo_replies: u64,
    pub packets_dropped: u64,
}

/// The protocol state of the network stack: configuration, ARP cache
/// (IPv4 as 32-bit value to hardware address), received echo replies
/// (sequence to sender) and counters.
pub struct NetStack {
    pub config: Option<NetConfig>,
    pub arp_cache: IntMap<MacAddress>,
    pub ping_replies: IntMap<Ipv4Addr>,
    pub stats: NetStats,
    pub available: bool,
}

/// Hardware address used when nothing better is known (QEMU's default peer).
pub open spec fn fallback_mac() -> Seq<u8> {
    seq![0x52u8, 0x54u8, 0x00u8, 0x12u8, 0x34u8, 0x56u8]
}

/// Data carried by the echo requests this stack sends ("AetherionOS").
pub open spec fn ping_data() -> Seq<u8> {
    seq![0x41u8, 0x65u8, 0x74u8, 0x68u8, 0x65u8, 0x72u8, 0x69u8, 0x6fu8, 0x6eu8, 0x4fu8, 0x53u8]
}

/// Identifier of the echo requests this stack sends.
pub const PING_IDENTIFIER: u16 = 0xAE01;
/// TTL of the packets this stack sends.
pub const DEFAULT_TTL: u8 = 64;

/// Both addresses agree under `mask`.
pub open spec fn in_subnet(a: Seq<u8>, b: Seq<u8>, mask: Seq<u8>) -> bool {
    (be32(a) & be32(mask)) == (be32(b) & be32(mask))
}

/// The hardware address frames for `ip` go to: the cached one; else, off the
/// local subnet, the gateway's cached one; else the fallback.
pub open spec fn resolved_mac(stack: &NetStack, ip: Seq<u8>) -> Seq<u8> {
    let key = be32(ip) as u64;
    if stack.arp_cache@.contains_key(key) {
        stack.arp_cache@[key].0@
    } else if stack.config is Some && !in_subnet(ip, stack.config->0.our_ip.0@, stack.config->0.netmask.0@)
        && stack.arp_cache@.contains_key(be32(stack.config->0.gateway.0@) as u64) {
        stack.arp_cache@[be32(stack.config->0.gateway.0@) as u64].0@
    } else {
        fallback_mac()
    }
}

impl NetStack {
    /// An unconfigured stack with empty caches.
    pub fn new() -> (s: Self)
        ensures
            s.config is None,
            !s.available,
            s.arp_cache@ == Map::<u64, MacAddress>::empty(),
            s.ping_replies@ == Map::<u64, Ipv4Addr>::empty(),
            s.stats == (NetStats { tx_packets: 0, rx_packets: 0, tx_bytes: 0, rx_bytes: 0, arp_replies: 0, icmp_echo_replies: 0, packets_dropped: 0 }),
    {
        NetStack {
            config: None,
            arp_cache: IntMap::new(),
            ping_replies: IntMap::new(),
            stats: NetStats { tx_packets: 0, rx_packets: 0, tx_bytes: 0, rx_bytes: 0, arp_replies: 0, icmp_echo_replies: 0, packets_dropped: 0 },
            available: false,
        }
    }
}

/// Configures the stack for an initialised device with hardware address
/// `mac`: 10.0.2.15/24, gateway 10.0.2.2, DNS 10.0.2.3 (QEMU user networking).
pub fn init(stack: &mut NetStack, mac: MacAddress)
    ensures
        final(stack).available,
        final(stack).config matches Some(c) && c.our_ip.0@ == seq![10u8, 0u8, 2u8, 15u8]
            && c.netmask.0@ == seq![255u8, 255u8, 255u8, 0u8] && c.gateway.0@ == seq![10u8, 0u8, 2u8, 2u8]
            && c.dns.0@ == seq![10u8, 0u8, 2u8, 3u8] && c.our_mac == mac,
        final(stack).arp_cache@ == old(stack).arp_cache@,
        final(stack).ping_replies@ == old(stack).ping_replies@,
        final(stack).stats == old(stack).stats,
{
    stack.config = Some(NetConfig {
        our_ip: Ipv4Addr::new(10, 0, 2, 15),
        netmask: Ipv4Addr::new(255, 255, 255, 0),
        gateway: Ipv4Addr::new(10, 0, 2, 2),
        dns: Ipv4Addr::new(10, 0, 2, 3),
        our_mac: mac,
    });
    stack.available = true;
}

/// True once a device has been configured.
pub fn is_available(stack: &NetStack) -> (b: bool)
    ensures
        b == stack.available,
{
    stack.available
}

/// Counters after a frame of `len` bytes was transmitted.
pub open spec fn stats_after_transmit(s: NetStats, len: int) -> NetStats {
    NetStats { tx_packets: wrapping_inc(s.tx_packets), tx_bytes: wrapping_sum(s.tx_bytes, len), ..s }
}

/// Counts a frame the device transmitted.
pub fn record_transmit(stack: &mut NetStack, len: usize)
    ensures
        final(stack).stats == stats_after_transmit(old(stack).stats, len as int),
        final(stack).config == old(stack).config,
        final(stack).available == old(stack).available,
        final(stack).arp_cache@ == old(stack).arp_cache@,
        final(stack).ping_replies@ == old(stack).ping_replies@,
{
    stack.stats.tx_packets = inc(stack.stats.tx_packets);
    stack.stats.tx_bytes = add_len(stack.stats.tx_bytes, len);
}

/// The transmit, receive and byte counters.
pub fn get_stats(stack: &NetStack) -> (r: (u64, u64, u64, u64))
    ensures
        r == (stack.stats.tx_packets, stack.stats.rx_packets, stack.stats.tx_bytes, stack.stats.rx_bytes),
{
    (stack.stats.tx_packets, stack.stats.rx_packets, stack.stats.tx_bytes, stack.stats.rx_bytes)
}

/// Where frames for `ip` go: to its cached hardware address; failing
/// that, when `ip` lies outside the configured subnet and the gateway's
/// address is cached, to the gateway; otherwise to the fallback address.
pub proof fn lemma_resolved_mac_routes(stack: &NetStack, ip: Seq<u8>)
    ensures
        stack.arp_cache@.contains_key(be32(ip) as u64) ==> resolved_mac(stack, ip) == stack.arp_cache@[be32(ip) as u64].0@,
        !stack.arp_cache@.contains_key(be32(ip) as u64) && stack.config is Some
            && (be32(ip) & be32(stack.config->0.netmask.0@)) != (be32(stack.config->0.our_ip.0@) & be32(stack.config->0.netmask.0@))
            && stack.arp_cache@.contains_key(be32(stack.config->0.gateway.0@) as u64)
            ==> resolved_mac(stack, ip) == stack.arp_cache@[be32(stack.config->0.gateway.0@) as u64].0@,
        !stack.arp_cache@.contains_key(be32(ip) as u64) && (stack.config is None
            || (be32(ip) & be32(stack.config->0.netmask.0@)) == (be32(stack.config->0.our_ip.0@) & be32(stack.config->0.netmask.0@))
            || !stack.arp_cache@.contains_key(be32(stack.config->0.gateway.0@) as u64))
            ==> resolved_mac(stack, ip) == seq![0x52u8, 0x54u8, 0x00u8, 0x12u8, 0x34u8, 0x56u8],
{
}

/// The hardware address to send frames for `ip` to.
pub fn resolve_mac(stack: &NetStack, ip: Ipv4Addr) -> (m: MacAddress)
    ensures
        m.0@ == resolved_mac(stack, ip.0@),
        stack.arp_cache@.contains_key(be32(ip.0@) as u64) ==> m == stack.arp_cache@[be32(ip.0@) as u64],
        !stack.arp_cache@.contains_key(be32(ip.0@) as u64) && stack.config is Some
            && (be32(ip.0@) & be32(stack.config->0.netmask.0@)) != (be32(stack.config->0.our_ip.0@) & be32(stack.config->0.netmask.0@))
            && stack.arp_cache@.contains_key(be32(stack.config->0.gateway.0@) as u64)
            ==> m == stack.arp_cache@[be32(stack.config->0.gateway.0@) as u64],
        !stack.arp_cache@.contains_key(be32(ip.0@) as u64) && (stack.config is None
            || (be32(ip.0@) & be32(stack.config->0.netmask.0@)) == (be32(stack.config->0.our_ip.0@) & be32(stack.config->0.netmask.0@))
            || !stack.arp_cache@.contains_key(be32(stack.config->0.gateway.0@) as u64))
            ==> m.0@ == seq![0x52u8, 0x54u8, 0x00u8, 0x12u8, 0x34u8, 0x56u8],
{
    match stack.arp_cache.get(ip.as_u32() as u64) {
        Some(mac) => return *mac,
        None => {},
    }
    match &stack.config {
        Some(config) => {
            if !ip.same_subnet(&config.our_ip, &config.netmask) {
                match stack.arp_cache.get(config.gateway.as_u32() as u64) {
                    Some(mac) => return *mac,
                    None => {},
                }
            }
        },
        None => {},
    }
    let m = MacAddress([0x52, 0x54, 0x00, 0x12, 0x34, 0x56]);
    assert(m.0@ =~= fallback_mac());
    m
}

fn ping_payload() -> (v: Vec<u8>)
    ensures
        v@ == ping_data(),
{
    let v: Vec<u8> = vec![0x41, 0x65, 0x74, 0x68, 0x65, 0x72, 0x69, 0x6f, 0x6e, 0x4f, 0x53];
    assert(v@ =~= ping_data());
    v
}

/// The frame that broadcasts an ARP request for `target_ip` (`None` when
/// the stack is not configured).
pub fn send_arp_request(stack: &NetStack, target_ip: Ipv4Addr) -> (f: Option<Vec<u8>>)
    ensures
        stack.config is None ==> f is None,
        stack.config matches Some(c) ==> (f matches Some(frame) && frame@ == frame_bytes(
            seq![0xFFu8, 0xFFu8, 0xFFu8, 0xFFu8, 0xFFu8, 0xFFu8],
            c.our_mac.0@,
            ETHERTYPE_ARP,
            arp_bytes(OP_REQUEST, c.our_mac.0@, c.our_ip.0@, seq![0u8, 0u8, 0u8, 0u8, 0u8, 0u8], target_ip.0@),
        )),
{
    match &stack.config {
        Some(config) => {
            let payload = crate::net::arp::build_request(config.our_mac, config.our_ip, target_ip);
            Some(build_frame(MacAddress::broadcast(), config.our_mac, ETHERTYPE_ARP, payload.as_slice()))
        },
        None => None,
    }
}

/// The stack can send: a device is up and the interface is configured.
pub open spec fn can_send(stack: &NetStack) -> bool {
    stack.available && stack.config is Some
}

/// The frame carrying an echo request (identifier 0xAE01, data
/// "AetherionOS", TTL 64, IP identification `sequence`) to `target_ip`.
pub open spec fn ping_frame(stack: &NetStack, target_ip: Seq<u8>, sequence: u16) -> Seq<u8> {
    frame_bytes(
        resolved_mac(stack, target_ip),
        stack.config->0.our_mac.0@,
        ETHERTYPE_IPV4,
        packet_bytes(stack.config->0.our_ip.0@, target_ip, PROTO_ICMP, sequence, DEFAULT_TTL,
            echo_bytes(TYPE_ECHO_REQUEST, PING_IDENTIFIER, sequence, ping_data())),
    )
}

/// The frame carrying a UDP datagram (IP identification 0x1234, TTL 64).
pub open spec fn udp_frame(stack: &NetStack, dst_ip: Seq<u8>, src_port: u16, dst_port: u16, data: Seq<u8>) -> Seq<u8> {
    frame_bytes(
        resolved_mac(stack, dst_ip),
        stack.config->0.our_mac.0@,
        ETHERTYPE_IPV4,
        packet_bytes(stack.config->0.our_ip.0@, dst_ip, PROTO_UDP, 0x1234, DEFAULT_TTL,
            udp_bytes(src_port, dst_port, data)),
    )
}

/// The frame carrying an echo request for `sequence` to `target_ip`; `None`
/// when the stack cannot send.
pub fn send_ping(stack: &NetStack, target_ip: Ipv4Addr, sequence: u16) -> (f: Option<Vec<u8>>)
    ensures
        f is Some <==> can_send(stack),
        f matches Some(frame) ==> frame@ == ping_frame(stack, target_ip.0@, sequence),
{
    if !stack.available {
        return None;
    }
    let data = ping_payload();
    let icmp_payload = crate::net::icmp::build_echo_request(PING_IDENTIFIER, sequence, data.as_slice());
    match &stack.config {
        Some(config) => {
            let ip_packet = crate::net::ipv4::build_packet(config.our_ip, target_ip, PROTO_ICMP, sequence, DEFAULT_TTL, icmp_payload.as_slice());
            let dst_mac = resolve_mac(stack, target_ip);
            Some(build_frame(dst_mac, config.our_mac, ETHERTYPE_IPV4, ip_packet.as_slice()))
        },
        None => None,
    }
}

/// The frame carrying a UDP datagram from `src_port` to `dst_ip:dst_port`;
/// `None` when the stack cannot send.
pub fn send_udp(stack: &NetStack, dst_ip: Ipv4Addr, src_port: u16, dst_port: u16, data: &[u8]) -> (f: Option<Vec<u8>>)
    ensures
        f is Some <==> can_send(stack),
        f matches Some(frame) ==> frame@ == udp_frame(stack, dst_ip.0@, src_port, dst_port, data@),
{
    if !stack.available {
        return None;
    }
    let udp_packet = crate::net::udp::build_packet(src_port, dst_port, data);
    match &stack.config {
        Some(config) => {
            let ip_packet = crate::net::ipv4::build_packet(config.our_ip, dst_ip, PROTO_UDP, 0x1234, DEFAULT_TTL, udp_packet.as_slice());
            let dst_mac = resolve_mac(stack, dst_ip);
            Some(build_frame(dst_mac, config.our_mac, ETHERTYPE_IPV4, ip_packet.as_slice()))
        },
        None => None,
    }
}

/// Removes and returns the sender of the echo reply with `sequence`, if one arrived.
pub fn check_ping_reply(stack: &mut NetStack, sequence: u16) -> (r: Option<Ipv4Addr>)
    ensures
        r is Some <==> old(stack).ping_replies@.contains_key(sequence as u64),
        r matches Some(ip) ==> ip == old(stack).ping_replies@[sequence as u64],
        final(stack).ping_replies@ == old(stack).ping_replies@.remove(sequence as u64),
        final(stack).arp_cache@ == old(stack).arp_cache@,
        final(stack).config == old(stack).config,
        final(stack).stats == old(stack).stats,
        final(stack).available == old(stack).available,
{
    stack.ping_replies.remove(sequence as u64)
}

} // verus!

verus! {

/// Key under which the echo reply with sequence `s` is recorded.
pub open spec fn seq_key(s: u16) -> u64 {
    s as u64
}

fn sequence_key(s: u16) -> (k: u64)
    ensures
        k == seq_key(s),
{
    s as u64
}

/// Everything but the ARP cache is unchanged.
pub open spec fn only_cache_changed(o: &NetStack, n: &NetStack) -> bool {
    &&& n.config == o.config
    &&& n.available == o.available
    &&& n.ping_replies@ == o.ping_replies@
}

/// The ARP reply frame answering a request whose sender is `sender_mac`/`sender_ip`.
pub open spec fn arp_reply_frame(c: NetConfig, sender_mac: Seq<u8>, sender_ip: Seq<u8>) -> Seq<u8> {
    frame_bytes(sender_mac, c.our_mac.0@, ETHERTYPE_ARP, arp_bytes(OP_REPLY, c.our_mac.0@, c.our_ip.0@, sender_mac, sender_ip))
}

/// `n` and `reply` result from handling the ARP packet `data` in state `o`:
/// the sender's address is learned, and a request for our own IPv4 address
/// is answered.
pub open spec fn arp_step(o: &NetStack, n: &NetStack, reply: Option<Vec<u8>>, data: Seq<u8>) -> bool {
    &&& only_cache_changed(o, n)
    &&& !arp_accepts(data) ==> reply is None && n.arp_cache@ == o.arp_cache@ && n.stats == o.stats
    &&& arp_accepts(data) ==> {
        let key = be32(data.subrange(14, 18)) as u64;
        let answer = o.config is Some && be16_at(data, 6) == OP_REQUEST && data.subrange(24, 28)
            == o.config->0.our_ip.0@;
        &&& n.arp_cache@.dom() == o.arp_cache@.dom().insert(key)
        &&& n.arp_cache@[key].0@ == data.subrange(8, 14)
        &&& forall|k: u64| k != key ==> #[trigger] n.arp_cache@[k] == o.arp_cache@[k]
        &&& answer <==> reply is Some
        &&& answer ==> reply->0@ == arp_reply_frame(o.config->0, data.subrange(8, 14), data.subrange(14, 18))
        &&& answer ==> n.stats == NetStats { arp_replies: wrapping_inc(o.stats.arp_replies), ..o.stats }
        &&& !answer ==> n.stats == o.stats
    }
}

/// Handles an ARP packet: learns the sender's address, and answers a request
/// for our own IPv4 address with the returned reply frame.
pub fn process_arp(stack: &mut NetStack, data: &[u8]) -> (reply: Option<Vec<u8>>)
    ensures
        arp_step(old(stack), final(stack), reply, data@),
{
    let arp_pkt = match ArpPacket::parse(data) {
        Some(p) => p,
        None => return None,
    };
    stack.arp_cache.insert(arp_pkt.sender_ip.as_u32() as u64, arp_pkt.sender_mac);
    let config = match stack.config {
        Some(c) => c,
        None => return None,
    };
    if arp_pkt.operation == OP_REQUEST && arp_pkt.target_ip.same(&config.our_ip) {
        let reply = crate::net::arp::build_reply(config.our_mac, config.our_ip, arp_pkt.sender_mac, arp_pkt.sender_ip);
        let frame = build_frame(arp_pkt.sender_mac, config.our_mac, ETHERTYPE_ARP, reply.as_slice());
        stack.stats.arp_replies = inc(stack.stats.arp_replies);
        return Some(frame);
    }
    None
}

/// The echo-reply frame answering the echo request `m` that arrived from
/// `src_ip` in an IPv4 packet with identification `identification`.
pub open spec fn echo_reply_frame(stack: &NetStack, c: NetConfig, src_ip: Seq<u8>, identification: u16, m: Seq<u8>) -> Seq<u8> {
    frame_bytes(
        resolved_mac(stack, src_ip),
        c.our_mac.0@,
        ETHERTYPE_IPV4,
        packet_bytes(c.our_ip.0@, src_ip, PROTO_ICMP, identification, DEFAULT_TTL,
            echo_bytes(TYPE_ECHO_REPLY, be16_at(m, 4), be16_at(m, 6), tail(m, 8))),
    )
}

/// `n` and `reply` result from handling the ICMP message `m` that arrived
/// from `src_ip` in an IPv4 packet with identification `identification`:
/// echo requests are answered when configured, senders of echo replies are
/// recorded under the reply's sequence number.
pub open spec fn echo_step(o: &NetStack, n: &NetStack, reply: Option<Vec<u8>>, src_ip: Seq<u8>, identification: u16, m: Seq<u8>) -> bool {
    let request = m.len() >= 8 && m[0] == TYPE_ECHO_REQUEST && m[1] == 0;
    let answer = request && o.config is Some;
    let echo_reply = m.len() >= 8 && m[0] == TYPE_ECHO_REPLY && m[1] == 0;
    &&& n.arp_cache@ == o.arp_cache@
    &&& n.config == o.config
    &&& n.available == o.available
    &&& answer <==> reply is Some
    &&& answer ==> reply->0@ == echo_reply_frame(o, o.config->0, src_ip, identification, m)
    &&& answer ==> n.stats == NetStats { icmp_echo_replies: wrapping_inc(o.stats.icmp_echo_replies), ..o.stats }
    &&& !answer ==> n.stats == o.stats
    &&& echo_reply ==> {
        let key = seq_key(be16_at(m, 6));
        &&& n.ping_replies@.dom() == o.ping_replies@.dom().insert(key)
        &&& n.ping_replies@[key].0@ == src_ip
        &&& forall|k: u64| k != key ==> #[trigger] n.ping_replies@[k] == o.ping_replies@[k]
    }
    &&& !echo_reply ==> n.ping_replies@ == o.ping_replies@
}

/// Handles an ICMP message carried by `ip_pkt`: answers echo requests (when
/// configured) with the returned frame, and records the sender of echo
/// replies under their sequence number.
pub fn process_icmp(stack: &mut NetStack, ip_pkt: &Ipv4Packet) -> (reply: Option<Vec<u8>>)
    requires
        ip_pkt.payload@.len() < 0x20000,
    ensures
        echo_step(old(stack), final(stack), reply, ip_pkt.src_ip.0@, ip_pkt.identification, ip_pkt.payload@),
{
    let icmp_pkt = match IcmpPacket::parse(ip_pkt.payload) {
        Some(p) => p,
        None => return None,
    };
    if icmp_pkt.is_echo_request() {
        match stack.config {
            Some(config) => {
                let reply = crate::net::icmp::build_echo_reply(icmp_pkt.identifier, icmp_pkt.sequence, icmp_pkt.data);
                let ip_reply = crate::net::ipv4::build_packet(config.our_ip, ip_pkt.src_ip, PROTO_ICMP, ip_pkt.identification, DEFAULT_TTL, reply.as_slice());
                let dst_mac = resolve_mac(stack, ip_pkt.src_ip);
                let frame = build_frame(dst_mac, config.our_mac, ETHERTYPE_IPV4, ip_reply.as_slice());
                stack.stats.icmp_echo_replies = inc(stack.stats.icmp_echo_replies);
                Some(frame)
            },
            None => None,
        }
    } else if icmp_pkt.is_echo_reply() {
        stack.ping_replies.insert(sequence_key(icmp_pkt.sequence), ip_pkt.src_ip);
        None
    } else {
        None
    }
}

/// Sockets `n` after the UDP datagram `payload` from `src_ip` reached sockets
/// `o`: payloads shorter than a UDP header change nothing.
pub open spec fn udp_step(o: Map<u64, Socket>, n: Map<u64, Socket>, src_ip: Seq<u8>, payload: Seq<u8>) -> bool {
    if payload.len() < UDP_HEADER_LEN {
        n == o
    } else {
        delivered(o, n, src_ip, be16_at(payload, 0), be16_at(payload, 2), udp_data(payload))
    }
}

/// `n`, the sockets `ns` and `reply` result from handling the IPv4 packet
/// `data` in state `o` with sockets `os`.
pub open spec fn ipv4_step(o: &NetStack, n: &NetStack, os: Map<u64, Socket>, ns: Map<u64, Socket>, reply: Option<Vec<u8>>, data: Seq<u8>) -> bool {
    let icmp = ipv4_accepts(data) && data[9] == PROTO_ICMP;
    let udp = ipv4_accepts(data) && data[9] == PROTO_UDP;
    &&& !icmp && !udp ==> reply is None && *n == *o && ns == os
    &&& icmp ==> ns == os && echo_step(o, n, reply, data.subrange(12, 16), be16_at(data, 4), ipv4_payload(data))
    &&& udp ==> reply is None && *n == *o && udp_step(os, ns, data.subrange(12, 16), ipv4_payload(data))
}

/// Handles an IPv4 packet: ICMP goes to `process_icmp`, UDP to the sockets;
/// other protocols and malformed packets are ignored.
pub fn process_ipv4(stack: &mut NetStack, sockets: &mut SocketTable, data: &[u8]) -> (reply: Option<Vec<u8>>)
    ensures
        final(sockets).next_fd == old(sockets).next_fd,
        ipv4_step(old(stack), final(stack), old(sockets).sockets@, final(sockets).sockets@, reply, data@),
{
    let ip_pkt = match Ipv4Packet::parse(data) {
        Some(p) => p,
        None => return None,
    };
    assert(ip_pkt.payload@.len() <= 0xFFFF);
    if ip_pkt.protocol == PROTO_ICMP {
        process_icmp(stack, &ip_pkt)
    } else if ip_pkt.protocol == PROTO_UDP {
        crate::net::udp::process_udp(sockets, &ip_pkt);
        None
    } else {
        None
    }
}

/// Handles a received Ethernet frame; returns the frame to send in answer, if any.
pub fn process_frame(stack: &mut NetStack, sockets: &mut SocketTable, data: &[u8]) -> (reply: Option<Vec<u8>>)
    ensures
        final(sockets).next_fd == old(sockets).next_fd,
        ({
            let payload = tail(data@, 14);
            let ethertype = be16_at(data@, 12);
            &&& data@.len() < 14 || (ethertype != ETHERTYPE_ARP && ethertype != ETHERTYPE_IPV4) ==> reply is None
                && *final(stack) == *old(stack) && final(sockets).sockets@ == old(sockets).sockets@
            &&& data@.len() >= 14 && ethertype == ETHERTYPE_ARP ==> arp_step(old(stack), final(stack), reply, payload)
                && final(sockets).sockets@ == old(sockets).sockets@
            &&& data@.len() >= 14 && ethertype == ETHERTYPE_IPV4 ==> ipv4_step(old(stack), final(stack), old(sockets).sockets@, final(sockets).sockets@, reply, payload)
        }),
{
    let frame = match EthernetFrame::parse(data) {
        Some(f) => f,
        None => return None,
    };
    if frame.ethertype == ETHERTYPE_ARP {
        process_arp(stack, frame.payload)
    } else if frame.ethertype == ETHERTYPE_IPV4 {
        process_ipv4(stack, sockets, frame.payload)
    } else {
        None
    }
}

} // verus!
