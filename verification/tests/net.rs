use aetherion_kernel::net::virtio_init::{virtio_init_start, virtio_init_step, InitAction, InitEvent, InitPhase};
use aetherion_kernel::net::virtio::{
    effective_queue_size, io_base_of_bar, negotiate_features, queue_mem_size, queue_pages, rx_buffer_count, rx_frame_len, tx_accepts,
    VirtQueue, VirtioNetDevice, VirtioNetHeader, VringDesc, VIRTIO_NET_HDR_LEN, VRING_DESC_F_NEXT, VRING_DESC_F_WRITE,
};
use aetherion_kernel::net::arp::{build_reply, build_request, ArpPacket, OP_REPLY, OP_REQUEST};
use aetherion_kernel::net::ethernet::{build_frame, EthernetFrame, MacAddress, ETHERTYPE_ARP, ETHERTYPE_IPV4};
use aetherion_kernel::net::icmp::{build_echo_reply, build_echo_request, IcmpPacket, TYPE_ECHO_REPLY};
use aetherion_kernel::net::ipv4::{build_packet, checksum, Ipv4Addr, Ipv4Packet, PROTO_ICMP, PROTO_UDP};
use aetherion_kernel::net::socket::{
    deliver_udp, sys_bind, sys_recvfrom, sys_sendto, sys_socket, SendAction, SocketTable, AF_INET, EBADF, EINVAL, EIO,
    IPPROTO_ICMP, IPPROTO_UDP, SOCK_DGRAM, SOCK_RAW,
};
use aetherion_kernel::net::udp::{build_packet as build_udp, UdpPacket};
use aetherion_kernel::net::wire::read_be16;
use aetherion_kernel::net::{check_ping_reply, get_stats, init, process_frame, resolve_mac, send_arp_request, send_ping, NetStack, PING_IDENTIFIER};

const OUR_MAC: MacAddress = MacAddress([0x52, 0x54, 0x00, 0x12, 0x34, 0x57]);
const PEER_MAC: MacAddress = MacAddress([0x52, 0x55, 0x0a, 0x00, 0x02, 0x02]);

fn our_ip() -> Ipv4Addr {
    Ipv4Addr::new(10, 0, 2, 15)
}

fn peer_ip() -> Ipv4Addr {
    Ipv4Addr::new(10, 0, 2, 2)
}

fn stack() -> NetStack {
    let mut s = NetStack::new();
    init(&mut s, OUR_MAC);
    s
}

#[test]
fn net_checksum_known_header() {
    let header = [
        0x45u8, 0x00, 0x00, 0x73, 0x00, 0x00, 0x40, 0x00, 0x40, 0x11, 0x00, 0x00, 0xc0, 0xa8, 0x00, 0x01, 0xc0, 0xa8, 0x00,
        0xc7,
    ];
    assert_eq!(checksum(&header), 0xb861);
    let mut with_sum = header;
    with_sum[10] = 0xb8;
    with_sum[11] = 0x61;
    assert_eq!(checksum(&with_sum), 0);
    assert_eq!(checksum(&[]), 0xFFFF);
    assert_eq!(checksum(&[0x01]), !0x0100u16);
}

#[test]
fn net_ipv4_roundtrip_and_checksum() {
    let p = build_packet(our_ip(), peer_ip(), PROTO_UDP, 0x1234, 64, b"payload");
    assert_eq!(p.len(), 27);
    assert_eq!(checksum(&p[..20]), 0);
    let parsed = Ipv4Packet::parse(&p).unwrap();
    assert_eq!(parsed.version, 4);
    assert_eq!(parsed.ihl, 5);
    assert_eq!(parsed.total_length, 27);
    assert_eq!(parsed.identification, 0x1234);
    assert_eq!(parsed.ttl, 64);
    assert_eq!(parsed.protocol, PROTO_UDP);
    assert_eq!(parsed.src_ip, our_ip());
    assert_eq!(parsed.dst_ip, peer_ip());
    assert_eq!(parsed.payload, b"payload");
    assert!(Ipv4Packet::parse(&p[..19]).is_none());
    let mut v6 = p.clone();
    v6[0] = 0x65;
    assert!(Ipv4Packet::parse(&v6).is_none());
}

#[test]
fn net_ethernet_roundtrip() {
    let f = build_frame(MacAddress::broadcast(), OUR_MAC, ETHERTYPE_ARP, &[1, 2, 3]);
    assert_eq!(f.len(), 17);
    let parsed = EthernetFrame::parse(&f).unwrap();
    assert!(parsed.dst_mac.is_broadcast());
    assert_eq!(parsed.src_mac, OUR_MAC);
    assert_eq!(parsed.ethertype, ETHERTYPE_ARP);
    assert_eq!(parsed.payload, &[1, 2, 3]);
    assert!(EthernetFrame::parse(&f[..13]).is_none());
    assert!(!MacAddress::zero().is_broadcast());
    assert_eq!(read_be16(&[0x08, 0x06], 0), 0x0806);
}

#[test]
fn net_icmp_and_udp_roundtrip() {
    let req = build_echo_request(7, 9, b"hi");
    let p = IcmpPacket::parse(&req).unwrap();
    assert!(p.is_echo_request());
    assert_eq!((p.identifier, p.sequence, p.data), (7, 9, &b"hi"[..]));
    assert_eq!(checksum(&req), 0);
    let rep = build_echo_reply(7, 9, b"hi");
    assert!(IcmpPacket::parse(&rep).unwrap().is_echo_reply());
    assert_eq!(rep[0], TYPE_ECHO_REPLY);
    let u = build_udp(4000, 53, b"query");
    let up = UdpPacket::parse(&u).unwrap();
    assert_eq!((up.src_port, up.dst_port, up.length, up.data), (4000, 53, 13, &b"query"[..]));
}

#[test]
fn net_arp_roundtrip() {
    let req = build_request(PEER_MAC, peer_ip(), our_ip());
    assert_eq!(req.len(), 28);
    let p = ArpPacket::parse(&req).unwrap();
    assert_eq!(p.operation, OP_REQUEST);
    assert_eq!(p.sender_mac, PEER_MAC);
    assert_eq!(p.sender_ip, peer_ip());
    assert_eq!(p.target_mac, MacAddress::zero());
    assert_eq!(p.target_ip, our_ip());
    let rep = build_reply(OUR_MAC, our_ip(), PEER_MAC, peer_ip());
    assert_eq!(ArpPacket::parse(&rep).unwrap().operation, OP_REPLY);
    let mut bad = req.clone();
    bad[4] = 8;
    assert!(ArpPacket::parse(&bad).is_none());
}

#[test]
fn net_answers_arp_request() {
    let mut s = stack();
    let mut socks = SocketTable::new();
    let frame = build_frame(MacAddress::broadcast(), PEER_MAC, ETHERTYPE_ARP, &build_request(PEER_MAC, peer_ip(), our_ip()));
    let reply = process_frame(&mut s, &mut socks, &frame).unwrap();
    let eth = EthernetFrame::parse(&reply).unwrap();
    assert_eq!(eth.dst_mac, PEER_MAC);
    assert_eq!(eth.ethertype, ETHERTYPE_ARP);
    let arp = ArpPacket::parse(eth.payload).unwrap();
    assert_eq!(arp.operation, OP_REPLY);
    assert_eq!(arp.sender_mac, OUR_MAC);
    assert_eq!(arp.sender_ip, our_ip());
    assert_eq!(resolve_mac(&s, peer_ip()), PEER_MAC);
    let other = build_frame(MacAddress::broadcast(), PEER_MAC, ETHERTYPE_ARP, &build_request(PEER_MAC, peer_ip(), Ipv4Addr::new(10, 0, 2, 99)));
    assert!(process_frame(&mut s, &mut socks, &other).is_none());
}

#[test]
fn net_answers_echo_request() {
    let mut s = stack();
    let mut socks = SocketTable::new();
    let icmp = build_echo_request(1, 7, b"hi");
    let ip = build_packet(peer_ip(), our_ip(), PROTO_ICMP, 0x42, 64, &icmp);
    let frame = build_frame(OUR_MAC, PEER_MAC, ETHERTYPE_IPV4, &ip);
    let reply = process_frame(&mut s, &mut socks, &frame).unwrap();
    let eth = EthernetFrame::parse(&reply).unwrap();
    let ipr = Ipv4Packet::parse(eth.payload).unwrap();
    assert_eq!(ipr.src_ip, our_ip());
    assert_eq!(ipr.dst_ip, peer_ip());
    assert_eq!(ipr.identification, 0x42);
    assert_eq!(checksum(&eth.payload[..20]), 0);
    let echo = IcmpPacket::parse(ipr.payload).unwrap();
    assert!(echo.is_echo_reply());
    assert_eq!((echo.identifier, echo.sequence, echo.data), (1, 7, &b"hi"[..]));
    assert_eq!(checksum(ipr.payload), 0);
}

#[test]
fn net_ping_and_reply() {
    let mut s = stack();
    let mut socks = SocketTable::new();
    let out = send_ping(&s, peer_ip(), 3).unwrap();
    let eth = EthernetFrame::parse(&out).unwrap();
    assert_eq!(eth.dst_mac, MacAddress([0x52, 0x54, 0x00, 0x12, 0x34, 0x56]));
    let ip = Ipv4Packet::parse(eth.payload).unwrap();
    let echo = IcmpPacket::parse(ip.payload).unwrap();
    assert!(echo.is_echo_request());
    assert_eq!((echo.identifier, echo.sequence, echo.data), (PING_IDENTIFIER, 3, &b"AetherionOS"[..]));
    assert_eq!(check_ping_reply(&mut s, 3), None);
    let rep = build_echo_reply(PING_IDENTIFIER, 3, b"AetherionOS");
    let frame = build_frame(OUR_MAC, PEER_MAC, ETHERTYPE_IPV4, &build_packet(peer_ip(), our_ip(), PROTO_ICMP, 1, 64, &rep));
    assert!(process_frame(&mut s, &mut socks, &frame).is_none());
    assert_eq!(check_ping_reply(&mut s, 3), Some(peer_ip()));
    assert_eq!(check_ping_reply(&mut s, 3), None);
}

#[test]
fn net_unconfigured_stack_sends_nothing() {
    let s = NetStack::new();
    assert!(send_ping(&s, peer_ip(), 1).is_none());
    assert!(send_arp_request(&s, peer_ip()).is_none());
    assert_eq!(get_stats(&s), (0, 0, 0, 0));
    let arp = send_arp_request(&stack(), peer_ip()).unwrap();
    assert_eq!(EthernetFrame::parse(&arp).unwrap().ethertype, ETHERTYPE_ARP);
}

#[test]
fn net_socket_syscalls() {
    let mut t = SocketTable::new();
    assert_eq!(sys_socket(&mut t, 99, SOCK_DGRAM, 0), EINVAL);
    assert_eq!(sys_socket(&mut t, AF_INET, SOCK_RAW, IPPROTO_UDP), EINVAL);
    let udp = sys_socket(&mut t, AF_INET, SOCK_DGRAM, 0);
    assert_eq!(udp, 100);
    let icmp = sys_socket(&mut t, AF_INET, SOCK_RAW, IPPROTO_ICMP);
    assert_eq!(icmp, 101);
    assert_eq!(sys_bind(&mut t, 555, 80), EBADF);
    assert_eq!(sys_bind(&mut t, udp as u32, 5000), 0);
    let s = stack();
    assert!(matches!(sys_sendto(&t, &s, 555, b"x", peer_ip(), 1), SendAction::Return(EBADF)));
    match sys_sendto(&t, &s, udp as u32, b"hello", peer_ip(), 53) {
        SendAction::Udp(frame, n) => {
            assert_eq!(n, 5);
            let ip = Ipv4Packet::parse(EthernetFrame::parse(&frame).unwrap().payload).unwrap();
            let u = UdpPacket::parse(ip.payload).unwrap();
            assert_eq!((u.src_port, u.dst_port, u.data), (5000, 53, &b"hello"[..]));
        },
        _ => panic!("expected a UDP frame"),
    }
    assert!(matches!(sys_sendto(&t, &NetStack::new(), udp as u32, b"x", peer_ip(), 1), SendAction::Return(EIO)));
    assert!(matches!(sys_sendto(&t, &s, icmp as u32, b"abc", peer_ip(), 0), SendAction::Ping(Some(_), 3)));
}

#[test]
fn net_udp_delivery_and_recv() {
    let mut t = SocketTable::new();
    let mut s = stack();
    let fd = sys_socket(&mut t, AF_INET, SOCK_DGRAM, IPPROTO_UDP) as u32;
    assert_eq!(sys_bind(&mut t, fd, 7777), 0);
    let (n, data) = sys_recvfrom(&mut t, &mut s, fd, 64);
    assert_eq!((n, data.len()), (0, 0));
    deliver_udp(&mut t, peer_ip(), 1234, 7777, b"first");
    deliver_udp(&mut t, peer_ip(), 1234, 8888, b"elsewhere");
    let udp = build_udp(1234, 7777, b"second datagram");
    let frame = build_frame(OUR_MAC, PEER_MAC, ETHERTYPE_IPV4, &build_packet(peer_ip(), our_ip(), PROTO_UDP, 1, 64, &udp));
    assert!(process_frame(&mut s, &mut t, &frame).is_none());
    assert_eq!(sys_recvfrom(&mut t, &mut s, fd, 64), (5, b"first".to_vec()));
    assert_eq!(sys_recvfrom(&mut t, &mut s, fd, 6), (6, b"second".to_vec()));
    assert_eq!(sys_recvfrom(&mut t, &mut s, fd, 64).0, 0);
    assert_eq!(sys_recvfrom(&mut t, &mut s, 4242, 64).0, EBADF);
}

#[test]
fn net_icmp_socket_reads_pong() {
    let mut t = SocketTable::new();
    let mut s = stack();
    let mut socks = SocketTable::new();
    let fd = sys_socket(&mut t, AF_INET, SOCK_RAW, IPPROTO_ICMP) as u32;
    let rep = build_echo_reply(PING_IDENTIFIER, 12, b"AetherionOS");
    let frame = build_frame(OUR_MAC, PEER_MAC, ETHERTYPE_IPV4, &build_packet(peer_ip(), our_ip(), PROTO_ICMP, 1, 64, &rep));
    assert!(process_frame(&mut s, &mut socks, &frame).is_none());
    let (n, text) = sys_recvfrom(&mut t, &mut s, fd, 128);
    assert_eq!(text, b"PONG from 10.0.2.2 seq=12".to_vec());
    assert_eq!(n, text.len() as u64);
    assert_eq!(check_ping_reply(&mut s, 12), None);
}

#[test]
fn net_virtio_layout() {
    let h = VirtioNetHeader::empty();
    assert_eq!((h.flags, h.gso_type, h.hdr_len, h.gso_size, h.csum_start, h.csum_offset), (0, 0, 0, 0, 0, 0));
    assert_eq!(VIRTIO_NET_HDR_LEN, 10);
    // 256 descriptors: 4096 + 518 bytes, used ring from 8192, 2054 bytes long.
    assert_eq!(queue_mem_size(256), 8192 + 2054);
    assert_eq!(queue_mem_size(0), 4096 + 6);
}

#[test]
fn net_virtio_bring_up_choices() {
    assert_eq!(io_base_of_bar(0xC041), Some(0xC040));
    assert_eq!(io_base_of_bar(0x1_C043), Some(0xC040));
    assert_eq!(io_base_of_bar(0xFEB0_0000), None);
    assert_eq!(negotiate_features(0xFFFF_FFFF), 0x1_0020);
    assert_eq!(negotiate_features(0x0000_0021), 0x20);
    assert_eq!(effective_queue_size(0), None);
    assert_eq!(effective_queue_size(128), Some(128));
    assert_eq!(effective_queue_size(1024), Some(256));
    assert_eq!(queue_pages(256), 3);
    assert_eq!(queue_pages(16), 2);
    assert_eq!(rx_buffer_count(256), 64);
    assert_eq!(rx_buffer_count(64), 32);
    assert_eq!(rx_buffer_count(1), 0);
    assert!(tx_accepts(true, 2038));
    assert!(!tx_accepts(true, 2039));
    assert!(!tx_accepts(false, 60));
    assert_eq!(rx_frame_len(10), None);
    assert_eq!(rx_frame_len(74), Some(64));
}

#[test]
fn net_virtio_queue_free_list_and_rings() {
    let mut q = VirtQueue::new(0xC040, 1, 0x20_0000, 4);
    assert_eq!((q.free_head, q.free_count), (0, 4));
    assert_eq!(q.descs[3].next, 0);
    assert_eq!(q.alloc_desc(), Some(0));
    assert_eq!(q.alloc_desc(), Some(1));
    assert_eq!((q.free_head, q.free_count), (2, 2));
    q.set_desc(0, VringDesc { addr: 0x30_0000, len: 74, flags: 0, next: 0 });
    q.submit(0);
    q.submit(1);
    assert_eq!(q.avail_ring, vec![0, 1, 0, 0]);
    assert_eq!(q.avail_idx, 2);
    assert_eq!(q.pending_used(0), None);
    assert_eq!(q.pending_used(1), Some(0));
    q.advance_used();
    assert_eq!(q.last_used_idx, 1);
    q.free_desc(0);
    assert_eq!((q.free_head, q.free_count), (0, 3));
    assert_eq!(q.descs[0].next, 2);
    assert_eq!(q.alloc_desc(), Some(0));
    assert_eq!(q.alloc_desc(), Some(2));
    assert_eq!(q.alloc_desc(), Some(3));
    assert_eq!(q.free_count, 0);
    // a chain of two in use: 1 then 3
    q.set_desc(1, VringDesc { addr: 0, len: 0, flags: VRING_DESC_F_NEXT, next: 3 });
    q.set_desc(3, VringDesc { addr: 0, len: 0, flags: VRING_DESC_F_WRITE, next: 0 });
    q.free_desc(1);
    assert_eq!((q.free_head, q.free_count), (3, 2));
    assert_eq!(q.descs[3].next, 1);
    assert_eq!(q.alloc_desc(), Some(3));
    assert_eq!(q.alloc_desc(), Some(1));
    assert_eq!(q.alloc_desc(), None);
    let mut w = VirtQueue::new(0, 0, 0, 2);
    w.avail_idx = 0xFFFF;
    w.submit(1);
    assert_eq!((w.avail_idx, w.avail_ring[1]), (0, 1));
    assert_eq!(w.alloc_desc(), Some(0));
    assert_eq!(w.alloc_desc(), Some(1));
    assert_eq!(w.alloc_desc(), None);
}

#[test]
fn net_virtio_device_send_and_receive() {
    let rx = VirtQueue::new(0xC040, 0, 0x10_0000, 4);
    let tx = VirtQueue::new(0xC040, 1, 0x10_3000, 2);
    let mac = aetherion_kernel::net::ethernet::MacAddress([0x52, 0x54, 0, 0x12, 0x34, 0x56]);
    let mut dev = VirtioNetDevice::new(0xC040, mac, rx, tx, 0x20_0000);
    assert!(dev.post_rx_buffer(0x30_0000));
    assert!(dev.post_rx_buffer(0x30_1000));
    assert_eq!(dev.rx_queue.descs[0], VringDesc { addr: 0x30_0000, len: 2048, flags: VRING_DESC_F_WRITE, next: 0 });
    assert_eq!(dev.rx_queue.avail_ring[..2], [0, 1]);
    assert_eq!(dev.rx_bufs_phys, vec![0x30_0000, 0x30_1000]);
    // not ready yet
    assert_eq!(dev.transmit(60, &[]), None);
    dev.mark_ready();
    assert_eq!(dev.transmit(2039, &[]), None);
    assert_eq!(dev.transmit(60, &[]), Some(0));
    assert_eq!(dev.tx_queue.descs[0], VringDesc { addr: 0x20_0000, len: 70, flags: 0, next: 0 });
    assert_eq!(dev.transmit(42, &[]), Some(1));
    // both descriptors in flight: nothing completed, nothing free
    assert_eq!(dev.transmit(42, &[]), None);
    // the device completed the first one
    assert_eq!(dev.transmit(42, &[0]), Some(0));
    assert_eq!(dev.tx_queue.last_used_idx, 1);
    assert_eq!((dev.tx_packets, dev.tx_bytes), (3, 144));
    // receiving
    assert_eq!(dev.receive(0, 0, 0), None);
    assert_eq!(dev.receive(1, 1, 74), Some((0x30_1000, 64)));
    assert_eq!(dev.rx_queue.last_used_idx, 1);
    assert_eq!(dev.rx_queue.avail_ring[2], 1);
    assert_eq!(dev.receive(2, 0, 10), None);
    assert_eq!(dev.rx_queue.last_used_idx, 2);
    assert_eq!(dev.receive(3, 9, 100), None);
    assert_eq!(dev.rx_queue.last_used_idx, 3);
    assert_eq!((dev.rx_packets, dev.rx_bytes), (1, 64));
}

#[test]
fn virtio_bring_up_follows_the_handshake_order() {
    let s = virtio_init_start();
    let (s, a) = virtio_init_step(s, InitEvent::Start);
    assert_eq!(a, InitAction::ReadBar0);
    let (s, a) = virtio_init_step(s, InitEvent::Bar(0xC041));
    assert_eq!(a, InitAction::EnableBusMaster { io_base: 0xC040 });
    let (s, a) = virtio_init_step(s, InitEvent::Done);
    assert_eq!(a, InitAction::WriteStatus { io_base: 0xC040, status: 0 });
    let (s, a) = virtio_init_step(s, InitEvent::Done);
    assert_eq!(a, InitAction::WriteStatus { io_base: 0xC040, status: 1 });
    let (s, a) = virtio_init_step(s, InitEvent::Done);
    assert_eq!(a, InitAction::WriteStatus { io_base: 0xC040, status: 3 });
    let (s, a) = virtio_init_step(s, InitEvent::Done);
    assert_eq!(a, InitAction::ReadFeatures { io_base: 0xC040 });
    let (s, a) = virtio_init_step(s, InitEvent::Features(0xFFFF_FFFF));
    assert_eq!(a, InitAction::WriteGuestFeatures { io_base: 0xC040, features: 0x1_0020 });
    let (s, a) = virtio_init_step(s, InitEvent::Done);
    assert_eq!(a, InitAction::ReadStatus { io_base: 0xC040 });
    let (s, a) = virtio_init_step(s, InitEvent::Status(3));
    assert_eq!(a, InitAction::WriteStatus { io_base: 0xC040, status: 11 });
    let (s, a) = virtio_init_step(s, InitEvent::Done);
    assert_eq!(a, InitAction::ReadMac { io_base: 0xC040 });
    let (s, a) = virtio_init_step(s, InitEvent::Done);
    assert_eq!(a, InitAction::SetupQueue { io_base: 0xC040, index: 0 });
    let (s, a) = virtio_init_step(s, InitEvent::Outcome(true));
    assert_eq!(a, InitAction::SetupQueue { io_base: 0xC040, index: 1 });
    let (s, a) = virtio_init_step(s, InitEvent::Outcome(true));
    assert_eq!(a, InitAction::AllocTxBuffer);
    let (s, a) = virtio_init_step(s, InitEvent::Outcome(true));
    assert_eq!(a, InitAction::PostRxBuffers);
    let (s, a) = virtio_init_step(s, InitEvent::Done);
    assert_eq!(a, InitAction::ReadStatus { io_base: 0xC040 });
    let (s, a) = virtio_init_step(s, InitEvent::Status(11));
    assert_eq!(a, InitAction::WriteStatus { io_base: 0xC040, status: 15 });
    let (s, a) = virtio_init_step(s, InitEvent::Done);
    assert_eq!((s.phase, a), (InitPhase::Ready, InitAction::Finish));
    let (s2, a) = virtio_init_step(s, InitEvent::Done);
    assert_eq!((s2, a), (s, InitAction::Finish));
}

#[test]
fn virtio_bring_up_fails_on_memory_bar_missing_queue_or_wrong_event() {
    let (s, _) = virtio_init_step(virtio_init_start(), InitEvent::Start);
    let (f, a) = virtio_init_step(s, InitEvent::Bar(0xFEB0_0000));
    assert_eq!((f.phase, a), (InitPhase::Failed, InitAction::Abort));
    assert_eq!(virtio_init_step(f, InitEvent::Done).1, InitAction::Abort);
    let (w, a) = virtio_init_step(s, InitEvent::Done);
    assert_eq!((w.phase, a), (InitPhase::Failed, InitAction::Abort));
    let mut t = s;
    for ev in [InitEvent::Bar(0xC001), InitEvent::Done, InitEvent::Done, InitEvent::Done, InitEvent::Done,
        InitEvent::Features(0x20), InitEvent::Done, InitEvent::Status(3), InitEvent::Done, InitEvent::Done] {
        t = virtio_init_step(t, ev).0;
    }
    assert_eq!(t.phase, InitPhase::AwaitRxQueue);
    let (q, a) = virtio_init_step(t, InitEvent::Outcome(false));
    assert_eq!((q.phase, a), (InitPhase::Failed, InitAction::Abort));
}
