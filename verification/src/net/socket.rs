//! Datagram (UDP) and raw (ICMP) sockets for user space.

use vstd::prelude::*;
use crate::intmap::IntMap;
use crate::net::ipv4::Ipv4Addr;
use crate::net::{NetStack, can_send, ping_frame, udp_frame, send_ping, send_udp};
use crate::decimal::{decimal, push_decimal};

verus! {

pub const SOCK_RAW: u32 = 3;
pub const SOCK_DGRAM: u32 = 2;
pub const IPPROTO_ICMP: u32 = 1;
pub const IPPROTO_UDP: u32 = 17;
pub const AF_INET: u32 = 2;
/// Maximum pending datagrams per socket.
pub const MAX_RECV_QUEUE: usize = 16;
/// First descriptor handed out (keeps clear of file descriptors).
pub const FIRST_SOCKET_FD: u32 = 100;

/// `-22` (EINVAL) as returned to user space.
pub const EINVAL: u64 = 0xFFFF_FFFF_FFFF_FFEA;
/// `-9` (EBADF) as returned to user space.
pub const EBADF: u64 = 0xFFFF_FFFF_FFFF_FFF7;
/// `-5` (EIO) as returned to user space.
pub const EIO: u64 = 0xFFFF_FFFF_FFFF_FFFB;

/// A received datagram.
#[derive(Clone)]
pub struct RecvDatagram {
    pub src_ip: Ipv4Addr,
    pub src_port: u16,
    pub data: Vec<u8>,
}

/// A network socket.
pub struct Socket {
    pub domain: u32,
    pub sock_type: u32,
    pub protocol: u32,
    pub bind_port: u16,
    pub recv_queue: Vec<RecvDatagram>,
}

/// The socket descriptor table.
pub struct SocketTable {
    pub sockets: IntMap<Socket>,
    pub next_fd: u32,
}

impl SocketTable {
    /// An empty table whose first descriptor is 100.
    pub fn new() -> (t: Self)
        ensures
            t.sockets@ == Map::<u64, Socket>::empty(),
            t.next_fd == FIRST_SOCKET_FD,
    {
        SocketTable { sockets: IntMap::new(), next_fd: FIRST_SOCKET_FD }
    }
}

/// The arguments name a supported socket kind: AF_INET with either
/// SOCK_RAW/ICMP or SOCK_DGRAM/UDP (protocol 0 meaning UDP).
pub open spec fn socket_kind_ok(domain: u32, sock_type: u32, protocol: u32) -> bool {
    &&& domain == AF_INET
    &&& ((sock_type == SOCK_RAW && protocol == IPPROTO_ICMP) || (sock_type == SOCK_DGRAM && (protocol
        == IPPROTO_UDP || protocol == 0)))
}

/// Creates a socket. Returns its descriptor, or EINVAL for an unsupported
/// kind (table unchanged then).
pub fn sys_socket(table: &mut SocketTable, domain: u32, sock_type: u32, protocol: u32) -> (r: u64)
    ensures
        !socket_kind_ok(domain, sock_type, protocol) ==> r == EINVAL && final(table).sockets@
            == old(table).sockets@ && final(table).next_fd == old(table).next_fd,
        socket_kind_ok(domain, sock_type, protocol) ==> {
            let fd = old(table).next_fd;
            &&& r == fd
            &&& final(table).next_fd == (if fd == u32::MAX { 0 } else { (fd + 1) as u32 })
            &&& final(table).sockets@.dom() == old(table).sockets@.dom().insert(fd as u64)
            &&& forall|k: u64| k != fd ==> #[trigger] final(table).sockets@[k] == old(table).sockets@[k]
            &&& final(table).sockets@[fd as u64].domain == domain
            &&& final(table).sockets@[fd as u64].sock_type == sock_type
            &&& final(table).sockets@[fd as u64].protocol == (if protocol == 0 { IPPROTO_UDP } else { protocol })
            &&& final(table).sockets@[fd as u64].bind_port == 0
            &&& final(table).sockets@[fd as u64].recv_queue@.len() == 0
        },
{
    if domain != AF_INET {
        return EINVAL;
    }
    let kind_ok = (sock_type == SOCK_RAW && protocol == IPPROTO_ICMP) || (sock_type == SOCK_DGRAM
        && (protocol == IPPROTO_UDP || protocol == 0));
    if !kind_ok {
        return EINVAL;
    }
    let fd = table.next_fd;
    table.next_fd = fd.wrapping_add(1);
    let socket = Socket {
        domain,
        sock_type,
        protocol: if protocol == 0 { IPPROTO_UDP } else { protocol },
        bind_port: 0,
        recv_queue: Vec::new(),
    };
    table.sockets.insert(fd as u64, socket);
    fd as u64
}

/// Binds a socket to a local port: 0 on success, EBADF for an unknown descriptor.
pub fn sys_bind(table: &mut SocketTable, fd: u32, port: u16) -> (r: u64)
    ensures
        !old(table).sockets@.contains_key(fd as u64) ==> r == EBADF && final(table).sockets@
            == old(table).sockets@,
        old(table).sockets@.contains_key(fd as u64) ==> {
            &&& r == 0
            &&& final(table).sockets@.dom() == old(table).sockets@.dom()
            &&& forall|k: u64| k != fd ==> #[trigger] final(table).sockets@[k] == old(table).sockets@[k]
            &&& final(table).sockets@[fd as u64].bind_port == port
            &&& final(table).sockets@[fd as u64].protocol == old(table).sockets@[fd as u64].protocol
            &&& final(table).sockets@[fd as u64].domain == old(table).sockets@[fd as u64].domain
            &&& final(table).sockets@[fd as u64].sock_type == old(table).sockets@[fd as u64].sock_type
            &&& final(table).sockets@[fd as u64].recv_queue@ == old(table).sockets@[fd as u64].recv_queue@
        },
        final(table).next_fd == old(table).next_fd,
{
    match table.sockets.remove(fd as u64) {
        Some(mut socket) => {
            socket.bind_port = port;
            table.sockets.insert(fd as u64, socket);
            assert(final(table).sockets@.dom() =~= old(table).sockets@.dom());
            0
        },
        None => EBADF,
    }
}

/// What a `sendto` call comes to once its socket has been looked up.
pub enum SendAction {
    /// Finish at once with this return value.
    Return(u64),
    /// Transmit the frame, if any; the call returns the value whatever the device does.
    Ping(Option<Vec<u8>>, u64),
    /// Transmit the frame; the call returns the value when it went out, EIO otherwise.
    Udp(Vec<u8>, u64),
}

/// Sends `data` through socket `fd` to `dest_ip` (and `dest_port` for UDP).
/// A raw ICMP socket sends an echo request whose sequence number is the low
/// 16 bits of the length; a UDP socket sends from its bound port.
pub fn sys_sendto(table: &SocketTable, stack: &NetStack, fd: u32, data: &[u8], dest_ip: Ipv4Addr, dest_port: u16) -> (a: SendAction)
    ensures
        !table.sockets@.contains_key(fd as u64) ==> a == SendAction::Return(EBADF),
        table.sockets@.contains_key(fd as u64) ==> {
            let s = table.sockets@[fd as u64];
            &&& s.protocol == IPPROTO_ICMP ==> (a matches SendAction::Ping(f, n) && n == data@.len()
                && (f is Some <==> can_send(stack))
                && (f is Some ==> f->0@ == ping_frame(stack, dest_ip.0@, (data@.len() % 0x10000) as u16)))
            &&& s.protocol == IPPROTO_UDP && can_send(stack) ==> (a matches SendAction::Udp(f, n)
                && n == data@.len() && f@ == udp_frame(stack, dest_ip.0@, s.bind_port, dest_port, data@))
            &&& s.protocol == IPPROTO_UDP && !can_send(stack) ==> a == SendAction::Return(EIO)
            &&& s.protocol != IPPROTO_ICMP && s.protocol != IPPROTO_UDP ==> a == SendAction::Return(EINVAL)
        },
{
    let socket = match table.sockets.get(fd as u64) {
        Some(s) => s,
        None => return SendAction::Return(EBADF),
    };
    let n = data.len() as u64;
    if socket.protocol == IPPROTO_ICMP {
        let sequence = (data.len() % 0x10000) as u16;
        SendAction::Ping(send_ping(stack, dest_ip, sequence), n)
    } else if socket.protocol == IPPROTO_UDP {
        match send_udp(stack, dest_ip, socket.bind_port, dest_port, data) {
            Some(frame) => SendAction::Udp(frame, n),
            None => SendAction::Return(EIO),
        }
    } else {
        SendAction::Return(EINVAL)
    }
}

/// `s` cut to at most `len` bytes.
pub open spec fn truncated(s: Seq<u8>, len: int) -> Seq<u8> {
    if s.len() <= len {
        s
    } else {
        s.take(len)
    }
}

/// The text handed to a raw ICMP socket for an echo reply from `ip` with
/// sequence `seq`: "PONG from a.b.c.d seq=N".
pub open spec fn pong_text(ip: Seq<u8>, seq: nat) -> Seq<u8> {
    seq![0x50u8, 0x4Fu8, 0x4Eu8, 0x47u8, 0x20u8, 0x66u8, 0x72u8, 0x6Fu8, 0x6Du8, 0x20u8]
        + decimal(ip[0] as nat) + seq![0x2Eu8] + decimal(ip[1] as nat) + seq![0x2Eu8]
        + decimal(ip[2] as nat) + seq![0x2Eu8] + decimal(ip[3] as nat)
        + seq![0x20u8, 0x73u8, 0x65u8, 0x71u8, 0x3Du8] + decimal(seq)
}

/// Smallest key of a non-empty map.
pub open spec fn min_key<V>(m: Map<u64, V>) -> u64 {
    choose|k: u64| m.contains_key(k) && forall|j: u64| #[trigger] m.contains_key(j) ==> k <= j
}

fn pong_bytes(ip: Ipv4Addr, seq: u64) -> (v: Vec<u8>)
    ensures
        v@ == pong_text(ip.0@, seq as nat),
{
    let mut v: Vec<u8> = vec![0x50, 0x4F, 0x4E, 0x47, 0x20, 0x66, 0x72, 0x6F, 0x6D, 0x20];
    push_decimal(&mut v, ip.0[0] as u64);
    v.push(0x2E);
    push_decimal(&mut v, ip.0[1] as u64);
    v.push(0x2E);
    push_decimal(&mut v, ip.0[2] as u64);
    v.push(0x2E);
    push_decimal(&mut v, ip.0[3] as u64);
    v.push(0x20);
    v.push(0x73);
    v.push(0x65);
    v.push(0x71);
    v.push(0x3D);
    push_decimal(&mut v, seq);
    assert(v@ =~= pong_text(ip.0@, seq as nat));
    v
}

fn truncate_to(v: &mut Vec<u8>, len: u64)
    ensures
        final(v)@ == truncated(old(v)@, len as int),
{
    if (len as u128) < (v.len() as u128) {
        v.truncate(len as usize);
    }
}

/// Takes the next datagram of socket `fd` (without waiting): its data cut
/// to `len` bytes. A raw ICMP socket with an empty queue takes the pending
/// echo reply with the smallest sequence number instead, as a
/// "PONG from a.b.c.d seq=N" text. Returns the value for user space (byte
/// count, or EBADF for an unknown descriptor) and the bytes to copy out.
pub fn sys_recvfrom(table: &mut SocketTable, stack: &mut NetStack, fd: u32, len: u64) -> (r: (u64, Vec<u8>))
    ensures
        final(table).next_fd == old(table).next_fd,
        final(stack).config == old(stack).config,
        final(stack).available == old(stack).available,
        final(stack).arp_cache@ == old(stack).arp_cache@,
        final(stack).stats == old(stack).stats,
        r.1@.len() <= len,
        !old(table).sockets@.contains_key(fd as u64) ==> r.0 == EBADF && r.1@.len() == 0
            && final(table).sockets@ == old(table).sockets@ && final(stack).ping_replies@ == old(stack).ping_replies@,
        old(table).sockets@.contains_key(fd as u64) ==> {
            let s = old(table).sockets@[fd as u64];
            let pong = s.recv_queue@.len() == 0 && s.protocol == IPPROTO_ICMP && old(stack).ping_replies@.len() > 0;
            &&& r.0 == r.1@.len()
            &&& s.recv_queue@.len() > 0 ==> {
                let ns = final(table).sockets@[fd as u64];
                &&& r.1@ == truncated(s.recv_queue@[0].data@, len as int)
                &&& final(table).sockets@.dom() == old(table).sockets@.dom()
                &&& forall|k: u64| k != fd ==> #[trigger] final(table).sockets@[k] == old(table).sockets@[k]
                &&& ns.domain == s.domain && ns.sock_type == s.sock_type && ns.protocol == s.protocol
                &&& ns.bind_port == s.bind_port
                &&& ns.recv_queue@ == s.recv_queue@.drop_first()
                &&& final(stack).ping_replies@ == old(stack).ping_replies@
            }
            &&& s.recv_queue@.len() == 0 ==> final(table).sockets@ == old(table).sockets@
            &&& pong ==> {
                let k = min_key(old(stack).ping_replies@);
                &&& r.1@ == truncated(pong_text(old(stack).ping_replies@[k].0@, k as nat), len as int)
                &&& final(stack).ping_replies@ == old(stack).ping_replies@.remove(k)
            }
            &&& s.recv_queue@.len() == 0 && !pong ==> r.1@.len() == 0 && final(stack).ping_replies@ == old(stack).ping_replies@
        },
{
    let mut socket = match table.sockets.remove(fd as u64) {
        Some(s) => s,
        None => return (EBADF, Vec::new()),
    };
    if socket.recv_queue.len() == 0 {
        let protocol = socket.protocol;
        table.sockets.insert(fd as u64, socket);
        assert(table.sockets@ =~= old(table).sockets@);
        if protocol == IPPROTO_ICMP {
            let first = match stack.ping_replies.first() {
                Some((k, ip)) => (k, *ip),
                None => return (0, Vec::new()),
            };
            let (k, ip) = first;
            proof {
                let m = old(stack).ping_replies@;
                assert(m.contains_key(k) && forall|j: u64| #[trigger] m.contains_key(j) ==> k <= j);
                let c = min_key(m);
                assert(m.contains_key(c) && forall|j: u64| #[trigger] m.contains_key(j) ==> c <= j);
                assert(c <= k && k <= c);
            }
            stack.ping_replies.remove(k);
            let mut text = pong_bytes(ip, k);
            truncate_to(&mut text, len);
            return (text.len() as u64, text);
        }
        return (0, Vec::new());
    }
    let datagram = socket.recv_queue.remove(0);
    table.sockets.insert(fd as u64, socket);
    assert(table.sockets@.dom() =~= old(table).sockets@.dom());
    let mut data = datagram.data;
    truncate_to(&mut data, len);
    (data.len() as u64, data)
}

/// The socket receives a datagram for `dst_port`: a UDP socket bound to it
/// with room in its queue.
pub open spec fn receives(s: Socket, dst_port: u16) -> bool {
    s.protocol == IPPROTO_UDP && s.bind_port == dst_port && s.recv_queue@.len() < MAX_RECV_QUEUE
}

/// `n` is `o` after a datagram from `src_ip:src_port` with `data` was
/// delivered to port `dst_port`: each receiving socket gained it at the end
/// of its queue, every other socket is unchanged.
pub open spec fn delivered(o: Map<u64, Socket>, n: Map<u64, Socket>, src_ip: Seq<u8>, src_port: u16, dst_port: u16, data: Seq<u8>) -> bool {
    &&& n.dom() == o.dom()
    &&& forall|k: u64| #[trigger] o.contains_key(k) ==> {
        let os = o[k];
        let ns = n[k];
        &&& ns.domain == os.domain
        &&& ns.sock_type == os.sock_type
        &&& ns.protocol == os.protocol
        &&& ns.bind_port == os.bind_port
        &&& receives(os, dst_port) ==> {
            &&& ns.recv_queue@.len() == os.recv_queue@.len() + 1
            &&& ns.recv_queue@.drop_last() == os.recv_queue@
            &&& ns.recv_queue@.last().src_ip.0@ == src_ip
            &&& ns.recv_queue@.last().src_port == src_port
            &&& ns.recv_queue@.last().data@ == data
        }
        &&& !receives(os, dst_port) ==> ns.recv_queue@ == os.recv_queue@
    }
}

/// Delivers an incoming UDP datagram to every UDP socket bound to `dst_port`
/// whose queue is not full.
pub fn deliver_udp(table: &mut SocketTable, src_ip: Ipv4Addr, src_port: u16, dst_port: u16, data: &[u8])
    ensures
        final(table).next_fd == old(table).next_fd,
        delivered(old(table).sockets@, final(table).sockets@, src_ip.0@, src_port, dst_port, data@),
{
    let n = table.sockets.len();
    let ghost old_map = table.sockets@;
    let mut i: usize = 0;
    while i < n
        invariant
            i <= n,
            n == table.sockets.key_seq().len(),
            n == table.sockets.value_seq().len(),
            n == old(table).sockets.value_seq().len(),
            table.next_fd == old(table).next_fd,
            table.sockets.key_seq() == old(table).sockets.key_seq(),
            old_map == old(table).sockets@,
            forall|j: int| 0 <= j < n ==> old_map[#[trigger] old(table).sockets.key_seq()[j]] == old(table).sockets.value_seq()[j],
            forall|k: u64| old_map.contains_key(k) <==> old(table).sockets.key_seq().contains(k),
            table.sockets@.dom() == old_map.dom(),
            forall|j: int| 0 <= j < i ==> {
                let o = #[trigger] old(table).sockets.value_seq()[j];
                let s = table.sockets.value_seq()[j];
                &&& s.domain == o.domain
                &&& s.sock_type == o.sock_type
                &&& s.protocol == o.protocol
                &&& s.bind_port == o.bind_port
                &&& receives(o, dst_port) ==> {
                    &&& s.recv_queue@.len() == o.recv_queue@.len() + 1
                    &&& s.recv_queue@.drop_last() == o.recv_queue@
                    &&& s.recv_queue@.last().src_ip == src_ip
                    &&& s.recv_queue@.last().src_port == src_port
                    &&& s.recv_queue@.last().data@ == data@
                }
                &&& !receives(o, dst_port) ==> s.recv_queue@ == o.recv_queue@
            },
            forall|j: int| i <= j < n ==> #[trigger] table.sockets.value_seq()[j] == old(table).sockets.value_seq()[j],
            forall|j: int| 0 <= j < n ==> table.sockets@[#[trigger] table.sockets.key_seq()[j]] == table.sockets.value_seq()[j],
        decreases n - i,
    {
        let wanted = {
            let s = table.sockets.value_at(i);
            s.protocol == IPPROTO_UDP && s.bind_port == dst_port && s.recv_queue.len() < MAX_RECV_QUEUE
        };
        if wanted {
            let ghost before = table.sockets.value_seq();
            let placeholder = Socket { domain: 0, sock_type: 0, protocol: 0, bind_port: 0, recv_queue: Vec::new() };
            let mut socket = table.sockets.replace_at(i, placeholder);
            let ghost mid = table.sockets.value_seq();
            assert(mid == before.update(i as int, placeholder));
            assert(socket == before[i as int]);
            let mut copy: Vec<u8> = Vec::new();
            crate::net::wire::push_bytes(&mut copy, data);
            socket.recv_queue.push(RecvDatagram { src_ip, src_port, data: copy });
            let ghost updated = socket;
            table.sockets.replace_at(i, socket);
            assert(table.sockets.value_seq() == mid.update(i as int, updated));
            assert(mid.len() == before.len());
            assert forall|k: int| 0 <= k < before.len() implies #[trigger] mid.update(i as int, updated)[k] == before.update(i as int, updated)[k] by {
                if k != i {
                    assert(mid[k] == before[k]);
                }
            }
            assert(mid.update(i as int, updated) =~= before.update(i as int, updated));
        }
        let _ = table.sockets.len();
        i = i + 1;
    }
    assert forall|k: u64| #[trigger] old(table).sockets@.contains_key(k) implies {
        let o = old(table).sockets@[k];
        let nw = table.sockets@[k];
        &&& nw.domain == o.domain
        &&& nw.sock_type == o.sock_type
        &&& nw.protocol == o.protocol
        &&& nw.bind_port == o.bind_port
        &&& receives(o, dst_port) ==> {
            &&& nw.recv_queue@.len() == o.recv_queue@.len() + 1
            &&& nw.recv_queue@.drop_last() == o.recv_queue@
            &&& nw.recv_queue@.last().src_ip == src_ip
            &&& nw.recv_queue@.last().src_port == src_port
            &&& nw.recv_queue@.last().data@ == data@
        }
        &&& !receives(o, dst_port) ==> nw.recv_queue@ == o.recv_queue@
    } by {
        let j = choose|j: int| 0 <= j < n && old(table).sockets.key_seq()[j] == k;
        assert(old(table).sockets.value_seq()[j] == old_map[k]);
        assert(table.sockets.key_seq()[j] == k);
    }
}

} // verus!
