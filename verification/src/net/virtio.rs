//! The VirtIO network device as the driver sees it: the frame header,
//! the layout of a virtqueue in memory, the driver's side of a virtqueue
//! (descriptor table, free list, available ring, progress through the used
//! ring) and the choices made while bringing the device up.

use vstd::prelude::*;
use crate::arith::{add_len, inc, wrapping_inc, wrapping_sum};
use crate::net::ethernet::MacAddress;

verus! {

/// The header that prefixes every frame exchanged with a VirtIO network device.
#[derive(Debug, Clone, Copy)]
pub struct VirtioNetHeader {
    pub flags: u8,
    pub gso_type: u8,
    pub hdr_len: u16,
    pub gso_size: u16,
    pub csum_start: u16,
    pub csum_offset: u16,
}

/// Size of the header on the wire, in bytes.
pub const VIRTIO_NET_HDR_LEN: usize = 10;

impl VirtioNetHeader {
    /// A header asking for no offload.
    pub fn empty() -> (h: Self)
        ensures
            h == (VirtioNetHeader { flags: 0, gso_type: 0, hdr_len: 0, gso_size: 0, csum_start: 0, csum_offset: 0 }),
    {
        VirtioNetHeader { flags: 0, gso_type: 0, hdr_len: 0, gso_size: 0, csum_start: 0, csum_offset: 0 }
    }
}

/// Size of a ring descriptor in bytes.
pub const VRING_DESC_SIZE: usize = 16;

/// Bytes a virtqueue of `num` descriptors occupies: the descriptor table
/// and the available ring, then, from the next page boundary, the used ring.
pub open spec fn queue_bytes(num: int) -> int {
    let avail_end = num * 16 + (6 + 2 * num);
    let used_start = (avail_end + 4095) - (avail_end + 4095) % 4096;
    used_start + (6 + 8 * num)
}

/// The memory size of a virtqueue of `num` descriptors (`queue_bytes`).
pub fn queue_mem_size(num: u16) -> (n: usize)
    ensures
        n == queue_bytes(num as int),
{
    let n = num as usize;
    let desc_size = n * VRING_DESC_SIZE;
    let avail_size = 6 + 2 * n;
    let used_size = 6 + 8 * n;
    let avail_end = desc_size + avail_size;
    let top = avail_end + 4095;
    let used_start = top - top % 4096;
    used_start + used_size
}


/// Device status: reset.
pub const VIRTIO_STATUS_RESET: u8 = 0;
/// Device status: the driver has seen the device.
pub const VIRTIO_STATUS_ACKNOWLEDGE: u8 = 1;
/// Device status: the driver knows how to drive it.
pub const VIRTIO_STATUS_DRIVER: u8 = 2;
/// Device status: the driver is ready.
pub const VIRTIO_STATUS_DRIVER_OK: u8 = 4;
/// Device status: feature negotiation is done.
pub const VIRTIO_STATUS_FEATURES_OK: u8 = 8;
/// Device status: the driver gave up.
pub const VIRTIO_STATUS_FAILED: u8 = 128;
/// Feature: the device has a MAC address.
pub const VIRTIO_NET_F_MAC: u32 = 0x20;
/// Feature: the device reports link status.
pub const VIRTIO_NET_F_STATUS: u32 = 0x1_0000;
/// Descriptor flag: the chain goes on at `next`.
pub const VRING_DESC_F_NEXT: u16 = 1;
/// Descriptor flag: the device writes the buffer.
pub const VRING_DESC_F_WRITE: u16 = 2;
/// Most descriptors the driver uses per queue.
pub const QUEUE_SIZE: u16 = 256;
/// Size of a receive buffer.
pub const RX_BUF_SIZE: usize = 2048;
/// Most receive buffers posted.
pub const RX_BUF_COUNT: usize = 64;
/// Size of the transmit buffer, header included.
pub const TX_BUF_SIZE: usize = 2048;

/// The I/O port base that BAR0 gives: its low 16 bits without the two
/// flag bits; `None` when BAR0 maps memory rather than ports (bit 0 clear).
pub fn io_base_of_bar(bar0: u32) -> (r: Option<u16>)
    ensures
        bar0 % 2 == 0 ==> r is None,
        bar0 % 2 == 1 ==> r == Some((bar0 % 0x1_0000 - bar0 % 4) as u16),
{
    assert(bar0 & 1 == bar0 % 2) by (bit_vector);
    assert(bar0 & 0xFFFC == bar0 % 0x1_0000 - bar0 % 4) by (bit_vector);
    if bar0 & 1 == 0 {
        None
    } else {
        Some((bar0 & 0xFFFC) as u16)
    }
}

/// The features the driver accepts of those the device offers: the MAC
/// address and the link status, where offered.
pub fn negotiate_features(device_features: u32) -> (g: u32)
    ensures
        g == device_features & (VIRTIO_NET_F_MAC | VIRTIO_NET_F_STATUS),
{
    device_features & (VIRTIO_NET_F_MAC | VIRTIO_NET_F_STATUS)
}

/// The number of descriptors to use for a queue of which the device
/// reports `reported`: at most `QUEUE_SIZE`; `None` when the queue does not
/// exist (size 0).
pub fn effective_queue_size(reported: u16) -> (r: Option<u16>)
    ensures
        reported == 0 ==> r is None,
        reported > 0 ==> r == Some(if reported < QUEUE_SIZE { reported } else { QUEUE_SIZE }),
{
    if reported == 0 {
        None
    } else if reported < QUEUE_SIZE {
        Some(reported)
    } else {
        Some(QUEUE_SIZE)
    }
}

/// Pages of memory for a queue of `num` descriptors (`queue_bytes`,
/// rounded up).
pub fn queue_pages(num: u16) -> (p: usize)
    ensures
        p == (queue_bytes(num as int) + 4095) / 4096,
{
    (queue_mem_size(num) + 4095) / 4096
}

/// Receive buffers to post to a receive queue of `num` descriptors: half
/// of them, at most `RX_BUF_COUNT`.
pub fn rx_buffer_count(num: u16) -> (n: usize)
    ensures
        n == if num / 2 < RX_BUF_COUNT { (num / 2) as int } else { RX_BUF_COUNT as int },
{
    let half = (num / 2) as usize;
    if half < RX_BUF_COUNT {
        half
    } else {
        RX_BUF_COUNT
    }
}

/// A ready device can send a frame of `len` bytes: it fits in the
/// transmit buffer behind the header.
pub open spec fn tx_accepts_spec(initialized: bool, len: usize) -> bool {
    initialized && len <= TX_BUF_SIZE - VIRTIO_NET_HDR_LEN
}

/// Whether a frame of `len` bytes can be sent (`tx_accepts_spec`).
pub fn tx_accepts(initialized: bool, len: usize) -> (ok: bool)
    ensures
        ok == tx_accepts_spec(initialized, len),
{
    initialized && len <= TX_BUF_SIZE - VIRTIO_NET_HDR_LEN
}

/// The frame in a completed receive of `total_len` bytes, header included:
/// its length, `None` when nothing follows the header.
pub fn rx_frame_len(total_len: usize) -> (r: Option<usize>)
    ensures
        total_len <= VIRTIO_NET_HDR_LEN ==> r is None,
        total_len > VIRTIO_NET_HDR_LEN ==> r == Some((total_len - VIRTIO_NET_HDR_LEN) as usize),
{
    if total_len <= VIRTIO_NET_HDR_LEN {
        None
    } else {
        Some(total_len - VIRTIO_NET_HDR_LEN)
    }
}

/// A ring descriptor: a buffer's physical address and length, flags, and
/// the next descriptor of its chain (or of the free list).
#[derive(Debug, Clone, Copy, PartialEq, Eq, Structural)]
pub struct VringDesc {
    pub addr: u64,
    pub len: u32,
    pub flags: u16,
    pub next: u16,
}

/// The driver's side of a virtqueue: the device port base and the queue's
/// index, where its memory lies, its descriptor table with the free list
/// threaded through `next` (from `free_head`, `free_count` long), the
/// available ring with its index, and how far the used ring was read.
pub struct VirtQueue {
    pub io_base: u16,
    pub queue_idx: u16,
    pub base_phys: u64,
    pub num: u16,
    pub free_head: u16,
    pub free_count: u16,
    pub last_used_idx: u16,
    pub descs: Vec<VringDesc>,
    pub avail_idx: u16,
    pub avail_ring: Vec<u16>,
}

/// The queue has `num` descriptors and ring slots, and every link of the
/// free list stays inside the table.
pub open spec fn queue_wf(q: &VirtQueue) -> bool {
    &&& 0 < q.num <= QUEUE_SIZE
    &&& q.descs@.len() == q.num && q.avail_ring@.len() == q.num
    &&& q.free_head < q.num
    &&& forall|i: int| 0 <= i < q.num ==> #[trigger] q.descs@[i].next < q.num
}

/// The chain of descriptors from `head`: a descriptor with `NEXT` set
/// leads to its `next`; at most `fuel` of them.
pub open spec fn desc_chain(d: Seq<VringDesc>, head: int, fuel: nat) -> Seq<int>
    decreases fuel,
{
    if fuel == 0 {
        Seq::empty()
    } else if d[head].flags & VRING_DESC_F_NEXT != 0 {
        seq![head] + desc_chain(d, d[head].next as int, (fuel - 1) as nat)
    } else {
        seq![head]
    }
}

/// The table and the free list's head after putting the descriptors `c`,
/// one after the other, at the front of the free list with head `h`.
pub open spec fn push_free(d: Seq<VringDesc>, h: u16, c: Seq<int>) -> (Seq<VringDesc>, u16)
    decreases c.len(),
{
    if c.len() == 0 {
        (d, h)
    } else {
        let (d1, h1) = push_free(d, h, c.drop_last());
        let i = c.last();
        (d1.update(i, VringDesc { next: h1, ..d1[i] }), i as u16)
    }
}

impl VirtQueue {
    /// A queue of `num` zeroed descriptors, all free and chained in order
    /// (the last back to the first), with an empty available ring.
    pub fn new(io_base: u16, queue_idx: u16, base_phys: u64, num: u16) -> (q: Self)
        requires
            0 < num <= QUEUE_SIZE,
        ensures
            queue_wf(&q),
            q.io_base == io_base && q.queue_idx == queue_idx && q.base_phys == base_phys && q.num == num,
            q.free_head == 0 && q.free_count == num && q.last_used_idx == 0 && q.avail_idx == 0,
            forall|i: int| 0 <= i < num ==> #[trigger] q.descs@[i] == (VringDesc {
                addr: 0,
                len: 0,
                flags: 0,
                next: if i + 1 < num { (i + 1) as u16 } else { 0 },
            }),
            forall|i: int| 0 <= i < num ==> #[trigger] q.avail_ring@[i] == 0,
    {
        let mut descs: Vec<VringDesc> = Vec::new();
        let mut ring: Vec<u16> = Vec::new();
        let mut i: u16 = 0;
        while i < num
            invariant
                i <= num <= QUEUE_SIZE,
                descs@.len() == i && ring@.len() == i,
                forall|k: int| 0 <= k < i ==> #[trigger] descs@[k] == (VringDesc {
                    addr: 0,
                    len: 0,
                    flags: 0,
                    next: if k + 1 < num { (k + 1) as u16 } else { 0 },
                }),
                forall|k: int| 0 <= k < i ==> #[trigger] ring@[k] == 0,
            decreases num - i,
        {
            let next: u16 = if i + 1 < num { i + 1 } else { 0 };
            descs.push(VringDesc { addr: 0, len: 0, flags: 0, next });
            ring.push(0);
            i += 1;
        }
        VirtQueue {
            io_base,
            queue_idx,
            base_phys,
            num,
            free_head: 0,
            free_count: num,
            last_used_idx: 0,
            descs,
            avail_idx: 0,
            avail_ring: ring,
        }
    }

    /// Takes the first free descriptor; `None` when none is free.
    pub fn alloc_desc(&mut self) -> (r: Option<u16>)
        requires
            queue_wf(old(self)),
        ensures
            queue_wf(final(self)),
            final(self).descs@ == old(self).descs@ && final(self).avail_ring@ == old(self).avail_ring@,
            final(self).avail_idx == old(self).avail_idx && final(self).last_used_idx == old(self).last_used_idx,
            final(self).num == old(self).num && final(self).io_base == old(self).io_base,
            final(self).queue_idx == old(self).queue_idx && final(self).base_phys == old(self).base_phys,
            old(self).free_count == 0 ==> r is None && final(self).free_head == old(self).free_head
                && final(self).free_count == 0,
            old(self).free_count > 0 ==> r == Some(old(self).free_head)
                && final(self).free_head == old(self).descs@[old(self).free_head as int].next
                && final(self).free_count == old(self).free_count - 1,
    {
        if self.free_count == 0 {
            return None;
        }
        let idx = self.free_head;
        self.free_head = self.descs[idx as usize].next;
        self.free_count = self.free_count - 1;
        Some(idx)
    }

    /// Sets descriptor `idx` to `d`.
    pub fn set_desc(&mut self, idx: u16, d: VringDesc)
        requires
            queue_wf(old(self)),
            idx < old(self).num,
            d.next < old(self).num,
        ensures
            queue_wf(final(self)),
            final(self).descs@ == old(self).descs@.update(idx as int, d),
            final(self).avail_ring@ == old(self).avail_ring@ && final(self).avail_idx == old(self).avail_idx,
            final(self).free_head == old(self).free_head && final(self).free_count == old(self).free_count,
            final(self).last_used_idx == old(self).last_used_idx && final(self).num == old(self).num,
            final(self).io_base == old(self).io_base && final(self).queue_idx == old(self).queue_idx,
            final(self).base_phys == old(self).base_phys,
    {
        self.descs.set(idx as usize, d);
    }

    /// Offers descriptor `idx` to the device: the available ring's slot
    /// `avail_idx % num` takes it, and the index moves on (wrapping).
    pub fn submit(&mut self, idx: u16)
        requires
            queue_wf(old(self)),
        ensures
            queue_wf(final(self)),
            final(self).avail_ring@ == old(self).avail_ring@.update((old(self).avail_idx % old(self).num) as int, idx),
            final(self).avail_idx == (old(self).avail_idx + 1) % 0x1_0000,
            final(self).descs@ == old(self).descs@,
            final(self).free_head == old(self).free_head && final(self).free_count == old(self).free_count,
            final(self).last_used_idx == old(self).last_used_idx && final(self).num == old(self).num,
            final(self).io_base == old(self).io_base && final(self).queue_idx == old(self).queue_idx,
            final(self).base_phys == old(self).base_phys,
    {
        let slot = self.avail_idx % self.num;
        self.avail_ring.set(slot as usize, idx);
        self.avail_idx = self.avail_idx.wrapping_add(1);
    }

    /// The used-ring slot of the next completion when the device's used
    /// index is `used_idx`; `None` when the device has completed nothing new.
    pub fn pending_used(&self, used_idx: u16) -> (r: Option<u16>)
        requires
            queue_wf(self),
        ensures
            used_idx == self.last_used_idx ==> r is None,
            used_idx != self.last_used_idx ==> r == Some((self.last_used_idx % self.num) as u16),
    {
        if used_idx == self.last_used_idx {
            None
        } else {
            Some(self.last_used_idx % self.num)
        }
    }

    /// One more completion read from the used ring (the index wraps).
    pub fn advance_used(&mut self)
        requires
            queue_wf(old(self)),
        ensures
            queue_wf(final(self)),
            final(self).last_used_idx == (old(self).last_used_idx + 1) % 0x1_0000,
            final(self).descs@ == old(self).descs@ && final(self).avail_ring@ == old(self).avail_ring@,
            final(self).avail_idx == old(self).avail_idx,
            final(self).free_head == old(self).free_head && final(self).free_count == old(self).free_count,
            final(self).num == old(self).num && final(self).io_base == old(self).io_base,
            final(self).queue_idx == old(self).queue_idx && final(self).base_phys == old(self).base_phys,
    {
        self.last_used_idx = self.last_used_idx.wrapping_add(1);
    }

    /// Gives the chain of descriptors from `head` back to the free list,
    /// each in turn put at its front (`push_free` of `desc_chain`, which a
    /// chain of more descriptors than the table holds cannot exceed), the
    /// count growing by one per descriptor (wrapping).
    pub fn free_desc(&mut self, head: u16)
        requires
            queue_wf(old(self)),
            head < old(self).num,
        ensures
            queue_wf(final(self)),
            ({
                let c = desc_chain(old(self).descs@, head as int, old(self).num as nat);
                &&& (final(self).descs@, final(self).free_head) == push_free(old(self).descs@, old(self).free_head, c)
                &&& final(self).free_count == (old(self).free_count + c.len()) % 0x1_0000
            }),
            final(self).avail_ring@ == old(self).avail_ring@ && final(self).avail_idx == old(self).avail_idx,
            final(self).last_used_idx == old(self).last_used_idx && final(self).num == old(self).num,
            final(self).io_base == old(self).io_base && final(self).queue_idx == old(self).queue_idx,
            final(self).base_phys == old(self).base_phys,
    {
        let ghost d0 = self.descs@;
        let ghost h0 = self.free_head;
        let ghost full = desc_chain(d0, head as int, self.num as nat);
        let mut chain: Vec<u16> = Vec::new();
        let mut idx = head;
        let mut fuel = self.num;
        let mut done = false;
        while !done && fuel > 0
            invariant
                queue_wf(self),
                self.descs@ == d0,
                idx < self.num,
                fuel <= self.num,
                forall|k: int| 0 <= k < chain@.len() ==> #[trigger] chain@[k] < self.num,
                done ==> chain@.map_values(|x: u16| x as int) == full,
                !done ==> chain@.map_values(|x: u16| x as int) + desc_chain(d0, idx as int, fuel as nat) == full,
                chain@.len() + fuel <= self.num,
            decreases fuel,
        {
            let ghost before = chain@.map_values(|x: u16| x as int);
            chain.push(idx);
            fuel = fuel - 1;
            let d = self.descs[idx as usize];
            proof {
                assert(chain@.map_values(|x: u16| x as int) =~= before.push(idx as int));
            }
            if d.flags & VRING_DESC_F_NEXT != 0 {
                proof {
                    assert(before + desc_chain(d0, idx as int, (fuel + 1) as nat) =~= before.push(idx as int) + desc_chain(d0, d.next as int, fuel as nat));
                }
                idx = d.next;
            } else {
                proof {
                    assert(before + desc_chain(d0, idx as int, (fuel + 1) as nat) =~= before.push(idx as int));
                }
                done = true;
            }
        }
        proof {
            if !done {
                assert(chain@.map_values(|x: u16| x as int) + desc_chain(d0, idx as int, 0) =~= chain@.map_values(|x: u16| x as int));
            }
        }
        let ghost c = chain@.map_values(|x: u16| x as int);
        let mut k: usize = 0;
        while k < chain.len()
            invariant
                queue_wf(self),
                c == full,
                c == chain@.map_values(|x: u16| x as int),
                forall|j: int| 0 <= j < chain@.len() ==> #[trigger] chain@[j] < self.num,
                chain@.len() <= self.num,
                k <= chain@.len(),
                (self.descs@, self.free_head) == push_free(d0, h0, c.take(k as int)),
                self.free_count == (old(self).free_count + k) % 0x1_0000,
                self.avail_ring@ == old(self).avail_ring@ && self.avail_idx == old(self).avail_idx,
                self.last_used_idx == old(self).last_used_idx && self.num == old(self).num,
                self.io_base == old(self).io_base && self.queue_idx == old(self).queue_idx,
                self.base_phys == old(self).base_phys,
            decreases chain@.len() - k,
        {
            let i = chain[k];
            let mut e = self.descs[i as usize];
            e.next = self.free_head;
            self.descs.set(i as usize, e);
            self.free_head = i;
            self.free_count = self.free_count.wrapping_add(1);
            proof {
                assert(c.take(k + 1).drop_last() =~= c.take(k as int));
                assert(c.take(k + 1).last() == i as int);
            }
            k += 1;
        }
        proof {
            assert(c.take(chain@.len() as int) =~= c);
        }
    }
}


/// The descriptor table, free-list head and free count after giving back
/// the chain from `head` (as `VirtQueue::free_desc` does).
pub open spec fn freed(t: (Seq<VringDesc>, u16, u16), head: int) -> (Seq<VringDesc>, u16, u16) {
    let c = desc_chain(t.0, head, t.0.len());
    let (d, h) = push_free(t.0, t.1, c);
    (d, h, ((t.2 + c.len()) % 0x1_0000) as u16)
}

/// The same after giving back, in turn, the chains of those `ids` that
/// lie in the table.
pub open spec fn freed_all(t: (Seq<VringDesc>, u16, u16), ids: Seq<u16>) -> (Seq<VringDesc>, u16, u16)
    decreases ids.len(),
{
    if ids.len() == 0 {
        t
    } else {
        let t1 = freed_all(t, ids.drop_last());
        if ids.last() < t1.0.len() {
            freed(t1, ids.last() as int)
        } else {
            t1
        }
    }
}

/// The free-list state of a queue: table, head, count.
pub open spec fn free_state(q: &VirtQueue) -> (Seq<VringDesc>, u16, u16) {
    (q.descs@, q.free_head, q.free_count)
}

/// The descriptor that sends `len` bytes of frame from the transmit buffer
/// at `buf`, behind the header.
pub open spec fn tx_desc(buf: u64, len: usize) -> VringDesc {
    VringDesc { addr: buf, len: (VIRTIO_NET_HDR_LEN + len) as u32, flags: 0, next: 0 }
}

/// Queue `q1` is `q0` after taking descriptor `d` from the front of its
/// free list (whose table and count are `t`), setting it to `desc` and
/// offering it to the device.
pub open spec fn took_and_offered(q0: &VirtQueue, t: (Seq<VringDesc>, u16, u16), q1: &VirtQueue, desc: VringDesc) -> bool {
    let d = t.1 as int;
    &&& q1.descs@ == t.0.update(d, desc)
    &&& q1.free_head == t.0[d].next
    &&& q1.free_count == t.2 - 1
    &&& q1.avail_ring@ == q0.avail_ring@.update((q0.avail_idx % q0.num) as int, t.1)
    &&& q1.avail_idx == (q0.avail_idx + 1) % 0x1_0000
}

/// The queue's identity and layout are unchanged.
pub open spec fn same_queue(a: &VirtQueue, b: &VirtQueue) -> bool {
    &&& a.io_base == b.io_base && a.queue_idx == b.queue_idx && a.base_phys == b.base_phys && a.num == b.num
}

/// A VirtIO network device as its driver keeps it: the port base, the MAC
/// address, the receive and transmit queues, the physical addresses of the
/// receive buffers posted and of the transmit buffer, the counters, and
/// whether it is ready.
pub struct VirtioNetDevice {
    pub io_base: u16,
    pub mac: MacAddress,
    pub rx_queue: VirtQueue,
    pub tx_queue: VirtQueue,
    pub rx_bufs_phys: Vec<u64>,
    pub tx_buf_phys: u64,
    pub tx_packets: u64,
    pub rx_packets: u64,
    pub tx_bytes: u64,
    pub rx_bytes: u64,
    pub initialized: bool,
}

/// Both queues are consistent.
pub open spec fn device_wf(d: &VirtioNetDevice) -> bool {
    queue_wf(&d.rx_queue) && queue_wf(&d.tx_queue)
}

impl VirtioNetDevice {
    /// A device at `io_base` with address `mac`, its two queues set up and
    /// its transmit buffer at `tx_buf_phys`; no receive buffer yet, counters
    /// at zero, not ready.
    pub fn new(io_base: u16, mac: MacAddress, rx_queue: VirtQueue, tx_queue: VirtQueue, tx_buf_phys: u64) -> (d: Self)
        requires
            queue_wf(&rx_queue),
            queue_wf(&tx_queue),
        ensures
            device_wf(&d),
            d.io_base == io_base && d.mac == mac && d.tx_buf_phys == tx_buf_phys,
            d.rx_queue == rx_queue && d.tx_queue == tx_queue,
            d.rx_bufs_phys@.len() == 0,
            d.tx_packets == 0 && d.rx_packets == 0 && d.tx_bytes == 0 && d.rx_bytes == 0,
            !d.initialized,
    {
        VirtioNetDevice {
            io_base,
            mac,
            rx_queue,
            tx_queue,
            rx_bufs_phys: Vec::new(),
            tx_buf_phys,
            tx_packets: 0,
            rx_packets: 0,
            tx_bytes: 0,
            rx_bytes: 0,
            initialized: false,
        }
    }

    /// Posts the receive buffer at `phys`: a free descriptor describes it
    /// (`RX_BUF_SIZE` bytes, written by the device) and is offered to the
    /// device. Returns `false`, changing nothing, when no descriptor is free.
    pub fn post_rx_buffer(&mut self, phys: u64) -> (ok: bool)
        requires
            device_wf(old(self)),
        ensures
            device_wf(final(self)),
            ok == (old(self).rx_queue.free_count > 0),
            !ok ==> final(self).rx_queue.descs@ == old(self).rx_queue.descs@
                && final(self).rx_queue.avail_ring@ == old(self).rx_queue.avail_ring@
                && final(self).rx_queue.avail_idx == old(self).rx_queue.avail_idx
                && final(self).rx_queue.free_head == old(self).rx_queue.free_head
                && final(self).rx_queue.free_count == old(self).rx_queue.free_count
                && final(self).rx_bufs_phys@ == old(self).rx_bufs_phys@,
            ok ==> took_and_offered(
                &old(self).rx_queue,
                free_state(&old(self).rx_queue),
                &final(self).rx_queue,
                VringDesc { addr: phys, len: RX_BUF_SIZE as u32, flags: VRING_DESC_F_WRITE, next: 0 },
            ) && final(self).rx_bufs_phys@ == old(self).rx_bufs_phys@.push(phys),
            final(self).rx_queue.last_used_idx == old(self).rx_queue.last_used_idx,
            same_queue(&final(self).rx_queue, &old(self).rx_queue),
            final(self).tx_queue == old(self).tx_queue,
            final(self).tx_packets == old(self).tx_packets && final(self).rx_packets == old(self).rx_packets,
            final(self).tx_bytes == old(self).tx_bytes && final(self).rx_bytes == old(self).rx_bytes,
            final(self).initialized == old(self).initialized && final(self).tx_buf_phys == old(self).tx_buf_phys,
    {
        let d = match self.rx_queue.alloc_desc() {
            Some(d) => d,
            None => return false,
        };
        self.rx_queue.set_desc(d, VringDesc { addr: phys, len: RX_BUF_SIZE as u32, flags: VRING_DESC_F_WRITE, next: 0 });
        self.rx_queue.submit(d);
        self.rx_bufs_phys.push(phys);
        true
    }

    /// The device is ready to send and receive.
    pub fn mark_ready(&mut self)
        ensures
            final(self).initialized,
            final(self).rx_queue == old(self).rx_queue && final(self).tx_queue == old(self).tx_queue,
            final(self).rx_bufs_phys@ == old(self).rx_bufs_phys@ && final(self).tx_buf_phys == old(self).tx_buf_phys,
            final(self).tx_packets == old(self).tx_packets && final(self).rx_packets == old(self).rx_packets,
            final(self).tx_bytes == old(self).tx_bytes && final(self).rx_bytes == old(self).rx_bytes,
    {
        self.initialized = true;
    }

    /// Takes back the transmit descriptors the device has completed, whose
    /// identifiers `done` it lists in its used ring from the driver's last
    /// position on: each chain in the table is freed in turn (`freed_all`),
    /// and the position moves past them.
    pub fn reclaim_tx(&mut self, done: &[u16])
        requires
            device_wf(old(self)),
        ensures
            device_wf(final(self)),
            free_state(&final(self).tx_queue) == freed_all(free_state(&old(self).tx_queue), done@),
            final(self).tx_queue.last_used_idx == (old(self).tx_queue.last_used_idx + done@.len()) % 0x1_0000,
            final(self).tx_queue.avail_ring@ == old(self).tx_queue.avail_ring@,
            final(self).tx_queue.avail_idx == old(self).tx_queue.avail_idx,
            same_queue(&final(self).tx_queue, &old(self).tx_queue),
            final(self).rx_queue == old(self).rx_queue,
            final(self).rx_bufs_phys@ == old(self).rx_bufs_phys@ && final(self).tx_buf_phys == old(self).tx_buf_phys,
            final(self).tx_packets == old(self).tx_packets && final(self).rx_packets == old(self).rx_packets,
            final(self).tx_bytes == old(self).tx_bytes && final(self).rx_bytes == old(self).rx_bytes,
            final(self).initialized == old(self).initialized,
    {
        let mut k: usize = 0;
        while k < done.len()
            invariant
                k <= done@.len(),
                device_wf(self),
                free_state(&self.tx_queue) == freed_all(free_state(&old(self).tx_queue), done@.take(k as int)),
                self.tx_queue.last_used_idx == (old(self).tx_queue.last_used_idx + k) % 0x1_0000,
                self.tx_queue.avail_ring@ == old(self).tx_queue.avail_ring@,
                self.tx_queue.avail_idx == old(self).tx_queue.avail_idx,
                same_queue(&self.tx_queue, &old(self).tx_queue),
                self.rx_queue == old(self).rx_queue,
                self.rx_bufs_phys@ == old(self).rx_bufs_phys@ && self.tx_buf_phys == old(self).tx_buf_phys,
                self.tx_packets == old(self).tx_packets && self.rx_packets == old(self).rx_packets,
                self.tx_bytes == old(self).tx_bytes && self.rx_bytes == old(self).rx_bytes,
                self.initialized == old(self).initialized,
            decreases done@.len() - k,
        {
            let id = done[k];
            proof {
                assert(done@.take(k + 1).drop_last() =~= done@.take(k as int));
                assert(done@.take(k + 1).last() == id);
            }
            if id < self.tx_queue.num {
                self.tx_queue.free_desc(id);
            }
            self.tx_queue.advance_used();
            k += 1;
        }
        proof {
            assert(done@.take(done@.len() as int) =~= done@);
        }
    }

    /// Sends a frame of `len` bytes that the caller puts in the transmit
    /// buffer behind a zeroed header: `None` when the device is not ready or
    /// the frame does not fit (`tx_accepts`); otherwise a free descriptor,
    /// after taking back the completed ones `done` if none is free (`None`
    /// if still none), describes the buffer and is offered to the device,
    /// and the counters grow (wrapping). The caller then notifies the device.
    pub fn transmit(&mut self, len: usize, done: &[u16]) -> (r: Option<u16>)
        requires
            device_wf(old(self)),
        ensures
            device_wf(final(self)),
            ({
                let o = old(self);
                let q0 = o.tx_queue;
                let q1 = final(self).tx_queue;
                let t = freed_all(free_state(&q0), done@);
                let desc = tx_desc(o.tx_buf_phys, len);
                let sent = final(self).tx_packets == wrapping_inc(o.tx_packets)
                    && final(self).tx_bytes == wrapping_sum(o.tx_bytes, len as int);
                let unsent = final(self).tx_packets == o.tx_packets && final(self).tx_bytes == o.tx_bytes;
                &&& !tx_accepts_spec(o.initialized, len) ==> r is None && q1 == q0 && unsent
                &&& tx_accepts_spec(o.initialized, len) && q0.free_count > 0 ==> r == Some(q0.free_head)
                    && took_and_offered(&q0, free_state(&q0), &q1, desc) && q1.last_used_idx == q0.last_used_idx && sent
                &&& tx_accepts_spec(o.initialized, len) && q0.free_count == 0 && t.2 == 0 ==> r is None
                    && free_state(&q1) == t && q1.avail_ring@ == q0.avail_ring@ && q1.avail_idx == q0.avail_idx
                    && q1.last_used_idx == (q0.last_used_idx + done@.len()) % 0x1_0000 && unsent
                &&& tx_accepts_spec(o.initialized, len) && q0.free_count == 0 && t.2 > 0 ==> r == Some(t.1)
                    && took_and_offered(&q0, t, &q1, desc) && q1.last_used_idx == (q0.last_used_idx + done@.len()) % 0x1_0000
                    && sent
            }),
            same_queue(&final(self).tx_queue, &old(self).tx_queue),
            final(self).rx_queue == old(self).rx_queue,
            final(self).rx_bufs_phys@ == old(self).rx_bufs_phys@ && final(self).tx_buf_phys == old(self).tx_buf_phys,
            final(self).rx_packets == old(self).rx_packets && final(self).rx_bytes == old(self).rx_bytes,
            final(self).initialized == old(self).initialized,
    {
        if !tx_accepts(self.initialized, len) {
            return None;
        }
        let d = match self.tx_queue.alloc_desc() {
            Some(d) => d,
            None => {
                self.reclaim_tx(done);
                match self.tx_queue.alloc_desc() {
                    Some(d) => d,
                    None => return None,
                }
            },
        };
        let desc = VringDesc { addr: self.tx_buf_phys, len: (VIRTIO_NET_HDR_LEN + len) as u32, flags: 0, next: 0 };
        self.tx_queue.set_desc(d, desc);
        self.tx_queue.submit(d);
        self.tx_packets = inc(self.tx_packets);
        self.tx_bytes = add_len(self.tx_bytes, len);
        Some(d)
    }

    /// Takes a received frame: with the device's used index at `used_idx`
    /// and the next used entry naming descriptor `id` (truncated to 16
    /// bits) with `total_len` bytes, header included. `None` when nothing
    /// new arrived; when only a header (or less) arrived, or `id` lies
    /// outside the table, the entry is passed over. Otherwise the buffer's
    /// address and the frame's length are returned (the frame follows the
    /// header there), the descriptor is reset and offered again, the entry
    /// is passed, and the counters grow (wrapping).
    pub fn receive(&mut self, used_idx: u16, id: u32, total_len: u32) -> (r: Option<(u64, usize)>)
        requires
            device_wf(old(self)),
        ensures
            device_wf(final(self)),
            ({
                let q0 = old(self).rx_queue;
                let q1 = final(self).rx_queue;
                let i = (id % 0x1_0000) as int;
                let nothing = used_idx == q0.last_used_idx;
                let skip = !nothing && (total_len <= VIRTIO_NET_HDR_LEN || i >= q0.num);
                &&& nothing ==> r is None && q1 == q0
                &&& skip ==> r is None && q1.descs@ == q0.descs@ && q1.avail_ring@ == q0.avail_ring@
                    && q1.avail_idx == q0.avail_idx && q1.free_head == q0.free_head && q1.free_count == q0.free_count
                    && q1.last_used_idx == (q0.last_used_idx + 1) % 0x1_0000
                &&& (nothing || skip) ==> final(self).rx_packets == old(self).rx_packets
                    && final(self).rx_bytes == old(self).rx_bytes
                &&& !nothing && !skip ==> r == Some((q0.descs@[i].addr, (total_len - VIRTIO_NET_HDR_LEN) as usize))
                    && q1.descs@ == q0.descs@.update(i, VringDesc { len: RX_BUF_SIZE as u32, flags: VRING_DESC_F_WRITE, ..q0.descs@[i] })
                    && q1.avail_ring@ == q0.avail_ring@.update((q0.avail_idx % q0.num) as int, i as u16)
                    && q1.avail_idx == (q0.avail_idx + 1) % 0x1_0000
                    && q1.free_head == q0.free_head && q1.free_count == q0.free_count
                    && q1.last_used_idx == (q0.last_used_idx + 1) % 0x1_0000
                    && final(self).rx_packets == wrapping_inc(old(self).rx_packets)
                    && final(self).rx_bytes == wrapping_sum(old(self).rx_bytes, total_len - VIRTIO_NET_HDR_LEN)
            }),
            same_queue(&final(self).rx_queue, &old(self).rx_queue),
            final(self).tx_queue == old(self).tx_queue,
            final(self).rx_bufs_phys@ == old(self).rx_bufs_phys@ && final(self).tx_buf_phys == old(self).tx_buf_phys,
            final(self).tx_packets == old(self).tx_packets && final(self).tx_bytes == old(self).tx_bytes,
            final(self).initialized == old(self).initialized,
    {
        if self.rx_queue.pending_used(used_idx).is_none() {
            return None;
        }
        let i = (id % 0x1_0000) as u16;
        if total_len as usize <= VIRTIO_NET_HDR_LEN || i >= self.rx_queue.num {
            self.rx_queue.advance_used();
            return None;
        }
        let d = self.rx_queue.descs[i as usize];
        self.rx_queue.set_desc(i, VringDesc { len: RX_BUF_SIZE as u32, flags: VRING_DESC_F_WRITE, ..d });
        self.rx_queue.submit(i);
        self.rx_queue.advance_used();
        let frame_len = total_len as usize - VIRTIO_NET_HDR_LEN;
        self.rx_packets = inc(self.rx_packets);
        self.rx_bytes = add_len(self.rx_bytes, frame_len);
        Some((d.addr, frame_len))
    }
}

} // verus!
