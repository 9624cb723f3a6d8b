//! The display controller and its video-memory allocator.

pub mod allocator;

use vstd::prelude::*;
use crate::gpu::allocator::VramAllocator;
use crate::arch::pci::{PciDevice, config_addr, matches_class, read_bar, scan_for_class, stable, vendor_device_of, class_of};

verus! {

/// PCI class of display controllers.
pub const GPU_CLASS: u8 = 0x03;
/// Video memory assumed for every device (16 MiB).
pub const DEFAULT_VRAM_SIZE: usize = 16 * 1024 * 1024;

/// The display controller in use.
#[derive(Debug, Clone, Copy)]
pub struct GpuDevice {
    pub vendor_id: u16,
    pub device_id: u16,
    pub bar0: u32,
    pub bar0_address: u64,
    pub vram_size: usize,
}

/// The display controller found at boot and its video-memory allocator.
pub struct GpuState {
    pub info: Option<GpuDevice>,
    pub vram: Option<VramAllocator>,
}

impl GpuState {
    /// No device yet.
    pub fn new() -> (g: Self)
        ensures
            g.info is None && g.vram is None,
    {
        GpuState { info: None, vram: None }
    }
}

/// The stub device used when no display controller is found.
pub open spec fn stub_device() -> GpuDevice {
    GpuDevice { vendor_id: 0x1234, device_id: 0x1111, bar0: 0xFD00_0000, bar0_address: 0xFD00_0000, vram_size: DEFAULT_VRAM_SIZE }
}

/// `g` is set up for `found` (a device with its raw BAR0, or none): the
/// device, whose memory address is BAR0 without the low flag bits, or the
/// stub, and an empty allocator over its video memory.
pub open spec fn configured(g: GpuState, found: Option<(PciDevice, u32)>) -> bool {
    &&& found is None ==> g.info == Some(stub_device())
    &&& found matches Some((dev, bar0)) ==> g.info == Some(GpuDevice {
        vendor_id: dev.vendor_id,
        device_id: dev.device_id,
        bar0: bar0,
        bar0_address: (bar0 - bar0 % 16) as u64,
        vram_size: DEFAULT_VRAM_SIZE,
    })
    &&& g.vram matches Some(v) && v.spec_base() == g.info->0.bar0_address && v.spec_capacity() == DEFAULT_VRAM_SIZE
        && v.spec_used() == 0 && v.spec_count() == 0
}

/// A display controller answers as function 0 of device `n` on bus 0.
pub open spec fn display_at<F: Fn(u32) -> u32>(read: F, n: u8) -> bool {
    exists|v: u32, c: u32|
        #![trigger read.ensures((config_addr(0, n, 0, 0),), v), read.ensures((config_addr(0, n, 0, 8),), c)]
        read.ensures((config_addr(0, n, 0, 0),), v) && read.ensures((config_addr(0, n, 0, 8),), c) && matches_class(v, c, GPU_CLASS)
}

/// `found` is what the bus scan gives through `read`: none when no device
/// holds a display controller, else the lowest such device with its
/// identifiers and raw BAR0.
pub open spec fn first_display<F: Fn(u32) -> u32>(read: F, found: Option<(PciDevice, u32)>) -> bool {
    match found {
        None => forall|n: u8| n < 32 ==> !#[trigger] display_at(read, n),
        Some((d, b)) => {
            &&& d.bus == 0 && d.function == 0 && d.device < 32
            &&& exists|v: u32, c: u32|
                #![trigger read.ensures((config_addr(0, d.device, 0, 0),), v), read.ensures((config_addr(0, d.device, 0, 8),), c)]
                read.ensures((config_addr(0, d.device, 0, 0),), v) && read.ensures((config_addr(0, d.device, 0, 8),), c)
                && matches_class(v, c, GPU_CLASS) && (d.vendor_id, d.device_id) == vendor_device_of(v)
                && (d.class_code, d.subclass, d.prog_if) == class_of(c)
            &&& forall|m: u8| m < d.device ==> !#[trigger] display_at(read, m)
            &&& read.ensures((config_addr(0, d.device, 0, 0x10),), b)
        },
    }
}

/// Sets up the display controller from the PCI configuration space, read
/// through `read`: the first display device of bus 0 with its BAR0, or a
/// stub device at 0xFD000000 when there is none.
pub fn init<F: Fn(u32) -> u32>(gpu: &mut GpuState, read: &F)
    requires
        stable(*read),
    ensures
        exists|found: Option<(PciDevice, u32)>| first_display(*read, found) && configured(*final(gpu), found),
{
    let devices = scan_for_class(read, GPU_CLASS);
    if devices.len() == 0 {
        proof {
            assert forall|n: u8| n < 32 implies !#[trigger] display_at(*read, n) by {
                if display_at(*read, n) {
                    let (v, c) = choose|v: u32, c: u32| read.ensures((config_addr(0, n, 0, 0),), v) && read.ensures((config_addr(0, n, 0, 8),), c) && matches_class(v, c, GPU_CLASS);
                    assert(read.ensures((config_addr(0, n, 0, 0),), v) && read.ensures((config_addr(0, n, 0, 8),), c));
                }
            }
        }
        configure(gpu, None);
        assert(first_display(*read, None::<(PciDevice, u32)>));
    } else {
        let dev = devices[0];
        let bar0 = read_bar(read, dev.bus, dev.device, dev.function, 0);
        proof {
            assert((0x10 + 0u8 * 4) as u8 == 0x10u8);
            assert forall|m: u8| m < dev.device implies !#[trigger] display_at(*read, m) by {
                if display_at(*read, m) {
                    let (v, c) = choose|v: u32, c: u32| read.ensures((config_addr(0, m, 0, 0),), v) && read.ensures((config_addr(0, m, 0, 8),), c) && matches_class(v, c, GPU_CLASS);
                    assert(read.ensures((config_addr(0, m, 0, 0),), v) && read.ensures((config_addr(0, m, 0, 8),), c));
                    let i = choose|i: int| 0 <= i < devices@.len() && devices@[i].device == m;
                    if i > 0 {
                        assert(devices@[0].device < devices@[i].device);
                    }
                }
            }
            assert(devices@[0] == dev);
        }
        configure(gpu, Some((dev, bar0)));
        assert(first_display(*read, Some((dev, bar0))));
    }
}

/// Sets up the display controller for `found` (the first display device
/// found on the PCI bus, with its raw BAR0), or a stub device at 0xFD000000
/// when none was (`configured`).
pub fn configure(gpu: &mut GpuState, found: Option<(PciDevice, u32)>)
    ensures
        configured(*final(gpu), found),
{
    let device = match found {
        None => GpuDevice {
            vendor_id: 0x1234,
            device_id: 0x1111,
            bar0: 0xFD00_0000,
            bar0_address: 0xFD00_0000,
            vram_size: DEFAULT_VRAM_SIZE,
        },
        Some((dev, bar0_raw)) => {
            let masked = bar0_raw & 0xFFFF_FFF0;
            assert(masked == bar0_raw - bar0_raw % 16) by (bit_vector)
                requires
                    masked == bar0_raw & 0xFFFF_FFF0,
            ;
            GpuDevice {
                vendor_id: dev.vendor_id,
                device_id: dev.device_id,
                bar0: bar0_raw,
                bar0_address: masked as u64,
                vram_size: DEFAULT_VRAM_SIZE,
            }
        },
    };
    let valloc = VramAllocator::new(device.bar0_address, device.vram_size);
    gpu.info = Some(device);
    gpu.vram = Some(valloc);
}

/// Allocates video memory (`VramAllocator::allocate`); `None` before `init`.
pub fn vram_alloc(gpu: &mut GpuState, size: usize) -> (r: Option<u64>)
    requires
        size + 0xFFF <= usize::MAX,
        old(gpu).vram matches Some(v) ==> v.spec_count() < u32::MAX,
    ensures
        old(gpu).vram is None ==> r is None && final(gpu).vram is None,
        final(gpu).info == old(gpu).info,
        old(gpu).vram matches Some(v) ==> (final(gpu).vram matches Some(n) && ({
            let need = crate::gpu::allocator::page_rounded(size as int);
            &&& v.spec_used() + need > v.spec_capacity() ==> r is None && n == v
            &&& v.spec_used() + need <= v.spec_capacity() ==> r == Some((v.spec_base() + v.spec_used()) as u64)
                && n.spec_used() == v.spec_used() + need && n.spec_count() == v.spec_count() + 1
                && n.spec_base() == v.spec_base() && n.spec_capacity() == v.spec_capacity()
        })),
{
    match &mut gpu.vram {
        Some(v) => v.allocate(size),
        None => None,
    }
}

/// The display controller, once set up.
pub fn device_info(gpu: &GpuState) -> (r: Option<GpuDevice>)
    ensures
        r == gpu.info,
{
    gpu.info
}

/// Base, bytes used, bytes free and allocation count of video memory.
pub fn vram_metrics(gpu: &GpuState) -> (r: Option<(u64, usize, usize, u32)>)
    ensures
        gpu.vram is None ==> r is None,
        gpu.vram matches Some(v) ==> r == Some((v.spec_base(), v.spec_used(), (v.spec_capacity() - v.spec_used()) as usize, v.spec_count())),
{
    match &gpu.vram {
        Some(v) => Some((v.base(), v.used(), v.free(), v.alloc_count())),
        None => None,
    }
}

} // verus!
