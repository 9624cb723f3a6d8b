//! PCI configuration space: addresses, field decoding and the bus scan.

use vstd::prelude::*;

verus! {

/// A function found on the PCI bus.
#[derive(Debug, Clone, Copy)]
pub struct PciDevice {
    pub bus: u8,
    pub device: u8,
    pub function: u8,
    pub vendor_id: u16,
    pub device_id: u16,
    pub class_code: u8,
    pub subclass: u8,
    pub prog_if: u8,
}

/// The configuration-space address of register `offset` (dword aligned) of
/// `bus:device.function`, with the enable bit set.
pub open spec fn config_addr(bus: u8, device: u8, function: u8, offset: u8) -> u32 {
    0x8000_0000u32 | ((bus as u32) << 16u32) | (((device & 0x1F) as u32) << 11u32) | (((function & 0x07) as u32) << 8u32)
        | ((offset & 0xFC) as u32)
}

/// The address written to the configuration port to reach a register.
pub fn config_address(bus: u8, device: u8, function: u8, offset: u8) -> (a: u32)
    ensures
        a == config_addr(bus, device, function, offset),
{
    0x8000_0000u32 | ((bus as u32) << 16u32) | (((device & 0x1F) as u32) << 11u32) | (((function & 0x07) as u32) << 8u32)
        | ((offset & 0xFC) as u32)
}

/// Reads of the configuration space are stable: an address always reads the same.
pub open spec fn stable<F: Fn(u32) -> u32>(read: F) -> bool {
    &&& forall|a: u32| read.requires((a,))
    &&& forall|a: u32, x: u32, y: u32| #[trigger] read.ensures((a,), x) && #[trigger] read.ensures((a,), y) ==> x == y
}

/// Vendor (low half) and device (high half) identifiers of register 0.
pub open spec fn vendor_device_of(data: u32) -> (u16, u16) {
    ((data & 0xFFFF) as u16, ((data >> 16u32) & 0xFFFF) as u16)
}

/// Class, subclass and programming interface (bytes 3, 2, 1) of register 8.
pub open spec fn class_of(data: u32) -> (u8, u8, u8) {
    (((data >> 24u32) & 0xFF) as u8, ((data >> 16u32) & 0xFF) as u8, ((data >> 8u32) & 0xFF) as u8)
}

/// Vendor and device identifiers of `bus:device.function`, through `read`
/// (which reads the dword at a configuration address).
pub fn read_vendor_device<F: Fn(u32) -> u32>(read: &F, bus: u8, device: u8, function: u8) -> (r: (u16, u16))
    requires
        stable(*read),
    ensures
        exists|data: u32| read.ensures((config_addr(bus, device, function, 0),), data) && r == vendor_device_of(data),
{
    let addr = config_address(bus, device, function, 0x00);
    let data = read(addr);
    let r = ((data & 0xFFFF) as u16, ((data >> 16u32) & 0xFFFF) as u16);
    assert(read.ensures((config_addr(bus, device, function, 0),), data) && r == vendor_device_of(data));
    r
}

/// Class, subclass and programming interface of `bus:device.function`.
pub fn read_class<F: Fn(u32) -> u32>(read: &F, bus: u8, device: u8, function: u8) -> (r: (u8, u8, u8))
    requires
        stable(*read),
    ensures
        exists|data: u32| read.ensures((config_addr(bus, device, function, 8),), data) && r == class_of(data),
{
    let addr = config_address(bus, device, function, 0x08);
    let data = read(addr);
    let r = (((data >> 24u32) & 0xFF) as u8, ((data >> 16u32) & 0xFF) as u8, ((data >> 8u32) & 0xFF) as u8);
    assert(read.ensures((config_addr(bus, device, function, 8),), data) && r == class_of(data));
    r
}

/// Base address register `bar_index` (0 to 5) of `bus:device.function`; 0
/// for any other index.
pub fn read_bar<F: Fn(u32) -> u32>(read: &F, bus: u8, device: u8, function: u8, bar_index: u8) -> (r: u32)
    requires
        stable(*read),
    ensures
        bar_index > 5 ==> r == 0,
        bar_index <= 5 ==> read.ensures((config_addr(bus, device, function, (0x10 + bar_index * 4) as u8),), r),
{
    if bar_index > 5 {
        return 0;
    }
    let offset = 0x10 + bar_index * 4;
    read(config_address(bus, device, function, offset))
}

/// Device `n` of bus 0 (function 0) is present, of class `target`: its
/// register 0 reads `v` and its register 8 reads `c`.
pub open spec fn matches_class(v: u32, c: u32, target: u8) -> bool {
    vendor_device_of(v).0 != 0xFFFF && class_of(c).0 == target
}

/// The functions 0 of bus 0 whose class is `target`, by device number.
pub fn scan_for_class<F: Fn(u32) -> u32>(read: &F, target_class: u8) -> (found: Vec<PciDevice>)
    requires
        stable(*read),
    ensures
        forall|i: int, j: int| 0 <= i < j < found@.len() ==> found@[i].device < found@[j].device,
        forall|i: int| 0 <= i < found@.len() ==> {
            let d = #[trigger] found@[i];
            &&& d.bus == 0 && d.function == 0 && d.device < 32
            &&& exists|v: u32, c: u32| read.ensures((config_addr(0, d.device, 0, 0),), v) && read.ensures((config_addr(0, d.device, 0, 8),), c)
                && matches_class(v, c, target_class) && (d.vendor_id, d.device_id) == vendor_device_of(v)
                && (d.class_code, d.subclass, d.prog_if) == class_of(c)
        },
        forall|n: u8, v: u32, c: u32| n < 32 && #[trigger] read.ensures((config_addr(0, n, 0, 0),), v) && #[trigger] read.ensures((config_addr(0, n, 0, 8),), c)
            && matches_class(v, c, target_class) ==> exists|i: int| 0 <= i < found@.len() && found@[i].device == n,
{
    let mut found: Vec<PciDevice> = Vec::new();
    let mut n: u8 = 0;
    while n < 32
        invariant
            n <= 32,
            stable(*read),
            forall|i: int, j: int| 0 <= i < j < found@.len() ==> found@[i].device < found@[j].device,
            forall|i: int| 0 <= i < found@.len() ==> (#[trigger] found@[i]).device < n,
            forall|i: int| 0 <= i < found@.len() ==> {
                let d = #[trigger] found@[i];
                &&& d.bus == 0 && d.function == 0 && d.device < 32
                &&& exists|v: u32, c: u32| read.ensures((config_addr(0, d.device, 0, 0),), v) && read.ensures((config_addr(0, d.device, 0, 8),), c)
                    && matches_class(v, c, target_class) && (d.vendor_id, d.device_id) == vendor_device_of(v)
                    && (d.class_code, d.subclass, d.prog_if) == class_of(c)
            },
            forall|m: u8, v: u32, c: u32| m < n && #[trigger] read.ensures((config_addr(0, m, 0, 0),), v) && #[trigger] read.ensures((config_addr(0, m, 0, 8),), c)
                && matches_class(v, c, target_class) ==> exists|i: int| 0 <= i < found@.len() && found@[i].device == m,
        decreases 32 - n,
    {
        let (vendor_id, device_id) = read_vendor_device(read, 0, n, 0);
        if vendor_id != 0xFFFF {
            let (class_code, subclass, prog_if) = read_class(read, 0, n, 0);
            if class_code == target_class {
                let ghost before = found@;
                let dev = PciDevice { bus: 0, device: n, function: 0, vendor_id, device_id, class_code, subclass, prog_if };
                proof {
                    let v0 = choose|v0: u32| read.ensures((config_addr(0, n, 0, 0),), v0) && (vendor_id, device_id) == vendor_device_of(v0);
                    let c0 = choose|c0: u32| read.ensures((config_addr(0, n, 0, 8),), c0) && (class_code, subclass, prog_if) == class_of(c0);
                    assert(read.ensures((config_addr(0, dev.device, 0, 0),), v0) && read.ensures((config_addr(0, dev.device, 0, 8),), c0)
                        && matches_class(v0, c0, target_class) && (dev.vendor_id, dev.device_id) == vendor_device_of(v0)
                        && (dev.class_code, dev.subclass, dev.prog_if) == class_of(c0));
                }
                found.push(dev);
                proof {
                    assert(found@[before.len() as int] == dev);
                    assert forall|m: u8, v: u32, c: u32| m < n + 1 && #[trigger] read.ensures((config_addr(0, m, 0, 0),), v) && #[trigger] read.ensures((config_addr(0, m, 0, 8),), c)
                        && matches_class(v, c, target_class) implies exists|i: int| 0 <= i < found@.len() && found@[i].device == m by {
                        if m < n {
                            let i = choose|i: int| 0 <= i < before.len() && before[i].device == m;
                            assert(found@[i] == before[i]);
                        } else {
                            assert(found@[before.len() as int].device == m);
                        }
                    }
                }
            } else {
                proof {
                    assert forall|m: u8, v: u32, c: u32| m < n + 1 && #[trigger] read.ensures((config_addr(0, m, 0, 0),), v) && #[trigger] read.ensures((config_addr(0, m, 0, 8),), c)
                        && matches_class(v, c, target_class) implies exists|i: int| 0 <= i < found@.len() && found@[i].device == m by {
                        if m == n {
                            let c0 = choose|c0: u32| read.ensures((config_addr(0, n, 0, 8),), c0) && (class_code, subclass, prog_if) == class_of(c0);
                            assert(c0 == c);
                        }
                    }
                }
            }
        } else {
            proof {
                assert forall|m: u8, v: u32, c: u32| m < n + 1 && #[trigger] read.ensures((config_addr(0, m, 0, 0),), v) && #[trigger] read.ensures((config_addr(0, m, 0, 8),), c)
                    && matches_class(v, c, target_class) implies exists|i: int| 0 <= i < found@.len() && found@[i].device == m by {
                    if m == n {
                        let v0 = choose|v0: u32| read.ensures((config_addr(0, n, 0, 0),), v0) && (vendor_id, device_id) == vendor_device_of(v0);
                        assert(v0 == v);
                    }
                }
            }
        }
        n += 1;
    }
    found
}

} // verus!
