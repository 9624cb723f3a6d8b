use aetherion_kernel::memory::paging::{identity_region_frames, phys_to_virt};
use aetherion_kernel::memory::{usable_regions, MemoryError, MAX_BOOT_REGIONS};
use aetherion_kernel::arch::context::{TaskContext, RFLAGS_IF};
use aetherion_kernel::arch::interrupts::{cycles_to_us, double_fault_ist_index, InterruptIndex, PIC1_OFFSET, PIC2_OFFSET};
use aetherion_kernel::arch::pci::{config_address, read_bar, read_class, read_vendor_device, scan_for_class};
use aetherion_kernel::decimal::push_decimal;
use aetherion_kernel::drivers::sdr::{IqSample, RtlSdr, SdrDevice, REALTEK_VENDOR};
use aetherion_kernel::drivers::usb::UsbDevice;
use aetherion_kernel::elf::{
    alloc_elf_frame, check_segment, elf_flags_to_page_flags, init_frame_pool, load_elf, page_copy, parse_header,
    parse_program_headers, pool_stats, segment_pages, ElfError, ElfLoader, Elf64Phdr, PF_W, PF_X,
};
use aetherion_kernel::fs::manifest::DeviceManifest;
use aetherion_kernel::fs::vfs::{file_write, init as vfs_init, mount_device, Vfs};
use aetherion_kernel::gdt::Gdt;
use aetherion_kernel::gpu::allocator::VramAllocator;
use aetherion_kernel::gpu::{configure, device_info, vram_alloc, vram_metrics, GpuState, DEFAULT_VRAM_SIZE};
use aetherion_kernel::ipc::bus::{capacity, consume, is_empty, len, publish, CognitiveBus};
use aetherion_kernel::ipc::{BusError, ComponentId, IntentMessage, Priority};
use aetherion_kernel::memory::frame::FrameAllocator;
use aetherion_kernel::memory::resource_tag::{AllocationType, ResourceTag};
use aetherion_kernel::process::{get_pml4_phys, get_role, spawn_userspace, with_process, ProcessTable};
use aetherion_kernel::syscall::{sys_exec_elf, ExecAction, EFAULT, ENOENT};
use aetherion_kernel::process::task::AgentRole;
use aetherion_kernel::scheduler::{metrics, Scheduler};

#[test]
fn test_gdt_creation() {
    let gdt = Gdt::new();
    assert_eq!(gdt.entries.len(), 5);
}

#[test]
fn gdt_descriptors() {
    let gdt = Gdt::new();
    assert_eq!(gdt.entries[0].access, 0);
    assert_eq!(gdt.entries[1].access, 0x9A);
    assert_eq!(gdt.entries[4].access, 0xFA);
    assert_eq!(gdt.entries[1].limit_low, 0xFFFF);
    assert_eq!(gdt.entries[1].granularity, 0xAF);
    assert_eq!(gdt.entries[2].granularity, 0xCF);
}

fn msg(priority: Priority, timestamp: u64) -> IntentMessage {
    IntentMessage::new(ComponentId::Filesystem, ComponentId::Orchestrator, 1, priority, 0, timestamp)
}

#[test]
fn bus_priority_order() {
    let mut bus = CognitiveBus::new();
    assert_eq!(consume(&mut bus).unwrap_err(), BusError::QueueEmpty);
    assert!(publish(&mut bus, msg(Priority::Low, 1)).is_ok());
    assert!(publish(&mut bus, msg(Priority::Critical, 2)).is_ok());
    assert!(publish(&mut bus, msg(Priority::Normal, 3)).is_ok());
    assert!(publish(&mut bus, msg(Priority::High, 4)).is_ok());
    assert!(publish(&mut bus, msg(Priority::High, 0)).is_ok());
    assert_eq!(len(&bus), 5);
    let order: Vec<(Priority, u64)> = (0..5).map(|_| {
        let m = consume(&mut bus).unwrap();
        (m.priority, m.timestamp)
    }).collect();
    assert_eq!(order[0], (Priority::Critical, 2));
    assert_eq!(order[1].0, Priority::High);
    assert_eq!(order[2].0, Priority::High);
    assert_eq!(order[3], (Priority::Normal, 3));
    assert_eq!(order[4], (Priority::Low, 1));
    assert!(is_empty(&bus));
}

#[test]
fn bus_lone_message_comes_back() {
    let mut bus = CognitiveBus::new();
    let m = IntentMessage::new(ComponentId::Network, ComponentId::Security, 0x77, Priority::Normal, 99, 5);
    assert!(publish(&mut bus, m).is_ok());
    let back = consume(&mut bus).unwrap();
    assert_eq!((back.source, back.destination, back.intent_id, back.payload, back.timestamp), (ComponentId::Network, ComponentId::Security, 0x77, 99, 5));
}

#[test]
fn bus_capacity_limit() {
    let mut bus = CognitiveBus::new();
    for i in 0..capacity() {
        assert!(publish(&mut bus, msg(Priority::Low, i as u64)).is_ok());
    }
    assert_eq!(publish(&mut bus, msg(Priority::Critical, 0)), Err(BusError::QueueFull));
    assert_eq!(len(&bus), capacity());
}

#[test]
fn ipc_codes_and_ranks() {
    assert_eq!(ComponentId::Orchestrator.code(), 0);
    assert_eq!(ComponentId::Filesystem.code(), 5);
    assert_eq!(ComponentId::Broadcast.code(), 0xFF);
    assert_eq!(Priority::Low.rank(), 0);
    assert_eq!(Priority::Critical.rank(), 255);
}

fn elf_image(entry: u64, vaddr: u64, data: &[u8], flags: u32) -> Vec<u8> {
    let mut f = vec![0u8; 64 + 56];
    f[0..4].copy_from_slice(&[0x7F, b'E', b'L', b'F']);
    f[4] = 2;
    f[5] = 1;
    f[6] = 1;
    f[16..18].copy_from_slice(&2u16.to_le_bytes());
    f[18..20].copy_from_slice(&62u16.to_le_bytes());
    f[20..24].copy_from_slice(&1u32.to_le_bytes());
    f[24..32].copy_from_slice(&entry.to_le_bytes());
    f[32..40].copy_from_slice(&64u64.to_le_bytes());
    f[52..54].copy_from_slice(&64u16.to_le_bytes());
    f[54..56].copy_from_slice(&56u16.to_le_bytes());
    f[56..58].copy_from_slice(&1u16.to_le_bytes());
    let p = 64;
    f[p..p + 4].copy_from_slice(&1u32.to_le_bytes());
    f[p + 4..p + 8].copy_from_slice(&flags.to_le_bytes());
    f[p + 8..p + 16].copy_from_slice(&120u64.to_le_bytes());
    f[p + 16..p + 24].copy_from_slice(&vaddr.to_le_bytes());
    f[p + 32..p + 40].copy_from_slice(&(data.len() as u64).to_le_bytes());
    f[p + 40..p + 48].copy_from_slice(&(data.len() as u64 + 0x1000).to_le_bytes());
    f[p + 48..p + 56].copy_from_slice(&0x1000u64.to_le_bytes());
    f.extend_from_slice(data);
    f
}

#[test]
fn elf_header_and_program_headers() {
    let img = elf_image(0x401000, 0x400000, b"\x90\x90\xC3", PF_X | 4);
    let h = parse_header(&img).unwrap();
    assert_eq!(h.e_entry, 0x401000);
    assert_eq!(h.e_phoff, 64);
    assert_eq!(h.e_phnum, 1);
    let ph = parse_program_headers(&img, &h).unwrap();
    assert_eq!(ph.len(), 1);
    assert_eq!(ph[0].p_type, 1);
    assert_eq!(ph[0].p_vaddr, 0x400000);
    assert_eq!(ph[0].p_filesz, 3);
    assert_eq!(ph[0].p_offset, 120);
    assert_eq!(check_segment(&ph[0], img.len()), Ok(()));
    assert_eq!(segment_pages(&ph[0]), (0x400000, 2));
    let mut short = h;
    short.e_phnum = 3;
    assert_eq!(parse_program_headers(&img, &short).unwrap_err(), ElfError::InvalidPhdr);
}

#[test]
fn elf_header_errors() {
    let img = elf_image(0, 0, b"", 4);
    assert_eq!(parse_header(&img[..63]).unwrap_err(), ElfError::TooSmall);
    let mut bad = img.clone();
    bad[1] = b'X';
    assert_eq!(parse_header(&bad).unwrap_err(), ElfError::BadMagic);
    let mut bad = img.clone();
    bad[4] = 1;
    assert_eq!(parse_header(&bad).unwrap_err(), ElfError::Not64Bit);
    let mut bad = img.clone();
    bad[5] = 2;
    assert_eq!(parse_header(&bad).unwrap_err(), ElfError::NotLittleEndian);
    let mut bad = img.clone();
    bad[16] = 3;
    assert_eq!(parse_header(&bad).unwrap_err(), ElfError::NotExecutable);
    let mut bad = img.clone();
    bad[18] = 3;
    assert_eq!(parse_header(&bad).unwrap_err(), ElfError::WrongArch);
}

#[test]
fn elf_segments_and_flags() {
    let mut p = Elf64Phdr { p_type: 1, p_flags: 4, p_offset: 0, p_vaddr: 0x1000, p_paddr: 0, p_filesz: 10, p_memsz: 10, p_align: 0x1000 };
    assert_eq!(check_segment(&p, 5), Err(ElfError::InvalidSegment));
    p.p_vaddr = 0x0000_8000_0000_0000;
    assert_eq!(check_segment(&p, 100), Err(ElfError::AddressOutOfRange));
    assert_eq!(elf_flags_to_page_flags(PF_X), 0x05);
    assert_eq!(elf_flags_to_page_flags(PF_W), 0x8000_0000_0000_0007);
    assert_eq!(elf_flags_to_page_flags(4), 0x8000_0000_0000_0005);
    // W^X: a writable and executable segment is mapped read and execute
    assert_eq!(elf_flags_to_page_flags(PF_W | PF_X | 4), 0x05);
    assert_eq!(page_copy(0x1010, 0x20, 100, 0x1000, 200), Some((100, 0x10, 0x20)));
    assert_eq!(page_copy(0x1000, 0x1800, 0, 0x2000, 0x2000), Some((0x1000, 0, 0x800)));
    assert_eq!(page_copy(0x1000, 0x10, 0, 0x2000, 0x2000), None);
}

#[test]
fn elf_frame_pool() {
    let mut l = ElfLoader::new();
    assert_eq!(alloc_elf_frame(&mut l), None);
    init_frame_pool(&mut l, 0x100000, 2);
    assert_eq!(alloc_elf_frame(&mut l), Some(0x100000));
    assert_eq!(alloc_elf_frame(&mut l), Some(0x101000));
    assert_eq!(alloc_elf_frame(&mut l), None);
    assert_eq!(pool_stats(&l), (2, 2));
}

#[test]
fn elf_load_creates_user_process() {
    let mut vfs = Vfs::new();
    let mut bus = CognitiveBus::new();
    assert!(vfs_init(&mut vfs).is_ok());
    assert!(mount_device(&mut vfs, &mut bus, 0, "/dev/prog", DeviceManifest::ram_disk("prog", 4096, true)).is_ok());
    let img = elf_image(0x401000, 0x400000, b"\xC3", PF_X | 4);
    assert!(file_write(&mut vfs, &mut bus, 1, "/dev/prog", &img).is_ok());
    let mut table = ProcessTable::new();
    let mut sched = Scheduler::new();
    let mut loader = ElfLoader::new();
    init_frame_pool(&mut loader, 0x100000, 64);
    let (pid, image) = load_elf(&mut vfs, &mut bus, 2, &mut loader, &mut table, &mut sched, "/dev/prog").unwrap();
    assert_eq!(get_role(&table, pid), Some(AgentRole::Worker));
    assert_eq!(get_pml4_phys(&table, pid), Some(0x100000));
    assert_eq!(image.load.pml4_phys, 0x100000);
    assert_eq!(image.load.entry_point, 0x401000);
    assert_eq!(metrics(&sched).queue_lengths[1], 1);
    let missing = load_elf(&mut vfs, &mut bus, 3, &mut loader, &mut table, &mut sched, "/dev/none");
    assert_eq!(missing.err(), Some(ElfError::VfsError));
    let mut empty = ElfLoader::new();
    let refused = load_elf(&mut vfs, &mut bus, 4, &mut empty, &mut table, &mut sched, "/dev/prog");
    assert_eq!(refused.err(), Some(ElfError::OutOfMemory));
    assert_eq!(metrics(&sched).queue_lengths[1], 1);
}

#[test]
fn frame_allocator_hands_out_frames_in_order() {
    let mut fa = FrameAllocator::new(&[(0, 0x3000), (0x10000, 0x12000)]);
    assert_eq!(fa.total_frames(), 4);
    assert_eq!(fa.alloc_frame_kernel(), Some(0x1000));
    assert_eq!(fa.alloc_frame_kernel(), Some(0x2000));
    assert_eq!(fa.alloc_frame_kernel(), Some(0x10000));
    assert_eq!(fa.used_frames(), 3);
    assert_eq!(fa.free_frames(), 1);
    assert_eq!(fa.alloc_frame_kernel(), Some(0x11000));
    assert_eq!(fa.alloc_frame_kernel(), None);
    let partial = FrameAllocator::new(&[(0x1800, 0x3800)]);
    assert_eq!(partial.total_frames(), 1);
}

#[test]
fn resource_tags() {
    assert_eq!(AllocationType::Frame.as_str(), "frame");
    assert_eq!(AllocationType::Stack.as_str(), "stack");
    let t = ResourceTag::kernel(AllocationType::Heap);
    assert!(t.is_kernel());
    assert_eq!(t.process_id, 0);
}

#[test]
fn vram_allocator_page_rounds() {
    let mut v = VramAllocator::new(0xFD00_0000, 0x4000);
    assert_eq!(v.allocate(1), Some(0xFD00_0000));
    assert_eq!(v.allocate(0x1001), Some(0xFD00_1000));
    assert_eq!(v.used(), 0x3000);
    assert_eq!(v.free(), 0x1000);
    assert_eq!(v.allocate(0x2000), None);
    assert_eq!(v.alloc_count(), 2);
    v.reset();
    assert_eq!(v.used(), 0);
    assert_eq!(v.capacity(), 0x4000);
    assert_eq!(v.base(), 0xFD00_0000);
}

#[test]
fn gpu_stub_without_pci_device() {
    let mut g = GpuState::new();
    assert!(device_info(&g).is_none());
    assert!(vram_alloc(&mut g, 16).is_none());
    let absent = |_addr: u32| -> u32 { 0xFFFF_FFFF };
    aetherion_kernel::gpu::init(&mut g, &absent);
    let info = device_info(&g).unwrap();
    assert_eq!((info.vendor_id, info.device_id, info.bar0_address), (0x1234, 0x1111, 0xFD00_0000));
    assert_eq!(vram_alloc(&mut g, 100), Some(0xFD00_0000));
    assert_eq!(vram_metrics(&g), Some((0xFD00_0000, 4096, DEFAULT_VRAM_SIZE - 4096, 1)));
}

fn fake_pci(addr: u32) -> u32 {
    let device = (addr >> 11) & 0x1F;
    let offset = addr & 0xFC;
    if device != 2 && device != 5 {
        return 0xFFFF_FFFF;
    }
    match offset {
        0x00 => 0x1111_1234,
        0x08 => if device == 2 { 0x0300_0000 } else { 0x0200_0000 },
        0x10 => 0xFD00_0008,
        _ => 0,
    }
}

#[test]
fn pci_config_reads_and_scan() {
    assert_eq!(config_address(0, 2, 0, 0x10), 0x8000_1010);
    assert_eq!(config_address(1, 0, 3, 0x08), 0x8001_0308);
    let read = fake_pci;
    assert_eq!(read_vendor_device(&read, 0, 2, 0), (0x1234, 0x1111));
    assert_eq!(read_class(&read, 0, 2, 0), (0x03, 0x00, 0x00));
    assert_eq!(read_bar(&read, 0, 2, 0, 0), 0xFD00_0008);
    let found = scan_for_class(&read, 0x03);
    assert_eq!(found.len(), 1);
    assert_eq!((found[0].device, found[0].vendor_id, found[0].class_code), (2, 0x1234, 0x03));
    assert_eq!(scan_for_class(&read, 0x02).len(), 1);
    assert!(scan_for_class(&read, 0x01).is_empty());
}

#[test]
fn gpu_found_on_pci() {
    let mut g = GpuState::new();
    aetherion_kernel::gpu::init(&mut g, &fake_pci);
    let info = device_info(&g).unwrap();
    assert_eq!((info.vendor_id, info.device_id, info.bar0, info.bar0_address), (0x1234, 0x1111, 0xFD00_0008, 0xFD00_0000));
    let mut c = GpuState::new();
    configure(&mut c, None);
    assert_eq!(device_info(&c).unwrap().bar0, 0xFD00_0000);
}

#[test]
fn task_context() {
    let z = TaskContext::zero();
    assert_eq!((z.rsp, z.rip, z.rflags), (0, 0, RFLAGS_IF));
    let c = TaskContext::new(0xDEADBEEF, 0xCAFEBABE);
    assert_eq!(c.rsp, 0xDEADBEEF);
    assert_eq!(c.rip, 0xCAFEBABE);
    assert_eq!(c.rflags, RFLAGS_IF);
    assert_eq!(c.rflags, 0x200);
}

#[test]
fn interrupt_vectors() {
    assert_eq!(PIC1_OFFSET, 32);
    assert_eq!(PIC2_OFFSET, 40);
    assert_eq!(InterruptIndex::Timer.as_u8(), 32);
    assert_eq!(InterruptIndex::Keyboard.as_u8(), 33);
    assert_eq!(InterruptIndex::Rtc.as_u8(), 40);
    assert_eq!(InterruptIndex::IdeSecondary.as_usize(), 47);
    assert_eq!(double_fault_ist_index(), 0);
    assert_eq!(cycles_to_us(3_000_000), 1000);
    assert_eq!(cycles_to_us(2999), 0);
}

#[test]
fn decimal_rendering() {
    let mut out = b"seq=".to_vec();
    push_decimal(&mut out, 0);
    push_decimal(&mut out, 1234567890);
    assert_eq!(out, b"seq=01234567890".to_vec());
    let mut max = Vec::new();
    push_decimal(&mut max, u64::MAX);
    assert_eq!(max, u64::MAX.to_string().into_bytes());
}

fn usb(vendor_id: u16) -> UsbDevice {
    UsbDevice {
        vendor_id,
        product_id: 0x2838,
        device_class: 0,
        device_subclass: 0,
        protocol: 0,
        max_packet_size: 64,
        manufacturer: 0,
        product: 0,
        serial_number: 0,
    }
}

#[test]
fn sdr_receiver() {
    assert_eq!(aetherion_kernel::drivers::usb::init(), Err("No USB controllers found"));
    assert!(aetherion_kernel::drivers::sdr::init().is_ok());
    let mut r = RtlSdr::new();
    assert_eq!(r.init(), Err("No USB device attached"));
    assert_eq!(r.attach(usb(0x1234)), Err("Not an RTL-SDR device"));
    assert_eq!(r.attach(usb(REALTEK_VENDOR)), Ok(()));
    assert!(r.init().is_ok());
    assert_eq!(r.tune(10), Err("Frequency out of range"));
    assert_eq!(r.tune(100_000_000), Ok(()));
    assert_eq!(r.get_frequency(), 100_000_000);
    assert_eq!(r.set_sample_rate(1), Err("Sample rate out of range"));
    assert_eq!(r.set_sample_rate(2_048_000), Ok(()));
    assert_eq!(r.get_sample_rate(), 2_048_000);
    let mut buf = [0u8; 8];
    assert_eq!(r.read_samples(&mut buf), Ok(0));
    let s = IqSample::from_u8(255, 0);
    assert_eq!((s.i, s.q), (128, -127));
    let s = IqSample::new(-3, 4);
    assert_eq!((s.i, s.q), (-3, 4));
}

#[test]
fn memory_boot_regions() {
    let map = [(0u64, 0x1000u64, false), (0x1000, 0x9F000, true), (0xF0000, 0x100000, false), (0x100000, 0x800000, true)];
    assert_eq!(usable_regions(0, &map), Err(MemoryError::OutOfMemory));
    assert_eq!(usable_regions(0xFFFF_8000_0000_0000, &map).unwrap(), vec![(0x1000, 0x9F000), (0x100000, 0x800000)]);
    let many: Vec<(u64, u64, bool)> = (0..40u64).map(|i| (i * 0x10000, i * 0x10000 + 0x8000, true)).collect();
    let picked = usable_regions(1, &many).unwrap();
    assert_eq!(picked.len(), MAX_BOOT_REGIONS);
    assert_eq!(picked[31], (31 * 0x10000, 31 * 0x10000 + 0x8000));
}

#[test]
fn paging_address_arithmetic() {
    assert_eq!(phys_to_virt(0xFFFF_8000_0000_0000, 0x1234), 0xFFFF_8000_0000_1234);
    assert_eq!(identity_region_frames(0x1800, 0x3001), vec![0x1000, 0x2000, 0x3000]);
    assert_eq!(identity_region_frames(0x1000, 0x2000), vec![0x1000]);
    assert_eq!(identity_region_frames(0x0, 0x0), vec![0x0]);
    assert_eq!(identity_region_frames(0x5000, 0x1000), Vec::<u64>::new());
}

#[test]
fn frame_allocator_never_repeats_nor_gives_frame_zero() {
    let mut fa = FrameAllocator::new(&[(0, 0x3000), (0x8000, 0xA800), (0x20000, 0x21000)]);
    let mut seen = Vec::new();
    while let Some(f) = fa.alloc_frame_kernel() {
        assert!(f != 0);
        assert_eq!(f % 4096, 0);
        assert!(!seen.contains(&f));
        seen.push(f);
    }
    assert_eq!(seen, vec![0x1000, 0x2000, 0x8000, 0x9000, 0x20000]);
    assert_eq!(fa.used_frames() + fa.free_frames(), fa.total_frames());
}

#[test]
fn exec_with_elf_loader_replaces_the_program() {
    let mut vfs = Vfs::new();
    let mut bus = CognitiveBus::new();
    assert!(vfs_init(&mut vfs).is_ok());
    assert!(mount_device(&mut vfs, &mut bus, 0, "/dev/prog", DeviceManifest::ram_disk("prog", 4096, true)).is_ok());
    let img = elf_image(0x401000, 0x400000, b"\xC3", PF_X | 4);
    assert!(file_write(&mut vfs, &mut bus, 1, "/dev/prog", &img).is_ok());
    let mut table = ProcessTable::new();
    let pid = spawn_userspace(&mut table, "old", 0, 0x1000, 0x2000, 0x3000).unwrap();
    let mut loader = ElfLoader::new();
    init_frame_pool(&mut loader, 0x100000, 64);
    let (act, image) = sys_exec_elf(&mut table, &mut vfs, &mut bus, 2, pid, 0x5000, Some("/dev/prog".to_string()), &mut loader);
    let image = image.unwrap();
    assert_eq!(image.load.pml4_phys, 0x100000);
    assert_eq!(image.load.entry_point, 0x401000);
    match act {
        ExecAction::Enter { pml4, entry, stack } => {
            assert_eq!((pml4, entry, stack), (0x100000, 0x401000, image.load.stack_pointer));
        },
        ExecAction::Fail(_) => panic!("exec failed"),
    }
    assert_eq!(get_pml4_phys(&table, pid), Some(0x100000));
    assert_eq!(with_process(&table, pid, |p| (p.entry_point, p.name.clone())), Some((0x401000, "/dev/prog".to_string())));
    let (missing, none) = sys_exec_elf(&mut table, &mut vfs, &mut bus, 3, pid, 0x5000, Some("nothing".to_string()), &mut loader);
    assert!(matches!(missing, ExecAction::Fail(ENOENT)) && none.is_none());
    let (bad, none) = sys_exec_elf(&mut table, &mut vfs, &mut bus, 4, pid, 0xFFFF_8000_0000_0000, Some("/dev/prog".to_string()), &mut loader);
    assert!(matches!(bad, ExecAction::Fail(EFAULT)) && none.is_none());
    let mut empty = ElfLoader::new();
    let (oom, none) = sys_exec_elf(&mut table, &mut vfs, &mut bus, 5, pid, 0x5000, Some("/dev/prog".to_string()), &mut empty);
    assert!(matches!(oom, ExecAction::Fail(ENOENT)) && none.is_none());
    assert_eq!(get_pml4_phys(&table, pid), Some(0x100000));
}
