use aetherion_kernel::arch::faults::{kill_faulting, page_fault_action, FaultAction, DEMAND_PAGE_FLAGS};
use aetherion_kernel::elf::{ElfError, ElfLoadResult};
use aetherion_kernel::fs::manifest::DeviceManifest;
use aetherion_kernel::fs::vfs::{file_write, init as vfs_init, mount_device, Vfs};
use aetherion_kernel::ipc::bus::{consume, publish, CognitiveBus, BUS_CAPACITY};
use aetherion_kernel::ipc::{ComponentId, IntentMessage, Priority};
use aetherion_kernel::process::{
    get_ppid, init as process_init, kbd_push_byte, list_active_pids, list_children, spawn_userspace, KbdBuffer, ProcessTable,
};
use aetherion_kernel::scheduler::{enqueue_process, metrics, test_tick, Scheduler};
use aetherion_kernel::syscall::{
    decode, sys_bus_publish, sys_close, sys_getpid, sys_exec, sys_exit, sys_fork, sys_getppid, sys_kill, sys_mmap, sys_open, sys_ps, sys_read, sys_seek,
    sys_vga_write, sys_wait, sys_write, validate_user_ptr, ExecAction, Syscall, EBADF, ECHILD, EFAULT, EAGAIN, EINVAL, EMFILE,
    ENOENT, ENOMEM, MMAP_BASE,
};

struct World {
    table: ProcessTable,
    vfs: Vfs,
    bus: CognitiveBus,
    kbd: KbdBuffer,
    user: u64,
}

fn world() -> World {
    let mut table = ProcessTable::new();
    let idle = process_init(&mut table);
    let user = spawn_userspace(&mut table, "shell", idle, 0x400000, 0x7FFF_FFFF_F000, 0x1000).unwrap();
    let mut vfs = Vfs::new();
    let mut bus = CognitiveBus::new();
    assert!(vfs_init(&mut vfs).is_ok());
    assert!(mount_device(&mut vfs, &mut bus, 0, "/dev/ram0", DeviceManifest::ram_disk("ram0", 1024, true)).is_ok());
    assert!(file_write(&mut vfs, &mut bus, 0, "/dev/ram0", b"hello, world").is_ok());
    World { table, vfs, bus, kbd: KbdBuffer::new(), user }
}

#[test]
fn syscall_numbers() {
    assert_eq!(decode(0), Some(Syscall::Read));
    assert_eq!(decode(1), Some(Syscall::Write));
    assert_eq!(decode(9), Some(Syscall::Mmap));
    assert_eq!(decode(57), Some(Syscall::Fork));
    assert_eq!(decode(202), Some(Syscall::VgaWrite));
    assert_eq!(decode(4), None);
    assert_eq!(EINVAL, (-22i64) as u64);
    assert_eq!(ENOSYS_CHECK, (-38i64) as u64);
}

const ENOSYS_CHECK: u64 = aetherion_kernel::syscall::ENOSYS;

#[test]
fn syscall_user_pointers() {
    assert!(validate_user_ptr(0x1000, 16));
    assert!(!validate_user_ptr(0x0000_8000_0000_0000, 1));
    assert!(!validate_user_ptr(0x0000_7FFF_FFFF_FFF0, 0x20));
    assert!(!validate_user_ptr(0x1000, 0x1000_0001));
    assert_eq!(sys_write(3, 0x1000, 4), EBADF);
    assert_eq!(sys_write(1, 0x1000, 0), 0);
    assert_eq!(sys_write(2, 0xFFFF_8000_0000_0000, 4), EFAULT);
    assert_eq!(sys_write(1, 0x1000, 4), 4);
}

#[test]
fn syscall_read_stdin_line() {
    let mut w = world();
    for &b in b"ls\npwd\n" {
        kbd_push_byte(&mut w.kbd, b);
    }
    let (n, bytes) = sys_read(&mut w.table, &mut w.vfs, &mut w.bus, &mut w.kbd, 1, w.user, 0, 0x1000, 64);
    assert_eq!((n, bytes), (3, b"ls\n".to_vec()));
    let (n, bytes) = sys_read(&mut w.table, &mut w.vfs, &mut w.bus, &mut w.kbd, 1, w.user, 0, 0x1000, 2);
    assert_eq!((n, bytes), (2, b"pw".to_vec()));
    assert_eq!(sys_read(&mut w.table, &mut w.vfs, &mut w.bus, &mut w.kbd, 1, w.user, 0, 0x1000, 0).0, 0);
    assert_eq!(sys_read(&mut w.table, &mut w.vfs, &mut w.bus, &mut w.kbd, 1, w.user, 0, u64::MAX, 4).0, EFAULT);
}

#[test]
fn syscall_open_read_seek_close() {
    let mut w = world();
    let fd = sys_open(&mut w.table, &mut w.vfs, &mut w.bus, 1, w.user, 0x2000, Some("/dev/ram0".to_string()), 0);
    assert_eq!(fd, 3);
    let (n, bytes) = sys_read(&mut w.table, &mut w.vfs, &mut w.bus, &mut w.kbd, 2, w.user, fd as u32, 0x1000, 5);
    assert_eq!((n, bytes), (5, b"hello".to_vec()));
    let (n, bytes) = sys_read(&mut w.table, &mut w.vfs, &mut w.bus, &mut w.kbd, 3, w.user, fd as u32, 0x1000, 100);
    assert_eq!((n, bytes), (7, b", world".to_vec()));
    assert_eq!(sys_read(&mut w.table, &mut w.vfs, &mut w.bus, &mut w.kbd, 4, w.user, fd as u32, 0x1000, 100).0, 0);
    assert_eq!(sys_seek(&mut w.table, w.user, fd as u32, 7, 0), 7);
    assert_eq!(sys_seek(&mut w.table, w.user, fd as u32, -2, 1), 5);
    assert_eq!(sys_seek(&mut w.table, w.user, fd as u32, 0, 2), EINVAL);
    let (_, bytes) = sys_read(&mut w.table, &mut w.vfs, &mut w.bus, &mut w.kbd, 5, w.user, fd as u32, 0x1000, 100);
    assert_eq!(bytes, b", world".to_vec());
    assert_eq!(sys_close(&mut w.table, w.user, fd as u32), 0);
    assert_eq!(sys_close(&mut w.table, w.user, fd as u32), EBADF);
    assert_eq!(sys_close(&mut w.table, w.user, 1), EBADF);
    assert_eq!(sys_read(&mut w.table, &mut w.vfs, &mut w.bus, &mut w.kbd, 6, w.user, fd as u32, 0x1000, 1).0, EBADF);
    assert_eq!(sys_seek(&mut w.table, w.user, fd as u32, 0, 0), EBADF);
}

#[test]
fn syscall_open_errors() {
    let mut w = world();
    assert_eq!(sys_open(&mut w.table, &mut w.vfs, &mut w.bus, 1, w.user, 0x2000, None, 0), EFAULT);
    assert_eq!(sys_open(&mut w.table, &mut w.vfs, &mut w.bus, 1, w.user, u64::MAX, Some("/dev/ram0".to_string()), 0), EFAULT);
    assert_eq!(sys_open(&mut w.table, &mut w.vfs, &mut w.bus, 1, w.user, 0x2000, Some("/dev/none".to_string()), 0), ENOENT);
    assert_eq!(sys_open(&mut w.table, &mut w.vfs, &mut w.bus, 1, 999, 0x2000, Some("/dev/ram0".to_string()), 0), EMFILE);
    for i in 3..16u64 {
        assert_eq!(sys_open(&mut w.table, &mut w.vfs, &mut w.bus, 1, w.user, 0x2000, Some("/dev/ram0".to_string()), 0), i);
    }
    assert_eq!(sys_open(&mut w.table, &mut w.vfs, &mut w.bus, 1, w.user, 0x2000, Some("/dev/ram0".to_string()), 0), EMFILE);
}

#[test]
fn syscall_fork_and_wait() {
    let mut w = world();
    let mut sched = Scheduler::new();
    assert_eq!(sys_fork(&mut w.table, &mut sched, 42, |_p| Some(0x9000)), ENOMEM);
    assert_eq!(sys_fork(&mut w.table, &mut sched, w.user, |_p| None), ENOMEM);
    let child = sys_fork(&mut w.table, &mut sched, w.user, |p| Some(p + 0x8000));
    assert_eq!(get_ppid(&w.table, child), Some(w.user));
    assert_eq!(list_children(&w.table, w.user), vec![child]);
    assert_eq!(metrics(&sched).queue_lengths[1], 1);
    assert_eq!(sys_getppid(&w.table, child), w.user);
    assert_eq!(sys_getppid(&w.table, 777), 0);
    assert_eq!(sys_wait(&w.table, w.user), None);
    sys_exit(&mut w.table, child, 0x1_0000_0005);
    assert_eq!(sys_wait(&w.table, w.user), Some((child << 32) | 5));
    assert_eq!(sys_wait(&w.table, 777), Some(ECHILD));
}

#[test]
fn syscall_kill() {
    let mut w = world();
    assert_eq!(sys_kill(&mut w.table, 1), EINVAL);
    assert_eq!(sys_kill(&mut w.table, 500), EINVAL);
    assert_eq!(sys_kill(&mut w.table, w.user), 0);
}

#[test]
fn syscall_exec() {
    let mut w = world();
    let ok = |_bytes: Vec<u8>| -> Result<ElfLoadResult, ElfError> {
        Ok(ElfLoadResult { entry_point: 0x401000, stack_pointer: 0x7FFF_FFFF_F000, pml4_phys: 0x3000, segments_loaded: 1, frames_used: 3 })
    };
    let act = sys_exec(&mut w.table, &mut w.vfs, &mut w.bus, 1, w.user, 0x2000, Some("/dev/ram0".to_string()), ok);
    assert_eq!(act, ExecAction::Enter { pml4: 0x3000, entry: 0x401000, stack: 0x7FFF_FFFF_F000 });
    let act = sys_exec(&mut w.table, &mut w.vfs, &mut w.bus, 1, w.user, 0x2000, Some("ram0".to_string()), ok);
    assert_eq!(act, ExecAction::Fail(ENOENT));
    let bad = |_bytes: Vec<u8>| -> Result<ElfLoadResult, ElfError> { Err(ElfError::BadMagic) };
    let act = sys_exec(&mut w.table, &mut w.vfs, &mut w.bus, 1, w.user, 0x2000, Some("/dev/ram0".to_string()), bad);
    assert_eq!(act, ExecAction::Fail(ENOENT));
    let act = sys_exec(&mut w.table, &mut w.vfs, &mut w.bus, 1, w.user, 0x2000, None, ok);
    assert_eq!(act, ExecAction::Fail(EFAULT));
}

#[test]
fn syscall_mmap_and_vga() {
    assert_eq!(sys_mmap(0), Err(EINVAL));
    assert_eq!(sys_mmap(64 * 1024 * 1024 + 1), Err(EINVAL));
    assert_eq!(sys_mmap(1), Ok((MMAP_BASE, 1)));
    assert_eq!(sys_mmap(8193), Ok((MMAP_BASE, 3)));
    assert_eq!(sys_vga_write(25, 0, 0x41), Err(EINVAL));
    assert_eq!(sys_vga_write(0, 80, 0x41), Err(EINVAL));
    assert_eq!(sys_vga_write(1, 2, 0x1F41), Ok(((80 + 2) * 2, 0x41, 0x1F)));
}

#[test]
fn page_fault_decisions() {
    assert_eq!(page_fault_action(0x7FFF_0000_1234, true), FaultAction::DemandMap { page: 0x7FFF_0000_1000, flags: DEMAND_PAGE_FLAGS });
    assert_eq!(page_fault_action(0x7FFF_0000_1234, false), FaultAction::Fatal);
    assert_eq!(page_fault_action(0x1000, true), FaultAction::Fatal);
    assert_eq!(page_fault_action(0x7FFF_FFFF_F000, true), FaultAction::Fatal);
    let mut w = world();
    assert!(!kill_faulting(&mut w.table, 0));
    assert!(kill_faulting(&mut w.table, w.user));
    assert!(!list_active_pids(&w.table).contains(&w.user));
}

#[test]
fn syscall_ps_report() {
    let mut table = ProcessTable::new();
    let idle = process_init(&mut table);
    let user = spawn_userspace(&mut table, "hello.elf", idle, 0x401000, 0x7FFF_FFFF_F000, 0x20_0000).unwrap();
    let lines = sys_ps(&table);
    assert_eq!(lines.len(), 6);
    assert_eq!(lines[0], "\n[PS] Process Table:");
    assert_eq!(lines[1], "  PID  PPID  STATE        ROLE          NAME");
    assert!(lines[3].starts_with(&format!("  [PID {} |", idle)));
    assert_eq!(lines[4], format!("  [PID {} | Worker | hello.elf | READY | ppid={}]", user, idle));
    assert_eq!(lines[5], "[PS] Total: 2 active processes\n");
}

#[test]
fn syscall_getpid_is_the_running_process() {
    let mut t = ProcessTable::new();
    process_init(&mut t);
    let mut sched = Scheduler::new();
    assert_eq!(sys_getpid(&sched), 0);
    let pid = spawn_userspace(&mut t, "u", 0, 0x40_1000, 0x7000_0000, 0x20_0000).unwrap();
    enqueue_process(&mut sched, &t, pid);
    let _ = test_tick(&mut sched, &t);
    assert_eq!(sys_getpid(&sched), pid);
}

#[test]
fn syscall_bus_publish_queues_message_for_orchestrator() {
    let mut bus = CognitiveBus::new();
    assert_eq!(sys_bus_publish(&mut bus, ComponentId::Memory, 0x1_0000_0042, 2, 99, 7), 0);
    assert_eq!(sys_bus_publish(&mut bus, ComponentId::Memory, 0x43, 9, 100, 8), 0);
    let a = consume(&mut bus).unwrap();
    assert_eq!(
        (a.source, a.destination, a.intent_id, a.priority, a.payload, a.timestamp),
        (ComponentId::Memory, ComponentId::Orchestrator, 0x43, Priority::Critical, 100, 8)
    );
    let b = consume(&mut bus).unwrap();
    assert_eq!(
        (b.source, b.destination, b.intent_id, b.priority, b.payload, b.timestamp),
        (ComponentId::Memory, ComponentId::Orchestrator, 0x42, Priority::High, 99, 7)
    );
    for i in 0..BUS_CAPACITY as u64 {
        let m = IntentMessage::new(ComponentId::HAL, ComponentId::Orchestrator, 1, Priority::Low, i, i);
        assert!(publish(&mut bus, m).is_ok());
    }
    assert_eq!(sys_bus_publish(&mut bus, ComponentId::Memory, 1, 0, 0, 0), EAGAIN);
}

#[test]
fn syscall_wait_packs_child_above_exit_code() {
    let mut w = world();
    let mut sched = Scheduler::new();
    let child = sys_fork(&mut w.table, &mut sched, w.user, |p| Some(p + 0x8000));
    sys_exit(&mut w.table, child, u64::MAX);
    let v = sys_wait(&w.table, w.user).unwrap();
    assert_eq!(v >> 32, child);
    assert_eq!(v & 0xFFFF_FFFF, 0xFFFF_FFFF);
    assert_eq!(v, (child << 32) | 0xFFFF_FFFF);
}
