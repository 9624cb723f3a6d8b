use aetherion_kernel::process::task::{alloc_pid, peek_next_pid, AgentRole, FdTable, PidAllocator, Process, ProcessState, MAX_FDS};
use aetherion_kernel::process::{
    active_count, fork_process, get_info, get_ppid, get_role, get_role_priority, init, kbd_push_byte, kbd_read, kill, list_active_pids,
    list_children, matriarch_pid, metrics_created, metrics_terminated, set_exit_code, set_state, spawn_kernel_thread,
    spawn_matriarch, spawn_submatriarch, spawn_userspace, spawn_worker, total_count, wait_for_child, KbdBuffer,
    ProcessError, ProcessTable, KBD_BUF_SIZE,
};

fn table_with_idle() -> ProcessTable {
    let mut t = ProcessTable::new();
    let idle = init(&mut t);
    assert_eq!(idle, 1);
    t
}

#[test]
fn process_matriarchal_hierarchy() {
    let mut t = table_with_idle();
    let m = spawn_matriarch(&mut t, "Orchestrator_Root", 1000, 1000).unwrap();
    assert_eq!(m, 2);
    assert_eq!(spawn_matriarch(&mut t, "Evil_Twin", 0, 0), Err(ProcessError::MatriarchExists));
    let vision = spawn_submatriarch(&mut t, "Vision_Domain", m, 1000, 1000).unwrap();
    let network = spawn_submatriarch(&mut t, "Network_Domain", m, 1000, 1000).unwrap();
    for name in ["CNN_Detector", "YOLO_Tracker", "Depth_Estimator"] {
        assert!(spawn_worker(&mut t, name, vision, 1000, 1000).is_ok());
    }
    for name in ["TCP_Stack", "DNS_Resolver"] {
        assert!(spawn_worker(&mut t, name, network, 1000, 1000).is_ok());
    }
    let workers = list_children(&t, vision);
    assert_eq!(workers.len(), 3);
    assert_eq!(spawn_worker(&mut t, "Illegal_Child", workers[0], 0, 0), Err(ProcessError::HierarchyViolation));
    assert_eq!(spawn_submatriarch(&mut t, "Bad", workers[0], 0, 0), Err(ProcessError::HierarchyViolation));
    assert_eq!(spawn_worker(&mut t, "Orphan", 999, 0, 0), Err(ProcessError::ParentNotFound));
    assert_eq!(spawn_worker(&mut t, "Direct", m, 0, 0), Err(ProcessError::HierarchyViolation));
    assert_eq!(list_children(&t, m), vec![vision, network]);
    assert_eq!(get_ppid(&t, vision), Some(m));
    assert_eq!(get_role(&t, m), Some(AgentRole::Matriarch));
    assert_eq!(get_role(&t, workers[0]), Some(AgentRole::Worker));
    assert_eq!(matriarch_pid(&t), Some(m));
    assert!(active_count(&t) >= 8);
    assert_eq!(total_count(&t), 9);
    assert_eq!(metrics_created(&t), 9);
}

#[test]
fn process_state_transitions() {
    let mut t = table_with_idle();
    let p = spawn_kernel_thread(&mut t, "state_test").unwrap();
    assert!(set_state(&mut t, p, ProcessState::Running).is_ok());
    assert!(set_state(&mut t, p, ProcessState::Blocked).is_ok());
    assert!(set_state(&mut t, p, ProcessState::Ready).is_ok());
    assert_eq!(set_state(&mut t, p, ProcessState::Blocked), Err(ProcessError::InvalidTransition));
    assert!(set_state(&mut t, p, ProcessState::Terminated).is_ok());
    assert_eq!(set_state(&mut t, p, ProcessState::Ready), Err(ProcessError::InvalidTransition));
    assert_eq!(set_state(&mut t, 999, ProcessState::Ready), Err(ProcessError::NotFound));
}

#[test]
fn process_kill_protection() {
    let mut t = table_with_idle();
    assert_eq!(kill(&mut t, 1), Err(ProcessError::KillProtected));
    let m = spawn_matriarch(&mut t, "Root", 0, 0).unwrap();
    assert_eq!(kill(&mut t, m), Err(ProcessError::KillProtected));
    assert_eq!(kill(&mut t, 42), Err(ProcessError::NotFound));
}

#[test]
fn process_kill_then_new_matriarch() {
    let mut t = table_with_idle();
    let m = spawn_matriarch(&mut t, "Root", 1000, 1000).unwrap();
    assert_eq!(kill(&mut t, m), Ok(()));
    assert_eq!(metrics_terminated(&t), 1);
    assert!(!list_active_pids(&t).contains(&m));
    let m2 = spawn_matriarch(&mut t, "Root2", 1000, 1000).unwrap();
    assert!(m2 > m);
    assert_eq!(matriarch_pid(&t), Some(m2));
}

#[test]
fn process_pids_never_reused() {
    let mut t = table_with_idle();
    let a = spawn_kernel_thread(&mut t, "a").unwrap();
    let b = spawn_kernel_thread(&mut t, "b").unwrap();
    let c = spawn_kernel_thread(&mut t, "c").unwrap();
    assert!(a < b && b < c);
    assert_eq!((a, b, c), (2, 3, 4));
}

#[test]
fn process_priorities_by_role() {
    let mut t = table_with_idle();
    let m = spawn_matriarch(&mut t, "Root", 1000, 1000).unwrap();
    let s = spawn_submatriarch(&mut t, "Sub", m, 1000, 1000).unwrap();
    let w = spawn_worker(&mut t, "W", s, 1000, 1000).unwrap();
    assert_eq!(get_role_priority(&t, 1), Some((AgentRole::KernelThread, 25)));
    assert_eq!(get_role_priority(&t, m), Some((AgentRole::Matriarch, 20)));
    assert_eq!(get_role_priority(&t, s), Some((AgentRole::SubMatriarch, 15)));
    assert_eq!(get_role_priority(&t, w), Some((AgentRole::Worker, 5)));
    assert_eq!(get_role_priority(&t, 77), None);
}

#[test]
fn process_fork_and_wait() {
    let mut t = table_with_idle();
    let parent = spawn_userspace(&mut t, "shell", 1, 0x400000, 0x7fff0000, 0x1000).unwrap();
    let child = fork_process(&mut t, parent, 0x2000, 0x400100, 0x7ffe0000).unwrap();
    assert_eq!(get_ppid(&t, child), Some(parent));
    assert_eq!(list_children(&t, parent), vec![child]);
    assert_eq!(wait_for_child(&t, parent), Err(ProcessError::WaitingForChild));
    set_exit_code(&mut t, child, 7);
    assert!(set_state(&mut t, child, ProcessState::Terminated).is_ok());
    assert_eq!(wait_for_child(&t, parent), Ok((child, 7)));
    assert_eq!(wait_for_child(&t, 555), Err(ProcessError::NotFound));
    assert_eq!(fork_process(&mut t, 555, 0, 0, 0), Err(ProcessError::NotFound));
}

#[test]
fn process_table_limit() {
    let mut t = ProcessTable::new();
    for _ in 0..256 {
        assert!(spawn_kernel_thread(&mut t, "k").is_ok());
    }
    assert_eq!(spawn_kernel_thread(&mut t, "k"), Err(ProcessError::LimitReached));
}

#[test]
fn process_pid_allocator() {
    let mut a = PidAllocator::new();
    assert_eq!(peek_next_pid(&a), 1);
    assert_eq!(alloc_pid(&mut a), 1);
    assert_eq!(alloc_pid(&mut a), 2);
    assert_eq!(peek_next_pid(&a), 3);
    let p = Process::new(&mut a, "p", AgentRole::Worker, 1, 10, 20);
    assert_eq!(p.pid, 3);
    assert_eq!(p.priority, 5);
    assert_eq!(p.state, ProcessState::Ready);
    assert!(p.is_alive());
}

#[test]
fn process_transition_rules() {
    let mut a = PidAllocator::new();
    let mut p = Process::new(&mut a, "p", AgentRole::Worker, 0, 1, 1);
    assert!(!p.can_transition_to(ProcessState::Blocked));
    assert!(p.set_state(ProcessState::Running));
    assert!(p.set_state(ProcessState::Blocked));
    assert!(!p.set_state(ProcessState::Running));
    assert!(p.set_state(ProcessState::Terminated));
    assert!(!p.is_alive());
    assert!(!p.set_state(ProcessState::Ready));
}

#[test]
fn process_fd_table() {
    let mut fds = FdTable::new_with_stdio();
    assert_eq!(fds.get(0).unwrap().path, "stdin");
    assert_eq!(fds.get(1).unwrap().path, "stdout");
    assert_eq!(fds.alloc_fd("/dev/ram0", 2), Some(3));
    assert_eq!(fds.get(3).unwrap().path, "/dev/ram0");
    assert!(fds.close_fd(1));
    assert!(!fds.close_fd(1));
    assert_eq!(fds.alloc_fd("/tmp/x", 1), Some(1));
    assert!(fds.get(MAX_FDS).is_none());
    let mut full = FdTable::empty();
    for i in 0..MAX_FDS {
        assert_eq!(full.alloc_fd("f", 0), Some(i));
    }
    assert_eq!(full.alloc_fd("f", 0), None);
}

#[test]
fn process_keyboard_fifo() {
    let mut kbd = KbdBuffer::new();
    for &b in b"ls -l\nrest" {
        kbd_push_byte(&mut kbd, b);
    }
    assert_eq!(kbd.available(), 10);
    let mut buf = [0u8; 32];
    let n = kbd_read(&mut kbd, &mut buf, 32);
    assert_eq!(&buf[..n], b"ls -l\n");
    let n = kbd_read(&mut kbd, &mut buf, 2);
    assert_eq!(&buf[..n], b"re");
    assert_eq!(kbd.pop(), Some(b's'));
    assert_eq!(kbd.pop(), Some(b't'));
    assert_eq!(kbd.pop(), None);
}

#[test]
fn process_keyboard_full_drops() {
    let mut kbd = KbdBuffer::new();
    for i in 0..(KBD_BUF_SIZE + 10) {
        kbd.push(i as u8);
    }
    assert_eq!(kbd.available(), KBD_BUF_SIZE);
    assert_eq!(kbd.pop(), Some(0));
}

#[test]
fn process_info_lines() {
    let mut t = table_with_idle();
    let m = spawn_matriarch(&mut t, "Orchestrator_Root", 1000, 1000).unwrap();
    let sub = spawn_submatriarch(&mut t, "Vision", m, 1000, 1000).unwrap();
    let w = spawn_worker(&mut t, "cam0", sub, 1000, 1000).unwrap();
    assert!(set_state(&mut t, w, ProcessState::Running).is_ok());
    assert!(set_state(&mut t, w, ProcessState::Blocked).is_ok());
    assert_eq!(get_info(&t, m).unwrap(), "[PID 2 | Matriarch | Orchestrator_Root | READY | ppid=0]");
    assert_eq!(get_info(&t, w).unwrap(), "[PID 4 | Worker | cam0 | BLOCKED | ppid=3]");
    assert_eq!(get_info(&t, 99), None);
    assert_eq!(AgentRole::KernelThread.label(), "KernelThread");
    assert_eq!(ProcessState::Terminated.label(), "TERMINATED");
}
