//! The system calls: their numbers, the checks on their arguments and what
//! they do to the kernel's state. Copying from and to user memory, port
//! output and the switch into user mode are left to the caller, which
//! receives the bytes to copy or the action to take.

use vstd::prelude::*;
use vstd::string::*;
use crate::elf::{ElfError, ElfLoadResult, ElfLoader, USER_ADDR_LIMIT, pool_wf};
use crate::elf::image::{ElfImage, binary_result, load_elf_binary};
use crate::elf::tables::pool_fits;
use crate::fs::vfs::{Vfs, VfsError, file_read, read_done, read_result};
use crate::ipc::bus::{BUS_CAPACITY, CognitiveBus, publish};
use crate::ipc::{ComponentId, IntentMessage, Priority};
use crate::net::wire::copy_range;
use crate::process::{
    KbdBuffer, ProcessError, ProcessTable, close_fd_of, fds_now, fork_process, get_ppid, kbd_read, kill, line_len,
    open_fd, replace_image, replaced, same_but_fds, set_exit_code, set_fd_offset, set_state, spawned, table_wf,
    wait_for_child, first_exited, is_live, live_processes, MAX_PROCESSES,
};
use crate::process::task::{Process, process_line};
use crate::decimal::{decimal_chars, push_decimal_str};
use crate::process::task::{AgentRole, FileDescriptor, ProcessState, first_free, fresh_fd, MAX_FDS};
use crate::scheduler::{Scheduler, enqueue_process, level, same_counters};

verus! {

/// Error values returned to user space (negated errno, as unsigned).
pub const ENOSYS: u64 = 0xFFFF_FFFF_FFFF_FFDA;
pub const EFAULT: u64 = 0xFFFF_FFFF_FFFF_FFF2;
pub const EBADF: u64 = 0xFFFF_FFFF_FFFF_FFF7;
pub const EAGAIN: u64 = 0xFFFF_FFFF_FFFF_FFF5;
pub const ENOMEM: u64 = 0xFFFF_FFFF_FFFF_FFF4;
pub const EINVAL: u64 = 0xFFFF_FFFF_FFFF_FFEA;
pub const ECHILD: u64 = 0xFFFF_FFFF_FFFF_FFF6;
pub const ENOENT: u64 = 0xFFFF_FFFF_FFFF_FFFE;
pub const EMFILE: u64 = 0xFFFF_FFFF_FFFF_FFE8;

/// Largest user buffer a call accepts (256 MiB).
pub const MAX_USER_LEN: u64 = 0x1000_0000;

/// The system calls, by the number user space passes.
#[derive(Debug, Clone, Copy, PartialEq, Eq, Structural)]
pub enum Syscall {
    Read,
    Write,
    Open,
    Close,
    Seek,
    Mmap,
    GetPid,
    GetPpid,
    Fork,
    Exec,
    Exit,
    Wait,
    Kill,
    Ps,
    BusPublish,
    VgaWrite,
}

/// The call a number stands for.
pub open spec fn syscall_of(nr: u64) -> Option<Syscall> {
    if nr == 0 {
        Some(Syscall::Read)
    } else if nr == 1 {
        Some(Syscall::Write)
    } else if nr == 2 {
        Some(Syscall::Open)
    } else if nr == 3 {
        Some(Syscall::Close)
    } else if nr == 8 {
        Some(Syscall::Seek)
    } else if nr == 9 {
        Some(Syscall::Mmap)
    } else if nr == 20 {
        Some(Syscall::GetPid)
    } else if nr == 39 {
        Some(Syscall::GetPpid)
    } else if nr == 57 {
        Some(Syscall::Fork)
    } else if nr == 59 {
        Some(Syscall::Exec)
    } else if nr == 60 {
        Some(Syscall::Exit)
    } else if nr == 61 {
        Some(Syscall::Wait)
    } else if nr == 62 {
        Some(Syscall::Kill)
    } else if nr == 200 {
        Some(Syscall::Ps)
    } else if nr == 201 {
        Some(Syscall::BusPublish)
    } else if nr == 202 {
        Some(Syscall::VgaWrite)
    } else {
        None
    }
}

/// The numbering of the system calls: read 0, write 1, open 2, close 3,
/// seek 8, mmap 9, getpid 20, getppid 39, fork 57, exec 59, exit 60,
/// wait 61, kill 62, ps 200, bus_publish 201, vga_write 202; every other
/// number names no call.
pub proof fn lemma_syscall_numbers()
    ensures
        syscall_of(0) == Some(Syscall::Read),
        syscall_of(1) == Some(Syscall::Write),
        syscall_of(2) == Some(Syscall::Open),
        syscall_of(3) == Some(Syscall::Close),
        syscall_of(8) == Some(Syscall::Seek),
        syscall_of(9) == Some(Syscall::Mmap),
        syscall_of(20) == Some(Syscall::GetPid),
        syscall_of(39) == Some(Syscall::GetPpid),
        syscall_of(57) == Some(Syscall::Fork),
        syscall_of(59) == Some(Syscall::Exec),
        syscall_of(60) == Some(Syscall::Exit),
        syscall_of(61) == Some(Syscall::Wait),
        syscall_of(62) == Some(Syscall::Kill),
        syscall_of(200) == Some(Syscall::Ps),
        syscall_of(201) == Some(Syscall::BusPublish),
        syscall_of(202) == Some(Syscall::VgaWrite),
        forall|nr: u64| !(nr == 0 || nr == 1 || nr == 2 || nr == 3 || nr == 8 || nr == 9 || nr == 20 || nr == 39 || nr == 57 || nr == 59 || nr == 60 || nr == 61 || nr == 62 || nr == 200 || nr == 201 || nr == 202) ==> #[trigger] syscall_of(nr) is None,
{
}

/// Decodes a system-call number (Linux x86-64 numbering, plus 200 to 202
/// for the kernel's own calls); `None` means ENOSYS.
pub fn decode(nr: u64) -> (r: Option<Syscall>)
    ensures
        r == syscall_of(nr),
        nr == 0 ==> r == Some(Syscall::Read),
        nr == 1 ==> r == Some(Syscall::Write),
        nr == 2 ==> r == Some(Syscall::Open),
        nr == 3 ==> r == Some(Syscall::Close),
        nr == 8 ==> r == Some(Syscall::Seek),
        nr == 9 ==> r == Some(Syscall::Mmap),
        nr == 20 ==> r == Some(Syscall::GetPid),
        nr == 39 ==> r == Some(Syscall::GetPpid),
        nr == 57 ==> r == Some(Syscall::Fork),
        nr == 59 ==> r == Some(Syscall::Exec),
        nr == 60 ==> r == Some(Syscall::Exit),
        nr == 61 ==> r == Some(Syscall::Wait),
        nr == 62 ==> r == Some(Syscall::Kill),
        nr == 200 ==> r == Some(Syscall::Ps),
        nr == 201 ==> r == Some(Syscall::BusPublish),
        nr == 202 ==> r == Some(Syscall::VgaWrite),
        !(nr == 0 || nr == 1 || nr == 2 || nr == 3 || nr == 8 || nr == 9 || nr == 20 || nr == 39 || nr == 57 || nr == 59 || nr == 60 || nr == 61 || nr == 62 || nr == 200 || nr == 201 || nr == 202) ==> r is None,
{
    match nr {
        0 => Some(Syscall::Read),
        1 => Some(Syscall::Write),
        2 => Some(Syscall::Open),
        3 => Some(Syscall::Close),
        8 => Some(Syscall::Seek),
        9 => Some(Syscall::Mmap),
        20 => Some(Syscall::GetPid),
        39 => Some(Syscall::GetPpid),
        57 => Some(Syscall::Fork),
        59 => Some(Syscall::Exec),
        60 => Some(Syscall::Exit),
        61 => Some(Syscall::Wait),
        62 => Some(Syscall::Kill),
        200 => Some(Syscall::Ps),
        201 => Some(Syscall::BusPublish),
        202 => Some(Syscall::VgaWrite),
        _ => None,
    }
}

/// `[addr, addr + len)` lies in user space and is at most 256 MiB long.
pub open spec fn user_range_ok(addr: u64, len: u64) -> bool {
    addr < USER_ADDR_LIMIT && len <= MAX_USER_LEN && addr + len <= USER_ADDR_LIMIT
}

/// Checks a user buffer (`user_range_ok`).
pub fn validate_user_ptr(addr: u64, len: u64) -> (b: bool)
    ensures
        b == user_range_ok(addr, len),
{
    if addr >= USER_ADDR_LIMIT {
        return false;
    }
    if len > MAX_USER_LEN {
        return false;
    }
    addr + len <= USER_ADDR_LIMIT
}

/// `write`: only standard output and error (descriptors 1 and 2) are
/// writable. Returns EBADF for another descriptor, 0 for an empty write,
/// EFAULT for a buffer outside user space, else `len`: the caller then
/// sends the `len` bytes at `buf_addr` to the serial port.
pub fn sys_write(fd: u64, buf_addr: u64, len: u64) -> (r: u64)
    ensures
        fd != 1 && fd != 2 ==> r == EBADF,
        (fd == 1 || fd == 2) && len == 0 ==> r == 0,
        (fd == 1 || fd == 2) && len != 0 && !user_range_ok(buf_addr, len) ==> r == EFAULT,
        (fd == 1 || fd == 2) && len != 0 && user_range_ok(buf_addr, len) ==> r == len,
{
    if fd != 1 && fd != 2 {
        return EBADF;
    }
    if len == 0 {
        return 0;
    }
    if !validate_user_ptr(buf_addr, len) {
        return EFAULT;
    }
    len
}

/// Bytes a read of standard input takes from the keyboard at most.
pub const STDIN_CHUNK: usize = 256;

/// The open descriptor `fd` of process `pid` in `t`, if there is one.
pub open spec fn open_entry(t: &ProcessTable, pid: u64, fd: int) -> Option<FileDescriptor> {
    if t.procs@.contains_key(pid) && 0 <= fd < t.procs@[pid].fd_table.entries@.len() && t.procs@[pid].fd_table.entries@[fd].active {
        Some(t.procs@[pid].fd_table.entries@[fd])
    } else {
        None
    }
}

/// `read`: standard input (descriptor 0) takes the pending keyboard bytes
/// up to the first newline (at most `len` and 256); another descriptor of
/// the running process `pid` reads its file from the descriptor's offset,
/// which advances. Returns the count (0 at end of file or for an empty
/// read), EFAULT for a buffer outside user space, EBADF for a descriptor
/// that is not open, ENOENT when the file cannot be read; and the bytes the
/// caller copies to `buf_addr`.
pub fn sys_read(
    table: &mut ProcessTable,
    vfs: &mut Vfs,
    bus: &mut CognitiveBus,
    kbd: &mut KbdBuffer,
    now: u64,
    pid: u64,
    fd: u32,
    buf_addr: u64,
    len: u64,
) -> (r: (u64, Vec<u8>))
    requires
        table_wf(old(table)),
    ensures
        table_wf(final(table)),
        final(table).pids == old(table).pids && final(table).created == old(table).created,
        final(table).terminated == old(table).terminated,
        replaced(old(table).procs@, final(table).procs@, pid),
        final(vfs)@ == old(vfs)@,
        !(len != 0 && user_range_ok(buf_addr, len) && fd == 0) ==> final(kbd)@ == old(kbd)@,
        !(len != 0 && user_range_ok(buf_addr, len) && fd != 0 && open_entry(old(table), pid, fd as int) is Some) ==> ({
            &&& final(table).procs@ == old(table).procs@
            &&& final(vfs).counters() == old(vfs).counters()
            &&& final(bus)@ == old(bus)@
        }),
        len == 0 ==> r.0 == 0 && r.1@.len() == 0,
        len != 0 && !user_range_ok(buf_addr, len) ==> r.0 == EFAULT && r.1@.len() == 0,
        len != 0 && user_range_ok(buf_addr, len) && fd == 0 ==> ({
            let q = old(kbd)@;
            let max = if len < STDIN_CHUNK { len as int } else { STDIN_CHUNK as int };
            let n = line_len(q, max);
            &&& r.0 == n && r.1@ == q.subrange(0, n)
            &&& final(kbd)@ == q.subrange(n, q.len() as int)
        }),
        len != 0 && user_range_ok(buf_addr, len) && fd != 0 && open_entry(old(table), pid, fd as int) is None ==> r.0
            == EBADF && r.1@.len() == 0,
        len != 0 && user_range_ok(buf_addr, len) && fd != 0 && open_entry(old(table), pid, fd as int) is Some ==> ({
            let e = open_entry(old(table), pid, fd as int)->0;
            let d = read_result(old(vfs)@, e.path@);
            &&& exists|rr: Result<Vec<u8>, VfsError>| read_done(old(vfs).counters(), final(vfs).counters(), old(bus)@, final(bus)@,
                old(vfs)@, e.path@, now, rr)
            &&& d is None ==> r.0 == ENOENT && r.1@.len() == 0 && final(table).procs@ == old(table).procs@
            &&& d is Some && e.offset >= d->0.len() ==> r.0 == 0 && r.1@.len() == 0
                && final(table).procs@ == old(table).procs@
            &&& d is Some && e.offset < d->0.len() ==> ({
                let data = d->0;
                let n = if data.len() - e.offset < len { data.len() - e.offset } else { len as int };
                let entries = old(table).procs@[pid].fd_table.entries@;
                &&& r.0 == n && r.1@ == data.subrange(e.offset as int, e.offset + n)
                &&& fds_now(old(table).procs@[pid], final(table).procs@[pid],
                    entries.update(fd as int, FileDescriptor { offset: (e.offset + n) as u64, ..e }))
            })
        }),
{
    if len == 0 {
        return (0, Vec::new());
    }
    if !validate_user_ptr(buf_addr, len) {
        return (EFAULT, Vec::new());
    }
    if fd == 0 {
        let mut temp = [0u8; 256];
        let max_read: usize = if len < 256 { len as usize } else { 256 };
        let n = kbd_read(kbd, &mut temp, max_read);
        proof {
            crate::process::lemma_line_len_bounds(old(kbd)@, max_read as int);
        }
        let out = copy_range(&temp, 0, n);
        return (n as u64, out);
    }
    let entry = match table.procs.get(pid) {
        Some(p) => match p.fd_table.get(fd as usize) {
            Some(e) => Some((e.path.clone(), e.offset)),
            None => None,
        },
        None => None,
    };
    let (path, offset) = match entry {
        Some(x) => x,
        None => return (EBADF, Vec::new()),
    };
    let data = match file_read(vfs, bus, now, path.as_str()) {
        Ok(d) => d,
        Err(_) => return (ENOENT, Vec::new()),
    };
    if offset >= data.len() as u64 {
        return (0, Vec::new());
    }
    let start = offset as usize;
    let avail = data.len() - start;
    let to_copy: usize = if (avail as u64) < len { avail } else { len as usize };
    let out = copy_range(data.as_slice(), start, start + to_copy);
    let _ = set_fd_offset(table, pid, fd as usize, offset + to_copy as u64);
    (to_copy as u64, out)
}

} // verus!

verus! {

/// `open`: opens the file whose name user space passed at `path_addr`
/// (`path`, `None` when it could not be read as text) in the first free
/// descriptor of process `pid`. The file must be readable under its name,
/// or else under "/bin/" and its name. Returns the descriptor, EFAULT for
/// a bad name, ENOENT for a missing file, EMFILE when no descriptor is free
/// (or there is no such process).
pub fn sys_open(
    table: &mut ProcessTable,
    vfs: &mut Vfs,
    bus: &mut CognitiveBus,
    now: u64,
    pid: u64,
    path_addr: u64,
    path: Option<String>,
    flags: u32,
) -> (r: u64)
    requires
        table_wf(old(table)),
    ensures
        table_wf(final(table)),
        final(table).pids == old(table).pids && final(table).created == old(table).created,
        final(table).terminated == old(table).terminated,
        replaced(old(table).procs@, final(table).procs@, pid),
        final(vfs)@ == old(vfs)@,
        !user_range_ok(path_addr, 1) || path is None ==> r == EFAULT && final(table).procs@ == old(table).procs@
            && final(vfs).counters() == old(vfs).counters() && final(bus)@ == old(bus)@,
        user_range_ok(path_addr, 1) && path is Some ==> ({
            let p = path->0@;
            let bin = "/bin/"@ + p;
            let o = old(vfs)@;
            let found = read_result(o, p) is Some || read_result(o, bin) is Some;
            &&& read_result(o, p) is Some ==> exists|rr: Result<Vec<u8>, VfsError>| read_done(old(vfs).counters(),
                final(vfs).counters(), old(bus)@, final(bus)@, o, p, now, rr)
            &&& read_result(o, p) is None ==> exists|mid: crate::fs::vfs::VfsMetrics, midb: vstd::multiset::Multiset<crate::ipc::IntentMessage>,
                r1: Result<Vec<u8>, VfsError>, r2: Result<Vec<u8>, VfsError>|
                read_done(old(vfs).counters(), mid, old(bus)@, midb, o, p, now, r1)
                && read_done(mid, final(vfs).counters(), midb, final(bus)@, o, bin, now, r2)
            &&& !found ==> r == ENOENT && final(table).procs@ == old(table).procs@
            &&& found && !old(table).procs@.contains_key(pid) ==> r == EMFILE && final(table).procs@ == old(table).procs@
            &&& found && old(table).procs@.contains_key(pid) ==> ({
                let e = old(table).procs@[pid].fd_table.entries@;
                let i = first_free(e);
                let n = final(table).procs@[pid].fd_table.entries@;
                &&& i == e.len() && e.len() >= MAX_FDS ==> r == EMFILE && fds_now(old(table).procs@[pid], final(table).procs@[pid], e)
                &&& i < e.len() || e.len() < MAX_FDS ==> r == i && same_but_fds(old(table).procs@[pid], final(table).procs@[pid])
                    && n.len() == (if i < e.len() { e.len() } else { e.len() + 1 }) && fresh_fd(n, i, p, flags)
                    && forall|j: int| 0 <= j < e.len() && j != i ==> #[trigger] n[j] == e[j]
            })
        }),
{
    if !validate_user_ptr(path_addr, 1) {
        return EFAULT;
    }
    let path = match path {
        Some(p) => p,
        None => return EFAULT,
    };
    if file_read(vfs, bus, now, path.as_str()).is_err() {
        let bin_path = String::from_str("/bin/").concat(path.as_str());
        if file_read(vfs, bus, now, bin_path.as_str()).is_err() {
            return ENOENT;
        }
    }
    match open_fd(table, pid, path.as_str(), flags) {
        Some(fd) => fd as u64,
        None => EMFILE,
    }
}

/// `close`: closes descriptor `fd` of process `pid`. The standard streams
/// (0 to 2) cannot be closed; EBADF for them and for a descriptor that is
/// not open, else 0.
pub fn sys_close(table: &mut ProcessTable, pid: u64, fd: u32) -> (r: u64)
    requires
        table_wf(old(table)),
    ensures
        table_wf(final(table)),
        final(table).pids == old(table).pids && final(table).created == old(table).created,
        final(table).terminated == old(table).terminated,
        replaced(old(table).procs@, final(table).procs@, pid),
        fd < 3 || open_entry(old(table), pid, fd as int) is None ==> r == EBADF,
        fd < 3 || !old(table).procs@.contains_key(pid) ==> final(table).procs@ == old(table).procs@,
        fd >= 3 && old(table).procs@.contains_key(pid) && open_entry(old(table), pid, fd as int) is None ==> fds_now(
            old(table).procs@[pid], final(table).procs@[pid], old(table).procs@[pid].fd_table.entries@),
        fd >= 3 && open_entry(old(table), pid, fd as int) is Some ==> r == 0 && ({
            let e = old(table).procs@[pid].fd_table.entries@;
            let n = final(table).procs@[pid].fd_table.entries@;
            &&& same_but_fds(old(table).procs@[pid], final(table).procs@[pid])
            &&& n.len() == e.len() && !n[fd as int].active
            &&& forall|j: int| 0 <= j < e.len() && j != fd ==> #[trigger] n[j] == e[j]
        }),
{
    if fd < 3 {
        return EBADF;
    }
    if close_fd_of(table, pid, fd as usize) {
        0
    } else {
        EBADF
    }
}

/// The offset a seek from descriptor offset `current` by `offset` gives:
/// `whence` 0 sets it, 1 moves it; other values are refused.
pub open spec fn seek_target(current: u64, offset: i64, whence: u32) -> Option<u64> {
    if whence == 0 {
        Some(offset as u64)
    } else if whence == 1 {
        Some((current as i64 + offset) as u64)
    } else {
        None
    }
}

/// `lseek`: moves the offset of descriptor `fd` of process `pid`
/// (`seek_target`; seeking from the end is not supported). Returns the new
/// offset, EINVAL for another `whence` (nothing changes), EBADF for a
/// descriptor that is not open.
pub fn sys_seek(table: &mut ProcessTable, pid: u64, fd: u32, offset: i64, whence: u32) -> (r: u64)
    requires
        table_wf(old(table)),
        open_entry(old(table), pid, fd as int) is Some && whence == 1 ==> i64::MIN <= open_entry(old(table), pid, fd as int)->0.offset as i64
            + offset <= i64::MAX,
    ensures
        table_wf(final(table)),
        final(table).pids == old(table).pids && final(table).created == old(table).created,
        final(table).terminated == old(table).terminated,
        replaced(old(table).procs@, final(table).procs@, pid),
        open_entry(old(table), pid, fd as int) is None ==> r == EBADF && final(table).procs@ == old(table).procs@,
        open_entry(old(table), pid, fd as int) is Some ==> ({
            let e = open_entry(old(table), pid, fd as int)->0;
            let t = seek_target(e.offset, offset, whence);
            &&& t is None ==> r == EINVAL && final(table).procs@ == old(table).procs@
            &&& t is Some ==> r == t->0 && fds_now(old(table).procs@[pid], final(table).procs@[pid],
                old(table).procs@[pid].fd_table.entries@.update(fd as int, FileDescriptor { offset: t->0, ..e }))
        }),
{
    let current = match table.procs.get(pid) {
        Some(p) => match p.fd_table.get(fd as usize) {
            Some(e) => e.offset,
            None => return EBADF,
        },
        None => return EBADF,
    };
    let new_offset = if whence == 0 {
        offset as u64
    } else if whence == 1 {
        (current as i64 + offset) as u64
    } else {
        return EINVAL;
    };
    let _ = set_fd_offset(table, pid, fd as usize, new_offset);
    new_offset
}

/// `getpid`: the running process.
pub fn sys_getpid(sched: &Scheduler) -> (r: u64)
    ensures
        r == sched.current_pid,
{
    sched.current_pid
}

/// The bus priority named by a system-call argument: 0 Low, 1 Normal,
/// 2 High, anything else Critical.
pub open spec fn priority_code(p: u32) -> Priority {
    if p == 0 {
        Priority::Low
    } else if p == 1 {
        Priority::Normal
    } else if p == 2 {
        Priority::High
    } else {
        Priority::Critical
    }
}

/// The message a `bus_publish` from `source` puts on the bus: to the
/// orchestrator, with the intent's low 32 bits, priority `p`, payload
/// `data` and stamp `timestamp`.
pub open spec fn user_message(source: ComponentId, intent: u64, p: Priority, data: u64, timestamp: u64) -> IntentMessage {
    IntentMessage {
        source,
        destination: ComponentId::Orchestrator,
        intent_id: (intent % 0x1_0000_0000) as u32,
        priority: p,
        payload: data,
        timestamp,
    }
}

/// The priority codes of `bus_publish`: 0 Low, 1 Normal, 2 High, every
/// larger code Critical.
pub proof fn lemma_priority_codes()
    ensures
        priority_code(0) == Priority::Low,
        priority_code(1) == Priority::Normal,
        priority_code(2) == Priority::High,
        forall|p: u32| p >= 3 ==> #[trigger] priority_code(p) == Priority::Critical,
{
}

/// `bus_publish`: publishes, from component `source` to the orchestrator,
/// intent `intent` (its low 32 bits) with the priority coded by `priority`
/// and payload `data`, stamped `timestamp`. Returns 0, or EAGAIN when the
/// bus is full (nothing is published then).
pub fn sys_bus_publish(bus: &mut CognitiveBus, source: ComponentId, intent: u64, priority: u32, data: u64, timestamp: u64) -> (r: u64)
    ensures
        ({
            let m = IntentMessage {
                source,
                destination: ComponentId::Orchestrator,
                intent_id: (intent % 0x1_0000_0000) as u32,
                priority: priority_code(priority),
                payload: data,
                timestamp,
            };
            &&& old(bus)@.len() < BUS_CAPACITY ==> r == 0 && final(bus)@ == old(bus)@.insert(m)
            &&& old(bus)@.len() >= BUS_CAPACITY ==> r == EAGAIN && final(bus)@ == old(bus)@
        }),
        old(bus)@.len() < BUS_CAPACITY && priority == 0 ==> final(bus)@ == old(bus)@.insert(
            user_message(source, intent, Priority::Low, data, timestamp)),
        old(bus)@.len() < BUS_CAPACITY && priority == 1 ==> final(bus)@ == old(bus)@.insert(
            user_message(source, intent, Priority::Normal, data, timestamp)),
        old(bus)@.len() < BUS_CAPACITY && priority == 2 ==> final(bus)@ == old(bus)@.insert(
            user_message(source, intent, Priority::High, data, timestamp)),
        old(bus)@.len() < BUS_CAPACITY && priority >= 3 ==> final(bus)@ == old(bus)@.insert(
            user_message(source, intent, Priority::Critical, data, timestamp)),
{
    let prio = if priority == 0 {
        Priority::Low
    } else if priority == 1 {
        Priority::Normal
    } else if priority == 2 {
        Priority::High
    } else {
        Priority::Critical
    };
    let id = (intent % 0x1_0000_0000) as u32;
    let msg = IntentMessage::new(source, ComponentId::Orchestrator, id, prio, data, timestamp);
    match publish(bus, msg) {
        Ok(()) => 0,
        Err(_) => EAGAIN,
    }
}

/// `getppid`: the parent of process `pid`, 0 when there is none.
pub fn sys_getppid(table: &ProcessTable, pid: u64) -> (r: u64)
    ensures
        table.procs@.contains_key(pid) ==> r == table.procs@[pid].ppid,
        !table.procs@.contains_key(pid) ==> r == 0,
{
    match get_ppid(table, pid) {
        Some(p) => p,
        None => 0,
    }
}

} // verus!

verus! {

/// `fork`: creates a child of the running process `pid` (a worker with
/// its name, owner and descriptors, starting at its entry point and stack)
/// in the address space `clone` makes from the parent's top-level page
/// table, and queues it. Returns the child's identifier, or ENOMEM when
/// there is no such process, `clone` fails or the table is full; nothing
/// changes then.
pub fn sys_fork<F>(table: &mut ProcessTable, sched: &mut Scheduler, pid: u64, clone: F) -> (r: u64)
    where
        F: FnOnce(u64) -> Option<u64>,
    requires
        table_wf(old(table)),
        old(table).pids.next < u64::MAX,
        forall|a: u64| clone.requires((a,)),
    ensures
        table_wf(final(table)),
        same_counters(old(sched), final(sched)),
        !old(table).procs@.contains_key(pid) ==> r == ENOMEM && final(table).procs@ == old(table).procs@
            && final(sched).queues() == old(sched).queues(),
        old(table).procs@.contains_key(pid) ==> exists|c: Option<u64>| #[trigger] clone.ensures((old(table).procs@[pid].pml4_phys,), c) && ({
            let p = old(table).procs@[pid];
            &&& c is None || old(table).procs@.len() >= MAX_PROCESSES ==> r == ENOMEM && final(table).procs@ == old(table).procs@
                && final(sched).queues() == old(sched).queues()
            &&& c is Some && old(table).procs@.len() < MAX_PROCESSES ==> ({
                let q = final(table).procs@[r];
                &&& spawned(old(table), final(table), r, pid, true)
                &&& q.name@ == p.name@ && q.role == AgentRole::Worker && q.ppid == pid && q.uid == p.uid && q.gid == p.gid
                &&& q.state == ProcessState::Ready && q.fd_table.entries@ == p.fd_table.entries@
                &&& q.pml4_phys == c->0 && q.entry_point == p.entry_point && q.stack_pointer == p.stack_pointer
                &&& final(sched).queues() == old(sched).queues().update(1, old(sched).queues()[1].push(r))
            })
        }),
{
    let (parent_pml4, parent_entry, parent_stack) = match table.procs.get(pid) {
        Some(p) => (p.pml4_phys, p.entry_point, p.stack_pointer),
        None => return ENOMEM,
    };
    let child_pml4 = match clone(parent_pml4) {
        Some(c) => c,
        None => return ENOMEM,
    };
    match fork_process(table, pid, child_pml4, parent_entry, parent_stack) {
        Ok(child) => {
            enqueue_process(sched, table, child);
            child
        },
        Err(_) => ENOMEM,
    }
}

/// What an `exec` comes to: a failure value for user space, or entering
/// the new program (switch to `pml4`, then to user mode at `entry` with
/// stack `stack`).
#[derive(Debug, Clone, Copy, PartialEq, Eq, Structural)]
pub enum ExecAction {
    Fail(u64),
    Enter { pml4: u64, entry: u64, stack: u64 },
}

/// The path `exec` loads for the name `p`: `p` itself when it starts
/// with '/', else "/bin/" and `p`.
pub open spec fn exec_path(p: Seq<char>) -> Seq<char> {
    if p.len() > 0 && p[0] == '/' {
        p
    } else {
        "/bin/"@ + p
    }
}

/// `exec`: replaces the program of process `pid` by the executable named
/// at `path_addr` (`path`, `None` when it could not be read as text),
/// read from the filesystem (`exec_path`) and loaded by `load` into a new
/// address space; the process takes its page table, entry point, stack and
/// the path as name. Fails with EFAULT for a bad name and ENOENT when the
/// file cannot be read or loaded (nothing changes then).
pub fn sys_exec<F>(
    table: &mut ProcessTable,
    vfs: &mut Vfs,
    bus: &mut CognitiveBus,
    now: u64,
    pid: u64,
    path_addr: u64,
    path: Option<String>,
    load: F,
) -> (r: ExecAction)
    where
        F: FnOnce(Vec<u8>) -> Result<ElfLoadResult, ElfError>,
    requires
        table_wf(old(table)),
        forall|v: Vec<u8>| load.requires((v,)),
    ensures
        table_wf(final(table)),
        final(table).pids == old(table).pids && final(table).created == old(table).created,
        final(table).terminated == old(table).terminated,
        replaced(old(table).procs@, final(table).procs@, pid),
        final(vfs)@ == old(vfs)@,
        !user_range_ok(path_addr, 1) || path is None ==> r == ExecAction::Fail(EFAULT) && final(table).procs@ == old(table).procs@
            && final(vfs).counters() == old(vfs).counters() && final(bus)@ == old(bus)@,
        user_range_ok(path_addr, 1) && path is Some ==> ({
            let full = exec_path(path->0@);
            let o = old(vfs)@;
            &&& exists|rr: Result<Vec<u8>, VfsError>| read_done(old(vfs).counters(), final(vfs).counters(), old(bus)@, final(bus)@, o, full, now, rr)
            &&& read_result(o, full) is None ==> r == ExecAction::Fail(ENOENT) && final(table).procs@ == old(table).procs@
            &&& read_result(o, full) matches Some(d) ==> exists|v: Vec<u8>, res: Result<ElfLoadResult, ElfError>|
                v@ == d && #[trigger] load.ensures((v,), res) && ({
                &&& res is Err ==> r == ExecAction::Fail(ENOENT) && final(table).procs@ == old(table).procs@
                &&& res matches Ok(l) ==> r == (ExecAction::Enter { pml4: l.pml4_phys, entry: l.entry_point, stack: l.stack_pointer })
                    && (old(table).procs@.contains_key(pid) ==> final(table).procs@[pid].name@ == full
                        && final(table).procs@[pid] == (crate::process::task::Process {
                            pml4_phys: l.pml4_phys,
                            entry_point: l.entry_point,
                            stack_pointer: l.stack_pointer,
                            name: final(table).procs@[pid].name,
                            ..old(table).procs@[pid]
                        }))
                    && (!old(table).procs@.contains_key(pid) ==> final(table).procs@ == old(table).procs@)
            })
        }),
{
    if !validate_user_ptr(path_addr, 1) {
        return ExecAction::Fail(EFAULT);
    }
    let path = match path {
        Some(p) => p,
        None => return ExecAction::Fail(EFAULT),
    };
    let slash = path.as_str().unicode_len() > 0 && path.as_str().get_char(0) == '/';
    let vfs_path = if slash {
        path
    } else {
        let p = String::from_str("/bin/").concat(path.as_str());
        p
    };
    let data = match file_read(vfs, bus, now, vfs_path.as_str()) {
        Ok(d) => d,
        Err(_) => return ExecAction::Fail(ENOENT),
    };
    let ghost v = data;
    match load(data) {
        Ok(l) => {
            let _ = replace_image(table, pid, l.pml4_phys, l.entry_point, l.stack_pointer, vfs_path);
            ExecAction::Enter { pml4: l.pml4_phys, entry: l.entry_point, stack: l.stack_pointer }
        },
        Err(_) => ExecAction::Fail(ENOENT),
    }
}

/// `exec` with the kernel's ELF loader: as `sys_exec`, the file being
/// loaded by `load_elf_binary` into a new address space from the frames of
/// `loader`'s pool. Also returns the loaded image, whose memory writes the
/// caller carries out before entering it.
pub fn sys_exec_elf(
    table: &mut ProcessTable,
    vfs: &mut Vfs,
    bus: &mut CognitiveBus,
    now: u64,
    pid: u64,
    path_addr: u64,
    path: Option<String>,
    loader: &mut ElfLoader,
) -> (r: (ExecAction, Option<ElfImage>))
    requires
        table_wf(old(table)),
        pool_wf(old(loader).pool),
        old(loader).pool.initialized ==> pool_fits(old(loader).pool),
    ensures
        table_wf(final(table)),
        final(table).pids == old(table).pids && final(table).created == old(table).created,
        final(table).terminated == old(table).terminated,
        replaced(old(table).procs@, final(table).procs@, pid),
        final(vfs)@ == old(vfs)@,
        final(loader).phys_offset == old(loader).phys_offset,
        r.1 is None ==> final(table).procs@ == old(table).procs@,
        !user_range_ok(path_addr, 1) || path is None ==> r == (ExecAction::Fail(EFAULT), None::<ElfImage>)
            && final(vfs).counters() == old(vfs).counters() && final(bus)@ == old(bus)@ && final(loader).pool == old(loader).pool,
        user_range_ok(path_addr, 1) && path is Some ==> ({
            let full = exec_path(path->0@);
            let o = old(vfs)@;
            let p0 = old(loader).pool;
            let p1 = final(loader).pool;
            &&& exists|rr: Result<Vec<u8>, VfsError>| read_done(old(vfs).counters(), final(vfs).counters(), old(bus)@, final(bus)@, o, full, now, rr)
            &&& read_result(o, full) is None ==> r == (ExecAction::Fail(ENOENT), None::<ElfImage>) && p1 == p0
            &&& read_result(o, full) matches Some(d) ==> {
                &&& r.1 is None ==> r.0 == ExecAction::Fail(ENOENT) && exists|e: ElfError| #[trigger] binary_result(p0, p1, d, Err(e))
                &&& r.1 matches Some(img) ==> binary_result(p0, p1, d, Ok(img))
                    && r.0 == (ExecAction::Enter { pml4: img.load.pml4_phys, entry: img.load.entry_point, stack: img.load.stack_pointer })
                    && (old(table).procs@.contains_key(pid) ==> final(table).procs@[pid] == (crate::process::task::Process {
                        pml4_phys: img.load.pml4_phys,
                        entry_point: img.load.entry_point,
                        stack_pointer: img.load.stack_pointer,
                        name: final(table).procs@[pid].name,
                        ..old(table).procs@[pid]
                    }) && final(table).procs@[pid].name@ == full)
                    && (!old(table).procs@.contains_key(pid) ==> final(table).procs@ == old(table).procs@)
            }
        }),
{
    if !validate_user_ptr(path_addr, 1) {
        return (ExecAction::Fail(EFAULT), None);
    }
    let path = match path {
        Some(p) => p,
        None => return (ExecAction::Fail(EFAULT), None),
    };
    let slash = path.as_str().unicode_len() > 0 && path.as_str().get_char(0) == '/';
    let vfs_path = if slash {
        path
    } else {
        let p = String::from_str("/bin/").concat(path.as_str());
        p
    };
    let data = match file_read(vfs, bus, now, vfs_path.as_str()) {
        Ok(d) => d,
        Err(_) => return (ExecAction::Fail(ENOENT), None),
    };
    match load_elf_binary(loader, data.as_slice()) {
        Ok(img) => {
            let _ = replace_image(table, pid, img.load.pml4_phys, img.load.entry_point, img.load.stack_pointer, vfs_path);
            let act = ExecAction::Enter { pml4: img.load.pml4_phys, entry: img.load.entry_point, stack: img.load.stack_pointer };
            (act, Some(img))
        },
        Err(e) => (ExecAction::Fail(ENOENT), None),
    }
}

/// `exit`: records exit code `code` (its low 32 bits) for the running
/// process `pid` and terminates it; nothing when `pid` is 0. The caller
/// then schedules another process.
pub fn sys_exit(table: &mut ProcessTable, pid: u64, code: u64)
    requires
        table_wf(old(table)),
    ensures
        table_wf(final(table)),
        final(table).pids == old(table).pids && final(table).created == old(table).created,
        replaced(old(table).procs@, final(table).procs@, pid),
        pid == 0 || !old(table).procs@.contains_key(pid) ==> final(table).procs@ == old(table).procs@,
        pid != 0 && old(table).procs@.contains_key(pid) ==> ({
            let o = old(table).procs@[pid];
            let n = final(table).procs@[pid];
            &&& n.exit_code == code as i32
            &&& n.state == ProcessState::Terminated
            &&& crate::process::task::same_identity(crate::process::task::Process { exit_code: o.exit_code, ..n }, o)
            &&& n.children@ == o.children@ && n.context == o.context && n.pml4_phys == o.pml4_phys
        }),
{
    if pid != 0 {
        set_exit_code(table, pid, code as i32);
        let _ = set_state(table, pid, ProcessState::Terminated);
    }
}

/// The value `wait` returns for child `child` that exited with `code`:
/// the child's identifier in the upper 32 bits (its low 32 bits) and the
/// exit code's 32 bits in the lower 32 bits.
pub open spec fn wait_value(child: u64, code: i32) -> u64 {
    (child << 32u64) | ((code as u32) as u64)
}

/// One poll of `wait` by process `pid`: the first exited child's
/// `wait_value`, ECHILD when there is no such process, `None` while no
/// child has exited (the caller polls again, then gives ECHILD).
pub fn sys_wait(table: &ProcessTable, pid: u64) -> (r: Option<u64>)
    ensures
        ({
            let m = table.procs@;
            let ch = m[pid].children@;
            let i = first_exited(m, ch);
            &&& !m.contains_key(pid) ==> r == Some(ECHILD)
            &&& m.contains_key(pid) && i < ch.len() ==> r == Some(wait_value(ch[i], m[ch[i]].exit_code))
            &&& m.contains_key(pid) && i == ch.len() ==> r is None
        }),
{
    match wait_for_child(table, pid) {
        Ok((child, code)) => Some((child << 32u64) | ((code as u32) as u64)),
        Err(ProcessError::WaitingForChild) => None,
        Err(_) => Some(ECHILD),
    }
}

/// `kill`: terminates process `target` (`process::kill`); 0, or EINVAL
/// when it cannot be killed.
pub fn sys_kill(table: &mut ProcessTable, target: u64) -> (r: u64)
    requires
        table_wf(old(table)),
    ensures
        table_wf(final(table)),
        final(table).pids == old(table).pids && final(table).created == old(table).created,
        replaced(old(table).procs@, final(table).procs@, target),
        !old(table).procs@.contains_key(target) || old(table).procs@[target].role == AgentRole::KernelThread
            || old(table).procs@[target].uid == 0 ==> r == EINVAL && final(table).procs@ == old(table).procs@
            && final(table).terminated == old(table).terminated,
        old(table).procs@.contains_key(target) && old(table).procs@[target].role != AgentRole::KernelThread
            && old(table).procs@[target].uid != 0 ==> r == 0 && final(table).procs@[target].state == ProcessState::Terminated
            && crate::process::task::same_but_state(old(table).procs@[target], final(table).procs@[target])
            && final(table).terminated == crate::arith::wrapping_inc(old(table).terminated),
{
    match kill(table, target) {
        Ok(()) => 0,
        Err(_) => EINVAL,
    }
}

/// Where anonymous memory is mapped (top-level entry 128).
pub const MMAP_BASE: u64 = 0x0000_4000_0000_0000;
/// Largest `mmap` (64 MiB).
pub const MMAP_MAX: u64 = 64 * 1024 * 1024;

/// `mmap`: the anonymous region to map for a request of `len` bytes: its
/// base (always `MMAP_BASE`) and number of pages, or EINVAL for an empty or
/// over-large request. The caller maps zeroed frames page by page
/// (user-accessible, writable, not executable) and returns the base, or
/// ENOMEM when a frame cannot be had or mapped.
pub fn sys_mmap(len: u64) -> (r: Result<(u64, u64), u64>)
    ensures
        len == 0 || len > MMAP_MAX ==> r == Err::<(u64, u64), u64>(EINVAL),
        len != 0 && len <= MMAP_MAX ==> r == Ok::<(u64, u64), u64>((MMAP_BASE, ((len + 4095) / 4096) as u64)),
{
    if len == 0 || len > MMAP_MAX {
        return Err(EINVAL);
    }
    Ok((MMAP_BASE, (len + 4095) / 4096))
}

/// Page-table flags of anonymous and demand-paged user memory: present,
/// writable, user-accessible, not executable.
pub const USER_DATA_FLAGS: u64 = 0x8000_0000_0000_0007;

/// Size of the VGA text screen.
pub const VGA_WIDTH: usize = 80;
pub const VGA_HEIGHT: usize = 25;

/// `vga_write`: where and what to write in the VGA text buffer for a
/// character at `row`, `col` (`color_char`: attribute in bits 8 to 15,
/// character in bits 0 to 7): the byte offset, the character and the
/// attribute; EINVAL outside the 80x25 screen.
pub fn sys_vga_write(row: usize, col: usize, color_char: u64) -> (r: Result<(usize, u8, u8), u64>)
    ensures
        row >= VGA_HEIGHT || col >= VGA_WIDTH ==> r == Err::<(usize, u8, u8), u64>(EINVAL),
        row < VGA_HEIGHT && col < VGA_WIDTH ==> r == Ok::<(usize, u8, u8), u64>((
            ((row * VGA_WIDTH + col) * 2) as usize,
            (color_char % 256) as u8,
            ((color_char / 256) % 256) as u8,
        )),
{
    if row >= VGA_HEIGHT || col >= VGA_WIDTH {
        return Err(EINVAL);
    }
    let ch = (color_char & 0xFF) as u8;
    let attr = ((color_char >> 8u64) & 0xFF) as u8;
    assert(ch == color_char % 256 && attr == (color_char / 256) % 256) by (bit_vector)
        requires
            ch == (color_char & 0xFF) as u8,
            attr == ((color_char >> 8u64) & 0xFF) as u8,
    ;
    let offset = (row * VGA_WIDTH + col) * 2;
    Ok((offset, ch, attr))
}


/// The `ps` report: a title, column headings and rule, a line per live
/// process in identifier order (`process_line`, indented by two spaces),
/// and the number of live processes.
pub open spec fn ps_report(table: &ProcessTable) -> Seq<Seq<char>> {
    let live = live_processes(table);
    seq!["\n[PS] Process Table:"@, "  PID  PPID  STATE        ROLE          NAME"@, "  ---  ----  -----------  -----------   ----"@]
        + live.map_values(|p: Process| "  "@ + process_line(p))
        + seq!["[PS] Total: "@ + decimal_chars(live.len()) + " active processes\n"@]
}

/// `ps`: the lines of the process report (`ps_report`), which the caller
/// writes to the serial console; the call then returns 0.
pub fn sys_ps(table: &ProcessTable) -> (r: Vec<String>)
    ensures
        r@.map_values(|s: String| s@) == ps_report(table),
{
    let mut out: Vec<String> = Vec::new();
    out.push(String::from_str("\n[PS] Process Table:"));
    out.push(String::from_str("  PID  PPID  STATE        ROLE          NAME"));
    out.push(String::from_str("  ---  ----  -----------  -----------   ----"));
    let ghost head = seq!["\n[PS] Process Table:"@, "  PID  PPID  STATE        ROLE          NAME"@, "  ---  ----  -----------  -----------   ----"@];
    assert(out@.map_values(|s: String| s@) =~= head);
    let n = table.procs.len();
    let ghost vs = table.procs.value_seq();
    let mut count: u64 = 0;
    let mut i: usize = 0;
    while i < n
        invariant
            i <= n,
            n == vs.len(),
            n == table.procs.key_seq().len(),
            vs == table.procs.value_seq(),
            count == vs.take(i as int).filter(|p: Process| is_live(p)).len(),
            count <= i,
            out@.map_values(|s: String| s@) == head + vs.take(i as int).filter(|p: Process| is_live(p)).map_values(
                |p: Process| "  "@ + process_line(p),
            ),
        decreases n - i,
    {
        let p = table.procs.value_at(i);
        let ghost before = vs.take(i as int).filter(|p: Process| is_live(p));
        proof {
            assert(vs.take(i + 1) =~= vs.take(i as int) + seq![vs[i as int]]);
            Seq::<Process>::filter_distributes_over_add(vs.take(i as int), seq![vs[i as int]], |p: Process| is_live(p));
        }
        if p.state != ProcessState::Terminated {
            let mut line = String::from_str("  ");
            let d = p.describe();
            line.append(d.as_str());
            let ghost old_out = out@;
            out.push(line);
            count = count + 1;
            proof {
                assert(seq![vs[i as int]].filter(|p: Process| is_live(p)) =~= seq![vs[i as int]]) by {
                    reveal_with_fuel(Seq::filter, 2);
                }
                assert(vs.take(i + 1).filter(|p: Process| is_live(p)) =~= before.push(vs[i as int]));
                assert(out@.map_values(|s: String| s@) =~= old_out.map_values(|s: String| s@).push("  "@ + process_line(vs[i as int])));
            }
        } else {
            proof {
                assert(seq![vs[i as int]].filter(|p: Process| is_live(p)) =~= Seq::<Process>::empty()) by {
                    reveal_with_fuel(Seq::filter, 2);
                }
                assert(vs.take(i + 1).filter(|p: Process| is_live(p)) =~= before);
            }
        }
        i += 1;
    }
    proof {
        assert(vs.take(n as int) =~= vs);
    }
    let mut total = String::from_str("[PS] Total: ");
    push_decimal_str(&mut total, count);
    total.append(" active processes\n");
    let ghost old_out = out@;
    out.push(total);
    assert(out@.map_values(|s: String| s@) =~= old_out.map_values(|s: String| s@).push(total@));
    out
}

} // verus!
