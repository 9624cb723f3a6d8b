//! Process descriptors: file descriptors, roles, states and the PID counter.

use vstd::prelude::*;
use crate::arch::context::{TaskContext, zero_context};
use crate::decimal::{decimal_chars, push_decimal_str};
use vstd::string::*;

verus! {

/// Most file descriptors a process may hold.
pub const MAX_FDS: usize = 16;

/// An open file of a process.
pub struct FileDescriptor {
    /// Path in the filesystem ("stdin", "stdout", "stderr" for the standard streams).
    pub path: String,
    /// Offset for the next read.
    pub offset: u64,
    /// 0 read-only, 1 write-only, 2 read-write.
    pub flags: u32,
    /// The slot is in use.
    pub active: bool,
}

impl FileDescriptor {
    /// An active descriptor for `path` at offset 0.
    pub fn new(path: &str, flags: u32) -> (d: Self)
        ensures
            d.path@ == path@,
            d.offset == 0,
            d.flags == flags,
            d.active,
    {
        FileDescriptor { path: path.to_owned(), offset: 0, flags, active: true }
    }

    /// An unused slot.
    pub fn empty() -> (d: Self)
        ensures
            d.path@.len() == 0,
            d.offset == 0,
            d.flags == 0,
            !d.active,
    {
        FileDescriptor { path: String::new(), offset: 0, flags: 0, active: false }
    }
}

/// The file descriptors of a process, indexed by number.
pub struct FdTable {
    pub entries: Vec<FileDescriptor>,
}

/// Slot `i` of `t` is an active descriptor for `path` with `flags` at offset 0.
pub open spec fn fresh_fd(t: Seq<FileDescriptor>, i: int, path: Seq<char>, flags: u32) -> bool {
    &&& t[i].path@ == path
    &&& t[i].offset == 0
    &&& t[i].flags == flags
    &&& t[i].active
}

/// The standard streams: stdin (0, read-only), stdout and stderr (1, 2, write-only).
pub open spec fn stdio_fds(t: Seq<FileDescriptor>) -> bool {
    &&& t.len() == 3
    &&& fresh_fd(t, 0, "stdin"@, 0)
    &&& fresh_fd(t, 1, "stdout"@, 1)
    &&& fresh_fd(t, 2, "stderr"@, 1)
}

/// The first inactive slot of `t`, or `t.len()` when every slot is active.
pub open spec fn first_free(t: Seq<FileDescriptor>) -> int {
    if exists|i: int| 0 <= i < t.len() && !(#[trigger] t[i]).active {
        choose|i: int| 0 <= i < t.len() && !(#[trigger] t[i]).active && forall|j: int| 0 <= j < i ==> (#[trigger] t[j]).active
    } else {
        t.len() as int
    }
}

impl FdTable {
    /// A table holding the standard streams.
    pub fn new_with_stdio() -> (t: Self)
        ensures
            stdio_fds(t.entries@),
    {
        let mut entries: Vec<FileDescriptor> = Vec::new();
        entries.push(FileDescriptor::new("stdin", 0));
        entries.push(FileDescriptor::new("stdout", 1));
        entries.push(FileDescriptor::new("stderr", 1));
        FdTable { entries }
    }

    /// A table without descriptors (kernel threads).
    pub fn empty() -> (t: Self)
        ensures
            t.entries@.len() == 0,
    {
        FdTable { entries: Vec::new() }
    }

    /// Opens `path`: reuses the first inactive slot, else appends one while
    /// fewer than `MAX_FDS` exist. Returns the descriptor number, or `None`
    /// (table unchanged) when every slot is active and there are `MAX_FDS`.
    pub fn alloc_fd(&mut self, path: &str, flags: u32) -> (r: Option<usize>)
        ensures
            ({
                let o = old(self).entries@;
                let i = first_free(o);
                &&& 0 <= i <= o.len()
                &&& r matches Some(k) ==> k as int == i
                &&& i == o.len() && o.len() >= MAX_FDS ==> r is None && final(self).entries@ == o
                &&& i < o.len() || o.len() < MAX_FDS ==> r == Some(i as usize)
                    && final(self).entries@.len() == (if i < o.len() { o.len() } else { o.len() + 1 })
                    && fresh_fd(final(self).entries@, i, path@, flags)
                    && forall|j: int| 0 <= j < o.len() && j != i ==> #[trigger] final(self).entries@[j] == o[j]
            }),
    {
        let ghost o = self.entries@;
        let mut i: usize = 0;
        while i < self.entries.len()
            invariant
                i <= self.entries@.len(),
                self.entries@ == o,
                o == old(self).entries@,
                forall|j: int| 0 <= j < i ==> (#[trigger] o[j]).active,
            decreases self.entries@.len() - i,
        {
            if !self.entries[i].active {
                proof {
                    assert(!o[i as int].active);
                    assert(exists|k: int| 0 <= k < o.len() && !(#[trigger] o[k]).active);
                    let c = first_free(o);
                    assert(0 <= c < o.len() && !o[c].active && forall|j: int| 0 <= j < c ==> (#[trigger] o[j]).active);
                    assert(c == i) by {
                        if c < i {
                            assert(o[c].active);
                        }
                        if c > i {
                            assert(o[i as int].active);
                        }
                    }
                }
                self.entries.set(i, FileDescriptor::new(path, flags));
                return Some(i);
            }
            i += 1;
        }
        proof {
            assert(!exists|k: int| 0 <= k < o.len() && !(#[trigger] o[k]).active);
        }
        if self.entries.len() < MAX_FDS {
            let fd = self.entries.len();
            self.entries.push(FileDescriptor::new(path, flags));
            Some(fd)
        } else {
            None
        }
    }

    /// Closes descriptor `fd`: true when it was active (its path is cleared).
    pub fn close_fd(&mut self, fd: usize) -> (b: bool)
        ensures
            b == (fd < old(self).entries@.len() && old(self).entries@[fd as int].active),
            !b ==> final(self).entries@ == old(self).entries@,
            b ==> final(self).entries@.len() == old(self).entries@.len()
                && !final(self).entries@[fd as int].active && final(self).entries@[fd as int].path@.len() == 0
                && final(self).entries@[fd as int].offset == old(self).entries@[fd as int].offset
                && final(self).entries@[fd as int].flags == old(self).entries@[fd as int].flags
                && forall|j: int| 0 <= j < old(self).entries@.len() && j != fd ==> #[trigger] final(self).entries@[j] == old(self).entries@[j],
    {
        if fd < self.entries.len() && self.entries[fd].active {
            let offset = self.entries[fd].offset;
            let flags = self.entries[fd].flags;
            self.entries.set(fd, FileDescriptor { path: String::new(), offset, flags, active: false });
            true
        } else {
            false
        }
    }

    /// Descriptor `fd`, when it is active.
    pub fn get(&self, fd: usize) -> (r: Option<&FileDescriptor>)
        ensures
            r is Some <==> fd < self.entries@.len() && self.entries@[fd as int].active,
            r matches Some(d) ==> *d == self.entries@[fd as int],
    {
        if fd < self.entries.len() && self.entries[fd].active {
            Some(&self.entries[fd])
        } else {
            None
        }
    }

    /// Descriptor `fd` for modification, when it is active.
    pub fn get_mut(&mut self, fd: usize) -> (r: Option<&mut FileDescriptor>)
        ensures
            r is Some <==> fd < old(self).entries@.len() && old(self).entries@[fd as int].active,
            r is None ==> final(self).entries@ == old(self).entries@,
            r matches Some(d) ==> *d == old(self).entries@[fd as int] && final(self).entries@ == old(self).entries@.update(fd as int, *final(d)),
    {
        if fd < self.entries.len() && self.entries[fd].active {
            Some(&mut self.entries[fd])
        } else {
            None
        }
    }
}

} // verus!

verus! {

/// The source of process identifiers: each is handed out once, in
/// increasing order from 1.
pub struct PidAllocator {
    pub next: u64,
}

impl PidAllocator {
    /// A counter whose first identifier is 1.
    pub fn new() -> (a: Self)
        ensures
            a.next == 1,
    {
        PidAllocator { next: 1 }
    }
}

/// Hands out the next identifier.
pub fn alloc_pid(alloc: &mut PidAllocator) -> (pid: u64)
    requires
        old(alloc).next < u64::MAX,
    ensures
        pid == old(alloc).next,
        final(alloc).next == old(alloc).next + 1,
{
    let pid = alloc.next;
    alloc.next = pid + 1;
    pid
}

/// The identifier the next allocation will return.
pub fn peek_next_pid(alloc: &PidAllocator) -> (pid: u64)
    ensures
        pid == alloc.next,
{
    alloc.next
}

/// Role of a process in the hierarchy.
#[derive(Debug, Clone, Copy, PartialEq, Eq, Structural)]
pub enum AgentRole {
    /// The unique root orchestrator.
    Matriarch,
    /// A domain leader under the matriarch or another sub-matriarch.
    SubMatriarch,
    /// A leaf under a sub-matriarch.
    Worker,
    /// A kernel-internal thread.
    KernelThread,
}

/// Execution state of a process.
#[derive(Debug, Clone, Copy, PartialEq, Eq, Structural)]
pub enum ProcessState {
    Ready,
    Running,
    Blocked,
    Terminated,
}

/// How a role is shown.
pub open spec fn role_label(r: AgentRole) -> Seq<char> {
    match r {
        AgentRole::Matriarch => "Matriarch"@,
        AgentRole::SubMatriarch => "SubMatriarch"@,
        AgentRole::Worker => "Worker"@,
        AgentRole::KernelThread => "KernelThread"@,
    }
}

impl AgentRole {
    /// The role's name (`role_label`).
    pub fn label(self) -> (s: &'static str)
        ensures
            s@ == role_label(self),
    {
        match self {
            AgentRole::Matriarch => "Matriarch",
            AgentRole::SubMatriarch => "SubMatriarch",
            AgentRole::Worker => "Worker",
            AgentRole::KernelThread => "KernelThread",
        }
    }
}

/// How a state is shown.
pub open spec fn state_label(s: ProcessState) -> Seq<char> {
    match s {
        ProcessState::Ready => "READY"@,
        ProcessState::Running => "RUNNING"@,
        ProcessState::Blocked => "BLOCKED"@,
        ProcessState::Terminated => "TERMINATED"@,
    }
}

impl ProcessState {
    /// The state's name (`state_label`).
    pub fn label(self) -> (s: &'static str)
        ensures
            s@ == state_label(self),
    {
        match self {
            ProcessState::Ready => "READY",
            ProcessState::Running => "RUNNING",
            ProcessState::Blocked => "BLOCKED",
            ProcessState::Terminated => "TERMINATED",
        }
    }
}

/// Scheduling priority given to each role (higher is more important).
pub open spec fn role_priority(role: AgentRole) -> u8 {
    match role {
        AgentRole::Matriarch => 20,
        AgentRole::SubMatriarch => 15,
        AgentRole::Worker => 5,
        AgentRole::KernelThread => 25,
    }
}

/// The allowed state changes: Ready to Running, Running to Ready or
/// Blocked, Blocked to Ready, and anything to Terminated.
pub open spec fn transition_allowed(from: ProcessState, to: ProcessState) -> bool {
    ||| from == ProcessState::Ready && to == ProcessState::Running
    ||| from == ProcessState::Running && to == ProcessState::Ready
    ||| from == ProcessState::Running && to == ProcessState::Blocked
    ||| from == ProcessState::Blocked && to == ProcessState::Ready
    ||| to == ProcessState::Terminated
}

/// Termination is final: the only change allowed from `Terminated` is to
/// `Terminated` itself.
pub proof fn lemma_terminated_is_final(to: ProcessState)
    ensures
        transition_allowed(ProcessState::Terminated, to) <==> to == ProcessState::Terminated,
{
}

/// A process.
pub struct Process {
    pub pid: u64,
    /// Parent identifier (0: none).
    pub ppid: u64,
    pub name: String,
    pub role: AgentRole,
    pub state: ProcessState,
    pub uid: u32,
    pub gid: u32,
    pub priority: u8,
    pub children: Vec<u64>,
    pub context: TaskContext,
    /// Physical address of the top-level page table.
    pub pml4_phys: u64,
    /// Scheduler ticks spent waiting (for aging).
    pub wait_ticks: u64,
    pub fd_table: FdTable,
    pub exit_code: i32,
    /// Entry point and stack of a user-space process.
    pub entry_point: u64,
    pub stack_pointer: u64,
}

/// `p` is a process as `Process::new` makes it.
pub open spec fn fresh_process(p: Process, pid: u64, name: Seq<char>, role: AgentRole, ppid: u64, uid: u32, gid: u32) -> bool {
    &&& new_fields(p, pid, name, role, ppid, uid, gid)
    &&& p.children@.len() == 0
}

/// Every field of `p` but its children is as `Process::new` sets it.
pub open spec fn new_fields(p: Process, pid: u64, name: Seq<char>, role: AgentRole, ppid: u64, uid: u32, gid: u32) -> bool {
    &&& p.pid == pid
    &&& p.ppid == ppid
    &&& p.name@ == name
    &&& p.role == role
    &&& p.state == ProcessState::Ready
    &&& p.uid == uid
    &&& p.gid == gid
    &&& p.priority == role_priority(role)
    &&& p.context == zero_context()
    &&& p.pml4_phys == 0
    &&& p.wait_ticks == 0
    &&& stdio_fds(p.fd_table.entries@)
    &&& p.exit_code == 0
    &&& p.entry_point == 0
    &&& p.stack_pointer == 0
}

impl Process {
    /// A ready process with the next identifier, the standard streams, and
    /// the priority of its role.
    pub fn new(alloc: &mut PidAllocator, name: &str, role: AgentRole, ppid: u64, uid: u32, gid: u32) -> (p: Self)
        requires
            old(alloc).next < u64::MAX,
        ensures
            fresh_process(p, old(alloc).next, name@, role, ppid, uid, gid),
            final(alloc).next == old(alloc).next + 1,
    {
        let priority: u8 = match role {
            AgentRole::Matriarch => 20,
            AgentRole::SubMatriarch => 15,
            AgentRole::Worker => 5,
            AgentRole::KernelThread => 25,
        };
        Process {
            pid: alloc_pid(alloc),
            ppid,
            name: name.to_owned(),
            role,
            state: ProcessState::Ready,
            uid,
            gid,
            priority,
            children: Vec::new(),
            context: TaskContext::zero(),
            pml4_phys: 0,
            wait_ticks: 0,
            fd_table: FdTable::new_with_stdio(),
            exit_code: 0,
            entry_point: 0,
            stack_pointer: 0,
        }
    }

    /// A user-space worker (uid and gid 1000) starting at `entry` on `stack`
    /// with page table `pml4`.
    pub fn new_userspace(alloc: &mut PidAllocator, name: &str, ppid: u64, entry: u64, stack: u64, pml4: u64) -> (p: Self)
        requires
            old(alloc).next < u64::MAX,
        ensures
            p.pid == old(alloc).next && p.ppid == ppid && p.name@ == name@ && p.role == AgentRole::Worker,
            p.state == ProcessState::Ready && p.uid == 1000 && p.gid == 1000 && p.priority == role_priority(AgentRole::Worker),
            p.children@.len() == 0 && p.context == zero_context() && p.wait_ticks == 0 && p.exit_code == 0,
            stdio_fds(p.fd_table.entries@),
            p.entry_point == entry && p.stack_pointer == stack && p.pml4_phys == pml4,
            final(alloc).next == old(alloc).next + 1,
    {
        let mut p = Process::new(alloc, name, AgentRole::Worker, ppid, 1000, 1000);
        p.entry_point = entry;
        p.stack_pointer = stack;
        p.pml4_phys = pml4;
        p
    }

    /// A kernel thread (uid and gid 0, no parent, no descriptors).
    pub fn new_kernel(alloc: &mut PidAllocator, name: &str) -> (p: Self)
        requires
            old(alloc).next < u64::MAX,
        ensures
            p.pid == old(alloc).next && p.ppid == 0 && p.name@ == name@ && p.role == AgentRole::KernelThread,
            p.state == ProcessState::Ready && p.uid == 0 && p.gid == 0 && p.priority == role_priority(AgentRole::KernelThread),
            p.children@.len() == 0 && p.context == zero_context() && p.wait_ticks == 0 && p.exit_code == 0,
            p.fd_table.entries@.len() == 0,
            p.entry_point == 0 && p.stack_pointer == 0 && p.pml4_phys == 0,
            final(alloc).next == old(alloc).next + 1,
    {
        let mut p = Process::new(alloc, name, AgentRole::KernelThread, 0, 0, 0);
        p.fd_table = FdTable::empty();
        p
    }

    /// Records `child_pid` as a child.
    pub fn add_child(&mut self, child_pid: u64)
        ensures
            final(self).children@ == old(self).children@.push(child_pid),
            same_but_children(*old(self), *final(self)),
    {
        self.children.push(child_pid);
    }

    /// Whether the state may change to `new_state` (`transition_allowed`).
    pub fn can_transition_to(&self, new_state: ProcessState) -> (b: bool)
        ensures
            b == transition_allowed(self.state, new_state),
    {
        match (self.state, new_state) {
            (ProcessState::Ready, ProcessState::Running) => true,
            (ProcessState::Running, ProcessState::Ready) => true,
            (ProcessState::Running, ProcessState::Blocked) => true,
            (ProcessState::Blocked, ProcessState::Ready) => true,
            (_, ProcessState::Terminated) => true,
            _ => false,
        }
    }

    /// Changes the state when the transition is allowed; returns whether it was.
    pub fn set_state(&mut self, new_state: ProcessState) -> (b: bool)
        ensures
            b == transition_allowed(old(self).state, new_state),
            final(self).state == (if b { new_state } else { old(self).state }),
            same_but_state(*old(self), *final(self)),
    {
        if self.can_transition_to(new_state) {
            self.state = new_state;
            true
        } else {
            false
        }
    }

    /// Sets the page-table address.
    pub fn set_pml4_phys(&mut self, pml4: u64)
        ensures
            final(self).pml4_phys == pml4,
            same_but_pml4(*old(self), *final(self)),
    {
        self.pml4_phys = pml4;
    }

    /// The saved context, for modification.
    pub fn get_context_mut(&mut self) -> (c: &mut TaskContext)
        ensures
            *c == old(self).context,
            final(self).context == *final(c),
            same_but_context(*old(self), *final(self)),
    {
        &mut self.context
    }

    /// The saved context.
    pub fn get_context(&self) -> (c: &TaskContext)
        ensures
            *c == self.context,
    {
        &self.context
    }

    /// The process has not terminated.
    pub fn is_alive(&self) -> (b: bool)
        ensures
            b == (self.state != ProcessState::Terminated),
    {
        self.state != ProcessState::Terminated
    }
}

/// Fields other than those named agree.
pub open spec fn same_identity(a: Process, b: Process) -> bool {
    &&& a.pid == b.pid
    &&& a.ppid == b.ppid
    &&& a.name@ == b.name@
    &&& a.role == b.role
    &&& a.uid == b.uid
    &&& a.gid == b.gid
    &&& a.priority == b.priority
    &&& a.wait_ticks == b.wait_ticks
    &&& a.fd_table.entries@ == b.fd_table.entries@
    &&& a.exit_code == b.exit_code
    &&& a.entry_point == b.entry_point
    &&& a.stack_pointer == b.stack_pointer
}

/// `b` is `a` with only its children changed.
pub open spec fn same_but_children(a: Process, b: Process) -> bool {
    same_identity(a, b) && a.state == b.state && a.context == b.context && a.pml4_phys == b.pml4_phys
}

/// `b` is `a` with only its state changed.
pub open spec fn same_but_state(a: Process, b: Process) -> bool {
    same_identity(a, b) && a.children@ == b.children@ && a.context == b.context && a.pml4_phys == b.pml4_phys
}

/// `b` is `a` with only its page-table address changed.
pub open spec fn same_but_pml4(a: Process, b: Process) -> bool {
    same_identity(a, b) && a.children@ == b.children@ && a.context == b.context && a.state == b.state
}

/// `b` is `a` with only its context changed.
pub open spec fn same_but_context(a: Process, b: Process) -> bool {
    same_identity(a, b) && a.children@ == b.children@ && a.pml4_phys == b.pml4_phys && a.state == b.state
}


/// How a process is shown: its identifier, role, name, state and parent,
/// as "[PID 2 | Worker | name | READY | ppid=1]".
pub open spec fn process_line(p: Process) -> Seq<char> {
    "[PID "@ + decimal_chars(p.pid as nat) + " | "@ + role_label(p.role) + " | "@ + p.name@ + " | "@ + state_label(p.state)
        + " | ppid="@ + decimal_chars(p.ppid as nat) + "]"@
}

impl Process {
    /// The process shown as one line (`process_line`).
    pub fn describe(&self) -> (s: String)
        ensures
            s@ == process_line(*self),
    {
        let mut s = String::from_str("[PID ");
        push_decimal_str(&mut s, self.pid);
        s.append(" | ");
        s.append(self.role.label());
        s.append(" | ");
        s.append(self.name.as_str());
        s.append(" | ");
        s.append(self.state.label());
        s.append(" | ppid=");
        push_decimal_str(&mut s, self.ppid);
        s.append("]");
        s
    }
}

} // verus!
