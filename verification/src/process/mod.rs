//! Processes: descriptors and the process table with its hierarchy rules.

pub mod task;

use vstd::prelude::*;

verus! {

/// Capacity of the keyboard input buffer.
pub const KBD_BUF_SIZE: usize = 256;
/// The byte ending a line.
pub const NEWLINE: u8 = 0x0A;

/// Keyboard input waiting to be read: a ring of `KBD_BUF_SIZE` bytes.
pub struct KbdBuffer {
    buf: [u8; KBD_BUF_SIZE],
    read_pos: usize,
    write_pos: usize,
    count: usize,
}

impl View for KbdBuffer {
    type V = Seq<u8>;

    /// The pending bytes, oldest first.
    closed spec fn view(&self) -> Seq<u8> {
        Seq::new(self.count as nat, |i: int| self.buf@[(self.read_pos + i) % (KBD_BUF_SIZE as int)])
    }
}

impl KbdBuffer {
    #[verifier::type_invariant]
    spec fn inv(self) -> bool {
        &&& self.read_pos < KBD_BUF_SIZE
        &&& self.write_pos < KBD_BUF_SIZE
        &&& self.count <= KBD_BUF_SIZE
        &&& self.write_pos == (self.read_pos + self.count) % (KBD_BUF_SIZE as int)
    }

    /// An empty buffer.
    pub fn new() -> (k: Self)
        ensures
            k@ == Seq::<u8>::empty(),
    {
        let k = KbdBuffer { buf: [0u8; 256], read_pos: 0, write_pos: 0, count: 0 };
        assert(k@ =~= Seq::<u8>::empty());
        k
    }

    /// Appends a byte; a full buffer drops it.
    pub fn push(&mut self, byte: u8)
        ensures
            old(self)@.len() < KBD_BUF_SIZE ==> final(self)@ == old(self)@.push(byte),
            old(self)@.len() >= KBD_BUF_SIZE ==> final(self)@ == old(self)@,
    {
        proof {
            use_type_invariant(&*self);
        }
        if self.count < KBD_BUF_SIZE {
            let ghost before = self@;
            let w = self.write_pos;
            let mut buf = self.buf;
            buf[w] = byte;
            *self = KbdBuffer { buf, read_pos: self.read_pos, write_pos: (w + 1) % KBD_BUF_SIZE, count: self.count + 1 };
            proof {
                assert forall|i: int| 0 <= i < before.len() implies #[trigger] self@[i] == before[i] by {
                    assert(w == (self.read_pos + before.len()) % 256);
                    assert((self.read_pos + i) % 256 != w);
                }
                assert(self@[before.len() as int] == byte);
                assert(self@ =~= before.push(byte));
            }
        }
    }

    /// Removes and returns the oldest byte.
    pub fn pop(&mut self) -> (r: Option<u8>)
        ensures
            old(self)@.len() == 0 ==> r is None && final(self)@ == old(self)@,
            old(self)@.len() > 0 ==> r == Some(old(self)@[0]) && final(self)@ == old(self)@.drop_first(),
    {
        proof {
            use_type_invariant(&*self);
        }
        if self.count > 0 {
            let ghost before = self@;
            let byte = self.buf[self.read_pos];
            *self = KbdBuffer {
                buf: self.buf,
                read_pos: (self.read_pos + 1) % KBD_BUF_SIZE,
                write_pos: self.write_pos,
                count: self.count - 1,
            };
            proof {
                assert forall|i: int| 0 <= i < self@.len() implies self@[i] == before.drop_first()[i] by {
                    let r0 = (self.read_pos + i) % 256;
                    assert(r0 == (old(self).read_pos + i + 1) % 256);
                }
                assert(self@ =~= before.drop_first());
            }
            Some(byte)
        } else {
            None
        }
    }

    /// Number of pending bytes.
    pub fn available(&self) -> (n: usize)
        ensures
            n == self@.len(),
    {
        self.count
    }
}

/// Queues a byte typed on the keyboard (dropped when the buffer is full).
pub fn kbd_push_byte(kbd: &mut KbdBuffer, byte: u8)
    ensures
        old(kbd)@.len() < KBD_BUF_SIZE ==> final(kbd)@ == old(kbd)@.push(byte),
        old(kbd)@.len() >= KBD_BUF_SIZE ==> final(kbd)@ == old(kbd)@,
{
    kbd.push(byte);
}

/// How many bytes a read of at most `max` bytes takes from `q`: up to and
/// including the first newline, at most `max`, at most what is there.
pub open spec fn line_len(q: Seq<u8>, max: int) -> int
    decreases q.len(),
{
    if max <= 0 || q.len() == 0 {
        0
    } else if q[0] == NEWLINE {
        1
    } else {
        1 + line_len(q.drop_first(), max - 1)
    }
}

/// A line read takes between nothing and all of the pending bytes, and at
/// most what was asked for.
pub proof fn lemma_line_len_bounds(q: Seq<u8>, max: int)
    ensures
        0 <= line_len(q, max) <= q.len(),
        max >= 0 ==> line_len(q, max) <= max,
    decreases q.len(),
{
    if max > 0 && q.len() > 0 && q[0] != NEWLINE {
        lemma_line_len_bounds(q.drop_first(), max - 1);
    }
}

/// Moves pending keyboard bytes into `buf`: at most `len` and at most
/// `buf.len()` of them, stopping after a newline. Returns how many.
pub fn kbd_read(kbd: &mut KbdBuffer, buf: &mut [u8], len: usize) -> (n: usize)
    ensures
        ({
            let q = old(kbd)@;
            let max = if len < old(buf)@.len() { len as int } else { old(buf)@.len() as int };
            &&& n == line_len(q, max)
            &&& final(kbd)@ == q.subrange(n as int, q.len() as int)
            &&& final(buf)@.len() == old(buf)@.len()
            &&& final(buf)@.subrange(0, n as int) == q.subrange(0, n as int)
            &&& final(buf)@.subrange(n as int, old(buf)@.len() as int) == old(buf)@.subrange(n as int, old(buf)@.len() as int)
        }),
{
    let ghost q = kbd@;
    let max = if len < buf.len() { len } else { buf.len() };
    proof {
        lemma_line_len_bounds(q, max as int);
        assert(q.subrange(0, q.len() as int) =~= q);
        assert(buf@.subrange(0, buf@.len() as int) =~= old(buf)@);
    }
    let mut read: usize = 0;
    while read < max
        invariant_except_break
            read <= max,
            read + line_len(q.subrange(read as int, q.len() as int), max - read) == line_len(q, max as int),
        invariant
            read <= max,
            max <= old(buf)@.len(),
            read <= q.len(),
            kbd@ == q.subrange(read as int, q.len() as int),
            buf@.len() == old(buf)@.len(),
            buf@.subrange(0, read as int) == q.subrange(0, read as int),
            buf@.subrange(read as int, buf@.len() as int) == old(buf)@.subrange(read as int, buf@.len() as int),
            q == old(kbd)@,
            max == (if len < old(buf)@.len() { len as int } else { old(buf)@.len() as int }),
        ensures
            read == line_len(q, max as int),
        decreases max - read,
    {
        let ghost rest = kbd@;
        match kbd.pop() {
            Some(b) => {
                let ghost before = buf@;
                buf[read] = b;
                proof {
                    assert(rest.drop_first() =~= q.subrange(read + 1, q.len() as int));
                    assert(buf@.subrange(0, read + 1) =~= q.subrange(0, read + 1));
                    assert(buf@.subrange(read + 1, buf@.len() as int) =~= old(buf)@.subrange(read + 1, buf@.len() as int)) by {
                        assert forall|j: int| read < j < buf@.len() implies buf@[j] == old(buf)@[j] by {
                            assert(before.subrange(read as int, before.len() as int)[j - read] == old(buf)@.subrange(read as int, before.len() as int)[j - read]);
                        }
                    }
                }
                read += 1;
                if b == NEWLINE {
                    break;
                }
            },
            None => {
                break;
            },
        }
    }
    read
}

} // verus!

use crate::intmap::IntMap;
use crate::arith::{inc, wrapping_inc};
use crate::process::task::{
    AgentRole, FdTable, FileDescriptor, PidAllocator, Process, ProcessState, new_fields, process_line, same_but_children,
    same_but_state, transition_allowed, first_free, fresh_fd, MAX_FDS,
};
use crate::arch::context::TaskContext;

verus! {

/// Most processes the table holds.
pub const MAX_PROCESSES: usize = 256;

/// Errors of process management.
#[derive(Debug, Clone, Copy, PartialEq, Eq, Structural)]
pub enum ProcessError {
    MatriarchExists,
    ParentNotFound,
    /// The parent's role may not have a child of the requested role.
    HierarchyViolation,
    NotFound,
    InvalidTransition,
    /// Kernel threads and root-owned processes cannot be killed.
    KillProtected,
    LimitReached,
    FdError,
    WaitingForChild,
}

/// The process table: processes by identifier, the identifier counter, and
/// how many processes were created and terminated.
pub struct ProcessTable {
    pub procs: IntMap<Process>,
    pub pids: PidAllocator,
    pub created: u64,
    pub terminated: u64,
}

/// A living matriarch.
pub open spec fn alive_matriarch(p: Process) -> bool {
    p.role == AgentRole::Matriarch && p.state != ProcessState::Terminated
}

/// At most one living matriarch.
pub open spec fn one_matriarch(m: Map<u64, Process>) -> bool {
    forall|a: u64, b: u64|
        #[trigger] m.contains_key(a) && #[trigger] m.contains_key(b) && alive_matriarch(m[a]) && alive_matriarch(m[b]) ==> a == b
}

/// Some living matriarch.
pub open spec fn has_alive_matriarch(m: Map<u64, Process>) -> bool {
    exists|k: u64| #[trigger] m.contains_key(k) && alive_matriarch(m[k])
}

/// The table is consistent: each process is stored under its own
/// identifier, below the next one to hand out, and at most one matriarch lives.
pub open spec fn table_wf(t: &ProcessTable) -> bool {
    &&& t.pids.next >= 1
    &&& forall|k: u64| #[trigger] t.procs@.contains_key(k) ==> t.procs@[k].pid == k && 1 <= k < t.pids.next
    &&& one_matriarch(t.procs@)
}

/// `n` is `o` with process `pid` added and, when `link`, recorded as a
/// child of `parent`.
pub open spec fn added(o: Map<u64, Process>, n: Map<u64, Process>, pid: u64, parent: u64, link: bool) -> bool {
    &&& n.dom() == o.dom().insert(pid)
    &&& forall|k: u64| #[trigger] n.contains_key(k) && k != pid && !(link && k == parent) ==> n[k] == o[k]
    &&& link && parent != pid ==> n[parent].children@ == o[parent].children@.push(pid) && same_but_children(o[parent], n[parent])
    &&& n[pid].children@ == (if link && parent == pid { seq![pid] } else { Seq::<u64>::empty() })
}

impl ProcessTable {
    /// An empty table whose first identifier is 1.
    pub fn new() -> (t: Self)
        ensures
            table_wf(&t),
            t.procs@ == Map::<u64, Process>::empty(),
            t.pids.next == 1,
            t.created == 0,
            t.terminated == 0,
    {
        ProcessTable { procs: IntMap::new(), pids: PidAllocator::new(), created: 0, terminated: 0 }
    }
}

/// Inserts the new process `p`, records it as a child of `parent` when
/// `link` and the parent is then in the table, and counts the creation.
fn register(table: &mut ProcessTable, p: Process, parent: u64, link: bool) -> (pid: u64)
    requires
        table_wf(old(table)),
        p.pid < old(table).pids.next,
        !old(table).procs@.contains_key(p.pid),
        p.pid >= 1,
        p.children@.len() == 0,
        alive_matriarch(p) ==> !has_alive_matriarch(old(table).procs@),
    ensures
        pid == p.pid,
        table_wf(final(table)),
        final(table).pids == old(table).pids,
        final(table).created == wrapping_inc(old(table).created),
        final(table).terminated == old(table).terminated,
        added(old(table).procs@, final(table).procs@, pid, parent, link && (old(table).procs@.contains_key(parent) || parent == pid)),
        same_but_children(p, final(table).procs@[pid]),
{
    let pid = p.pid;
    let ghost o = table.procs@;
    let ghost pv = p;
    table.procs.insert(pid, p);
    let ghost m1 = table.procs@;
    if link {
        match table.procs.remove(parent) {
            Some(mut q) => {
                let ghost q0 = q;
                q.add_child(pid);
                table.procs.insert(parent, q);
                proof {
                    assert(table.procs@ == m1.insert(parent, q));
                    assert(q0 == m1[parent]);
                }
            },
            None => {
                proof {
                    assert(table.procs@ =~= m1);
                }
            },
        }
    }
    table.created = inc(table.created);
    proof {
        let n = table.procs@;
        let l = link && (o.contains_key(parent) || parent == pid);
        assert(m1 == o.insert(pid, pv));
        assert(l <==> link && m1.contains_key(parent));
        assert(pv.children@ =~= Seq::<u64>::empty());
        assert(seq![pid] =~= Seq::<u64>::empty().push(pid));
        if l && parent != pid {
            assert(n[parent].children@ == o[parent].children@.push(pid));
            assert(same_but_children(o[parent], n[parent]));
            assert(n[pid] == pv);
        } else if l {
            assert(n[pid].children@ == seq![pid]);
        } else {
            assert(n == m1);
        }
        assert(n.dom() =~= o.dom().insert(pid));
        assert forall|a: u64, b: u64|
            #[trigger] n.contains_key(a) && #[trigger] n.contains_key(b) && alive_matriarch(n[a]) && alive_matriarch(n[b]) implies a == b by {
            if a != pid && !(l && a == parent) {
                assert(n[a] == o[a]);
            }
            if b != pid && !(l && b == parent) {
                assert(n[b] == o[b]);
            }
            if a == pid || b == pid {
                if a != b {
                    let other = if a == pid { b } else { a };
                    if l && other == parent && parent != pid {
                        assert(same_but_children(o[parent], n[parent]));
                    }
                    assert(o.contains_key(other) && alive_matriarch(o[other]));
                }
            }
        }
    }
    pid
}

} // verus!

verus! {

/// Nothing in the table changed.
pub open spec fn unchanged(o: &ProcessTable, n: &ProcessTable) -> bool {
    &&& n.procs@ == o.procs@
    &&& n.pids == o.pids
    &&& n.created == o.created
    &&& n.terminated == o.terminated
}

/// `n` is `o` after a spawn that added process `pid` (the next identifier),
/// recorded as a child of `parent` when `link`.
pub open spec fn spawned(o: &ProcessTable, n: &ProcessTable, pid: u64, parent: u64, link: bool) -> bool {
    &&& pid == o.pids.next
    &&& n.pids.next == o.pids.next + 1
    &&& n.created == wrapping_inc(o.created)
    &&& n.terminated == o.terminated
    &&& added(o.procs@, n.procs@, pid, parent, link)
}

/// A spawn hands out an identifier that no process of the table had, and
/// above every identifier already given: identifiers are never reused.
pub proof fn lemma_spawned_pid_fresh(o: &ProcessTable, n: &ProcessTable, pid: u64, parent: u64, link: bool)
    requires
        table_wf(o),
        spawned(o, n, pid, parent, link),
    ensures
        !o.procs@.contains_key(pid),
        forall|k: u64| #[trigger] o.procs@.contains_key(k) ==> k < pid,
        n.procs@.contains_key(pid),
        forall|k: u64| #[trigger] n.procs@.contains_key(k) ==> k <= pid,
{
    assert(n.procs@.dom().contains(pid));
}

/// Replacing process `pid` by `q` (same identifier and role, not brought
/// back to life) keeps the table consistent.
proof fn lemma_update_wf(t: &ProcessTable, n: Map<u64, Process>, pid: u64, q: Process)
    requires
        table_wf(t),
        t.procs@.contains_key(pid),
        n == t.procs@.insert(pid, q),
        q.pid == pid,
        q.role == t.procs@[pid].role,
        q.state != ProcessState::Terminated ==> t.procs@[pid].state != ProcessState::Terminated,
    ensures
        one_matriarch(n),
        forall|k: u64| #[trigger] n.contains_key(k) ==> n[k].pid == k && 1 <= k < t.pids.next,
        n.dom() == t.procs@.dom(),
{
    let o = t.procs@;
    assert forall|a: u64, b: u64|
        #[trigger] n.contains_key(a) && #[trigger] n.contains_key(b) && alive_matriarch(n[a]) && alive_matriarch(n[b]) implies a == b by {
        assert(o.contains_key(a) && alive_matriarch(o[a]));
        assert(o.contains_key(b) && alive_matriarch(o[b]));
    }
    assert(n.dom() =~= o.dom());
}

/// Whether a matriarch lives.
fn has_matriarch(table: &ProcessTable) -> (b: bool)
    ensures
        b == has_alive_matriarch(table.procs@),
{
    let n = table.procs.len();
    let mut i: usize = 0;
    while i < n
        invariant
            i <= n,
            n == table.procs.key_seq().len(),
            n == table.procs.value_seq().len(),
            forall|k: u64| table.procs@.contains_key(k) <==> table.procs.key_seq().contains(k),
            forall|j: int| 0 <= j < n ==> table.procs@[#[trigger] table.procs.key_seq()[j]] == table.procs.value_seq()[j],
            forall|j: int| 0 <= j < i ==> !alive_matriarch(#[trigger] table.procs.value_seq()[j]),
        decreases n - i,
    {
        let p = table.procs.value_at(i);
        if p.role == AgentRole::Matriarch && p.state != ProcessState::Terminated {
            proof {
                let k = table.procs.key_seq()[i as int];
                assert(table.procs.key_seq().contains(k));
                assert(table.procs@.contains_key(k) && alive_matriarch(table.procs@[k]));
            }
            return true;
        }
        i += 1;
    }
    proof {
        assert forall|k: u64| #[trigger] table.procs@.contains_key(k) implies !alive_matriarch(table.procs@[k]) by {
            assert(table.procs.key_seq().contains(k));
            let j = choose|j: int| 0 <= j < table.procs.key_seq().len() && table.procs.key_seq()[j] == k;
            assert(table.procs@[table.procs.key_seq()[j]] == table.procs.value_seq()[j]);
            assert(!alive_matriarch(table.procs.value_seq()[j]));
        }
    }
    false
}

/// The identifier of the living matriarch, if any.
pub fn matriarch_pid(table: &ProcessTable) -> (r: Option<u64>)
    requires
        table_wf(table),
    ensures
        r is Some <==> has_alive_matriarch(table.procs@),
        r matches Some(pid) ==> table.procs@.contains_key(pid) && alive_matriarch(table.procs@[pid]),
{
    let n = table.procs.len();
    let mut i: usize = 0;
    while i < n
        invariant
            i <= n,
            n == table.procs.key_seq().len(),
            n == table.procs.value_seq().len(),
            forall|k: u64| table.procs@.contains_key(k) <==> table.procs.key_seq().contains(k),
            forall|j: int| 0 <= j < n ==> table.procs@[#[trigger] table.procs.key_seq()[j]] == table.procs.value_seq()[j],
            forall|j: int| 0 <= j < i ==> !alive_matriarch(#[trigger] table.procs.value_seq()[j]),
            table_wf(table),
        decreases n - i,
    {
        let p = table.procs.value_at(i);
        if p.role == AgentRole::Matriarch && p.state != ProcessState::Terminated {
            let k = table.procs.key_at(i);
            proof {
                assert(table.procs.key_seq().contains(k));
                assert(table.procs@.contains_key(k) && alive_matriarch(table.procs@[k]));
            }
            return Some(p.pid);
        }
        i += 1;
    }
    proof {
        assert forall|k: u64| #[trigger] table.procs@.contains_key(k) implies !alive_matriarch(table.procs@[k]) by {
            assert(table.procs.key_seq().contains(k));
            let j = choose|j: int| 0 <= j < table.procs.key_seq().len() && table.procs.key_seq()[j] == k;
            assert(table.procs@[table.procs.key_seq()[j]] == table.procs.value_seq()[j]);
            assert(!alive_matriarch(table.procs.value_seq()[j]));
        }
    }
    None
}

/// Spawns the matriarch (no parent). Fails with `LimitReached` when the
/// table is full and `MatriarchExists` while one lives; the table is then
/// unchanged.
pub fn spawn_matriarch(table: &mut ProcessTable, name: &str, uid: u32, gid: u32) -> (r: Result<u64, ProcessError>)
    requires
        table_wf(old(table)),
        old(table).pids.next < u64::MAX,
    ensures
        table_wf(final(table)),
        old(table).procs@.len() >= MAX_PROCESSES ==> r == Err::<u64, ProcessError>(ProcessError::LimitReached)
            && unchanged(old(table), final(table)),
        old(table).procs@.len() < MAX_PROCESSES && has_alive_matriarch(old(table).procs@) ==> r
            == Err::<u64, ProcessError>(ProcessError::MatriarchExists) && unchanged(old(table), final(table)),
        old(table).procs@.len() < MAX_PROCESSES && !has_alive_matriarch(old(table).procs@) ==> (r matches Ok(pid)
            && spawned(old(table), final(table), pid, 0, false)
            && new_fields(final(table).procs@[pid], pid, name@, AgentRole::Matriarch, 0, uid, gid)),
{
    if table.procs.len() >= MAX_PROCESSES {
        return Err(ProcessError::LimitReached);
    }
    if has_matriarch(table) {
        return Err(ProcessError::MatriarchExists);
    }
    let p = Process::new(&mut table.pids, name, AgentRole::Matriarch, 0, uid, gid);
    Ok(register(table, p, 0, false))
}

/// Spawns a sub-matriarch under `parent_pid`, which must be a matriarch or
/// sub-matriarch. Fails with `LimitReached`, `ParentNotFound` or
/// `HierarchyViolation` (in that order), leaving the table unchanged.
pub fn spawn_submatriarch(table: &mut ProcessTable, name: &str, parent_pid: u64, uid: u32, gid: u32) -> (r: Result<u64, ProcessError>)
    requires
        table_wf(old(table)),
        old(table).pids.next < u64::MAX,
    ensures
        table_wf(final(table)),
        ({
            let o = old(table).procs@;
            &&& o.len() >= MAX_PROCESSES ==> r == Err::<u64, ProcessError>(ProcessError::LimitReached)
                && unchanged(old(table), final(table))
            &&& o.len() < MAX_PROCESSES && !o.contains_key(parent_pid) ==> r == Err::<u64, ProcessError>(ProcessError::ParentNotFound)
                && unchanged(old(table), final(table))
            &&& o.len() < MAX_PROCESSES && o.contains_key(parent_pid) && o[parent_pid].role != AgentRole::Matriarch
                && o[parent_pid].role != AgentRole::SubMatriarch ==> r == Err::<u64, ProcessError>(ProcessError::HierarchyViolation)
                && unchanged(old(table), final(table))
            &&& o.len() < MAX_PROCESSES && o.contains_key(parent_pid) && (o[parent_pid].role == AgentRole::Matriarch
                || o[parent_pid].role == AgentRole::SubMatriarch) ==> (r matches Ok(pid)
                && spawned(old(table), final(table), pid, parent_pid, true)
                && new_fields(final(table).procs@[pid], pid, name@, AgentRole::SubMatriarch, parent_pid, uid, gid))
        }),
{
    if table.procs.len() >= MAX_PROCESSES {
        return Err(ProcessError::LimitReached);
    }
    let parent_role = match table.procs.get(parent_pid) {
        Some(p) => p.role,
        None => return Err(ProcessError::ParentNotFound),
    };
    match parent_role {
        AgentRole::Matriarch | AgentRole::SubMatriarch => {},
        _ => return Err(ProcessError::HierarchyViolation),
    }
    let p = Process::new(&mut table.pids, name, AgentRole::SubMatriarch, parent_pid, uid, gid);
    Ok(register(table, p, parent_pid, true))
}

/// Spawns a worker under `parent_pid`, which must be a sub-matriarch. Fails
/// with `LimitReached`, `ParentNotFound` or `HierarchyViolation` (in that
/// order), leaving the table unchanged.
pub fn spawn_worker(table: &mut ProcessTable, name: &str, parent_pid: u64, uid: u32, gid: u32) -> (r: Result<u64, ProcessError>)
    requires
        table_wf(old(table)),
        old(table).pids.next < u64::MAX,
    ensures
        table_wf(final(table)),
        ({
            let o = old(table).procs@;
            &&& o.len() >= MAX_PROCESSES ==> r == Err::<u64, ProcessError>(ProcessError::LimitReached)
                && unchanged(old(table), final(table))
            &&& o.len() < MAX_PROCESSES && !o.contains_key(parent_pid) ==> r == Err::<u64, ProcessError>(ProcessError::ParentNotFound)
                && unchanged(old(table), final(table))
            &&& o.len() < MAX_PROCESSES && o.contains_key(parent_pid) && o[parent_pid].role != AgentRole::SubMatriarch ==> r
                == Err::<u64, ProcessError>(ProcessError::HierarchyViolation) && unchanged(old(table), final(table))
            &&& o.len() < MAX_PROCESSES && o.contains_key(parent_pid) && o[parent_pid].role == AgentRole::SubMatriarch ==> (r matches Ok(pid)
                && spawned(old(table), final(table), pid, parent_pid, true)
                && new_fields(final(table).procs@[pid], pid, name@, AgentRole::Worker, parent_pid, uid, gid))
        }),
{
    if table.procs.len() >= MAX_PROCESSES {
        return Err(ProcessError::LimitReached);
    }
    let parent_role = match table.procs.get(parent_pid) {
        Some(p) => p.role,
        None => return Err(ProcessError::ParentNotFound),
    };
    if parent_role != AgentRole::SubMatriarch {
        return Err(ProcessError::HierarchyViolation);
    }
    let p = Process::new(&mut table.pids, name, AgentRole::Worker, parent_pid, uid, gid);
    Ok(register(table, p, parent_pid, true))
}

/// Spawns a kernel thread (no hierarchy rule). Fails with `LimitReached`
/// when the table is full.
pub fn spawn_kernel_thread(table: &mut ProcessTable, name: &str) -> (r: Result<u64, ProcessError>)
    requires
        table_wf(old(table)),
        old(table).pids.next < u64::MAX,
    ensures
        table_wf(final(table)),
        old(table).procs@.len() >= MAX_PROCESSES ==> r == Err::<u64, ProcessError>(ProcessError::LimitReached)
            && unchanged(old(table), final(table)),
        old(table).procs@.len() < MAX_PROCESSES ==> (r matches Ok(pid) && spawned(old(table), final(table), pid, 0, false)
            && final(table).procs@[pid].name@ == name@ && final(table).procs@[pid].role == AgentRole::KernelThread
            && final(table).procs@[pid].ppid == 0 && final(table).procs@[pid].uid == 0 && final(table).procs@[pid].gid == 0
            && final(table).procs@[pid].state == ProcessState::Ready && final(table).procs@[pid].fd_table.entries@.len() == 0),
{
    if table.procs.len() >= MAX_PROCESSES {
        return Err(ProcessError::LimitReached);
    }
    let p = Process::new_kernel(&mut table.pids, name);
    Ok(register(table, p, 0, false))
}

/// Spawns a user-space worker loaded at `entry` with stack `stack` and page
/// table `pml4`, recorded as a child of `ppid` when that process exists.
/// Fails with `LimitReached` when the table is full.
pub fn spawn_userspace(table: &mut ProcessTable, name: &str, ppid: u64, entry: u64, stack: u64, pml4: u64) -> (r: Result<u64, ProcessError>)
    requires
        table_wf(old(table)),
        old(table).pids.next < u64::MAX,
    ensures
        table_wf(final(table)),
        old(table).procs@.len() >= MAX_PROCESSES ==> r == Err::<u64, ProcessError>(ProcessError::LimitReached)
            && unchanged(old(table), final(table)),
        old(table).procs@.len() < MAX_PROCESSES ==> (r matches Ok(pid) && spawned(old(table), final(table), pid, ppid,
            ppid != 0 && (old(table).procs@.contains_key(ppid) || ppid == pid)) && ({
            let p = final(table).procs@[pid];
            &&& p.name@ == name@ && p.role == AgentRole::Worker && p.ppid == ppid && p.uid == 1000 && p.gid == 1000
            &&& p.state == ProcessState::Ready && p.entry_point == entry && p.stack_pointer == stack && p.pml4_phys == pml4
        })),
{
    if table.procs.len() >= MAX_PROCESSES {
        return Err(ProcessError::LimitReached);
    }
    let p = Process::new_userspace(&mut table.pids, name, ppid, entry, stack, pml4);
    Ok(register(table, p, ppid, ppid != 0))
}

fn copy_fd_table(t: &FdTable) -> (c: FdTable)
    ensures
        c.entries@ == t.entries@,
{
    let mut entries: Vec<FileDescriptor> = Vec::new();
    let mut i: usize = 0;
    while i < t.entries.len()
        invariant
            i <= t.entries@.len(),
            entries@ == t.entries@.subrange(0, i as int),
        decreases t.entries@.len() - i,
    {
        let e = &t.entries[i];
        entries.push(FileDescriptor { path: e.path.clone(), offset: e.offset, flags: e.flags, active: e.active });
        assert(entries@ =~= t.entries@.subrange(0, i + 1));
        i += 1;
    }
    assert(entries@ =~= t.entries@);
    FdTable { entries }
}

/// Forks `parent_pid`: a new ready worker with the parent's name, owner and
/// open files, the given page table, entry point and stack, recorded as the
/// parent's child. Fails with `LimitReached` or `NotFound`.
pub fn fork_process(table: &mut ProcessTable, parent_pid: u64, child_pml4: u64, child_entry: u64, child_stack: u64) -> (r: Result<u64, ProcessError>)
    requires
        table_wf(old(table)),
        old(table).pids.next < u64::MAX,
    ensures
        table_wf(final(table)),
        ({
            let o = old(table).procs@;
            &&& o.len() >= MAX_PROCESSES ==> r == Err::<u64, ProcessError>(ProcessError::LimitReached)
                && unchanged(old(table), final(table))
            &&& o.len() < MAX_PROCESSES && !o.contains_key(parent_pid) ==> r == Err::<u64, ProcessError>(ProcessError::NotFound)
                && unchanged(old(table), final(table))
            &&& o.len() < MAX_PROCESSES && o.contains_key(parent_pid) ==> (r matches Ok(pid)
                && spawned(old(table), final(table), pid, parent_pid, true) && ({
                let c = final(table).procs@[pid];
                let p = o[parent_pid];
                &&& c.name@ == p.name@ && c.role == AgentRole::Worker && c.ppid == parent_pid
                &&& c.uid == p.uid && c.gid == p.gid && c.state == ProcessState::Ready
                &&& c.fd_table.entries@ == p.fd_table.entries@
                &&& c.pml4_phys == child_pml4 && c.entry_point == child_entry && c.stack_pointer == child_stack
            }))
        }),
{
    if table.procs.len() >= MAX_PROCESSES {
        return Err(ProcessError::LimitReached);
    }
    let (name, uid, gid, fds) = match table.procs.get(parent_pid) {
        Some(p) => (p.name.clone(), p.uid, p.gid, copy_fd_table(&p.fd_table)),
        None => return Err(ProcessError::NotFound),
    };
    let mut child = Process::new(&mut table.pids, name.as_str(), AgentRole::Worker, parent_pid, uid, gid);
    child.pml4_phys = child_pml4;
    child.entry_point = child_entry;
    child.stack_pointer = child_stack;
    child.fd_table = fds;
    child.state = ProcessState::Ready;
    Ok(register(table, child, parent_pid, true))
}

/// Index of the first child in `children` that is in `m` and terminated,
/// or `children.len()` when there is none.
pub open spec fn first_exited(m: Map<u64, Process>, children: Seq<u64>) -> int {
    if exists|i: int| 0 <= i < children.len() && exited(m, #[trigger] children[i]) {
        choose|i: int| 0 <= i < children.len() && exited(m, #[trigger] children[i]) && forall|j: int| 0 <= j < i ==> !exited(m, #[trigger] children[j])
    } else {
        children.len() as int
    }
}

/// Process `pid` is in `m` and terminated.
pub open spec fn exited(m: Map<u64, Process>, pid: u64) -> bool {
    m.contains_key(pid) && m[pid].state == ProcessState::Terminated
}

/// The first terminated child of `parent_pid` (in the order the children
/// were created) with its exit code. Fails with `NotFound` for an unknown
/// parent and `WaitingForChild` when no child has terminated.
pub fn wait_for_child(table: &ProcessTable, parent_pid: u64) -> (r: Result<(u64, i32), ProcessError>)
    ensures
        ({
            let m = table.procs@;
            let ch = m[parent_pid].children@;
            let i = first_exited(m, ch);
            &&& !m.contains_key(parent_pid) ==> r == Err::<(u64, i32), ProcessError>(ProcessError::NotFound)
            &&& m.contains_key(parent_pid) && i < ch.len() ==> r == Ok::<(u64, i32), ProcessError>((ch[i], m[ch[i]].exit_code))
            &&& m.contains_key(parent_pid) && i == ch.len() ==> r == Err::<(u64, i32), ProcessError>(ProcessError::WaitingForChild)
        }),
{
    let parent = match table.procs.get(parent_pid) {
        Some(p) => p,
        None => return Err(ProcessError::NotFound),
    };
    let ghost m = table.procs@;
    let ghost ch = parent.children@;
    let mut i: usize = 0;
    while i < parent.children.len()
        invariant
            i <= ch.len(),
            ch == parent.children@,
            m == table.procs@,
            m.contains_key(parent_pid),
            ch == m[parent_pid].children@,
            forall|j: int| 0 <= j < i ==> !exited(m, #[trigger] ch[j]),
        decreases ch.len() - i,
    {
        let c = parent.children[i];
        match table.procs.get(c) {
            Some(child) => {
                if child.state == ProcessState::Terminated {
                    proof {
                        assert(exited(m, ch[i as int]));
                        let f = first_exited(m, ch);
                        assert(0 <= f < ch.len() && exited(m, ch[f]) && forall|j: int| 0 <= j < f ==> !exited(m, #[trigger] ch[j]));
                        assert(f == i) by {
                            if f < i {
                                assert(!exited(m, ch[f]));
                            }
                            if f > i {
                                assert(!exited(m, ch[i as int]));
                            }
                        }
                    }
                    return Ok((c, child.exit_code));
                }
            },
            None => {},
        }
        i += 1;
    }
    proof {
        assert(!exists|j: int| 0 <= j < ch.len() && exited(m, #[trigger] ch[j]));
    }
    Err(ProcessError::WaitingForChild)
}

} // verus!

verus! {

/// `n` is `o` with process `pid` replaced by one for which `f` holds
/// relative to the old one; every other process is unchanged.
pub open spec fn replaced(o: Map<u64, Process>, n: Map<u64, Process>, pid: u64) -> bool {
    &&& n.dom() == o.dom()
    &&& forall|k: u64| #[trigger] n.contains_key(k) && k != pid ==> n[k] == o[k]
}

/// `b` is `a` with only its exit code changed.
pub open spec fn same_but_exit_code(a: Process, b: Process) -> bool {
    &&& a.pid == b.pid && a.ppid == b.ppid && a.name@ == b.name@ && a.role == b.role && a.uid == b.uid && a.gid == b.gid
    &&& a.priority == b.priority && a.wait_ticks == b.wait_ticks && a.fd_table.entries@ == b.fd_table.entries@
    &&& a.entry_point == b.entry_point && a.stack_pointer == b.stack_pointer && a.state == b.state
    &&& a.children@ == b.children@ && a.context == b.context && a.pml4_phys == b.pml4_phys
}

/// `b` is `a` with only its wait ticks changed.
pub open spec fn same_but_wait_ticks(a: Process, b: Process) -> bool {
    &&& a.pid == b.pid && a.ppid == b.ppid && a.name@ == b.name@ && a.role == b.role && a.uid == b.uid && a.gid == b.gid
    &&& a.priority == b.priority && a.exit_code == b.exit_code && a.fd_table.entries@ == b.fd_table.entries@
    &&& a.entry_point == b.entry_point && a.stack_pointer == b.stack_pointer && a.state == b.state
    &&& a.children@ == b.children@ && a.context == b.context && a.pml4_phys == b.pml4_phys
}

/// Records the exit code of `pid` (nothing happens for an unknown process).
pub fn set_exit_code(table: &mut ProcessTable, pid: u64, code: i32)
    requires
        table_wf(old(table)),
    ensures
        table_wf(final(table)),
        final(table).pids == old(table).pids && final(table).created == old(table).created,
        final(table).terminated == old(table).terminated,
        replaced(old(table).procs@, final(table).procs@, pid),
        old(table).procs@.contains_key(pid) ==> final(table).procs@[pid].exit_code == code
            && same_but_exit_code(old(table).procs@[pid], final(table).procs@[pid]),
{
    let ghost o = table.procs@;
    match table.procs.remove(pid) {
        Some(mut p) => {
            p.exit_code = code;
            proof {
                lemma_update_wf(old(table), o.insert(pid, p), pid, p);
            }
            table.procs.insert(pid, p);
            proof {
                assert(table.procs@ == o.insert(pid, p));
            }
        },
        None => {
            proof {
                assert(table.procs@ =~= o);
            }
        },
    }
}

/// Sets the wait ticks of `pid` (nothing happens for an unknown process).
pub fn set_wait_ticks(table: &mut ProcessTable, pid: u64, ticks: u64)
    requires
        table_wf(old(table)),
    ensures
        table_wf(final(table)),
        final(table).pids == old(table).pids && final(table).created == old(table).created,
        final(table).terminated == old(table).terminated,
        replaced(old(table).procs@, final(table).procs@, pid),
        old(table).procs@.contains_key(pid) ==> final(table).procs@[pid].wait_ticks == ticks
            && same_but_wait_ticks(old(table).procs@[pid], final(table).procs@[pid]),
{
    let ghost o = table.procs@;
    match table.procs.remove(pid) {
        Some(mut p) => {
            p.wait_ticks = ticks;
            proof {
                lemma_update_wf(old(table), o.insert(pid, p), pid, p);
            }
            table.procs.insert(pid, p);
        },
        None => {
            proof {
                assert(table.procs@ =~= o);
            }
        },
    }
}

/// Sets the page-table address of `pid`; `NotFound` for an unknown process.
pub fn set_pml4_phys(table: &mut ProcessTable, pid: u64, pml4: u64) -> (r: Result<(), ProcessError>)
    requires
        table_wf(old(table)),
    ensures
        table_wf(final(table)),
        final(table).pids == old(table).pids && final(table).created == old(table).created,
        final(table).terminated == old(table).terminated,
        replaced(old(table).procs@, final(table).procs@, pid),
        !old(table).procs@.contains_key(pid) ==> r == Err::<(), ProcessError>(ProcessError::NotFound),
        old(table).procs@.contains_key(pid) ==> r is Ok && final(table).procs@[pid].pml4_phys == pml4
            && crate::process::task::same_but_pml4(old(table).procs@[pid], final(table).procs@[pid]),
{
    let ghost o = table.procs@;
    match table.procs.remove(pid) {
        Some(mut p) => {
            p.set_pml4_phys(pml4);
            proof {
                lemma_update_wf(old(table), o.insert(pid, p), pid, p);
            }
            table.procs.insert(pid, p);
            Ok(())
        },
        None => {
            proof {
                assert(table.procs@ =~= o);
            }
            Err(ProcessError::NotFound)
        },
    }
}

/// Changes the state of `pid` when `transition_allowed`; a change to
/// Terminated is counted. Fails with `NotFound` or `InvalidTransition`
/// (the table then unchanged).
pub fn set_state(table: &mut ProcessTable, pid: u64, new_state: ProcessState) -> (r: Result<(), ProcessError>)
    requires
        table_wf(old(table)),
    ensures
        table_wf(final(table)),
        final(table).pids == old(table).pids && final(table).created == old(table).created,
        replaced(old(table).procs@, final(table).procs@, pid),
        !old(table).procs@.contains_key(pid) ==> r == Err::<(), ProcessError>(ProcessError::NotFound)
            && unchanged(old(table), final(table)),
        old(table).procs@.contains_key(pid) && !transition_allowed(old(table).procs@[pid].state, new_state) ==> r
            == Err::<(), ProcessError>(ProcessError::InvalidTransition) && unchanged(old(table), final(table)),
        old(table).procs@.contains_key(pid) && transition_allowed(old(table).procs@[pid].state, new_state) ==> r is Ok
            && final(table).procs@[pid].state == new_state && same_but_state(old(table).procs@[pid], final(table).procs@[pid])
            && final(table).terminated == (if new_state == ProcessState::Terminated { wrapping_inc(old(table).terminated) } else { old(table).terminated }),
{
    let ghost o = table.procs@;
    let allowed = match table.procs.get(pid) {
        Some(p) => p.can_transition_to(new_state),
        None => return Err(ProcessError::NotFound),
    };
    if !allowed {
        return Err(ProcessError::InvalidTransition);
    }
    match table.procs.remove(pid) {
        Some(mut p) => {
            p.set_state(new_state);
            proof {
                lemma_update_wf(old(table), o.insert(pid, p), pid, p);
            }
            table.procs.insert(pid, p);
        },
        None => {},
    }
    if new_state == ProcessState::Terminated {
        table.terminated = inc(table.terminated);
    }
    Ok(())
}

/// Terminates `pid` (whatever its state), counting it. Kernel threads and
/// processes of user 0 are protected (`KillProtected`); `NotFound` for an
/// unknown process. On failure the table is unchanged.
pub fn kill(table: &mut ProcessTable, pid: u64) -> (r: Result<(), ProcessError>)
    requires
        table_wf(old(table)),
    ensures
        table_wf(final(table)),
        final(table).pids == old(table).pids && final(table).created == old(table).created,
        replaced(old(table).procs@, final(table).procs@, pid),
        !old(table).procs@.contains_key(pid) ==> r == Err::<(), ProcessError>(ProcessError::NotFound)
            && unchanged(old(table), final(table)),
        old(table).procs@.contains_key(pid) && (old(table).procs@[pid].role == AgentRole::KernelThread
            || old(table).procs@[pid].uid == 0) ==> r == Err::<(), ProcessError>(ProcessError::KillProtected)
            && unchanged(old(table), final(table)),
        old(table).procs@.contains_key(pid) && old(table).procs@[pid].role != AgentRole::KernelThread
            && old(table).procs@[pid].uid != 0 ==> r is Ok && final(table).procs@[pid].state == ProcessState::Terminated
            && same_but_state(old(table).procs@[pid], final(table).procs@[pid])
            && final(table).terminated == wrapping_inc(old(table).terminated),
{
    let ghost o = table.procs@;
    let protected = match table.procs.get(pid) {
        Some(p) => p.role == AgentRole::KernelThread || p.uid == 0,
        None => return Err(ProcessError::NotFound),
    };
    if protected {
        return Err(ProcessError::KillProtected);
    }
    match table.procs.remove(pid) {
        Some(mut p) => {
            p.state = ProcessState::Terminated;
            proof {
                lemma_update_wf(old(table), o.insert(pid, p), pid, p);
            }
            table.procs.insert(pid, p);
        },
        None => {},
    }
    table.terminated = inc(table.terminated);
    Ok(())
}

/// Role and priority of `pid`.
pub fn get_role_priority(table: &ProcessTable, pid: u64) -> (r: Option<(AgentRole, u8)>)
    ensures
        r is Some <==> table.procs@.contains_key(pid),
        r matches Some(v) ==> v == (table.procs@[pid].role, table.procs@[pid].priority),
{
    match table.procs.get(pid) {
        Some(p) => Some((p.role, p.priority)),
        None => None,
    }
}

/// Saved context and page-table address of `pid`.
pub fn get_context_and_pml4(table: &ProcessTable, pid: u64) -> (r: Option<(TaskContext, u64)>)
    ensures
        r is Some <==> table.procs@.contains_key(pid),
        r matches Some(v) ==> v == (table.procs@[pid].context, table.procs@[pid].pml4_phys),
{
    match table.procs.get(pid) {
        Some(p) => Some((p.context, p.pml4_phys)),
        None => None,
    }
}

/// Parent of `pid`.
pub fn get_ppid(table: &ProcessTable, pid: u64) -> (r: Option<u64>)
    ensures
        r is Some <==> table.procs@.contains_key(pid),
        r matches Some(v) ==> v == table.procs@[pid].ppid,
{
    match table.procs.get(pid) {
        Some(p) => Some(p.ppid),
        None => None,
    }
}

/// Page-table address of `pid`.
pub fn get_pml4_phys(table: &ProcessTable, pid: u64) -> (r: Option<u64>)
    ensures
        r is Some <==> table.procs@.contains_key(pid),
        r matches Some(v) ==> v == table.procs@[pid].pml4_phys,
{
    match table.procs.get(pid) {
        Some(p) => Some(p.pml4_phys),
        None => None,
    }
}

/// Process `pid` shown as one line (`process_line`); `None` for an
/// unknown process.
pub fn get_info(table: &ProcessTable, pid: u64) -> (r: Option<String>)
    ensures
        r is Some <==> table.procs@.contains_key(pid),
        r matches Some(s) ==> s@ == process_line(table.procs@[pid]),
{
    match table.procs.get(pid) {
        Some(p) => Some(p.describe()),
        None => None,
    }
}

/// Role of `pid`.
pub fn get_role(table: &ProcessTable, pid: u64) -> (r: Option<AgentRole>)
    ensures
        r is Some <==> table.procs@.contains_key(pid),
        r matches Some(v) ==> v == table.procs@[pid].role,
{
    match table.procs.get(pid) {
        Some(p) => Some(p.role),
        None => None,
    }
}

/// Wait ticks of `pid`.
pub fn get_wait_ticks(table: &ProcessTable, pid: u64) -> (r: Option<u64>)
    ensures
        r is Some <==> table.procs@.contains_key(pid),
        r matches Some(v) ==> v == table.procs@[pid].wait_ticks,
{
    match table.procs.get(pid) {
        Some(p) => Some(p.wait_ticks),
        None => None,
    }
}

/// Children of `pid` in creation order (empty for an unknown process).
pub fn list_children(table: &ProcessTable, pid: u64) -> (r: Vec<u64>)
    ensures
        table.procs@.contains_key(pid) ==> r@ == table.procs@[pid].children@,
        !table.procs@.contains_key(pid) ==> r@.len() == 0,
{
    match table.procs.get(pid) {
        Some(p) => {
            let mut v: Vec<u64> = Vec::new();
            let mut i: usize = 0;
            while i < p.children.len()
                invariant
                    i <= p.children@.len(),
                    v@ == p.children@.subrange(0, i as int),
                decreases p.children@.len() - i,
            {
                v.push(p.children[i]);
                assert(v@ =~= p.children@.subrange(0, i + 1));
                i += 1;
            }
            assert(v@ =~= p.children@);
            v
        },
        None => Vec::new(),
    }
}

/// Number of processes, terminated ones included.
pub fn total_count(table: &ProcessTable) -> (n: usize)
    ensures
        n == table.procs@.len(),
{
    table.procs.len()
}

/// Not terminated.
pub open spec fn is_live(p: Process) -> bool {
    p.state != ProcessState::Terminated
}

/// The live processes in increasing identifier order.
pub open spec fn live_processes(table: &ProcessTable) -> Seq<Process> {
    table.procs.value_seq().filter(|p: Process| is_live(p))
}

/// Identifiers of the live processes, increasing.
pub fn list_active_pids(table: &ProcessTable) -> (r: Vec<u64>)
    ensures
        r@ == live_processes(table).map_values(|p: Process| p.pid),
{
    let n = table.procs.len();
    let ghost vs = table.procs.value_seq();
    let mut out: Vec<u64> = Vec::new();
    let mut i: usize = 0;
    while i < n
        invariant
            i <= n,
            n == vs.len(),
            n == table.procs.key_seq().len(),
            vs == table.procs.value_seq(),
            out@ == vs.take(i as int).filter(|p: Process| is_live(p)).map_values(|p: Process| p.pid),
        decreases n - i,
    {
        let p = table.procs.value_at(i);
        proof {
            assert(vs.take(i + 1) =~= vs.take(i as int).push(vs[i as int]));
            Seq::<Process>::filter_distributes_over_add(vs.take(i as int), seq![vs[i as int]], |p: Process| is_live(p));
            assert(vs.take(i as int).push(vs[i as int]) =~= vs.take(i as int) + seq![vs[i as int]]);
        }
        if p.state != ProcessState::Terminated {
            out.push(p.pid);
            proof {
                assert(seq![vs[i as int]].filter(|p: Process| is_live(p)) =~= seq![vs[i as int]]) by {
                    reveal_with_fuel(Seq::filter, 2);
                }
                assert(out@ =~= vs.take(i + 1).filter(|p: Process| is_live(p)).map_values(|p: Process| p.pid));
            }
        } else {
            proof {
                assert(seq![vs[i as int]].filter(|p: Process| is_live(p)) =~= Seq::<Process>::empty()) by {
                    reveal_with_fuel(Seq::filter, 2);
                }
                assert(out@ =~= vs.take(i + 1).filter(|p: Process| is_live(p)).map_values(|p: Process| p.pid));
            }
        }
        i += 1;
    }
    proof {
        assert(vs.take(n as int) =~= vs);
    }
    out
}

/// Number of live processes.
pub fn active_count(table: &ProcessTable) -> (n: usize)
    ensures
        n == live_processes(table).len(),
{
    let v = list_active_pids(table);
    v.len()
}

/// Creates the idle kernel thread; returns its identifier.
pub fn init(table: &mut ProcessTable) -> (pid: u64)
    requires
        table_wf(old(table)),
        old(table).pids.next < u64::MAX,
        old(table).procs@.len() < MAX_PROCESSES,
    ensures
        table_wf(final(table)),
        spawned(old(table), final(table), pid, 0, false),
        final(table).procs@[pid].role == AgentRole::KernelThread,
        final(table).procs@[pid].state == ProcessState::Ready,
        final(table).procs@[pid].name@ == "kernel_idle"@,
{
    match spawn_kernel_thread(table, "kernel_idle") {
        Ok(pid) => pid,
        Err(_) => 0,
    }
}

/// How many processes were created.
pub fn metrics_created(table: &ProcessTable) -> (n: u64)
    ensures
        n == table.created,
{
    table.created
}

/// How many processes were terminated.
pub fn metrics_terminated(table: &ProcessTable) -> (n: u64)
    ensures
        n == table.terminated,
{
    table.terminated
}

} // verus!

verus! {

/// Applies `f` to the descriptor table of `pid`; `None` for an unknown process.
pub fn with_fd_table<F, R>(table: &ProcessTable, pid: u64, f: F) -> (r: Option<R>)
    where
        F: FnOnce(&FdTable) -> R,
    requires
        table.procs@.contains_key(pid) ==> f.requires((&table.procs@[pid].fd_table,)),
    ensures
        r is Some <==> table.procs@.contains_key(pid),
        r matches Some(v) ==> f.ensures((&table.procs@[pid].fd_table,), v),
{
    match table.procs.get(pid) {
        Some(p) => Some(f(&p.fd_table)),
        None => None,
    }
}

/// Applies `f` to process `pid`; `None` for an unknown process.
pub fn with_process<F, R>(table: &ProcessTable, pid: u64, f: F) -> (r: Option<R>)
    where
        F: FnOnce(&Process) -> R,
    requires
        table.procs@.contains_key(pid) ==> f.requires((&table.procs@[pid],)),
    ensures
        r is Some <==> table.procs@.contains_key(pid),
        r matches Some(v) ==> f.ensures((&table.procs@[pid],), v),
{
    match table.procs.get(pid) {
        Some(p) => Some(f(p)),
        None => None,
    }
}

/// Hands the descriptor table of `pid` to `f`, which returns the table to
/// keep and a result; `None` (table unchanged) for an unknown process.
pub fn with_fd_table_mut<F, R>(table: &mut ProcessTable, pid: u64, f: F) -> (r: Option<R>)
    where
        F: FnOnce(FdTable) -> (FdTable, R),
    requires
        table_wf(old(table)),
        old(table).procs@.contains_key(pid) ==> f.requires((old(table).procs@[pid].fd_table,)),
    ensures
        table_wf(final(table)),
        final(table).pids == old(table).pids && final(table).created == old(table).created,
        final(table).terminated == old(table).terminated,
        replaced(old(table).procs@, final(table).procs@, pid),
        r is Some <==> old(table).procs@.contains_key(pid),
        r is None ==> final(table).procs@ == old(table).procs@,
        r matches Some(v) ==> f.ensures((old(table).procs@[pid].fd_table,), (final(table).procs@[pid].fd_table, v))
            && same_but_fds(old(table).procs@[pid], final(table).procs@[pid]),
{
    let ghost o = table.procs@;
    match table.procs.remove(pid) {
        Some(mut p) => {
            let mut fds = FdTable::empty();
            std::mem::swap(&mut fds, &mut p.fd_table);
            let (nf, v) = f(fds);
            p.fd_table = nf;
            proof {
                lemma_update_wf(old(table), o.insert(pid, p), pid, p);
            }
            table.procs.insert(pid, p);
            Some(v)
        },
        None => {
            proof {
                assert(table.procs@ =~= o);
            }
            None
        },
    }
}

/// `b` is `a` with only its descriptor table changed.
pub open spec fn same_but_fds(a: Process, b: Process) -> bool {
    &&& a.pid == b.pid && a.ppid == b.ppid && a.name@ == b.name@ && a.role == b.role && a.uid == b.uid && a.gid == b.gid
    &&& a.priority == b.priority && a.exit_code == b.exit_code && a.wait_ticks == b.wait_ticks
    &&& a.entry_point == b.entry_point && a.stack_pointer == b.stack_pointer && a.state == b.state
    &&& a.children@ == b.children@ && a.context == b.context && a.pml4_phys == b.pml4_phys
}

/// `f` keeps a process's identifier and role and does not revive it.
pub open spec fn keeps_identity<F: FnOnce(Process) -> (Process, R), R>(f: F) -> bool {
    forall|p: Process, q: Process, v: R| #[trigger] f.ensures((p,), (q, v)) ==> q.pid == p.pid && q.role == p.role && (is_live(q)
        ==> is_live(p))
}

/// Hands process `pid` to `f`, which returns the process to keep and a
/// result; `None` (table unchanged) for an unknown process.
pub fn with_process_mut<F, R>(table: &mut ProcessTable, pid: u64, f: F) -> (r: Option<R>)
    where
        F: FnOnce(Process) -> (Process, R),
    requires
        table_wf(old(table)),
        keeps_identity(f),
        old(table).procs@.contains_key(pid) ==> f.requires((old(table).procs@[pid],)),
    ensures
        table_wf(final(table)),
        final(table).pids == old(table).pids && final(table).created == old(table).created,
        final(table).terminated == old(table).terminated,
        replaced(old(table).procs@, final(table).procs@, pid),
        r is Some <==> old(table).procs@.contains_key(pid),
        r is None ==> final(table).procs@ == old(table).procs@,
        r matches Some(v) ==> f.ensures((old(table).procs@[pid],), (final(table).procs@[pid], v)),
{
    let ghost o = table.procs@;
    match table.procs.remove(pid) {
        Some(p) => {
            let (q, v) = f(p);
            proof {
                lemma_update_wf(old(table), o.insert(pid, q), pid, q);
            }
            table.procs.insert(pid, q);
            Some(v)
        },
        None => {
            proof {
                assert(table.procs@ =~= o);
            }
            None
        },
    }
}

} // verus!

verus! {

/// `n` is process `o` whose descriptors became `entries`, all else kept.
pub open spec fn fds_now(o: Process, n: Process, entries: Seq<FileDescriptor>) -> bool {
    same_but_fds(o, n) && n.fd_table.entries@ == entries
}

/// Sets the offset of the open descriptor `fd` of process `pid`; false,
/// with the table unchanged, when there is no such descriptor.
pub fn set_fd_offset(table: &mut ProcessTable, pid: u64, fd: usize, offset: u64) -> (b: bool)
    requires
        table_wf(old(table)),
    ensures
        table_wf(final(table)),
        final(table).pids == old(table).pids && final(table).created == old(table).created,
        final(table).terminated == old(table).terminated,
        replaced(old(table).procs@, final(table).procs@, pid),
        b == (old(table).procs@.contains_key(pid) && fd < old(table).procs@[pid].fd_table.entries@.len()
            && old(table).procs@[pid].fd_table.entries@[fd as int].active),
        !b && old(table).procs@.contains_key(pid) ==> fds_now(old(table).procs@[pid], final(table).procs@[pid],
            old(table).procs@[pid].fd_table.entries@),
        !old(table).procs@.contains_key(pid) ==> final(table).procs@ == old(table).procs@,
        b ==> ({
            let e = old(table).procs@[pid].fd_table.entries@;
            fds_now(old(table).procs@[pid], final(table).procs@[pid], e.update(fd as int, FileDescriptor { offset, ..e[fd as int] }))
        }),
{
    let ghost o = table.procs@;
    match table.procs.remove(pid) {
        Some(mut p) => {
            let found = match p.fd_table.get_mut(fd) {
                Some(e) => {
                    e.offset = offset;
                    true
                },
                None => false,
            };
            proof {
                lemma_update_wf(old(table), o.insert(pid, p), pid, p);
            }
            table.procs.insert(pid, p);
            found
        },
        None => {
            proof {
                assert(table.procs@ =~= o);
            }
            false
        },
    }
}

/// Opens `path` with `flags` in the first free descriptor slot of process
/// `pid` (`FdTable::alloc_fd`); `None`, with the table unchanged, when
/// there is no such process or no free slot.
pub fn open_fd(table: &mut ProcessTable, pid: u64, path: &str, flags: u32) -> (r: Option<usize>)
    requires
        table_wf(old(table)),
    ensures
        table_wf(final(table)),
        final(table).pids == old(table).pids && final(table).created == old(table).created,
        final(table).terminated == old(table).terminated,
        replaced(old(table).procs@, final(table).procs@, pid),
        !old(table).procs@.contains_key(pid) ==> r is None && final(table).procs@ == old(table).procs@,
        old(table).procs@.contains_key(pid) ==> ({
            let o = old(table).procs@[pid].fd_table.entries@;
            let i = first_free(o);
            &&& 0 <= i <= o.len()
            &&& r matches Some(k) ==> k as int == i
            &&& i == o.len() && o.len() >= MAX_FDS ==> r is None && fds_now(old(table).procs@[pid], final(table).procs@[pid], o)
            &&& i < o.len() || o.len() < MAX_FDS ==> r == Some(i as usize) && same_but_fds(old(table).procs@[pid], final(table).procs@[pid])
                && final(table).procs@[pid].fd_table.entries@.len() == (if i < o.len() { o.len() } else { o.len() + 1 })
                && fresh_fd(final(table).procs@[pid].fd_table.entries@, i, path@, flags)
                && forall|j: int| 0 <= j < o.len() && j != i ==> #[trigger] final(table).procs@[pid].fd_table.entries@[j] == o[j]
        }),
{
    let ghost o = table.procs@;
    match table.procs.remove(pid) {
        Some(mut p) => {
            let r = p.fd_table.alloc_fd(path, flags);
            proof {
                lemma_update_wf(old(table), o.insert(pid, p), pid, p);
            }
            table.procs.insert(pid, p);
            r
        },
        None => {
            proof {
                assert(table.procs@ =~= o);
            }
            None
        },
    }
}

/// Closes descriptor `fd` of process `pid` (`FdTable::close_fd`); false,
/// with the table unchanged, when it is not open.
pub fn close_fd_of(table: &mut ProcessTable, pid: u64, fd: usize) -> (b: bool)
    requires
        table_wf(old(table)),
    ensures
        table_wf(final(table)),
        final(table).pids == old(table).pids && final(table).created == old(table).created,
        final(table).terminated == old(table).terminated,
        replaced(old(table).procs@, final(table).procs@, pid),
        b == (old(table).procs@.contains_key(pid) && fd < old(table).procs@[pid].fd_table.entries@.len()
            && old(table).procs@[pid].fd_table.entries@[fd as int].active),
        !b && old(table).procs@.contains_key(pid) ==> fds_now(old(table).procs@[pid], final(table).procs@[pid],
            old(table).procs@[pid].fd_table.entries@),
        !old(table).procs@.contains_key(pid) ==> final(table).procs@ == old(table).procs@,
        b ==> ({
            let e = old(table).procs@[pid].fd_table.entries@;
            &&& same_but_fds(old(table).procs@[pid], final(table).procs@[pid])
            &&& final(table).procs@[pid].fd_table.entries@.len() == e.len()
            &&& !final(table).procs@[pid].fd_table.entries@[fd as int].active
            &&& forall|j: int| 0 <= j < e.len() && j != fd ==> #[trigger] final(table).procs@[pid].fd_table.entries@[j] == e[j]
        }),
{
    let ghost o = table.procs@;
    match table.procs.remove(pid) {
        Some(mut p) => {
            let b = p.fd_table.close_fd(fd);
            proof {
                lemma_update_wf(old(table), o.insert(pid, p), pid, p);
            }
            table.procs.insert(pid, p);
            b
        },
        None => {
            proof {
                assert(table.procs@ =~= o);
            }
            false
        },
    }
}

/// Gives process `pid` a new program image: its page table, entry point,
/// stack and name; false when there is no such process.
pub fn replace_image(table: &mut ProcessTable, pid: u64, pml4: u64, entry: u64, stack: u64, name: String) -> (b: bool)
    requires
        table_wf(old(table)),
    ensures
        table_wf(final(table)),
        final(table).pids == old(table).pids && final(table).created == old(table).created,
        final(table).terminated == old(table).terminated,
        replaced(old(table).procs@, final(table).procs@, pid),
        b == old(table).procs@.contains_key(pid),
        !b ==> final(table).procs@ == old(table).procs@,
        b ==> final(table).procs@[pid] == (Process {
            pml4_phys: pml4,
            entry_point: entry,
            stack_pointer: stack,
            name: name,
            ..old(table).procs@[pid]
        }),
{
    let ghost o = table.procs@;
    match table.procs.remove(pid) {
        Some(mut p) => {
            p.pml4_phys = pml4;
            p.entry_point = entry;
            p.stack_pointer = stack;
            p.name = name;
            proof {
                lemma_update_wf(old(table), o.insert(pid, p), pid, p);
            }
            table.procs.insert(pid, p);
            true
        },
        None => {
            proof {
                assert(table.procs@ =~= o);
            }
            false
        },
    }
}

} // verus!
