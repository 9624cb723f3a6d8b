//! Page faults: demand paging of the user stack, and the faults that end
//! the faulting process.

use vstd::prelude::*;
use crate::process::{ProcessTable, replaced, set_state, table_wf};
use crate::process::task::{ProcessState, same_but_state};

verus! {

/// The user-stack region served by demand paging: `[LOW, HIGH)`.
pub const USER_STACK_DEMAND_LOW: u64 = 0x7FFF_0000_0000;
pub const USER_STACK_DEMAND_HIGH: u64 = 0x7FFF_FFFF_F000;

/// Page-table flags of a demand-paged stack page: present, writable,
/// user-accessible, not executable.
pub const DEMAND_PAGE_FLAGS: u64 = 0x8000_0000_0000_0007;

/// What to do about a page fault.
#[derive(Debug, Clone, Copy, PartialEq, Eq, Structural)]
pub enum FaultAction {
    /// Map a zeroed frame at `page` with `flags`, then resume.
    DemandMap { page: u64, flags: u64 },
    /// The fault cannot be served.
    Fatal,
}

/// The action for a fault at `addr`: a user-mode fault in the user-stack
/// region maps the page holding `addr`; any other fault is fatal.
pub fn page_fault_action(addr: u64, user_mode: bool) -> (a: FaultAction)
    ensures
        user_mode && USER_STACK_DEMAND_LOW <= addr < USER_STACK_DEMAND_HIGH ==> a == (FaultAction::DemandMap {
            page: (addr - addr % 4096) as u64,
            flags: DEMAND_PAGE_FLAGS,
        }),
        !(user_mode && USER_STACK_DEMAND_LOW <= addr < USER_STACK_DEMAND_HIGH) ==> a == FaultAction::Fatal,
{
    if user_mode && USER_STACK_DEMAND_LOW <= addr && addr < USER_STACK_DEMAND_HIGH {
        let page = addr & !0xFFFu64;
        assert(page == addr - addr % 4096) by (bit_vector)
            requires
                page == addr & !0xFFFu64,
        ;
        FaultAction::DemandMap { page, flags: DEMAND_PAGE_FLAGS }
    } else {
        FaultAction::Fatal
    }
}

/// After a fatal user-mode fault: terminates the running process `pid`
/// (none when 0). True when a process was terminated, so that another one
/// is to be scheduled.
pub fn kill_faulting(table: &mut ProcessTable, pid: u64) -> (b: bool)
    requires
        table_wf(old(table)),
    ensures
        table_wf(final(table)),
        final(table).pids == old(table).pids && final(table).created == old(table).created,
        replaced(old(table).procs@, final(table).procs@, pid),
        b == (pid != 0),
        pid == 0 || !old(table).procs@.contains_key(pid) ==> final(table).procs@ == old(table).procs@,
        pid != 0 && old(table).procs@.contains_key(pid) ==> final(table).procs@[pid].state == ProcessState::Terminated
            && same_but_state(old(table).procs@[pid], final(table).procs@[pid]),
{
    if pid == 0 {
        return false;
    }
    let _ = set_state(table, pid, ProcessState::Terminated);
    true
}

} // verus!
