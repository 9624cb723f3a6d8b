//! Saved CPU register context of a task.

use vstd::prelude::*;

verus! {

/// Callee-saved registers, flags and instruction pointer of a task.
#[derive(Debug, Clone, Copy, PartialEq, Eq, Structural)]
pub struct TaskContext {
    pub rsp: u64,
    pub rbp: u64,
    pub rbx: u64,
    pub r12: u64,
    pub r13: u64,
    pub r14: u64,
    pub r15: u64,
    pub rflags: u64,
    pub rip: u64,
}

/// RFLAGS with only IF (interrupts enabled) set.
pub const RFLAGS_IF: u64 = 0x200;

/// The context every task starts from: all registers zero, interrupts enabled.
pub open spec fn zero_context() -> TaskContext {
    TaskContext { rsp: 0, rbp: 0, rbx: 0, r12: 0, r13: 0, r14: 0, r15: 0, rflags: RFLAGS_IF, rip: 0 }
}

impl TaskContext {
    /// All registers zero, interrupts enabled.
    pub fn zero() -> (c: Self)
        ensures
            c == zero_context(),
    {
        TaskContext { rsp: 0, rbp: 0, rbx: 0, r12: 0, r13: 0, r14: 0, r15: 0, rflags: RFLAGS_IF, rip: 0 }
    }

    /// A context that starts at `entry_point` on the stack `stack_top`.
    pub fn new(stack_top: u64, entry_point: u64) -> (c: Self)
        ensures
            c == (TaskContext { rsp: stack_top, rbp: stack_top, rip: entry_point, ..zero_context() }),
    {
        TaskContext {
            rsp: stack_top,
            rbp: stack_top,
            rbx: 0,
            r12: 0,
            r13: 0,
            r14: 0,
            r15: 0,
            rflags: RFLAGS_IF,
            rip: entry_point,
        }
    }
}

} // verus!
