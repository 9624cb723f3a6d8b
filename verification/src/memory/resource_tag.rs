//! Tags recording who owns an allocation.

use vstd::prelude::*;

verus! {

/// What was allocated.
#[derive(Debug, Clone, Copy, PartialEq, Eq, Structural)]
pub enum AllocationType {
    Frame,
    Page,
    Heap,
    Stack,
}

impl AllocationType {
    /// The lower-case name of the type.
    pub fn as_str(&self) -> (s: &'static str)
        ensures
            *self == AllocationType::Frame ==> s@ == "frame"@,
            *self == AllocationType::Page ==> s@ == "page"@,
            *self == AllocationType::Heap ==> s@ == "heap"@,
            *self == AllocationType::Stack ==> s@ == "stack"@,
    {
        match self {
            AllocationType::Frame => "frame",
            AllocationType::Page => "page",
            AllocationType::Heap => "heap",
            AllocationType::Stack => "stack",
        }
    }
}

/// Owner and time of an allocation.
#[derive(Debug, Clone, Copy, PartialEq, Eq, Structural)]
pub struct ResourceTag {
    /// 0 for the kernel.
    pub process_id: u64,
    pub timestamp: u64,
    pub allocation_type: AllocationType,
}

impl ResourceTag {
    /// A kernel-owned tag (process 0, time 0).
    pub fn kernel(alloc_type: AllocationType) -> (t: Self)
        ensures
            t == (ResourceTag { process_id: 0, timestamp: 0, allocation_type: alloc_type }),
    {
        ResourceTag { process_id: 0, timestamp: 0, allocation_type: alloc_type }
    }

    /// The kernel owns it.
    pub fn is_kernel(&self) -> (b: bool)
        ensures
            b == (self.process_id == 0),
    {
        self.process_id == 0
    }
}

} // verus!
