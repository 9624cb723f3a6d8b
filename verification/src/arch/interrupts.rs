//! Hardware interrupt vectors of the two chained 8259 controllers.

use vstd::prelude::*;

verus! {

/// First vector of the primary controller.
pub const PIC1_OFFSET: u8 = 32;
/// First vector of the secondary controller.
pub const PIC2_OFFSET: u8 = 40;

/// Hardware interrupts by source.
#[derive(Debug, Clone, Copy, PartialEq, Eq, Structural)]
pub enum InterruptIndex {
    Timer,
    Keyboard,
    Cascade,
    Com2,
    Com1,
    Lpt2,
    Floppy,
    Lpt1,
    Rtc,
    Mouse,
    IdePrimary,
    IdeSecondary,
}

/// The vector of each source: IRQ n of the primary controller is 32 + n,
/// IRQ 8 + n of the secondary is 40 + n.
pub open spec fn vector_of(i: InterruptIndex) -> u8 {
    match i {
        InterruptIndex::Timer => 32,
        InterruptIndex::Keyboard => 33,
        InterruptIndex::Cascade => 34,
        InterruptIndex::Com2 => 35,
        InterruptIndex::Com1 => 36,
        InterruptIndex::Lpt2 => 37,
        InterruptIndex::Floppy => 38,
        InterruptIndex::Lpt1 => 39,
        InterruptIndex::Rtc => 40,
        InterruptIndex::Mouse => 44,
        InterruptIndex::IdePrimary => 46,
        InterruptIndex::IdeSecondary => 47,
    }
}

impl InterruptIndex {
    /// The interrupt vector.
    pub fn as_u8(self) -> (v: u8)
        ensures
            v == vector_of(self),
    {
        match self {
            InterruptIndex::Timer => PIC1_OFFSET,
            InterruptIndex::Keyboard => PIC1_OFFSET + 1,
            InterruptIndex::Cascade => PIC1_OFFSET + 2,
            InterruptIndex::Com2 => PIC1_OFFSET + 3,
            InterruptIndex::Com1 => PIC1_OFFSET + 4,
            InterruptIndex::Lpt2 => PIC1_OFFSET + 5,
            InterruptIndex::Floppy => PIC1_OFFSET + 6,
            InterruptIndex::Lpt1 => PIC1_OFFSET + 7,
            InterruptIndex::Rtc => PIC2_OFFSET,
            InterruptIndex::Mouse => PIC2_OFFSET + 4,
            InterruptIndex::IdePrimary => PIC2_OFFSET + 6,
            InterruptIndex::IdeSecondary => PIC2_OFFSET + 7,
        }
    }

    /// The interrupt vector, as an index.
    pub fn as_usize(self) -> (v: usize)
        ensures
            v == vector_of(self),
    {
        self.as_u8() as usize
    }
}

/// Interrupt stack table slot used for double faults.
pub fn double_fault_ist_index() -> (i: u16)
    ensures
        i == 0,
{
    0
}

/// Microseconds in `cycles` time-stamp cycles (a 3 GHz counter).
pub fn cycles_to_us(cycles: u64) -> (us: u64)
    ensures
        us == cycles / 3000,
{
    cycles / 3000
}

} // verus!
