//! The global descriptor table: flat kernel and user segments.

use vstd::prelude::*;

verus! {

/// One segment descriptor, in its hardware layout.
#[derive(Clone, Copy, PartialEq, Eq, Structural)]
pub struct GdtEntry {
    pub limit_low: u16,
    pub base_low: u16,
    pub base_middle: u8,
    pub access: u8,
    pub granularity: u8,
    pub base_high: u8,
}

/// The descriptor of a segment at `base` with `limit`, access byte
/// `access` and flag nibble `flags` (high four bits).
pub open spec fn descriptor(base: u32, limit: u32, access: u8, flags: u8) -> GdtEntry {
    GdtEntry {
        limit_low: (limit & 0xFFFF) as u16,
        base_low: (base & 0xFFFF) as u16,
        base_middle: ((base >> 16u32) & 0xFF) as u8,
        access,
        granularity: (((limit >> 16u32) & 0x0F) as u8) | (flags & 0xF0),
        base_high: ((base >> 24u32) & 0xFF) as u8,
    }
}

impl GdtEntry {
    /// The null descriptor.
    pub fn null() -> (e: Self)
        ensures
            e == (GdtEntry { limit_low: 0, base_low: 0, base_middle: 0, access: 0, granularity: 0, base_high: 0 }),
    {
        GdtEntry { limit_low: 0, base_low: 0, base_middle: 0, access: 0, granularity: 0, base_high: 0 }
    }

    /// The descriptor of a segment (`descriptor`).
    pub fn new(base: u32, limit: u32, access: u8, flags: u8) -> (e: Self)
        ensures
            e == descriptor(base, limit, access, flags),
    {
        GdtEntry {
            limit_low: (limit & 0xFFFF) as u16,
            base_low: (base & 0xFFFF) as u16,
            base_middle: ((base >> 16u32) & 0xFF) as u8,
            access,
            granularity: (((limit >> 16u32) & 0x0F) as u8) | (flags & 0xF0),
            base_high: ((base >> 24u32) & 0xFF) as u8,
        }
    }
}

/// The table: null, kernel code (0x08), kernel data (0x10), user data
/// (0x18), user code (0x20).
pub struct Gdt {
    pub entries: [GdtEntry; 5],
}

impl Gdt {
    /// The flat 4 GiB segments: 64-bit code (flags 0xA0) and data (0xC0), at
    /// privilege 0 (access 0x9A, 0x92) and 3 (0xFA, 0xF2).
    pub fn new() -> (g: Self)
        ensures
            g.entries@ == seq![
                GdtEntry { limit_low: 0, base_low: 0, base_middle: 0, access: 0, granularity: 0, base_high: 0 },
                descriptor(0, 0xFFFFF, 0x9A, 0xA0),
                descriptor(0, 0xFFFFF, 0x92, 0xC0),
                descriptor(0, 0xFFFFF, 0xF2, 0xC0),
                descriptor(0, 0xFFFFF, 0xFA, 0xA0),
            ],
    {
        let g = Gdt {
            entries: [
                GdtEntry::null(),
                GdtEntry::new(0, 0xFFFFF, 0x9A, 0xA0),
                GdtEntry::new(0, 0xFFFFF, 0x92, 0xC0),
                GdtEntry::new(0, 0xFFFFF, 0xF2, 0xC0),
                GdtEntry::new(0, 0xFFFFF, 0xFA, 0xA0),
            ],
        };
        assert(g.entries@ =~= seq![
            GdtEntry { limit_low: 0, base_low: 0, base_middle: 0, access: 0, granularity: 0, base_high: 0 },
            descriptor(0, 0xFFFFF, 0x9A, 0xA0),
            descriptor(0, 0xFFFFF, 0x92, 0xC0),
            descriptor(0, 0xFFFFF, 0xF2, 0xC0),
            descriptor(0, 0xFFFFF, 0xFA, 0xA0),
        ]);
        g
    }
}

} // verus!
