//! Aetherion kernel core logic: protocol codecs, the virtual filesystem,
//! process hierarchy, scheduling, the cognitive bus and the policy verifier.

pub mod ipc;
pub mod net;
pub mod intmap;
pub mod arith;
pub mod decimal;
pub mod fs;
pub mod arch;
pub mod process;
pub mod scheduler;
pub mod gatekeeper;
pub mod elf;
pub mod security;
pub mod acha;
pub mod allocator;
pub mod memory;
pub mod gpu;
pub mod gdt;
pub mod drivers;
pub mod syscall;
pub mod vga;
pub mod util;
