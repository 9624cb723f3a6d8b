//! Architecture-level data and computations of the kernel.

pub mod context;
pub mod pci;
pub mod interrupts;
pub mod faults;
