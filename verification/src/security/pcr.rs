//! Platform configuration register measurements.

use vstd::prelude::*;
use vstd::string::*;
use crate::security::{sha256, sha256_digest};

verus! {

/// The first eight platform configuration registers.
#[derive(Debug, Clone, Copy, PartialEq, Eq, Structural)]
pub enum PcrIndex {
    Pcr0,
    Pcr1,
    Pcr2,
    Pcr3,
    Pcr4,
    Pcr5,
    Pcr6,
    Pcr7,
}

/// A register value (a SHA-256 digest).
pub type PcrValue = [u8; 32];

/// The text standing for the kernel image in its measurement.
pub open spec fn kernel_image() -> Seq<u8> {
    "Aetherion OS Kernel v0.1.0-HAL".spec_bytes()
}

/// The SHA-256 digest of `data`.
pub fn sha256_hash(data: &[u8]) -> (h: PcrValue)
    ensures
        h@ == sha256_digest(data@),
{
    sha256(data)
}

/// Measures the kernel into PCR0: the digest of `kernel_image`.
pub fn measure_kernel() -> (h: PcrValue)
    ensures
        h@ == sha256_digest(kernel_image()),
{
    sha256_hash("Aetherion OS Kernel v0.1.0-HAL".as_bytes())
}

/// Sets up measurements by measuring the kernel; returns the measurement.
pub fn init_pcr() -> (h: PcrValue)
    ensures
        h@ == sha256_digest(kernel_image()),
{
    measure_kernel()
}

/// The value a register takes when extended with `data`: the digest of `data`.
pub fn extend_pcr(pcr_index: PcrIndex, data: &[u8]) -> (h: PcrValue)
    ensures
        h@ == sha256_digest(data@),
{
    sha256_hash(data)
}

/// The value of a register: PCR0 holds the kernel measurement, the others zero.
pub fn read_pcr(pcr_index: PcrIndex) -> (h: PcrValue)
    ensures
        pcr_index == PcrIndex::Pcr0 ==> h@ == sha256_digest(kernel_image()),
        pcr_index != PcrIndex::Pcr0 ==> h@ == Seq::new(32, |i: int| 0u8),
{
    match pcr_index {
        PcrIndex::Pcr0 => measure_kernel(),
        _ => {
            let z = [0u8; 32];
            assert(z@ =~= Seq::new(32, |i: int| 0u8));
            z
        },
    }
}

} // verus!
