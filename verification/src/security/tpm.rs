//! TPM presence (stubbed: a TPM 2.0 at the usual MMIO base is assumed).

use vstd::prelude::*;

verus! {

/// Outcome of TPM detection.
#[derive(Debug, Clone, Copy, PartialEq, Eq, Structural)]
pub enum TpmStatus {
    Found,
    NotFound,
    Error,
}

/// TPM specification version.
#[derive(Debug, Clone, Copy, PartialEq, Eq, Structural)]
pub enum TpmVersion {
    Tpm12,
    Tpm20,
    Unknown,
}

/// A detected TPM.
#[derive(Debug)]
pub struct TpmInfo {
    pub version: TpmVersion,
    pub base_address: u64,
    pub interrupt: u32,
}

/// The usual MMIO base of a TPM.
pub const TPM_MMIO_BASE: u64 = 0xFED4_0000;

/// Looks for the TPM2 table; the stub reports a TPM 2.0 at the usual base.
fn search_tpm2_table() -> (r: Option<TpmInfo>)
    ensures
        r matches Some(t) && t.version == TpmVersion::Tpm20 && t.base_address == TPM_MMIO_BASE && t.interrupt == 0,
{
    Some(TpmInfo { version: TpmVersion::Tpm20, base_address: TPM_MMIO_BASE, interrupt: 0 })
}

/// Detects the TPM: `Found` when the table search finds one.
pub fn detect_tpm() -> (s: TpmStatus)
    ensures
        s == TpmStatus::Found,
{
    match search_tpm2_table() {
        Some(_) => TpmStatus::Found,
        None => TpmStatus::NotFound,
    }
}

/// Prepares the TPM for measurements (nothing to do for the stub).
pub fn init_tpm() -> (r: Result<(), &'static str>)
    ensures
        r is Ok,
{
    Ok(())
}

} // verus!
