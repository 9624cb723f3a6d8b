//! Boot measurements: SHA-256 digests for platform configuration registers,
//! integrity checks, and the TPM command stubs.

pub mod pcr;
pub mod tpm;

use vstd::prelude::*;
use vstd::string::*;
use sha2::{Digest, Sha256};

verus! {

/// The SHA-256 digest of `data` (FIPS 180-4) as the sha2 crate computes it.
pub uninterp spec fn sha256_digest(data: Seq<u8>) -> Seq<u8>;

/// `sha2::Sha256::digest`: the digest of `data`. Trusted: the result is the
/// named digest of the bytes given; nothing more is claimed of its value.
#[verifier::external_body]
pub(crate) fn sha256(data: &[u8]) -> (h: [u8; 32])
    ensures
        h@ == sha256_digest(data@),
{
    Sha256::digest(data).into()
}

/// The bytes measured into PCR0 at boot: HAL version, bootloader, kernel,
/// configuration and boot date, in that order.
pub open spec fn pcr0_input() -> Seq<u8> {
    "Aetherion HAL v0.1.0".spec_bytes() + "bootloader:0.9.23".spec_bytes() + "kernel:mvp-core-v0.1.0".spec_bytes()
        + "config:hal-couche1-complete".spec_bytes() + "boot:2026-02-20".spec_bytes()
}

/// The PCR0 measurement: the digest of `pcr0_input`.
pub fn measure_pcr0() -> (h: [u8; 32])
    ensures
        h@ == sha256_digest(pcr0_input()),
{
    let mut input: Vec<u8> = Vec::new();
    crate::net::wire::push_bytes(&mut input, "Aetherion HAL v0.1.0".as_bytes());
    crate::net::wire::push_bytes(&mut input, "bootloader:0.9.23".as_bytes());
    crate::net::wire::push_bytes(&mut input, "kernel:mvp-core-v0.1.0".as_bytes());
    crate::net::wire::push_bytes(&mut input, "config:hal-couche1-complete".as_bytes());
    crate::net::wire::push_bytes(&mut input, "boot:2026-02-20".as_bytes());
    assert(input@ =~= pcr0_input());
    sha256(input.as_slice())
}

/// Brings up boot security: the (stubbed) TPM is present, so PCR0 is
/// measured; returns the measurement.
pub fn init() -> (h: [u8; 32])
    ensures
        h@ == sha256_digest(pcr0_input()),
{
    measure_pcr0()
}

/// Thirty-two zero bytes (the register value before any extension).
pub open spec fn zero_pcr() -> Seq<u8> {
    Seq::new(32, |i: int| 0u8)
}

/// Extends register `pcr_index` (at most 23) with `data`: the digest of the
/// zero register followed by `data`.
pub fn extend_pcr(pcr_index: u8, data: &[u8]) -> (h: [u8; 32])
    requires
        pcr_index <= 23,
    ensures
        h@ == sha256_digest(zero_pcr() + data@),
{
    let mut input: Vec<u8> = Vec::new();
    let mut i: usize = 0;
    while i < 32
        invariant
            i <= 32,
            input@ == Seq::new(i as nat, |j: int| 0u8),
        decreases 32 - i,
    {
        input.push(0);
        assert(input@ =~= Seq::new((i + 1) as nat, |j: int| 0u8));
        i += 1;
    }
    crate::net::wire::push_bytes(&mut input, data);
    assert(input@ =~= zero_pcr() + data@);
    sha256(input.as_slice())
}

/// Whether the digest of `data` is `expected`.
pub fn verify_integrity(data: &[u8], expected: &[u8; 32]) -> (b: bool)
    ensures
        b == (sha256_digest(data@) == expected@),
{
    let computed = sha256(data);
    let mut i: usize = 0;
    while i < 32
        invariant
            i <= 32,
            computed@.len() == 32 && expected@.len() == 32,
            computed@ == sha256_digest(data@),
            forall|j: int| 0 <= j < i ==> computed@[j] == expected@[j],
        decreases 32 - i,
    {
        if computed[i] != expected[i] {
            return false;
        }
        i += 1;
    }
    assert(computed@ =~= expected@);
    true
}

/// Number of registers (TPM 2.0 has 24).
pub fn pcr_count() -> (n: u8)
    ensures
        n == 24,
{
    24
}

/// Commands of the TPM stub.
#[derive(Debug)]
pub enum TpmCommand {
    Startup,
    SelfTest,
    PcrRead(u8),
    PcrExtend(u8),
    GetCapability,
}

/// The command names a register beyond 23.
pub open spec fn bad_register(c: TpmCommand) -> bool {
    match c {
        TpmCommand::PcrRead(i) => i > 23,
        TpmCommand::PcrExtend(i) => i > 23,
        _ => false,
    }
}

impl TpmCommand {
    /// Runs the command: register commands fail on a register beyond 23,
    /// everything else succeeds.
    pub fn execute(&self) -> (r: Result<(), &'static str>)
        ensures
            r is Err <==> bad_register(*self),
            r matches Err(m) ==> m@ == "Invalid PCR index"@,
    {
        match self {
            TpmCommand::PcrRead(idx) => {
                if *idx > 23 {
                    return Err("Invalid PCR index");
                }
                Ok(())
            },
            TpmCommand::PcrExtend(idx) => {
                if *idx > 23 {
                    return Err("Invalid PCR index");
                }
                Ok(())
            },
            _ => Ok(()),
        }
    }
}

} // verus!
