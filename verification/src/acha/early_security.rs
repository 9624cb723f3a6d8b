//! Early security: the TPM 2.0 requirement at boot and the ACPI table
//! checks its detection rests on.

use vstd::prelude::*;
use crate::acha::events::{CognitiveEvent, EventLog, log_event};
use crate::arith::wrapping_inc;
use crate::elf::{le32, le64, read_le32, read_le64};

verus! {

/// Outcome of the TPM check.
#[derive(Debug, Clone, Copy, PartialEq, Eq, Structural)]
pub enum TpmStatus {
    /// A TPM 2.0 table was found and validated.
    Present,
    Absent,
    /// The check was skipped (debug build).
    Bypassed,
}

/// Whether boot may go on. A debug build (`debug_mode`) skips the TPM
/// requirement, recording a security event; otherwise `detected` (the
/// outcome of the ACPI scan) decides, an absent TPM also being recorded.
pub fn check_tpm(log: &mut EventLog, debug_mode: bool, detected: TpmStatus) -> (ok: bool)
    ensures
        ok == (debug_mode || detected == TpmStatus::Present),
        (debug_mode || detected == TpmStatus::Absent) ==> final(log).count == wrapping_inc(old(log).count),
        !(debug_mode || detected == TpmStatus::Absent) ==> final(log).count == old(log).count,
{
    if debug_mode {
        log_event(log, CognitiveEvent::SecurityViolation);
        return true;
    }
    match detected {
        TpmStatus::Present => true,
        TpmStatus::Absent => {
            log_event(log, CognitiveEvent::SecurityViolation);
            false
        },
        TpmStatus::Bypassed => false,
    }
}

/// A description of the TPM state.
pub fn get_tpm_info(debug_mode: bool, detected: TpmStatus) -> (s: &'static str)
    ensures
        debug_mode ==> s@ == "TPM check bypassed (DEBUG MODE)"@,
        !debug_mode && detected == TpmStatus::Present ==> s@ == "TPM 2.0 Present"@,
        !debug_mode && detected == TpmStatus::Absent ==> s@ == "TPM 2.0 Absent - SECURITY RISK"@,
        !debug_mode && detected == TpmStatus::Bypassed ==> s@ == "TPM check disabled"@,
{
    if debug_mode {
        return "TPM check bypassed (DEBUG MODE)";
    }
    match detected {
        TpmStatus::Present => "TPM 2.0 Present",
        TpmStatus::Absent => "TPM 2.0 Absent - SECURITY RISK",
        TpmStatus::Bypassed => "TPM check disabled",
    }
}

/// Runs the early checks; boot is refused (a panic) unless they pass, so
/// the caller guarantees that they do.
pub fn init(log: &mut EventLog, debug_mode: bool, detected: TpmStatus)
    requires
        debug_mode || detected == TpmStatus::Present,
    ensures
        debug_mode ==> final(log).count == wrapping_inc(old(log).count),
        !debug_mode ==> final(log).count == old(log).count,
{
    check_tpm(log, debug_mode, detected);
}

/// Sum of bytes modulo 256.
pub open spec fn byte_sum(b: Seq<u8>) -> int
    decreases b.len(),
{
    if b.len() == 0 {
        0
    } else {
        (byte_sum(b.drop_last()) + b.last()) % 256
    }
}

/// An ACPI structure's checksum holds: its bytes sum to 0 modulo 256.
pub fn checksum_ok(bytes: &[u8]) -> (ok: bool)
    ensures
        ok == (byte_sum(bytes@) == 0),
{
    let mut sum: u8 = 0;
    let mut i: usize = 0;
    while i < bytes.len()
        invariant
            i <= bytes@.len(),
            sum == byte_sum(bytes@.subrange(0, i as int)),
        decreases bytes@.len() - i,
    {
        proof {
            assert(bytes@.subrange(0, i + 1).drop_last() =~= bytes@.subrange(0, i as int));
        }
        sum = sum.wrapping_add(bytes[i]);
        i += 1;
    }
    assert(bytes@.subrange(0, bytes@.len() as int) =~= bytes@);
    sum == 0
}

/// Size of an ACPI table header.
pub const SDT_HEADER_SIZE: u32 = 36;

/// Number of table addresses in a root table of `length` bytes whose
/// entries are `entry_size` bytes each.
pub fn sdt_entry_count(length: u32, entry_size: u32) -> (n: u32)
    requires
        length >= SDT_HEADER_SIZE,
        entry_size > 0,
    ensures
        n == (length - SDT_HEADER_SIZE) / (entry_size as int),
{
    (length - SDT_HEADER_SIZE) / entry_size
}

/// Whether the bytes `[start, end)` of `b` sum to 0 modulo 256.
fn range_checksum_ok(b: &[u8], start: usize, end: usize) -> (ok: bool)
    requires
        start <= end <= b@.len(),
    ensures
        ok == (byte_sum(b@.subrange(start as int, end as int)) == 0),
{
    let mut sum: u8 = 0;
    let mut i: usize = start;
    while i < end
        invariant
            start <= i <= end <= b@.len(),
            sum == byte_sum(b@.subrange(start as int, i as int)),
        decreases end - i,
    {
        proof {
            assert(b@.subrange(start as int, i + 1).drop_last() =~= b@.subrange(start as int, i as int));
        }
        sum = sum.wrapping_add(b[i]);
        i += 1;
    }
    sum == 0
}

/// "RSD PTR ", the signature of the ACPI root pointer.
pub open spec fn rsdp_signature() -> Seq<u8> {
    seq![0x52u8, 0x53u8, 0x44u8, 0x20u8, 0x50u8, 0x54u8, 0x52u8, 0x20u8]
}

/// A valid ACPI root pointer starts at offset `o` of `area`: `o` lies on a
/// 16-byte boundary, and the 20 bytes of the pointer's first part lie in
/// `area`, begin with its signature and sum to 0 modulo 256.
pub open spec fn rsdp_at(area: Seq<u8>, o: int) -> bool {
    &&& 0 <= o && o % 16 == 0 && o + 20 <= area.len()
    &&& area.subrange(o, o + 8) == rsdp_signature()
    &&& byte_sum(area.subrange(o, o + 20)) == 0
}

/// The offset of the first valid ACPI root pointer in `area` (the BIOS
/// area, searched on 16-byte boundaries), or `None`.
pub fn find_rsdp(area: &[u8]) -> (r: Option<usize>)
    ensures
        r matches Some(o) ==> rsdp_at(area@, o as int) && forall|p: int| 0 <= p < o ==> !rsdp_at(area@, p),
        r is None ==> forall|p: int| !rsdp_at(area@, p),
{
    let mut o: usize = 0;
    while o <= area.len() && area.len() - o >= 20
        invariant
            o % 16 == 0,
            forall|p: int| 0 <= p < o ==> !rsdp_at(area@, p),
        decreases area@.len() - o,
    {
        let sig = area[o] == 0x52 && area[o + 1] == 0x53 && area[o + 2] == 0x44 && area[o + 3] == 0x20
            && area[o + 4] == 0x50 && area[o + 5] == 0x54 && area[o + 6] == 0x52 && area[o + 7] == 0x20;
        proof {
            if sig {
                assert(area@.subrange(o as int, o + 8) =~= rsdp_signature());
            } else {
                assert(area@.subrange(o as int, o + 8) != rsdp_signature()) by {
                    let s = area@.subrange(o as int, o + 8);
                    if s == rsdp_signature() {
                        assert(s[0] == area@[o as int] && s[1] == area@[o + 1] && s[2] == area@[o + 2] && s[3] == area@[o + 3]);
                        assert(s[4] == area@[o + 4] && s[5] == area@[o + 5] && s[6] == area@[o + 6] && s[7] == area@[o + 7]);
                    }
                }
            }
        }
        if sig && range_checksum_ok(area, o, o + 20) {
            return Some(o);
        }
        assert forall|p: int| 0 <= p < o + 16 implies !rsdp_at(area@, p) by {
            if p > o {
                assert(p % 16 != 0);
            }
        }
        o = o + 16;
    }
    None
}

/// The root table named by the root pointer at `o` in `area`: for revision
/// 2 or later with a non-zero 64-bit address (the XSDT, 8-byte entries),
/// that address; otherwise the 32-bit address (the RSDT, 4-byte entries).
pub open spec fn root_table_of(area: Seq<u8>, o: int) -> (u64, u32) {
    if area[o + 15] >= 2 && o + 32 <= area.len() && le64(area, o + 24) != 0 {
        (le64(area, o + 24), 8)
    } else {
        (le32(area, o + 16) as u64, 4)
    }
}

/// The address and entry size of the root table named by the root pointer
/// at `o` in `area`.
pub fn root_table(area: &[u8], o: usize) -> (r: (u64, u32))
    requires
        o + 20 <= area@.len(),
    ensures
        r == root_table_of(area@, o as int),
{
    let len = area.len();
    if area[o + 15] >= 2 && len >= 32 && o <= len - 32 {
        let x = read_le64(area, o + 24);
        if x != 0 {
            return (x, 8);
        }
    }
    (read_le32(area, o + 16) as u64, 4)
}

/// The table addresses listed by a root table whose bytes are `t`, given
/// its signature `sig` and entry size: `None` when the signature differs
/// or the length field is under the header size or past the bytes.
pub open spec fn root_entries(t: Seq<u8>, sig: Seq<u8>, entry_size: u32) -> Option<Seq<u64>> {
    if t.len() < SDT_HEADER_SIZE || t.subrange(0, 4) != sig || le32(t, 4) < SDT_HEADER_SIZE || le32(t, 4) > t.len() {
        None
    } else {
        let n = (le32(t, 4) - SDT_HEADER_SIZE) / (entry_size as int);
        Some(Seq::new(n as nat, |i: int| if entry_size == 8 {
            le64(t, SDT_HEADER_SIZE + 8 * i)
        } else {
            le32(t, SDT_HEADER_SIZE + 4 * i) as u64
        }))
    }
}

/// The table addresses listed by the root table `t` (signature `sig`,
/// "RSDT" with 4-byte or "XSDT" with 8-byte entries).
pub fn parse_root_table(t: &[u8], sig: &[u8], entry_size: u32) -> (r: Option<Vec<u64>>)
    requires
        sig@.len() == 4,
        entry_size == 4 || entry_size == 8,
    ensures
        r matches Some(v) ==> root_entries(t@, sig@, entry_size) == Some(v@),
        r is None ==> root_entries(t@, sig@, entry_size) is None,
{
    if t.len() < 36 {
        return None;
    }
    let same = t[0] == sig[0] && t[1] == sig[1] && t[2] == sig[2] && t[3] == sig[3];
    proof {
        if same {
            assert(t@.subrange(0, 4) =~= sig@);
        } else {
            assert(t@.subrange(0, 4) != sig@) by {
                if t@.subrange(0, 4) == sig@ {
                    assert(t@.subrange(0, 4)[0] == t@[0] && t@.subrange(0, 4)[1] == t@[1]);
                    assert(t@.subrange(0, 4)[2] == t@[2] && t@.subrange(0, 4)[3] == t@[3]);
                }
            }
        }
    }
    if !same {
        return None;
    }
    let length = read_le32(t, 4);
    if length < SDT_HEADER_SIZE || length as usize > t.len() {
        return None;
    }
    let n = sdt_entry_count(length, entry_size);
    let ghost want = root_entries(t@, sig@, entry_size)->0;
    let mut v: Vec<u64> = Vec::new();
    let mut i: u32 = 0;
    while i < n
        invariant
            i <= n,
            n == (length - SDT_HEADER_SIZE) / (entry_size as int),
            length == le32(t@, 4),
            SDT_HEADER_SIZE <= length <= t@.len(),
            entry_size == 4 || entry_size == 8,
            want == root_entries(t@, sig@, entry_size)->0,
            t@.len() >= 36,
            t@.subrange(0, 4) == sig@,
            want.len() == n,
            v@ == want.subrange(0, i as int),
        decreases n - i,
    {
        assert(36 + (i + 1) * (entry_size as int) <= length) by (nonlinear_arith)
            requires
                i < n,
                n == (length - 36) / (entry_size as int),
                entry_size > 0,
                length >= 36,
        ;
        assert(i * (entry_size as int) + entry_size == (i + 1) * (entry_size as int)) by (nonlinear_arith);
        let e = if entry_size == 8 {
            let off = 36 + (i as usize) * 8;
            read_le64(t, off)
        } else {
            let off = 36 + (i as usize) * 4;
            read_le32(t, off) as u64
        };
        assert(e == want[i as int]);
        v.push(e);
        i += 1;
        assert(v@ =~= want.subrange(0, i as int));
    }
    assert(v@ =~= want);
    Some(v)
}

/// The bytes `t` hold a valid TPM2 table: signature "TPM2", a length field
/// within the bytes, and its `length` bytes sum to 0 modulo 256.
pub open spec fn tpm2_table(t: Seq<u8>) -> bool {
    &&& t.len() >= 8
    &&& t.subrange(0, 4) == seq![0x54u8, 0x50u8, 0x4Du8, 0x32u8]
    &&& le32(t, 4) <= t.len()
    &&& byte_sum(t.subrange(0, le32(t, 4) as int)) == 0
}

/// Whether the table whose bytes are `t` is a valid TPM2 table.
pub fn check_table_for_tpm2(t: &[u8]) -> (b: bool)
    ensures
        b == tpm2_table(t@),
{
    if t.len() < 8 {
        return false;
    }
    let sig = t[0] == 0x54 && t[1] == 0x50 && t[2] == 0x4D && t[3] == 0x32;
    proof {
        let s = t@.subrange(0, 4);
        if sig {
            assert(s =~= seq![0x54u8, 0x50u8, 0x4Du8, 0x32u8]);
        } else if s == seq![0x54u8, 0x50u8, 0x4Du8, 0x32u8] {
            assert(s[0] == t@[0] && s[1] == t@[1] && s[2] == t@[2] && s[3] == t@[3]);
        }
    }
    if !sig {
        return false;
    }
    let length = read_le32(t, 4);
    if length as usize > t.len() {
        return false;
    }
    range_checksum_ok(t, 0, length as usize)
}

/// The outcome of the ACPI scan over the tables listed by the root table:
/// `Present` exactly when one of them is a valid TPM2 table.
pub fn tpm_status_of(tables: &Vec<Vec<u8>>) -> (s: TpmStatus)
    ensures
        s == TpmStatus::Present <==> exists|i: int| 0 <= i < tables@.len() && tpm2_table(#[trigger] tables@[i]@),
        s == TpmStatus::Present || s == TpmStatus::Absent,
{
    let mut i: usize = 0;
    while i < tables.len()
        invariant
            i <= tables@.len(),
            forall|k: int| 0 <= k < i ==> !tpm2_table(#[trigger] tables@[k]@),
        decreases tables@.len() - i,
    {
        if check_table_for_tpm2(tables[i].as_slice()) {
            return TpmStatus::Present;
        }
        i += 1;
    }
    TpmStatus::Absent
}

/// Whether an ACPI table signature is "TPM2".
pub fn is_tpm2_signature(sig: &[u8]) -> (b: bool)
    ensures
        b == (sig@ == seq![0x54u8, 0x50u8, 0x4Du8, 0x32u8]),
{
    if sig.len() != 4 {
        return false;
    }
    let b = sig[0] == 0x54 && sig[1] == 0x50 && sig[2] == 0x4D && sig[3] == 0x32;
    proof {
        if b {
            assert(sig@ =~= seq![0x54u8, 0x50u8, 0x4Du8, 0x32u8]);
        }
    }
    b
}

} // verus!
