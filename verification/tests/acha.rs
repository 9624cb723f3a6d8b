use aetherion_kernel::acha::early_security::{
    check_table_for_tpm2, check_tpm, checksum_ok, find_rsdp, get_tpm_info, is_tpm2_signature, parse_root_table, root_table,
    sdt_entry_count, tpm_status_of, TpmStatus,
};
use aetherion_kernel::acha::events::{get_event_count, log_event, log_exception, CognitiveEvent, EventLog};
use aetherion_kernel::acha::metrics::{get_metrics, increment_exception_count, increment_interrupt_count, increment_page_fault_count, init};

#[test]
fn test_tpm_check_debug_mode() {
    let mut log = EventLog::new();
    assert!(check_tpm(&mut log, true, TpmStatus::Bypassed), "TPM check should pass in debug mode");
}

#[test]
fn test_tpm_status_enum() {
    assert_ne!(TpmStatus::Present, TpmStatus::Absent);
    assert_ne!(TpmStatus::Absent, TpmStatus::Bypassed);
}

#[test]
fn test_event_logging() {
    let mut log = EventLog::new();
    let initial_count = get_event_count(&log);
    log_exception(&mut log, "TestException");
    assert_eq!(get_event_count(&log), initial_count + 1);
}

#[test]
fn test_metrics_increment() {
    let mut metrics = None;
    init(&mut metrics);
    increment_interrupt_count(&mut metrics);
    increment_page_fault_count(&mut metrics);
    if let Some((interrupts, page_faults, _, _)) = get_metrics(&metrics) {
        assert!(interrupts > 0);
        assert!(page_faults > 0);
    }
}

#[test]
fn metrics_are_absent_before_init_and_exact_after() {
    let mut metrics = None;
    increment_interrupt_count(&mut metrics);
    assert_eq!(get_metrics(&metrics), None);
    init(&mut metrics);
    increment_interrupt_count(&mut metrics);
    increment_interrupt_count(&mut metrics);
    increment_exception_count(&mut metrics);
    assert_eq!(get_metrics(&metrics), Some((2, 0, 1, 0)));
}

#[test]
fn production_check_follows_detection() {
    let mut log = EventLog::new();
    assert!(check_tpm(&mut log, false, TpmStatus::Present));
    assert_eq!(get_event_count(&log), 0);
    assert!(!check_tpm(&mut log, false, TpmStatus::Absent));
    assert_eq!(get_event_count(&log), 1);
    assert!(!check_tpm(&mut log, false, TpmStatus::Bypassed));
    assert_eq!(get_event_count(&log), 1);
    assert!(check_tpm(&mut log, true, TpmStatus::Absent));
    assert_eq!(get_event_count(&log), 2);
}

#[test]
fn tpm_info_texts() {
    assert_eq!(get_tpm_info(true, TpmStatus::Absent), "TPM check bypassed (DEBUG MODE)");
    assert_eq!(get_tpm_info(false, TpmStatus::Present), "TPM 2.0 Present");
    assert_eq!(get_tpm_info(false, TpmStatus::Absent), "TPM 2.0 Absent - SECURITY RISK");
    assert_eq!(get_tpm_info(false, TpmStatus::Bypassed), "TPM check disabled");
}

#[test]
fn every_event_counts() {
    let mut log = EventLog::new();
    log_event(&mut log, CognitiveEvent::KernelPanic);
    log_event(&mut log, CognitiveEvent::SecurityViolation);
    log_event(&mut log, CognitiveEvent::AllocationFailure);
    assert_eq!(get_event_count(&log), 3);
}

#[test]
fn acpi_checksums_and_tables() {
    assert!(checksum_ok(&[]));
    assert!(checksum_ok(&[0x10, 0xF0]));
    assert!(!checksum_ok(&[0x10, 0xEF]));
    assert!(checksum_ok(&[0xFF, 0xFF, 0x02]));
    assert_eq!(sdt_entry_count(36 + 4 * 5, 4), 5);
    assert_eq!(sdt_entry_count(36 + 8 * 3 + 7, 8), 3);
    assert!(is_tpm2_signature(b"TPM2"));
    assert!(!is_tpm2_signature(b"TPM1"));
    assert!(!is_tpm2_signature(b"TPM"));
}

fn fix_checksum(bytes: &mut [u8], at: usize, len: usize) {
    bytes[at] = 0;
    let sum = bytes[..len].iter().fold(0u8, |a, b| a.wrapping_add(*b));
    bytes[at] = 0u8.wrapping_sub(sum);
}

fn rsdp(revision: u8, rsdt: u32, xsdt: u64) -> Vec<u8> {
    let mut r = vec![0u8; 36];
    r[..8].copy_from_slice(b"RSD PTR ");
    r[15] = revision;
    r[16..20].copy_from_slice(&rsdt.to_le_bytes());
    r[24..32].copy_from_slice(&xsdt.to_le_bytes());
    fix_checksum(&mut r, 8, 20);
    r
}

#[test]
fn acpi_rsdp_found_on_sixteen_byte_boundary_with_valid_checksum() {
    let mut area = vec![0u8; 256];
    // a signature off the 16-byte grid is ignored
    area[3..11].copy_from_slice(b"RSD PTR ");
    // one on the grid with a bad checksum is skipped
    let mut bad = rsdp(0, 0x1000, 0);
    bad[8] = bad[8].wrapping_add(1);
    area[32..68].copy_from_slice(&bad);
    let good = rsdp(2, 0x1000, 0x2000);
    area[96..132].copy_from_slice(&good);
    assert_eq!(find_rsdp(&area), Some(96));
    assert_eq!(root_table(&area, 96), (0x2000, 8));
    assert_eq!(find_rsdp(&area[..100]), None);
    let v1 = rsdp(0, 0x1000, 0x2000);
    assert_eq!(find_rsdp(&v1), Some(0));
    assert_eq!(root_table(&v1, 0), (0x1000, 4));
    let no_x = rsdp(2, 0x1000, 0);
    assert_eq!(root_table(&no_x, 0), (0x1000, 4));
}

fn sdt(sig: &[u8; 4], len: usize) -> Vec<u8> {
    let mut t = vec![0u8; len];
    t[..4].copy_from_slice(sig);
    t[4..8].copy_from_slice(&(len as u32).to_le_bytes());
    t
}

#[test]
fn acpi_root_tables_list_their_entries() {
    let mut x = sdt(b"XSDT", 36 + 16);
    x[36..44].copy_from_slice(&0x1122_3344_5566_7788u64.to_le_bytes());
    x[44..52].copy_from_slice(&0x10u64.to_le_bytes());
    assert_eq!(parse_root_table(&x, b"XSDT", 8), Some(vec![0x1122_3344_5566_7788, 0x10]));
    assert_eq!(parse_root_table(&x, b"RSDT", 4), None);
    let mut r = sdt(b"RSDT", 36 + 12);
    r[36..40].copy_from_slice(&7u32.to_le_bytes());
    r[40..44].copy_from_slice(&8u32.to_le_bytes());
    r[44..48].copy_from_slice(&9u32.to_le_bytes());
    assert_eq!(parse_root_table(&r, b"RSDT", 4), Some(vec![7, 8, 9]));
    // a length field past the bytes read is refused
    let mut long = sdt(b"RSDT", 40);
    long[4..8].copy_from_slice(&100u32.to_le_bytes());
    assert_eq!(parse_root_table(&long, b"RSDT", 4), None);
    assert_eq!(parse_root_table(&r[..20], b"RSDT", 4), None);
}

#[test]
fn acpi_tpm2_table_detected_only_with_valid_checksum() {
    let mut t = sdt(b"TPM2", 52);
    fix_checksum(&mut t, 9, 52);
    assert!(check_table_for_tpm2(&t));
    let mut broken = t.clone();
    broken[40] = broken[40].wrapping_add(1);
    assert!(!check_table_for_tpm2(&broken));
    let mut other = sdt(b"APIC", 52);
    fix_checksum(&mut other, 9, 52);
    assert!(!check_table_for_tpm2(&other));
    assert_eq!(tpm_status_of(&vec![other.clone(), t.clone()]), TpmStatus::Present);
    assert_eq!(tpm_status_of(&vec![other, broken]), TpmStatus::Absent);
    assert_eq!(tpm_status_of(&vec![]), TpmStatus::Absent);
}
