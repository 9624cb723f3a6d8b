use aetherion_kernel::security::pcr::{extend_pcr as extend_register, measure_kernel, read_pcr, sha256_hash, PcrIndex};
use aetherion_kernel::security::tpm::{detect_tpm, init_tpm, TpmStatus};
use aetherion_kernel::security::{extend_pcr, measure_pcr0, pcr_count, verify_integrity, TpmCommand};

fn hex(h: &[u8]) -> String {
    h.iter().map(|b| format!("{:02x}", b)).collect()
}

#[test]
fn test_pcr_measurement() {
    let hash = measure_kernel();
    assert_eq!(hash.len(), 32);
}

#[test]
fn test_sha256_hash() {
    let data = b"test";
    let hash = sha256_hash(data);
    assert_eq!(hash.len(), 32);
}

#[test]
fn test_tpm_detection() {
    let status = detect_tpm();
    assert!(matches!(status, TpmStatus::Found | TpmStatus::NotFound));
}

#[test]
fn sha256_of_test_is_the_known_digest() {
    assert_eq!(hex(&sha256_hash(b"test")), "9f86d081884c7d659a2feaa0c55ad015a3bf4f1b2b0b822cd15d6c15b0f00a08");
    assert_eq!(hex(&sha256_hash(b"")), "e3b0c44298fc1c149afbf4c8996fb92427ae41e4649b934ca495991b7852b855");
}

#[test]
fn pcr0_measures_the_boot_components_in_order() {
    let whole = b"Aetherion HAL v0.1.0bootloader:0.9.23kernel:mvp-core-v0.1.0config:hal-couche1-completeboot:2026-02-20";
    assert_eq!(measure_pcr0(), sha256_hash(whole));
}

#[test]
fn extension_hashes_zero_register_and_data() {
    let mut input = vec![0u8; 32];
    input.extend_from_slice(b"test data");
    assert_eq!(extend_pcr(0, b"test data"), sha256_hash(&input));
    assert_eq!(extend_pcr(0, b"test data").len(), 32);
    assert_eq!(extend_register(PcrIndex::Pcr3, b"abc"), sha256_hash(b"abc"));
}

#[test]
fn test_integrity_verification() {
    let data = b"test data for integrity";
    let expected = sha256_hash(data);
    assert!(verify_integrity(data, &expected));
    assert!(!verify_integrity(b"tampered data", &expected));
}

#[test]
fn test_pcr_count() {
    assert_eq!(pcr_count(), 24);
}

#[test]
fn test_tpm_commands() {
    assert!(TpmCommand::Startup.execute().is_ok());
    assert!(TpmCommand::SelfTest.execute().is_ok());
    assert!(TpmCommand::PcrRead(0).execute().is_ok());
    assert!(TpmCommand::PcrRead(25).execute().is_err());
    assert_eq!(TpmCommand::PcrExtend(24).execute(), Err("Invalid PCR index"));
    assert!(TpmCommand::PcrExtend(23).execute().is_ok());
    assert!(TpmCommand::GetCapability.execute().is_ok());
}

#[test]
fn registers_read_back() {
    assert_eq!(read_pcr(PcrIndex::Pcr0), measure_kernel());
    assert_eq!(read_pcr(PcrIndex::Pcr7), [0u8; 32]);
    assert_eq!(measure_kernel(), sha256_hash(b"Aetherion OS Kernel v0.1.0-HAL"));
    assert!(init_tpm().is_ok());
}
