use aetherion_kernel::fs::manifest::{Capability, DeviceManifest, DeviceType};
use aetherion_kernel::fs::path::check_path;
use aetherion_kernel::fs::vfs::{file_read, file_write, get_metrics, init, list_path, mount_device, Vfs, VfsError};
use aetherion_kernel::ipc::bus::{consume, len, CognitiveBus};

fn mounted_vfs() -> (Vfs, CognitiveBus) {
    let mut vfs = Vfs::new();
    let mut bus = CognitiveBus::new();
    assert_eq!(init(&mut vfs), Ok(()));
    let manifest = DeviceManifest::ram_disk("ram0", 1024, true);
    assert_eq!(mount_device(&mut vfs, &mut bus, 1, "/dev/ram0", manifest), Ok(()));
    (vfs, bus)
}

#[test]
fn vfs_write_then_read_gives_data_back() {
    let (mut vfs, mut bus) = mounted_vfs();
    assert_eq!(file_write(&mut vfs, &mut bus, 2, "/dev/ram0", b"Hello AetherionOS VFS!"), Ok(22));
    let data = file_read(&mut vfs, &mut bus, 3, "/dev/ram0").unwrap();
    assert_eq!(data.as_slice(), b"Hello AetherionOS VFS!");
}

#[test]
fn vfs_read_only_device_refuses_write() {
    let (mut vfs, mut bus) = mounted_vfs();
    let rom = DeviceManifest::ram_disk("rom0", 512, false);
    assert_eq!(mount_device(&mut vfs, &mut bus, 2, "/dev/rom0", rom), Ok(()));
    assert_eq!(file_write(&mut vfs, &mut bus, 3, "/dev/rom0", b"should fail"), Err(VfsError::ReadOnlyDevice));
    assert_eq!(get_metrics(&vfs).security_violations, 1);
}

#[test]
fn vfs_missing_node() {
    let (mut vfs, mut bus) = mounted_vfs();
    assert_eq!(file_read(&mut vfs, &mut bus, 2, "/dev/noexist"), Err(VfsError::NotFound));
    assert_eq!(file_write(&mut vfs, &mut bus, 2, "/dev/noexist", b"x"), Err(VfsError::DeviceNotMounted));
}

#[test]
fn vfs_path_traversal_blocked() {
    let (mut vfs, mut bus) = mounted_vfs();
    assert_eq!(file_write(&mut vfs, &mut bus, 2, "/../etc/shadow", b"pwned"), Err(VfsError::PathTraversal));
    assert_eq!(file_read(&mut vfs, &mut bus, 2, "/dev/../../root"), Err(VfsError::PathTraversal));
    for path in ["/../etc/passwd", "/dev/../../root", "/dev/../../../shadow", "/./dev/ram0", "/dev//ram0", "/dev/..hidden"] {
        assert!(file_read(&mut vfs, &mut bus, 3, path).is_err(), "{}", path);
    }
}

#[test]
fn vfs_invalid_paths() {
    let (mut vfs, mut bus) = mounted_vfs();
    assert_eq!(file_write(&mut vfs, &mut bus, 2, "dev/ram0", b"data"), Err(VfsError::InvalidPath));
    assert_eq!(file_write(&mut vfs, &mut bus, 2, "", b"data"), Err(VfsError::InvalidPath));
    assert_eq!(file_write(&mut vfs, &mut bus, 2, "/", b"data"), Err(VfsError::InvalidPath));
    assert_eq!(file_read(&mut vfs, &mut bus, 2, "/dev/ram0\0x"), Err(VfsError::NullByteInjection));
    assert_eq!(check_path("/dev//ram0"), Err(VfsError::InvalidPath));
    assert_eq!(check_path("/dev/ram 0"), Err(VfsError::InvalidPath));
    assert_eq!(check_path("/dev/ram0"), Ok(()));
}

#[test]
fn vfs_capacity_boundary() {
    let (mut vfs, mut bus) = mounted_vfs();
    assert_eq!(file_write(&mut vfs, &mut bus, 2, "/dev/ram0", &[0xAA; 2048]), Err(VfsError::CapacityExceeded));
    assert_eq!(file_write(&mut vfs, &mut bus, 2, "/dev/ram0", &[0xBB; 1024]), Ok(1024));
    assert_eq!(file_write(&mut vfs, &mut bus, 2, "/dev/ram0", &[0xCC; 1025]), Err(VfsError::CapacityExceeded));
    assert_eq!(file_read(&mut vfs, &mut bus, 3, "/dev/ram0").unwrap(), vec![0xBB; 1024]);
}

#[test]
fn vfs_invalid_manifest() {
    let mut bad = DeviceManifest::ram_disk("bad", 512, true);
    bad.read_only = true;
    assert!(!bad.validate());
    let mut vfs = Vfs::new();
    let mut bus = CognitiveBus::new();
    assert_eq!(init(&mut vfs), Ok(()));
    assert_eq!(mount_device(&mut vfs, &mut bus, 1, "/dev/bad", bad), Err(VfsError::InvalidManifest));
    assert!(DeviceManifest::ram_disk("ok", 512, true).validate());
}

#[test]
fn vfs_manifest_capabilities() {
    let m = DeviceManifest::ram_disk("ram0", 1024, true);
    assert!(m.can(Capability::Read) && m.can(Capability::Write));
    assert!(!m.can(Capability::Execute));
    assert_eq!(m.device_type, DeviceType::RamDisk);
    let sensor = DeviceManifest::virtual_readonly("test-sensor");
    assert!(sensor.can(Capability::Read));
    assert!(!sensor.can(Capability::Write));
    assert!(sensor.read_only);
}

#[test]
fn vfs_data_integrity() {
    let (mut vfs, mut bus) = mounted_vfs();
    let pattern: Vec<u8> = (0..128u8).collect();
    assert!(file_write(&mut vfs, &mut bus, 2, "/dev/ram0", &pattern).is_ok());
    assert_eq!(file_read(&mut vfs, &mut bus, 3, "/dev/ram0").unwrap(), pattern);
    let pattern: Vec<u8> = (0..=255u8).collect();
    assert!(file_write(&mut vfs, &mut bus, 4, "/dev/ram0", &pattern).is_ok());
    assert_eq!(file_read(&mut vfs, &mut bus, 5, "/dev/ram0").unwrap(), pattern);
}

#[test]
fn vfs_write_read_cycles() {
    let (mut vfs, mut bus) = mounted_vfs();
    for i in 0u32..200 {
        let data = format!("Cycle-{:04}", i);
        assert_eq!(file_write(&mut vfs, &mut bus, i as u64, "/dev/ram0", data.as_bytes()), Ok(data.len()));
        assert_eq!(file_read(&mut vfs, &mut bus, i as u64, "/dev/ram0").unwrap(), data.as_bytes());
        while consume(&mut bus).is_ok() {}
    }
}

#[test]
fn vfs_read_only_sensor() {
    let (mut vfs, mut bus) = mounted_vfs();
    let m = DeviceManifest::virtual_readonly("test-sensor");
    assert_eq!(mount_device(&mut vfs, &mut bus, 2, "/dev/sensor0", m), Ok(()));
    assert_eq!(file_write(&mut vfs, &mut bus, 3, "/dev/sensor0", b"x"), Err(VfsError::ReadOnlyDevice));
    assert!(file_read(&mut vfs, &mut bus, 4, "/dev/sensor0").is_ok());
}

#[test]
fn vfs_listing() {
    let (mut vfs, _bus) = mounted_vfs();
    let root = list_path(&mut vfs, "/").unwrap();
    assert!(!root.is_empty());
    assert!(root.iter().any(|n| n == "dev"));
    assert!(root.iter().any(|n| n == "tmp"));
    let dev = list_path(&mut vfs, "/dev").unwrap();
    assert_eq!(dev, vec!["ram0".to_string()]);
    assert_eq!(list_path(&mut vfs, "/nowhere"), Err(VfsError::NotFound));
}

#[test]
fn vfs_listing_in_name_order() {
    let (mut vfs, mut bus) = mounted_vfs();
    for name in ["zeta", "Alpha", "beta", "b", "a1"] {
        let path = format!("/dev/{}", name);
        let m = DeviceManifest::ram_disk(name, 64, true);
        assert_eq!(mount_device(&mut vfs, &mut bus, 2, &path, m), Ok(()));
    }
    let dev = list_path(&mut vfs, "/dev").unwrap();
    assert_eq!(dev, vec!["Alpha", "a1", "b", "beta", "ram0", "zeta"]);
    let root = list_path(&mut vfs, "/").unwrap();
    let mut sorted = root.clone();
    sorted.sort();
    assert_eq!(root, sorted);
}

#[test]
fn vfs_other_paths_unchanged_by_write() {
    let (mut vfs, mut bus) = mounted_vfs();
    let disk = DeviceManifest::ram_disk("ram1", 64, true);
    assert_eq!(mount_device(&mut vfs, &mut bus, 2, "/dev/ram1", disk), Ok(()));
    assert!(file_write(&mut vfs, &mut bus, 3, "/dev/ram1", b"one").is_ok());
    assert!(file_write(&mut vfs, &mut bus, 4, "/dev/ram0", b"zero").is_ok());
    assert_eq!(file_read(&mut vfs, &mut bus, 5, "/dev/ram1").unwrap(), b"one");
}

#[test]
fn vfs_metrics_and_events() {
    let (mut vfs, mut bus) = mounted_vfs();
    let before = len(&bus);
    assert!(file_write(&mut vfs, &mut bus, 2, "/dev/ram0", b"abc").is_ok());
    assert!(file_read(&mut vfs, &mut bus, 3, "/dev/ram0").is_ok());
    assert_eq!(len(&bus), before + 2);
    let m = get_metrics(&vfs);
    assert!(m.operations_count > 0);
    assert_eq!(m.total_bytes_written, 3);
    assert_eq!(m.total_bytes_read, 3);
    assert_eq!(m.errors_count, 0);
}

#[test]
fn vfs_directory_cannot_be_read_or_written() {
    let (mut vfs, mut bus) = mounted_vfs();
    assert_eq!(file_read(&mut vfs, &mut bus, 2, "/dev"), Err(VfsError::PermissionDenied));
    assert_eq!(file_write(&mut vfs, &mut bus, 2, "/dev", b"x"), Err(VfsError::PermissionDenied));
}
