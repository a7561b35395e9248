use tuxtests::json::{JsonNumber, JsonValue};
use tuxtests::models::TopologyNode;
use tuxtests::storage::{
    connection_fallback, gib_from_bytes, infer_is_luks, map_lsblk_device, normalize_mountpoints,
    parse_fstab, parse_size_bytes, parse_usage_percent, LsblkDevice,
};

#[test]
fn parses_size_from_number_or_string() {
    assert_eq!(parse_size_bytes(&JsonValue::Number(JsonNumber::PosInt(1024))), 1024);
    assert_eq!(parse_size_bytes(&JsonValue::Str("2048".to_string())), 2048);
    assert_eq!(parse_size_bytes(&JsonValue::Null), 0);
}

#[test]
fn normalizes_mountpoints() {
    let mountpoints = normalize_mountpoints(Some(vec![
        Some("/".to_string()),
        None,
        Some(" /home ".to_string()),
        Some("".to_string()),
    ]));

    assert_eq!(mountpoints, vec!["/".to_string(), "/home".to_string()]);
}

#[test]
fn parses_usage_percent_safely() {
    assert_eq!(parse_usage_percent(Some("84%")), 84);
    assert_eq!(parse_usage_percent(Some(" 9 ")), 9);
    assert_eq!(parse_usage_percent(None), 0);
}

#[test]
fn infers_luks_from_type_or_fstype() {
    assert_eq!(infer_is_luks("crypt", None), Some(true));
    assert_eq!(infer_is_luks("part", Some("crypto_LUKS")), Some(true));
    assert_eq!(infer_is_luks("disk", Some("ext4")), None);
}

#[test]
fn odd_sizes_and_usages_read_as_zero() {
    assert_eq!(parse_size_bytes(&JsonValue::Number(JsonNumber::NegInt(-5))), 0);
    assert_eq!(parse_size_bytes(&JsonValue::Number(JsonNumber::Float)), 0);
    assert_eq!(parse_size_bytes(&JsonValue::Str(" 12 ".to_string())), 12);
    assert_eq!(parse_size_bytes(&JsonValue::Str("12 GB".to_string())), 0);
    assert_eq!(parse_usage_percent(Some("300%")), 0);
    assert_eq!(parse_usage_percent(Some("7%%")), 7);
    assert_eq!(parse_usage_percent(Some("-")), 0);
    assert_eq!(gib_from_bytes(3 * 1_073_741_824 + 5), 3);
    assert_eq!(infer_is_luks("CRYPT", None), Some(true));
}

#[test]
fn connection_falls_back_to_lsblk_transport() {
    assert_eq!(connection_fallback(&Some("usb".to_string())), "USB (External / Unknown Speed)");
    assert_eq!(connection_fallback(&Some("nvme".to_string())), "Internal (NVME)");
    assert_eq!(connection_fallback(&None), "Internal/PCIe/SATA (Unknown)");
}

fn device() -> LsblkDevice {
    LsblkDevice {
        name: "sda".to_string(),
        device_type: "disk".to_string(),
        size: JsonValue::Number(JsonNumber::PosInt(500_107_862_016)),
        pkname: None,
        serial: Some("  ".to_string()),
        mountpoints: Some(vec![None, Some(" /data ".to_string())]),
        tran: Some("sata".to_string()),
        fstype: Some("crypto_LUKS".to_string()),
        uuid: Some("u".to_string()),
        label: None,
        fsuse_percent: Some("42%".to_string()),
    }
}

#[test]
fn maps_lsblk_device_to_drive() {
    let topology = vec![TopologyNode { level: 1, subsystem: "pci".to_string(), sysname: "0000:00:17.0".to_string() }];
    let (drive, mount) = map_lsblk_device(device(), None, String::new(), topology, Vec::new());
    assert_eq!(drive.name, "sda");
    assert_eq!(drive.connection, "Internal (SATA)");
    assert_eq!(drive.capacity_gb, 465);
    assert_eq!(drive.usage_percent, 42);
    assert_eq!(drive.physical_path, "Unmapped in Phase 4");
    assert_eq!(drive.active_mountpoints, vec!["/data".to_string()]);
    assert_eq!(drive.serial, None);
    assert_eq!(drive.is_luks, Some(true));
    assert!(drive.health_ok);
    assert_eq!(drive.topology.len(), 1);
    assert_eq!(mount.as_deref(), Some("/data"));

    let (drive, mount) = map_lsblk_device(
        LsblkDevice { mountpoints: None, ..device() },
        Some("USB 2.0 (High-Speed)".to_string()),
        "/sys/devices/x".to_string(),
        Vec::new(),
        Vec::new(),
    );
    assert_eq!(drive.connection, "USB 2.0 (High-Speed)");
    assert_eq!(drive.physical_path, "/sys/devices/x");
    assert_eq!(mount, None);
}

#[test]
fn parses_fstab_entries() {
    let content = "# comment\n\nUUID=abc / ext4 defaults 0 1\n/dev/sdb1 /mnt xfs noatime\nbroken line\n";
    let entries = parse_fstab(content);
    assert_eq!(entries.len(), 2);
    assert_eq!(entries[0].file_system, "UUID=abc");
    assert_eq!(entries[0].pass, "1");
    assert_eq!(entries[1].mount_point, "/mnt");
    assert_eq!(entries[1].type_, "xfs");
    assert_eq!(entries[1].options, "noatime");
    assert_eq!(entries[1].dump, "0");
    assert_eq!(entries[1].pass, "0");
}
