use tuxtests::engine::{build_findings, if_empty, smart_counter_findings, summary_header};
use tuxtests::models::{
    DriveInfo, FindingCategory, FindingSeverity, SmartProbeStatus, SmartReport, TopologyNode,
};
use tuxtests::rag::{next_kernel_log_command, retrieve_kernel_anomalies};
use tuxtests::smart::{parse_smart_json, unavailable_report};

fn drive(name: &str, connection: &str, levels: usize) -> DriveInfo {
    DriveInfo {
        name: name.to_string(),
        drive_type: "disk".to_string(),
        connection: connection.to_string(),
        capacity_gb: 100,
        usage_percent: 1,
        health_ok: true,
        physical_path: String::new(),
        fstype: None,
        uuid: None,
        label: None,
        active_mountpoints: Vec::new(),
        topology: (1..=levels)
            .map(|l| TopologyNode { level: l, subsystem: "pci".to_string(), sysname: format!("node{l}") })
            .collect(),
        pcie_path: Vec::new(),
        serial: None,
        smartctl_exit_code: None,
        smart: None,
        parent: None,
        is_luks: None,
    }
}

fn report_with(passed: Option<bool>, pending: Option<i64>) -> SmartReport {
    let mut r = parse_smart_json(r#"{"model_name": "X"}"#, Some(0), Vec::new()).unwrap();
    r.passed = passed;
    r.current_pending_sectors = pending;
    r
}

#[test]
fn summarizes_drive_count_usb_and_depth() {
    let drives = vec![
        drive("sda", "USB 2.0 (High-Speed)", 3),
        drive("nvme0n1", "Internal (NVME)", 5),
        drive("sdb", "usb (External / Unknown Speed)", 0),
    ];
    assert_eq!(
        summary_header(&drives),
        "System has 3 drives, 2 are USB. Maximum topology depth detected: 5."
    );
    assert_eq!(
        summary_header(&Vec::new()),
        "System has 0 drives, 0 are USB. Maximum topology depth detected: 0."
    );
}

#[test]
fn counts_only_positive_smart_counters() {
    let mut r = report_with(Some(true), Some(2));
    r.reallocated_sectors = Some(0);
    r.num_err_log_entries = Some(-1);
    r.media_errors = Some(5);
    let counters = smart_counter_findings(&r);
    assert_eq!(
        counters,
        vec![
            ("current pending sectors", 2, FindingSeverity::Critical),
            ("NVMe media errors", 5, FindingSeverity::Warning),
        ]
    );
}

#[test]
fn builds_findings_in_drive_then_anomaly_order() {
    let mut failing = drive("sda", "x", 0);
    let mut r = report_with(Some(false), Some(3));
    r.exit_status_description = Vec::new();
    failing.smart = Some(r);
    let mut unavailable = drive("sdb", "x", 0);
    unavailable.smart = Some(unavailable_report(
        Some(2),
        SmartProbeStatus::AccessDenied,
        Vec::new(),
        vec!["a".to_string(), "b".to_string()],
    ));
    let plain = drive("sdc", "x", 0);
    let anomalies = vec![
        "pcieport 0000:00:1b.0: DPC: error containment capabilities".to_string(),
        "sd 0:0:0:0: reset".to_string(),
        "AER: PoisonedTLP".to_string(),
    ];
    let drives = vec![failing, unavailable, plain];
    let findings = build_findings(&drives, true, &anomalies);
    assert_eq!(findings.len(), 5);
    assert_eq!(findings[0].category, FindingCategory::Smart);
    assert_eq!(findings[0].severity, FindingSeverity::Critical);
    assert_eq!(findings[0].title, "SMART overall-health check failed for sda");
    assert_eq!(findings[0].evidence, "smart_status.passed=false");
    assert_eq!(findings[1].title, "current pending sectors reported on sda");
    assert_eq!(findings[1].evidence, "current pending sectors=3");
    assert_eq!(findings[1].confidence, "medium");
    assert_eq!(findings[2].category, FindingCategory::Privilege);
    assert_eq!(findings[2].evidence, "a; b");
    assert_eq!(findings[2].drive.as_deref(), Some("sdb"));
    assert_eq!(findings[3].category, FindingCategory::Pcie);
    assert_eq!(findings[3].evidence, anomalies[0]);
    assert_eq!(findings[3].drive, None);
    assert_eq!(findings[4].evidence, anomalies[2]);

    let without_smart = build_findings(&drives, false, &anomalies);
    assert_eq!(without_smart.len(), 2);
    assert!(without_smart.iter().all(|f| f.category == FindingCategory::Pcie));
}

#[test]
fn failing_health_cites_exit_descriptions() {
    let mut d = drive("sda", "x", 0);
    let mut r = report_with(Some(false), None);
    r.exit_status_description = vec!["SMART status indicates disk failing".to_string(), "b".to_string()];
    d.smart = Some(r);
    let findings = build_findings(&vec![d], true, &Vec::new());
    assert_eq!(findings.len(), 1);
    assert_eq!(findings[0].evidence, "SMART status indicates disk failing; b");
    assert_eq!(if_empty(String::new(), "fallback"), "fallback");
    assert_eq!(if_empty("kept".to_string(), "fallback"), "kept");
}

#[test]
fn retrieves_trouble_lines_that_name_the_drive() {
    let mut d = drive("sdb", "x", 0);
    d.serial = Some("WD-123".to_string());
    d.topology = vec![TopologyNode { level: 1, subsystem: "usb".to_string(), sysname: "2-1".to_string() }];
    let log = "usb 2-1: reset high-speed USB device\n\
               sdb: I/O Error on sector 5\n\
               sdc: I/O error\n\
               WD-123 firmware ok\n\
               blk: WD-123 command aborted\r\n";
    let found = retrieve_kernel_anomalies(&d, log);
    assert_eq!(
        found,
        vec![
            "usb 2-1: reset high-speed USB device".to_string(),
            "sdb: I/O Error on sector 5".to_string(),
            "blk: WD-123 command aborted".to_string(),
        ]
    );
    let many: String = (0..30).map(|i| format!("sdb failure {i}\n")).collect();
    let found = retrieve_kernel_anomalies(&d, &many);
    assert_eq!(found.len(), 20);
    assert_eq!(found[19], "sdb failure 19");
}

#[test]
fn kernel_log_sources_are_tried_in_order_until_one_yields() {
    let (p, a) = next_kernel_log_command(0, "").unwrap();
    assert_eq!((p.as_str(), a.len()), ("dmesg", 0));
    let (p, a) = next_kernel_log_command(1, "").unwrap();
    assert_eq!(p, "journalctl");
    assert_eq!(a, vec!["-k", "--no-pager", "-n", "500"]);
    let (p, a) = next_kernel_log_command(2, "").unwrap();
    assert_eq!((p.as_str(), a), ("pkexec", vec!["dmesg".to_string()]));
    assert!(next_kernel_log_command(3, "").is_none());
    assert!(next_kernel_log_command(1, "log").is_none());
}
