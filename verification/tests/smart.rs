use tuxtests::json::{parse_json, JsonNumber, JsonValue};
use tuxtests::models::{SmartProbeStatus, SmartTransport};
use tuxtests::smart::{
    describe_exit_status, euid_from_proc_status, infer_health_ok, interpret_smartctl_run,
    parse_smart_json, skipped, smart_report_from_json, unavailable_outcome, SmartctlRun,
};

#[test]
fn parses_nvme_smart_json() {
    let json = r#"{
        "device": {"type": "sntasmedia", "protocol": "NVMe"},
        "model_name": "Lexar NM790",
        "serial_number": "ABC123",
        "smart_status": {"passed": true},
        "temperature": {"current": 42},
        "power_on_time": {"hours": 1234},
        "power_cycle_count": 56,
        "nvme_smart_health_information_log": {
            "unsafe_shutdowns": 7,
            "percentage_used": 2,
            "media_errors": 0,
            "num_err_log_entries": 1
        }
    }"#;

    let report = parse_smart_json(json, Some(0), Vec::new()).unwrap();
    assert_eq!(report.transport, SmartTransport::Nvme);
    assert_eq!(report.status, SmartProbeStatus::Available);
    assert!(report.available);
    assert_eq!(report.model.as_deref(), Some("Lexar NM790"));
    assert_eq!(report.serial.as_deref(), Some("ABC123"));
    assert_eq!(report.passed, Some(true));
    assert_eq!(report.temperature_celsius, Some(42));
    assert_eq!(report.power_on_hours, Some(1234));
    assert_eq!(report.power_cycles, Some(56));
    assert_eq!(report.unsafe_shutdowns, Some(7));
    assert_eq!(report.percentage_used, Some(2));
    assert_eq!(report.media_errors, Some(0));
    assert_eq!(report.num_err_log_entries, Some(1));
}

#[test]
fn parses_ata_smart_json() {
    let json = r#"{
        "device": {"type": "sat"},
        "model_name": "WD Blue",
        "smart_status": {"passed": true},
        "ata_smart_attributes": {
            "table": [
                {"name": "Reallocated_Sector_Ct", "raw": {"value": 1}},
                {"name": "Current_Pending_Sector", "raw": {"value": 2}},
                {"name": "Offline_Uncorrectable", "raw": {"value": 3}}
            ]
        },
        "ata_smart_self_test_log": {
            "standard": {
                "table": [{"status": {"string": "Completed without error"}}]
            }
        }
    }"#;

    let report = parse_smart_json(json, Some(0), Vec::new()).unwrap();
    assert_eq!(report.transport, SmartTransport::Ata);
    assert_eq!(report.reallocated_sectors, Some(1));
    assert_eq!(report.current_pending_sectors, Some(2));
    assert_eq!(report.offline_uncorrectable, Some(3));
    assert_eq!(
        report.self_test_status.as_deref(),
        Some("Completed without error")
    );
}

#[test]
fn parses_ata_smart_attributes_by_id_and_raw_string() {
    let json = r#"{
        "device": {"type": "ata"},
        "smart_status": {"passed": true},
        "ata_smart_attributes": {
            "table": [
                {"id": 5, "name": "Vendor_Reallocated", "raw": {"string": "4"}},
                {"id": 9, "name": "Vendor_Power_On", "raw": {"string": "5000"}},
                {"id": 12, "name": "Vendor_Power_Cycle", "raw": {"value": 22}},
                {"id": 190, "name": "Airflow_Temperature_Cel", "raw": {"value": 44}},
                {"id": 197, "name": "Vendor_Pending", "raw": {"value": 1}},
                {"id": 198, "name": "Vendor_Uncorrectable", "raw": {"value": 2}}
            ]
        }
    }"#;

    let report = parse_smart_json(json, Some(0), Vec::new()).unwrap();
    assert_eq!(report.transport, SmartTransport::Ata);
    assert_eq!(report.reallocated_sectors, Some(4));
    assert_eq!(report.power_on_hours, Some(5000));
    assert_eq!(report.power_cycles, Some(22));
    assert_eq!(report.temperature_celsius, Some(44));
    assert_eq!(report.current_pending_sectors, Some(1));
    assert_eq!(report.offline_uncorrectable, Some(2));
}

#[test]
fn parses_scsi_grown_defect_count() {
    let json = r#"{
        "device": {"type": "scsi"},
        "smart_status": {"passed": true},
        "vendor": "SEAGATE",
        "product": "ST1000",
        "scsi_grown_defect_list": 3
    }"#;

    let report = parse_smart_json(json, Some(0), Vec::new()).unwrap();
    assert_eq!(report.transport, SmartTransport::Scsi);
    assert_eq!(report.reallocated_sectors, Some(3));
}

#[test]
fn marks_json_error_payload_without_smart_facts_unavailable() {
    let json = r#"{
        "smartctl": {
            "messages": [
                {
                    "severity": "error",
                    "string": "Unknown USB bridge. Please specify device type with the -d option."
                }
            ]
        },
        "device": {"type": "unknown"}
    }"#;

    let report = parse_smart_json(
        json,
        Some(1),
        vec!["command line did not parse".to_string()],
    )
    .unwrap();
    assert!(!report.available);
    assert_eq!(report.status, SmartProbeStatus::Unsupported);
    assert_eq!(report.limitations.len(), 1);
}

#[test]
fn interprets_smartctl_exit_status_bits() {
    let descriptions = describe_exit_status(4 | 32 | 64);
    assert!(descriptions.contains(&"SMART status indicates disk failing".to_string()));
    assert!(descriptions.contains(&"SMART error log contains errors".to_string()));
    assert!(descriptions.contains(&"SMART self-test log contains errors".to_string()));
}

#[test]
fn parses_effective_uid_from_proc_status() {
    let status = "Name:\ttuxtests\nUid:\t1000\t0\t0\t0\n";
    assert_eq!(euid_from_proc_status(status), Some(0));
}

#[test]
fn effective_uid_skips_unreadable_uid_lines() {
    assert_eq!(euid_from_proc_status("Uid:\t1000\nUid:\t5 7\n"), Some(7));
    assert_eq!(euid_from_proc_status("Name: x\nGid: 1 2\n"), None);
    assert_eq!(euid_from_proc_status(""), None);
}

#[test]
fn describes_every_exit_bit_in_order() {
    assert!(describe_exit_status(0).is_empty());
    let all = describe_exit_status(255);
    assert_eq!(all.len(), 8);
    assert_eq!(all[0], "command line did not parse");
    assert_eq!(all[1], "device open failed or SMART access failed");
    assert_eq!(all[7], "device error log contains errors");
}

#[test]
fn unstated_status_reads_unknown_or_access_denied() {
    let report = parse_smart_json("{}", Some(2), Vec::new()).unwrap();
    assert!(!report.available);
    assert_eq!(report.status, SmartProbeStatus::AccessDenied);
    let report = parse_smart_json("{}", None, Vec::new()).unwrap();
    assert_eq!(report.status, SmartProbeStatus::Unknown);
    assert_eq!(report.transport, SmartTransport::Unknown);
    let report = parse_smart_json("{}", Some(1), Vec::new()).unwrap();
    assert_eq!(report.status, SmartProbeStatus::ParseFailed);
}

#[test]
fn reads_strings_numbers_and_usb_bridges() {
    let json = r#"{
        "device": {"type": "sntjmicron", "name": "/dev/sdb"},
        "model_name": "   ",
        "model_family": " Samsung SSD ",
        "power_cycle_count": "  17 ",
        "temperature": {"current": 18446744073709551615},
        "ata_smart_attributes": {"table": [
            {"id": 194, "name": "Temperature_Celsius", "raw": {"value": -3}}
        ]}
    }"#;
    let report = parse_smart_json(json, Some(0), Vec::new()).unwrap();
    assert_eq!(report.transport, SmartTransport::UsbBridge);
    assert_eq!(report.model.as_deref(), Some("Samsung SSD"));
    assert_eq!(report.power_cycles, Some(17));
    assert_eq!(report.temperature_celsius, Some(-3));
    assert!(report.available);
}

#[test]
fn unreadable_json_reports_the_parser_message() {
    let err = parse_smart_json("not json", Some(0), Vec::new()).unwrap_err();
    assert!(err.contains("expected"));
    assert!(parse_json("[1, 2").is_err());
}

#[test]
fn report_from_document_built_by_calls() {
    let json = JsonValue::Object(vec![
        (
            "smart_status".to_string(),
            JsonValue::Object(vec![("passed".to_string(), JsonValue::Bool(false))]),
        ),
        (
            "power_cycle_count".to_string(),
            JsonValue::Number(JsonNumber::PosInt(9)),
        ),
    ]);
    let report = smart_report_from_json(&json, Some(8), Vec::new());
    assert_eq!(report.passed, Some(false));
    assert_eq!(report.power_cycles, Some(9));
    assert!(!infer_health_ok(&report, 8));
    assert!(!infer_health_ok(&report, 0));
}

#[test]
fn health_follows_verdict_and_exit_bits() {
    let mut report = parse_smart_json("{}", Some(0), Vec::new()).unwrap();
    assert!(infer_health_ok(&report, 0));
    assert!(!infer_health_ok(&report, 2));
    assert!(infer_health_ok(&report, 256));
    report.passed = Some(true);
    assert!(infer_health_ok(&report, 0));
    assert!(!infer_health_ok(&report, 4));
    assert!(!infer_health_ok(&report, 1));
}

fn finished(stdout: &str, stderr: &str, exit_code: i32) -> SmartctlRun {
    SmartctlRun::Finished {
        stdout: stdout.to_string(),
        stderr: stderr.to_string(),
        exit_code,
    }
}

#[test]
fn missing_smartctl_is_tool_missing() {
    let outcome = interpret_smartctl_run("sda", false, finished("", "pkexec: smartctl: Not Found", 127));
    assert!(!outcome.health_ok);
    assert_eq!(outcome.exit_code, Some(127));
    let report = outcome.report.unwrap();
    assert_eq!(report.status, SmartProbeStatus::ToolMissing);
    assert_eq!(
        outcome.anomalies,
        vec!["anomaly: smartmontools missing or execution failed on sda".to_string()]
    );
    assert_eq!(report.limitations, outcome.anomalies);
}

#[test]
fn refused_access_names_polkit_or_direct_run() {
    let outcome = interpret_smartctl_run("nvme0n1", false, finished("", "Not authorized", 126));
    assert_eq!(outcome.report.unwrap().status, SmartProbeStatus::AccessDenied);
    assert_eq!(
        outcome.anomalies[0],
        "anomaly: smartctl access denied by polkit authentication on nvme0n1"
    );
    let outcome = interpret_smartctl_run("nvme0n1", true, finished("", "Operation not permitted", 2));
    assert_eq!(outcome.anomalies[0], "anomaly: smartctl access denied on nvme0n1");
}

#[test]
fn failed_spawn_is_execution_failed() {
    let outcome = interpret_smartctl_run(
        "sda",
        true,
        SmartctlRun::SpawnFailed { error: "boom".to_string() },
    );
    assert_eq!(outcome.exit_code, None);
    assert_eq!(outcome.report.unwrap().status, SmartProbeStatus::ExecutionFailed);
    assert_eq!(outcome.anomalies[0], "anomaly: smartctl execution failed (boom)");
    let outcome = interpret_smartctl_run(
        "sda",
        false,
        SmartctlRun::SpawnFailed { error: "gone".to_string() },
    );
    assert_eq!(outcome.anomalies[0], "anomaly: privileged execution via pkexec failed (gone)");
}

#[test]
fn parsed_run_keeps_stderr_and_reports_exit_bits() {
    let outcome = interpret_smartctl_run(
        "sda",
        true,
        finished(r#"{"smart_status": {"passed": true}}"#, "  warning: odd  \n", 64),
    );
    assert!(!outcome.health_ok);
    let report = outcome.report.unwrap();
    assert_eq!(report.status, SmartProbeStatus::Available);
    assert_eq!(report.limitations, vec!["warning: odd".to_string()]);
    assert_eq!(
        outcome.anomalies,
        vec!["anomaly: smartctl reported exit code 64 on sda: SMART self-test log contains errors".to_string()]
    );
    let healthy = interpret_smartctl_run("sda", true, finished(r#"{"smart_status": {"passed": true}}"#, "", 0));
    assert!(healthy.health_ok);
    assert!(healthy.anomalies.is_empty());
}

#[test]
fn unparsable_run_is_parse_failed() {
    let outcome = interpret_smartctl_run("sdc", true, finished("garbage", "", 4));
    assert!(!outcome.health_ok);
    let report = outcome.report.unwrap();
    assert_eq!(report.status, SmartProbeStatus::ParseFailed);
    assert_eq!(report.exit_status_description, vec!["SMART status indicates disk failing".to_string()]);
    assert!(outcome.anomalies[0].starts_with("anomaly: smartctl JSON parsing failed on sdc: "));
    assert!(outcome.anomalies[0].ends_with("; exit status: SMART status indicates disk failing"));
    let clean = interpret_smartctl_run("sdc", true, finished("garbage", "", 0));
    assert!(clean.health_ok);
}

#[test]
fn skipped_and_unavailable_outcomes() {
    let outcome = skipped("zram device");
    assert!(outcome.health_ok);
    let report = outcome.report.unwrap();
    assert_eq!(report.status, SmartProbeStatus::NotApplicable);
    assert_eq!(report.limitations, vec!["SMART not applicable: zram device".to_string()]);
    let outcome = unavailable_outcome(Some(3), SmartProbeStatus::AccessDenied, "why".to_string());
    let report = outcome.report.unwrap();
    assert_eq!(report.exit_status_description.len(), 2);
    assert_eq!(report.smartctl_exit_code, Some(3));
}
