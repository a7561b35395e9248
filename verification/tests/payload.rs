use std::collections::BTreeMap;
use tuxtests::analyzer::{build_system_prompt, collect_links, LinkFilter, SYSTEM_PROMPT};
use tuxtests::config::AppConfig;
use tuxtests::dashboard::App;
use tuxtests::engine::{
    apply_config_update, apply_smart_outcome, assemble_payload, load_config, mock_payload,
    ConfigUpdate,
};
use tuxtests::models::{
    BenchmarkResult, DriveInfo, FindingCategory, FindingSeverity, PcieDeviceInfo,
    SmartProbeStatus, TopologyNode, TuxPayload,
};
use tuxtests::pci::{command_error_message, spawn_error_message};
use tuxtests::rag::retrieve_kernel_anomalies;
use tuxtests::smart::{
    infer_health_ok, interpret_smartctl_run, parse_smart_json, skipped, smartctl_invocation,
    SmartctlRun,
};
use tuxtests::system::assemble_system_info;

fn drive(name: &str, connection: &str) -> DriveInfo {
    DriveInfo {
        name: name.to_string(),
        drive_type: "disk".to_string(),
        connection: connection.to_string(),
        capacity_gb: 931,
        usage_percent: 42,
        health_ok: true,
        physical_path: String::new(),
        fstype: None,
        uuid: None,
        label: None,
        active_mountpoints: Vec::new(),
        topology: vec![
            TopologyNode { level: 1, subsystem: "pci".to_string(), sysname: "0000:00:1d.0".to_string() },
            TopologyNode { level: 2, subsystem: "block".to_string(), sysname: name.to_string() },
        ],
        pcie_path: Vec::new(),
        serial: None,
        smartctl_exit_code: None,
        smart: None,
        parent: None,
        is_luks: None,
    }
}

fn config(provider: &str, model: &str, url: &str) -> AppConfig {
    AppConfig { provider: provider.to_string(), ollama_model: model.to_string(), ollama_url: url.to_string() }
}

#[test]
fn stores_a_smart_outcome_on_its_drive() {
    let mut d = drive("sda", "USB 2.0 (High-Speed)");
    let run = SmartctlRun::Finished {
        stdout: r#"{"smart_status": {"passed": false}}"#.to_string(),
        stderr: String::new(),
        exit_code: 8,
    };
    let outcome = interpret_smartctl_run("sda", true, run);
    let anomalies = apply_smart_outcome(&mut d, outcome);
    assert!(!d.health_ok);
    assert_eq!(d.smartctl_exit_code, Some(8));
    assert_eq!(d.smart.as_ref().unwrap().passed, Some(false));
    assert_eq!(d.name, "sda");
    assert_eq!(d.connection, "USB 2.0 (High-Speed)");
    assert_eq!(
        anomalies,
        vec!["anomaly: smartctl reported exit code 8 on sda: prefail attribute is at or below threshold".to_string()]
    );
}

#[test]
fn assembles_summary_and_findings() {
    let drives = vec![drive("sda", "USB 3.0"), drive("nvme0n1", "Internal (NVME)")];
    let mut benchmarks = BTreeMap::new();
    benchmarks.insert("sda".to_string(), BenchmarkResult { write_mb_s: 120 });
    let anomalies = vec![
        "pcieport 0000:00:1c.0: DPC: error containment capabilities".to_string(),
        "usb 1-1: reset high-speed USB device".to_string(),
    ];
    let system = assemble_system_info(BTreeMap::new(), Some("h".to_string()), None, None, None, 0, None, None, None);
    let p = assemble_payload(system, drives, benchmarks, anomalies.clone(), false, Vec::new());
    assert_eq!(p.summary_header, "System has 2 drives, 1 are USB. Maximum topology depth detected: 2.");
    assert_eq!(p.findings.len(), 1);
    assert_eq!(p.findings[0].category, FindingCategory::Pcie);
    assert_eq!(p.findings[0].severity, FindingSeverity::Warning);
    assert_eq!(p.findings[0].evidence, anomalies[0]);
    assert_eq!(p.kernel_anomalies, anomalies);
    assert_eq!(p.benchmarks.get("sda").unwrap().write_mb_s, 120);
    assert_eq!(p.system.hostname, "h");
}

#[test]
fn builds_the_mock_payload() {
    let p = mock_payload(drive("sdz", "USB"));
    assert_eq!(p.summary_header, "System has 1 drives, 0 are USB. Maximum topology depth detected: 3.");
    assert_eq!(p.system.os_release.get("PRETTY_NAME").map(String::as_str), Some("Mock GNU/Linux"));
    assert_eq!(p.system.os_release.len(), 1);
    assert_eq!(p.system.hostname, "mock-host");
    assert_eq!(p.system.kernel_version, "6.x-mock");
    assert_eq!(p.system.cpu, "Mock Sandbox CPU (Threadripper Stub)");
    assert_eq!(p.system.ram_gb, 128);
    assert_eq!(p.system.motherboard.as_deref(), Some("MockBoard 9000"));
    assert_eq!(p.system.pcie_aspm_policy.as_deref(), Some("default"));
    assert_eq!(p.drives.len(), 1);
    assert_eq!(p.drives[0].name, "sdz");
    assert!(p.benchmarks.is_empty());
    assert!(p.findings.is_empty());
    assert_eq!(p.kernel_anomalies, vec!["mock anomaly: High predictive failure counts on dummy payload".to_string()]);
    assert!(p.fstab.is_empty());
}

#[test]
fn loads_stored_or_default_configuration() {
    let c = load_config(Some(config(" OLLAMA ", "  llama3 ", "http://localhost:11434/api?x=1")));
    assert_eq!(c.provider, "ollama");
    assert_eq!(c.ollama_model, "llama3");
    assert_eq!(c.ollama_url, "http://localhost:11434");
    let c = load_config(Some(config("bard", "  ", "ftp://x")));
    assert_eq!(c.provider, "gemini");
    assert_eq!(c.ollama_model, "mistral");
    assert_eq!(c.ollama_url, "http://127.0.0.1:11434");
    let d = load_config(None);
    assert_eq!(d.provider, "gemini");
    assert_eq!(d.ollama_model, "mistral");
    assert_eq!(d.ollama_url, "http://127.0.0.1:11434");
}

#[test]
fn empty_update_keeps_configuration() {
    let current = config("ollama", "llama3", "http://localhost:11434");
    let c = apply_config_update(current, ConfigUpdate::default()).unwrap();
    assert_eq!(c.provider, "ollama");
    assert_eq!(c.ollama_model, "llama3");
    assert_eq!(c.ollama_url, "http://localhost:11434");
    let c = apply_config_update(
        config("bogus", "x", "y"),
        ConfigUpdate { provider: None, ollama_model: Some(" phi3 ".to_string()), ollama_url: None },
    )
    .unwrap();
    assert_eq!(c.provider, "bogus");
    assert_eq!(c.ollama_model, "phi3");
    assert_eq!(c.ollama_url, "y");
}

#[test]
fn formats_command_failures() {
    assert_eq!(command_error_message("lspci", "exit status: 1", "  \n"), "lspci exited with status exit status: 1");
    assert_eq!(
        command_error_message("sudo", "exit status: 1", " sudo: a password is required\n"),
        "sudo exited with status exit status: 1: sudo: a password is required"
    );
    assert_eq!(spawn_error_message("lspci", "No such file or directory (os error 2)"), "lspci could not be executed (No such file or directory (os error 2))");
}

#[test]
fn healthy_verdicts_need_a_clean_exit_status() {
    let r = parse_smart_json(r#"{"smart_status": {"passed": true}}"#, Some(0), Vec::new()).unwrap();
    assert!(infer_health_ok(&r, 0));
    assert!(infer_health_ok(&r, 256));
    assert!(!infer_health_ok(&r, 4));
    assert!(!infer_health_ok(&r, 1));
    let none = parse_smart_json("{}", Some(0), Vec::new()).unwrap();
    assert!(infer_health_ok(&none, 0));
    assert!(!infer_health_ok(&none, 64));
    let failed = parse_smart_json(r#"{"smart_status": {"passed": false}}"#, Some(0), Vec::new()).unwrap();
    assert!(!infer_health_ok(&failed, 0));
}

#[test]
fn reports_are_available_exactly_with_status_available() {
    let with_facts = parse_smart_json(r#"{"model_name": "Disk"}"#, Some(0), Vec::new()).unwrap();
    assert!(with_facts.available);
    assert_eq!(with_facts.status, SmartProbeStatus::Available);
    let without = parse_smart_json("{}", Some(2), Vec::new()).unwrap();
    assert!(!without.available);
    assert_eq!(without.status, SmartProbeStatus::AccessDenied);
}

#[test]
fn healthy_runs_carry_no_anomaly_unless_output_is_unreadable() {
    let ok = interpret_smartctl_run(
        "nvme0n1",
        true,
        SmartctlRun::Finished { stdout: r#"{"smart_status": {"passed": true}}"#.to_string(), stderr: String::new(), exit_code: 0 },
    );
    assert!(ok.health_ok);
    assert!(ok.anomalies.is_empty());
    assert_eq!(ok.report.as_ref().unwrap().smartctl_exit_code, Some(0));
    let garbled = interpret_smartctl_run(
        "sda",
        true,
        SmartctlRun::Finished { stdout: "not json".to_string(), stderr: String::new(), exit_code: 0 },
    );
    assert!(garbled.health_ok);
    assert_eq!(garbled.anomalies.len(), 1);
    assert_eq!(garbled.report.as_ref().unwrap().status, SmartProbeStatus::ParseFailed);
    let skip = skipped("virtual device");
    assert!(skip.health_ok && skip.anomalies.is_empty());
}

#[test]
fn retrieved_anomalies_report_trouble_about_the_drive() {
    let d = drive("sdb", "USB");
    let mut log = String::new();
    for i in 0..30 {
        log.push_str(&format!("[{i}] sdb: I/O error, dev sdb, sector {i}\n"));
        log.push_str(&format!("[{i}] sdc: I/O error\n"));
        log.push_str(&format!("[{i}] sdb: attached scsi disk\n"));
    }
    let found = retrieve_kernel_anomalies(&d, &log);
    assert_eq!(found.len(), 20);
    for line in &found {
        assert!(line.contains("sdb") && line.to_lowercase().contains("error"));
        assert!(log.lines().any(|l| l == line));
    }
}

fn dashboard_payload() -> TuxPayload {
    let mut os_release = BTreeMap::new();
    os_release.insert("PRETTY_NAME".to_string(), "Arch Linux".to_string());
    let system = assemble_system_info(
        os_release,
        Some("box".to_string()),
        None,
        Some("6.9.1".to_string()),
        Some("Ryzen".to_string()),
        34359738368,
        None,
        None,
        None,
    );
    let mut warn = drive("sda", "USB 2.0 (High-Speed)");
    warn.health_ok = false;
    TuxPayload {
        summary_header: String::new(),
        system,
        drives: vec![warn, drive("nvme0n1", "Internal (NVME)")],
        benchmarks: BTreeMap::new(),
        findings: Vec::new(),
        kernel_anomalies: Vec::new(),
        fstab: Vec::new(),
    }
}

#[test]
fn dashboard_panels_show_the_payload() {
    let mut app = App::new();
    assert_eq!(app.header_title(), "TuxTests TUI | loading...");
    assert!(app.summary_lines(None).is_none());
    assert!(app.drive_rows().is_empty());
    let (text, recent) = app.analysis_lines();
    assert_eq!(text, "No analysis yet. Press [a] to analyze or [r] to refresh.");
    assert_eq!(recent.len(), 2);
    assert_eq!(recent[0], "- Keys: [r] refresh  [a] analyze  [q] quit");

    let payload = dashboard_payload();
    let os_name = payload.system.os_release.get("PRETTY_NAME").cloned();
    app.set_payload(payload, std::time::Instant::now());
    assert_eq!(app.header_title(), "TuxTests TUI | box | 2 drives");
    let lines = app.summary_lines(os_name).unwrap();
    let expected: Vec<(String, String)> = vec![
        ("OS: ", "Arch Linux"),
        ("Kernel: ", "6.9.1"),
        ("CPU: ", "Ryzen"),
        ("RAM: ", "32 GB"),
        ("ASPM Policy: ", "Unknown"),
    ]
    .into_iter()
    .map(|(a, b)| (a.to_string(), b.to_string()))
    .collect();
    assert_eq!(lines, expected);
    assert_eq!(app.summary_lines(None).unwrap()[0].1, "Unknown");
    let rows = app.drive_rows();
    assert_eq!(rows.len(), 2);
    assert_eq!(rows[0], vec!["sda", "disk", "USB 2.0 (High-Speed)", "931 GB", "42%", "WARN"]);
    assert_eq!(rows[1][5], "OK");

    for e in ["e1", "e2", "e3"] {
        app.set_analysis(Err(e.to_string()));
    }
    let (text, recent) = app.analysis_lines();
    assert_eq!(text, "No analysis yet. Press [a] to analyze or [r] to refresh.");
    assert_eq!(recent, vec!["- e1", "- e2", "- e3"]);
    app.handle_key('a');
    assert_eq!(app.analysis_lines().0, "AI analysis in progress...");
    app.set_analysis(Ok("## Report".to_string()));
    assert_eq!(app.analysis_lines().0, "## Report");
}

#[test]
fn unsupported_links_are_also_listed_as_disabled() {
    let link = PcieDeviceInfo {
        bdf: "0000:03:00.0".to_string(),
        driver: None,
        current_link_speed: None,
        current_link_width: None,
        max_link_speed: None,
        max_link_width: None,
        aspm_capability: Some("ASPM not supported".to_string()),
        aspm: None,
        aspm_source: None,
        aspm_probe_error: None,
    };
    let mut d = drive("nvme0n1", "Internal");
    d.pcie_path = vec![link.clone(), link];
    let mut p = dashboard_payload();
    p.drives = vec![d];
    let unsupported = collect_links(&p, LinkFilter::AspmNotSupported, &Vec::new());
    let disabled = collect_links(&p, LinkFilter::AspmAlreadyDisabled, &Vec::new());
    assert_eq!(unsupported, vec!["0000:03:00.0 on nvme0n1".to_string()]);
    assert!(unsupported.iter().all(|l| disabled.contains(l)));
    let bare = dashboard_payload();
    let mut no_links = bare.clone();
    for drive in &mut no_links.drives {
        drive.pcie_path.clear();
    }
    assert_eq!(build_system_prompt(&no_links, &Vec::new()), SYSTEM_PROMPT);
    assert!(build_system_prompt(&p, &Vec::new()).starts_with(SYSTEM_PROMPT));
}

#[test]
fn elevates_smartctl_only_without_root() {
    let (program, args, direct) = smartctl_invocation("nvme0n1", Some(0));
    assert_eq!(program, "smartctl");
    assert_eq!(args, vec!["-x", "-j", "/dev/nvme0n1"]);
    assert!(direct);
    let (program, args, direct) = smartctl_invocation("sda", Some(1000));
    assert_eq!(program, "pkexec");
    assert_eq!(args, vec!["smartctl", "-x", "-j", "/dev/sda"]);
    assert!(!direct);
    assert!(!smartctl_invocation("sda", None).2);
}

#[test]
fn enrichment_keeps_facts_a_link_already_had() {
    let mut devices = vec![PcieDeviceInfo {
        bdf: "0000:02:00.0".to_string(),
        driver: Some("nvme".to_string()),
        current_link_speed: Some("8.0 GT/s PCIe".to_string()),
        current_link_width: Some("4".to_string()),
        max_link_speed: Some("16.0 GT/s PCIe".to_string()),
        max_link_width: Some("4".to_string()),
        aspm_capability: None,
        aspm: Some("ASPM Disabled".to_string()),
        aspm_source: Some("lspci".to_string()),
        aspm_probe_error: None,
    }];
    let anomalies = vec!["pcieport 0000:02:00.0: AER: Corrected error received".to_string()];
    tuxtests::pci::enrich_anomaly_link_aspm(&mut devices, &anomalies, |_: &String| {
        tuxtests::pci::ProbeOutcome::Success(tuxtests::pci::LspciLinkDetails {
            aspm_capability: Some("ASPM L1".to_string()),
            aspm: Some("ASPM L1 Enabled".to_string()),
            source: "sudo_lspci".to_string(),
        })
    });
    let d = &devices[0];
    assert_eq!(d.aspm.as_deref(), Some("ASPM Disabled"));
    assert_eq!(d.aspm_capability.as_deref(), Some("ASPM L1"));
    assert_eq!(d.aspm_source.as_deref(), Some("sudo_lspci"));
    assert_eq!(d.driver.as_deref(), Some("nvme"));
    assert_eq!(d.current_link_width.as_deref(), Some("4"));
}

#[test]
fn skipped_devices_give_an_informational_finding() {
    let mut d = drive("zram0", "Internal/PCIe/SATA (Unknown)");
    d.smart = skipped("zram0 is a virtual or mapped block device (disk)").report;
    let findings = tuxtests::engine::build_findings(&vec![d], true, &Vec::new());
    assert_eq!(findings.len(), 1);
    assert_eq!(findings[0].category, FindingCategory::Smart);
    assert_eq!(findings[0].severity, FindingSeverity::Info);
    assert_eq!(findings[0].title, "SMART not applicable for zram0");
    assert_eq!(
        findings[0].evidence,
        "SMART not applicable: zram0 is a virtual or mapped block device (disk)"
    );
    assert_eq!(findings[0].recommended_action, None);
}

#[test]
fn high_smart_values_give_advisory_findings() {
    let mut d = drive("nvme0n1", "Internal (NVME)");
    let mut r = parse_smart_json(r#"{"smart_status": {"passed": true}}"#, Some(0), Vec::new()).unwrap();
    r.temperature_celsius = Some(95);
    r.percentage_used = Some(150);
    r.unsafe_shutdowns = Some(5000);
    d.smart = Some(r.clone());
    let findings = tuxtests::engine::build_findings(&vec![d.clone()], true, &Vec::new());
    assert_eq!(findings.len(), 3);
    assert_eq!(findings[0].title, "High SMART temperature on nvme0n1");
    assert_eq!(findings[0].evidence, "temperature_celsius=95");
    assert_eq!(findings[0].severity, FindingSeverity::Warning);
    assert_eq!(findings[1].title, "Elevated NVMe endurance use on nvme0n1");
    assert_eq!(findings[1].evidence, "percentage_used=150");
    assert_eq!(findings[1].severity, FindingSeverity::Warning);
    assert_eq!(findings[2].title, "Notable NVMe unsafe-shutdown count on nvme0n1");
    assert_eq!(findings[2].evidence, "unsafe_shutdowns=5000");
    assert_eq!(findings[2].severity, FindingSeverity::Notice);
    assert!(findings.iter().all(|f| f.category == FindingCategory::Smart
        && f.severity != FindingSeverity::Critical
        && f.drive.as_deref() == Some("nvme0n1")));

    r.temperature_celsius = Some(69);
    r.percentage_used = Some(89);
    r.unsafe_shutdowns = Some(99);
    d.smart = Some(r.clone());
    assert!(tuxtests::engine::build_findings(&vec![d.clone()], true, &Vec::new()).is_empty());
    r.temperature_celsius = Some(70);
    d.smart = Some(r);
    assert_eq!(tuxtests::engine::build_findings(&vec![d], true, &Vec::new()).len(), 1);
}

#[test]
fn skips_smart_for_virtual_and_mapped_devices() {
    for (name, kind) in [("zram0", "disk"), ("loop3", "loop"), ("ram0", "disk"), ("dm-2", "disk"), ("vg-root", "lvm"), ("luks-1", "crypt")] {
        let reason = tuxtests::smart::smart_skip_reason(name, kind).expect("virtual device");
        assert_eq!(reason, format!("{} is a virtual or mapped block device ({})", name, kind));
    }
    assert_eq!(tuxtests::smart::smart_skip_reason("sda", "disk"), None);
    assert_eq!(tuxtests::smart::smart_skip_reason("nvme0n1", "disk"), None);
    assert_eq!(tuxtests::smart::smart_skip_reason("sda1", "part"), None);
}

#[test]
fn provider_names_normalize_to_themselves() {
    for p in ["gemini", "ollama"] {
        let once = tuxtests::config::normalize_provider(p).unwrap();
        assert_eq!(once, p);
        assert_eq!(tuxtests::config::normalize_provider(&once).unwrap(), once);
    }
    let once = tuxtests::config::normalize_provider("  GeMiNi ").unwrap();
    assert_eq!(tuxtests::config::normalize_provider(&once).unwrap(), once);
    let c = load_config(Some(config("Ollama", " phi3 ", "http://localhost:11434")));
    let again = load_config(Some(c.clone()));
    assert_eq!(again.provider, c.provider);
    assert_eq!(again.ollama_model, c.ollama_model);
    assert_eq!(again.ollama_url, c.ollama_url);
}
