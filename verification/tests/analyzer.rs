use std::collections::BTreeMap;
use tuxtests::analyzer::{
    build_system_prompt, collect_links, link_is_downgraded, provider_name,
    resolve_analysis_target, routing_failure_message, AnalysisTarget, LinkFilter,
};
use tuxtests::config::AppConfig;
use tuxtests::models::{DriveInfo, PcieDeviceInfo, SystemInfo, TuxPayload};

fn config(provider: &str) -> AppConfig {
    AppConfig {
        provider: provider.to_string(),
        ollama_model: "mistral".to_string(),
        ollama_url: "http://127.0.0.1:11434".to_string(),
    }
}

/// Whether a link runs below its maximum speed, read as the first number of the sysfs
/// speed texts.
fn speed_downgraded(path: &PcieDeviceInfo) -> bool {
    let first = |v: &Option<String>| -> Option<f32> {
        v.as_deref()?.split_whitespace().next()?.parse().ok()
    };
    match (first(&path.current_link_speed), first(&path.max_link_speed)) {
        (Some(current), Some(max)) => current + f32::EPSILON < max,
        _ => false,
    }
}

fn speed_flags(payload: &TuxPayload) -> Vec<Vec<bool>> {
    payload
        .drives
        .iter()
        .map(|d| d.pcie_path.iter().map(speed_downgraded).collect())
        .collect()
}

fn drive_with(name: &str, pcie_path: Vec<PcieDeviceInfo>) -> DriveInfo {
    DriveInfo {
        name: name.to_string(),
        drive_type: "disk".to_string(),
        connection: "Internal (NVME)".to_string(),
        capacity_gb: 1000,
        usage_percent: 10,
        health_ok: true,
        physical_path: "/dev/mock".to_string(),
        fstype: None,
        uuid: None,
        label: None,
        active_mountpoints: Vec::new(),
        topology: Vec::new(),
        pcie_path,
        serial: None,
        smartctl_exit_code: None,
        smart: None,
        parent: None,
        is_luks: None,
    }
}

fn payload_with_drives(drives: Vec<DriveInfo>) -> TuxPayload {
    TuxPayload {
        summary_header: "summary".to_string(),
        system: SystemInfo {
            os_release: BTreeMap::new(),
            hostname: "host".to_string(),
            kernel_version: "6.x".to_string(),
            cpu: "cpu".to_string(),
            ram_gb: 32,
            motherboard: None,
            pcie_aspm_policy: Some("default".to_string()),
        },
        drives,
        benchmarks: BTreeMap::new(),
        findings: Vec::new(),
        kernel_anomalies: Vec::new(),
        fstab: Vec::new(),
    }
}

fn payload_with_pcie_path(pcie_path: Vec<PcieDeviceInfo>) -> TuxPayload {
    payload_with_drives(vec![drive_with("nvme0n1", pcie_path)])
}

fn link(bdf: &str) -> PcieDeviceInfo {
    PcieDeviceInfo {
        bdf: bdf.to_string(),
        driver: None,
        current_link_speed: None,
        current_link_width: None,
        max_link_speed: None,
        max_link_width: None,
        aspm_capability: None,
        aspm: None,
        aspm_source: None,
        aspm_probe_error: None,
    }
}

#[test]
fn selects_gemini_when_key_exists() {
    let target = resolve_analysis_target(&config("gemini"), true).unwrap();
    assert_eq!(target, AnalysisTarget::Gemini);
    assert_eq!(provider_name(&target), "gemini");
}

#[test]
fn rejects_gemini_when_key_is_missing() {
    let err = resolve_analysis_target(&config("gemini"), false).unwrap_err();
    assert!(err.contains("Gemini API key is missing"));
}

#[test]
fn selects_ollama_with_model_and_url() {
    let target = resolve_analysis_target(&config("ollama"), false).unwrap();
    assert_eq!(
        target,
        AnalysisTarget::Ollama {
            model: "mistral".to_string(),
            url: "http://127.0.0.1:11434".to_string(),
        }
    );
    assert_eq!(provider_name(&target), "ollama");
}

#[test]
fn rejects_invalid_provider_configuration() {
    let err = resolve_analysis_target(&config("bad-provider"), true).unwrap_err();
    assert!(err.contains("Invalid provider configuration"));
}

#[test]
fn marks_aspm_disabled_links_as_no_toggle_targets_in_prompt() {
    let payload = payload_with_pcie_path(vec![PcieDeviceInfo {
        bdf: "0000:03:00.0".to_string(),
        driver: Some("nvme".to_string()),
        current_link_speed: Some("8.0 GT/s PCIe".to_string()),
        current_link_width: Some("4".to_string()),
        max_link_speed: Some("16.0 GT/s PCIe".to_string()),
        max_link_width: Some("4".to_string()),
        aspm_capability: Some("ASPM L1".to_string()),
        aspm: Some("ASPM Disabled".to_string()),
        aspm_source: Some("sudo_lspci".to_string()),
        aspm_probe_error: None,
    }]);

    let prompt = build_system_prompt(&payload, &speed_flags(&payload));
    assert!(prompt.contains("Do not recommend turning ASPM off again"));
    assert!(prompt.contains("0000:03:00.0 on nvme0n1"));
    assert!(prompt.contains("Real PCIe bandwidth constraints"));
}

#[test]
fn marks_probe_errors_as_unconfirmed_not_suppressed_in_prompt() {
    let payload = payload_with_pcie_path(vec![PcieDeviceInfo {
        bdf: "0000:00:14.0".to_string(),
        driver: Some("xhci_hcd".to_string()),
        current_link_speed: None,
        current_link_width: None,
        max_link_speed: None,
        max_link_width: None,
        aspm_capability: None,
        aspm: None,
        aspm_source: None,
        aspm_probe_error: Some("probe failed".to_string()),
    }]);

    let prompt = build_system_prompt(&payload, &speed_flags(&payload));
    assert!(prompt.contains("remains unconfirmed and may require elevated inspection"));
    assert!(prompt.contains("0000:00:14.0 on nvme0n1"));
}

#[test]
fn marks_aspm_not_supported_links_as_inference_only() {
    let payload = payload_with_pcie_path(vec![PcieDeviceInfo {
        bdf: "0000:00:1b.4".to_string(),
        driver: Some("pcieport".to_string()),
        current_link_speed: Some("8.0 GT/s PCIe".to_string()),
        current_link_width: Some("4".to_string()),
        max_link_speed: Some("8.0 GT/s PCIe".to_string()),
        max_link_width: Some("4".to_string()),
        aspm_capability: Some("ASPM not supported".to_string()),
        aspm: Some("ASPM Disabled".to_string()),
        aspm_source: Some("sudo_lspci".to_string()),
        aspm_probe_error: None,
    }]);

    let prompt = build_system_prompt(&payload, &speed_flags(&payload));
    assert!(prompt.contains("ASPM not supported"));
    assert!(prompt.contains("inference rather than established cause"));
}

#[test]
fn detects_downgraded_links() {
    let path = PcieDeviceInfo {
        bdf: "0000:03:00.0".to_string(),
        driver: None,
        current_link_speed: Some("8.0 GT/s PCIe".to_string()),
        current_link_width: Some("4".to_string()),
        max_link_speed: Some("16.0 GT/s PCIe".to_string()),
        max_link_width: Some("4".to_string()),
        aspm_capability: None,
        aspm: None,
        aspm_source: None,
        aspm_probe_error: None,
    };
    assert!(link_is_downgraded(&path, speed_downgraded(&path)));
}

#[test]
fn narrower_link_is_downgraded_without_speed_verdict() {
    let mut path = link("0000:03:00.0");
    path.current_link_width = Some(" 2 ".to_string());
    path.max_link_width = Some("4".to_string());
    assert!(link_is_downgraded(&path, false));
    path.current_link_width = Some("4".to_string());
    assert!(!link_is_downgraded(&path, false));
    path.current_link_width = Some("x4".to_string());
    assert!(!link_is_downgraded(&path, false));
}

#[test]
fn prompt_without_link_facts_is_the_standing_instructions() {
    let payload = payload_with_pcie_path(vec![link("0000:03:00.0")]);
    let prompt = build_system_prompt(&payload, &speed_flags(&payload));
    assert_eq!(prompt, tuxtests::analyzer::SYSTEM_PROMPT);
}

#[test]
fn collected_links_are_distinct_and_in_payload_order() {
    let mut a = link("0000:00:1b.0");
    a.aspm_probe_error = Some("e".to_string());
    let mut b = link("0000:00:1c.0");
    b.aspm_probe_error = Some("e".to_string());
    let payload = payload_with_drives(vec![
        drive_with("sda", vec![a.clone(), b.clone(), a.clone()]),
        drive_with("sdb", vec![b.clone()]),
    ]);
    let labels = collect_links(&payload, LinkFilter::ProbeLimited, &Vec::new());
    assert_eq!(
        labels,
        vec![
            "0000:00:1b.0 on sda".to_string(),
            "0000:00:1c.0 on sda".to_string(),
            "0000:00:1c.0 on sdb".to_string(),
        ]
    );
    let prompt = build_system_prompt(&payload, &Vec::new());
    assert!(prompt.ends_with(
        "0000:00:1b.0 on sda, 0000:00:1c.0 on sda, 0000:00:1c.0 on sdb."
    ));
}

#[test]
fn names_the_provider_that_failed() {
    assert_eq!(
        routing_failure_message(&AnalysisTarget::Gemini),
        "❌ Failed to route inference through the 'gemini' provider. Check provider-specific diagnostics above."
    );
}
