use tuxtests::models::{PcieDeviceInfo, TopologyNode};
use tuxtests::pci::{
    assemble_pcie_device, collect_pcie_path, enrich_anomaly_link_aspm,
    extract_bdfs_from_anomalies, interpret_lspci_run, is_pci_bdf, lspci_invocation,
    parse_aspm_capability_from_lspci, parse_aspm_from_lspci, parse_link_details,
    trimmed_reading, LspciLinkDetails, ProbeOutcome,
};

#[test]
fn parses_aspm_segment_from_lspci_output() {
    let stdout = "LnkCap: Port #0, Speed 16GT/s, Width x4, ASPM L1, Exit Latency L1 <64us\nLnkCtl: ASPM Disabled; RCB 64 bytes, LnkDisable- CommClk+\n";
    assert_eq!(
        parse_aspm_from_lspci(stdout),
        Some("ASPM Disabled".to_string())
    );
}

#[test]
fn parses_aspm_capability_from_lspci_output() {
    let stdout = "LnkCap: Port #21, Speed 8GT/s, Width x4, ASPM not supported\nLnkCtl: ASPM Disabled; RCB 64 bytes, LnkDisable- CommClk+\n";
    assert_eq!(
        parse_aspm_capability_from_lspci(stdout),
        Some("ASPM not supported".to_string())
    );
}

#[test]
fn parses_combined_link_details_from_lspci_output() {
    let stdout = "LnkCap: Port #0, Speed 5GT/s, Width x1, ASPM L0s L1, Exit Latency L1 unlimited\nLnkCtl: ASPM Disabled; RCB 64 bytes, LnkDisable- CommClk+\n";
    let details = parse_link_details(stdout, "lspci").expect("link details");
    assert_eq!(details.aspm_capability, Some("ASPM L0s L1".to_string()));
    assert_eq!(details.aspm, Some("ASPM Disabled".to_string()));
    assert_eq!(details.source, "lspci");
}

#[test]
fn validates_pci_bdf_strings() {
    assert!(is_pci_bdf("0000:03:00.0"));
    assert!(!is_pci_bdf("03:00.0"));
    assert!(!is_pci_bdf("not-a-bdf"));
}

#[test]
fn extracts_unique_bdfs_from_anomalies() {
    let anomalies = vec![
        "[    0.518532] pcieport 0000:00:1b.0: DPC error".to_string(),
        "[    0.518906] pcieport 0000:00:1b.4: DPC error".to_string(),
        "[    0.518907] pcieport 0000:00:1b.0: repeated".to_string(),
    ];

    assert_eq!(
        extract_bdfs_from_anomalies(&anomalies),
        vec!["0000:00:1b.0".to_string(), "0000:00:1b.4".to_string()]
    );
}

#[test]
fn addresses_in_brackets_and_parentheses_are_found() {
    let anomalies = vec!["AER: (0000:0a:00.1) [0000:0B:00.0], ok".to_string()];
    assert_eq!(
        extract_bdfs_from_anomalies(&anomalies),
        vec!["0000:0a:00.1".to_string(), "0000:0B:00.0".to_string()]
    );
    assert!(!is_pci_bdf("0000:0g:00.0"));
    assert!(!is_pci_bdf("0000-03-00.0"));
}

#[test]
fn lspci_without_link_lines_gives_nothing() {
    assert_eq!(parse_aspm_from_lspci("Capabilities: none\n"), None);
    assert_eq!(parse_aspm_capability_from_lspci("LnkCap: Port #1, Speed 2.5GT/s\n"), None);
    assert_eq!(parse_aspm_from_lspci("  LnkCtl: RCB 64 bytes\nLnkCtl: ASPM L1 Enabled;\n"), None);
    assert!(parse_link_details("", "lspci").is_none());
}

#[test]
fn lspci_runs_are_interpreted() {
    let out = "LnkCtl: ASPM L1 Enabled; RCB 64 bytes\n".to_string();
    assert_eq!(
        interpret_lspci_run("0000:01:00.0", true, Ok(out)),
        ProbeOutcome::Success(LspciLinkDetails {
            aspm_capability: None,
            aspm: Some("ASPM L1 Enabled".to_string()),
            source: "sudo_lspci".to_string(),
        })
    );
    assert_eq!(
        interpret_lspci_run("0000:01:00.0", false, Ok(String::new())),
        ProbeOutcome::Failed(
            "unprivileged lspci output did not expose PCIe link details for 0000:01:00.0".to_string()
        )
    );
    assert_eq!(
        interpret_lspci_run("0000:01:00.0", true, Ok(String::new())),
        ProbeOutcome::Failed("sudo lspci returned output without PCIe link details for 0000:01:00.0".to_string())
    );
    assert_eq!(
        interpret_lspci_run("0000:01:00.0", true, Err("sudo exited with status 1".to_string())),
        ProbeOutcome::Failed("elevated PCIe inspection was unavailable for 0000:01:00.0 (sudo exited with status 1). Re-run `sudo lspci -vv -s 0000:01:00.0` or run TuxTests under sudo for fuller PCIe/ASPM results.".to_string())
    );
    assert_eq!(
        interpret_lspci_run("0000:01:00.0", false, Err("lspci could not be executed".to_string())),
        ProbeOutcome::Failed("lspci could not be executed".to_string())
    );
    let (program, args) = lspci_invocation("0000:01:00.0", true);
    assert_eq!(program, "sudo");
    assert_eq!(args, vec!["-n", "lspci", "-vv", "-s", "0000:01:00.0"]);
    let (program, args) = lspci_invocation("0000:01:00.0", false);
    assert_eq!(program, "lspci");
    assert_eq!(args, vec!["-vv", "-s", "0000:01:00.0"]);
}

fn node(subsystem: &str, sysname: &str) -> TopologyNode {
    TopologyNode { level: 0, subsystem: subsystem.to_string(), sysname: sysname.to_string() }
}

fn bare(bdf: &str) -> PcieDeviceInfo {
    assemble_pcie_device(bdf, None, None, None, None, None, ProbeOutcome::Failed("x".to_string()))
}

#[test]
fn pcie_path_keeps_pci_nodes_in_order() {
    let topology = vec![
        node("pci", "pci0000:00"),
        node("pci", "0000:00:1b.0"),
        node("usb", "0000:00:1c.0"),
        node("pci", "0000:03:00.0"),
        node("block", "nvme0n1"),
    ];
    let path = collect_pcie_path(&topology, |bdf: &String| bare(bdf));
    let bdfs: Vec<String> = path.iter().map(|d| d.bdf.clone()).collect();
    assert_eq!(bdfs, vec!["0000:00:1b.0".to_string(), "0000:03:00.0".to_string()]);
}

#[test]
fn assembles_device_from_readings_and_probe() {
    let d = assemble_pcie_device(
        "0000:03:00.0",
        Some("nvme".to_string()),
        trimmed_reading(Some("8.0 GT/s PCIe\n".to_string())),
        trimmed_reading(Some("4\n".to_string())),
        trimmed_reading(Some("  \n".to_string())),
        None,
        ProbeOutcome::Success(LspciLinkDetails {
            aspm_capability: Some("ASPM L1".to_string()),
            aspm: None,
            source: "lspci".to_string(),
        }),
    );
    assert_eq!(d.current_link_speed.as_deref(), Some("8.0 GT/s PCIe"));
    assert_eq!(d.current_link_width.as_deref(), Some("4"));
    assert_eq!(d.max_link_speed, None);
    assert_eq!(d.aspm_capability.as_deref(), Some("ASPM L1"));
    assert_eq!(d.aspm_source.as_deref(), Some("lspci"));
    assert_eq!(d.aspm_probe_error, None);
}

#[test]
fn enrichment_probes_only_anomalous_paths() {
    let mut complete = bare("0000:00:1b.0");
    complete.aspm = Some("ASPM Disabled".to_string());
    complete.aspm_capability = Some("ASPM L1".to_string());
    complete.aspm_probe_error = None;
    let mut devices = vec![complete.clone(), bare("0000:03:00.0")];
    let probe = |bdf: &String| {
        if bdf == "0000:03:00.0" {
            ProbeOutcome::Success(LspciLinkDetails {
                aspm_capability: Some("ASPM L1".to_string()),
                aspm: Some("ASPM L1 Enabled".to_string()),
                source: "sudo_lspci".to_string(),
            })
        } else {
            panic!("device with full ASPM facts must not be probed")
        }
    };
    let quiet = vec!["usb 1-1: reset high-speed USB device".to_string()];
    enrich_anomaly_link_aspm(&mut devices, &quiet, probe);
    assert_eq!(devices[1].aspm, None);
    assert_eq!(devices[1].aspm_probe_error.as_deref(), Some("x"));

    let loud = vec!["pcieport 0000:00:1b.0: DPC: error containment".to_string()];
    enrich_anomaly_link_aspm(&mut devices, &loud, probe);
    assert_eq!(devices[0], complete);
    assert_eq!(devices[1].aspm.as_deref(), Some("ASPM L1 Enabled"));
    assert_eq!(devices[1].aspm_source.as_deref(), Some("sudo_lspci"));
    assert_eq!(devices[1].aspm_probe_error, None);

    let mut failing = vec![bare("0000:05:00.0")];
    let anomalies = vec!["AER 0000:05:00.0 error".to_string()];
    enrich_anomaly_link_aspm(&mut failing, &anomalies, |_: &String| {
        ProbeOutcome::Failed("no sudo".to_string())
    });
    assert_eq!(failing[0].aspm_probe_error.as_deref(), Some("no sudo"));
}
