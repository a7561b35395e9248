use std::collections::BTreeMap;
use tuxtests::dashboard::{App, UiAction};
use tuxtests::json::parse_json;
use tuxtests::models::{SystemInfo, TuxPayload};
use tuxtests::providers::{
    choose_gemini_model, gemini_generate_url, gemini_model_tier, gemini_models_url,
    gemini_response_text, ollama_prompt,
};
use tuxtests::system::{
    assemble_system_info, choose_hostname, combine_motherboard, parse_os_release,
    topology_from_walk, usb_speed_summary, WalkedDevice,
};
use tuxtests::throughput::{bench_file_path, ensure_capacity_safety};

#[test]
fn parses_os_release_pairs() {
    let pairs = parse_os_release("NAME=\"Arch Linux\"\nPRETTY_NAME=\"Arch \"Linux\"\"\nbroken\nID=arch=x\n");
    assert_eq!(
        pairs,
        vec![
            ("NAME".to_string(), "Arch Linux".to_string()),
            ("PRETTY_NAME".to_string(), "Arch Linux".to_string()),
            ("ID".to_string(), "arch=x".to_string()),
        ]
    );
}

#[test]
fn chooses_host_name_and_board() {
    assert_eq!(choose_hostname(Some("box".to_string()), None), "box");
    assert_eq!(choose_hostname(None, Some(" etc-box\n".to_string())), "etc-box");
    assert_eq!(choose_hostname(Some("  ".to_string()), Some("etc".to_string())), "Unknown Host");
    assert_eq!(choose_hostname(None, None), "Unknown Host");
    assert_eq!(combine_motherboard(Some("ASUS\n".to_string()), Some("ASUS".to_string())).as_deref(), Some("ASUS"));
    assert_eq!(combine_motherboard(Some("ASUS\n".to_string()), Some("PRIME X\n".to_string())).as_deref(), Some("ASUS PRIME X"));
    assert_eq!(combine_motherboard(Some(" \n".to_string()), Some("B".to_string())).as_deref(), Some("B"));
    assert_eq!(combine_motherboard(None, None), None);
}

#[test]
fn assembles_system_facts() {
    let info: SystemInfo = assemble_system_info(
        BTreeMap::new(),
        None,
        None,
        None,
        Some("Ryzen".to_string()),
        34_359_738_368,
        None,
        Some("Board".to_string()),
        Some("default\n".to_string()),
    );
    assert_eq!(info.hostname, "Unknown Host");
    assert_eq!(info.kernel_version, "Unknown Kernel");
    assert_eq!(info.cpu, "Ryzen");
    assert_eq!(info.ram_gb, 32);
    assert_eq!(info.motherboard.as_deref(), Some("Board"));
    assert_eq!(info.pcie_aspm_policy.as_deref(), Some("default"));
}

fn walked(subsystem: &str, sysname: &str, speed: Option<&str>) -> WalkedDevice {
    WalkedDevice {
        subsystem: subsystem.to_string(),
        sysname: sysname.to_string(),
        speed: speed.map(|s| s.to_string()),
    }
}

#[test]
fn numbers_lineage_from_root_and_reads_usb_speed() {
    let walk = vec![
        walked("block", "sdb", None),
        walked("scsi", "0:0:0:0", None),
        walked("usb", "2-1", Some("480")),
        walked("usb", "usb2", Some("5000")),
        walked("pci", "0000:00:14.0", None),
    ];
    let (summary, nodes) = topology_from_walk(&walk);
    assert_eq!(summary.as_deref(), Some("USB 2.0 (High-Speed)"));
    assert_eq!(nodes.len(), 5);
    assert_eq!(nodes[0].level, 1);
    assert_eq!(nodes[0].sysname, "0000:00:14.0");
    assert_eq!(nodes[4].level, 5);
    assert_eq!(nodes[4].subsystem, "block");
    let (summary, nodes) = topology_from_walk(&Vec::new());
    assert_eq!(summary, None);
    assert!(nodes.is_empty());
    assert_eq!(usb_speed_summary("10000"), "USB 3.1 Gen 2 (SuperSpeed+)");
    assert_eq!(usb_speed_summary("20000"), "USB 3.2 Gen 2x2");
    assert_eq!(usb_speed_summary("12"), "USB (12 Mbps)");
}

#[test]
fn picks_the_highest_gemini_tier_first_seen() {
    let listing = parse_json(
        r#"{"models": [{"name": "models/gemini-pro"}, {"name": "models/gemini-1.5-pro-002"},
            {"name": "models/gemini-1.5-pro-001"}, {"name": 7}, {"name": "models/other"}]}"#,
    )
    .unwrap();
    assert_eq!(choose_gemini_model(&listing), "models/gemini-1.5-pro-002");
    let empty = parse_json("{}").unwrap();
    assert_eq!(choose_gemini_model(&empty), "models/gemini-1.5-pro");
    assert_eq!(gemini_model_tier("models/gemini-3.1-pro-preview"), 4);
    assert_eq!(gemini_model_tier("models/gemini-3.1-flash"), 3);
    assert_eq!(gemini_models_url("K"), "https://generativelanguage.googleapis.com/v1beta/models?key=K");
    assert_eq!(
        gemini_generate_url("models/m", "K"),
        "https://generativelanguage.googleapis.com/v1beta/models/m:generateContent?key=K"
    );
}

#[test]
fn reads_generated_text() {
    let resp = parse_json(r##"{"candidates": [{"content": {"parts": [{"text": "# Report"}]}}]}"##).unwrap();
    assert_eq!(gemini_response_text(&resp).as_deref(), Some("# Report"));
    let bad = parse_json(r#"{"candidates": {"0": {"content": {"parts": [{"text": "x"}]}}}}"#).unwrap();
    assert_eq!(gemini_response_text(&bad), None);
    assert_eq!(ollama_prompt("S", "{}"), "S\n\n### HARDWARE PAYLOAD (JSON) ###\n{}");
}

#[test]
fn guards_benchmark_capacity() {
    let df = "Filesystem 1M-blocks Used Available Use% Mounted on\n/dev/sda1 100000 10000 90000 10% /\n";
    assert!(ensure_capacity_safety(df));
    let small = "Filesystem 1M-blocks Used Available Use% Mounted on\n/dev/sda1 6000 1000 5000 17% /\n";
    assert!(!ensure_capacity_safety(small));
    let crowded = "Filesystem 1M-blocks Used Available Use% Mounted on\n/dev/sda1 1000000 940000 60000 94% /\n";
    assert!(!ensure_capacity_safety(crowded));
    assert!(!ensure_capacity_safety("df: /x: No such file or directory\n"));
    assert_eq!(bench_file_path("/mnt"), "/mnt/.tuxtests_bench.tmp");
}

fn payload(n: usize) -> TuxPayload {
    TuxPayload {
        summary_header: String::new(),
        system: assemble_system_info(BTreeMap::new(), None, None, None, None, 0, None, None, None),
        drives: Vec::new(),
        benchmarks: BTreeMap::new(),
        findings: Vec::new(),
        kernel_anomalies: vec![String::new(); n],
        fstab: Vec::new(),
    }
}

#[test]
fn dashboard_reacts_to_keys_and_results() {
    let mut app = App::new();
    assert!(app.is_loading);
    assert_eq!(app.diagnostics.len(), 2);
    assert_eq!(app.handle_key('r'), UiAction::Nothing);
    assert_eq!(app.handle_key('a'), UiAction::Nothing);
    assert_eq!(app.diagnostics.last().unwrap(), "Cannot analyze yet: no payload has been collected.");
    app.set_payload(payload(0), std::time::Instant::now());
    assert_eq!(app.status, "Loaded payload with 0 drives. Press [a] to run AI analysis.");
    assert!(!app.is_loading);
    assert_eq!(app.handle_key('a'), UiAction::Analyze);
    assert!(app.is_analyzing);
    assert_eq!(app.handle_key('a'), UiAction::Nothing);
    app.set_analysis(Err("down".to_string()));
    assert_eq!(app.status, "AI analysis failed.");
    assert_eq!(app.diagnostics.last().unwrap(), "down");
    app.set_analysis(Ok("# ok".to_string()));
    assert_eq!(app.analysis.as_deref(), Some("# ok"));
    assert_eq!(app.handle_key('r'), UiAction::Refresh);
    assert_eq!(app.status, "Refreshing hardware payload...");
    assert_eq!(app.handle_key('x'), UiAction::Nothing);
    assert_eq!(app.handle_key('q'), UiAction::Quit);
}
