//! The backend facade shared by every interface: configuration updates, the payload
//! summary, and the diagnostic findings derived from a scan.
use crate::config::{
    default_ollama_model, default_ollama_url, default_provider, normalized_model,
    normalized_provider, normalized_url, model_result, normalize_ollama_model, normalize_ollama_url, normalize_provider,
    ollama_url_result, provider_result, AppConfig,
};
use crate::models::{
    BenchmarkResult, DiagnosticFinding, DriveInfo, FindingCategory, FindingSeverity, FstabEntry,
    SmartProbeStatus, SmartReport, SystemInfo, TuxPayload,
};
use crate::smart::SmartOutcome;
use std::collections::BTreeMap;
use vstd::laws_cmp::obeys_cmp;
use crate::smart::opt_text;
use crate::text::{
    chars_of, contains, contains_str, int_text, join, join_strings, lowercase, push_int,
    push_str, string_texts, to_lowercase,
};
use vstd::prelude::*;

verus! {

broadcast use vstd::string::group_string_axioms;

// ---------------------------------------------------------------------------
// Configuration updates
// ---------------------------------------------------------------------------
/// The configuration fields a user asked to change.
#[derive(Debug, Clone)]
pub struct ConfigUpdate {
    pub provider: Option<String>,
    pub ollama_model: Option<String>,
    pub ollama_url: Option<String>,
}

impl Default for ConfigUpdate {
    fn default() -> (r: Self)
        ensures
            r.provider is None && r.ollama_model is None && r.ollama_url is None,
    {
        ConfigUpdate { provider: None, ollama_model: None, ollama_url: None }
    }
}

/// A field after an optional update: kept, replaced by the normalized new value, or the
/// error that refuses the new value.
pub open spec fn updated_field(
    current: Seq<char>,
    update: Option<String>,
    rule: spec_fn(Seq<char>) -> Result<Seq<char>, Seq<char>>,
) -> Result<Seq<char>, Seq<char>> {
    match update {
        None => Ok(current),
        Some(u) => rule(u@),
    }
}

/// `r` is `current` with the update applied: the first field (provider, then model, then
/// URL) whose new value is refused gives the error.
pub open spec fn is_update_of(
    r: Result<AppConfig, String>,
    current: AppConfig,
    update: ConfigUpdate,
) -> bool {
    let p = updated_field(current.provider@, update.provider, |s: Seq<char>| provider_result(s));
    let m = updated_field(
        current.ollama_model@,
        update.ollama_model,
        |s: Seq<char>| model_result(s),
    );
    let u = updated_field(
        current.ollama_url@,
        update.ollama_url,
        |s: Seq<char>| ollama_url_result(s),
    );
    match (p, m, u) {
        (Err(e), _, _) => r matches Err(x) && x@ == e,
        (Ok(_), Err(e), _) => r matches Err(x) && x@ == e,
        (Ok(_), Ok(_), Err(e)) => r matches Err(x) && x@ == e,
        (Ok(pv), Ok(mv), Ok(uv)) => r matches Ok(c) && c.provider@ == pv && c.ollama_model@
            == mv && c.ollama_url@ == uv,
    }
}

/// The configuration `current` with the requested fields normalized and replaced, or the
/// error of the first field whose new value is refused. Persisting it is the caller's
/// step.
pub fn apply_config_update(current: AppConfig, update: ConfigUpdate) -> (r: Result<
    AppConfig,
    String,
>)
    ensures
        is_update_of(r, current, update),
{
    let mut config = current;
    match update.provider {
        Some(provider) => match normalize_provider(provider.as_str()) {
            Ok(p) => {
                config.provider = p;
            },
            Err(e) => {
                return Err(e);
            },
        },
        None => {},
    }
    match update.ollama_model {
        Some(model) => match normalize_ollama_model(model.as_str()) {
            Ok(m) => {
                config.ollama_model = m;
            },
            Err(e) => {
                return Err(e);
            },
        },
        None => {},
    }
    match update.ollama_url {
        Some(url) => match normalize_ollama_url(url.as_str()) {
            Ok(u) => {
                config.ollama_url = u;
            },
            Err(e) => {
                return Err(e);
            },
        },
        None => {},
    }
    Ok(config)
}

/// The configuration in effect: the stored one (`None` when nothing could be read or
/// parsed) with each field normalized, else the defaults normalized.
pub fn load_config(stored: Option<AppConfig>) -> (r: AppConfig)
    ensures
        match stored {
            Some(c) => {
                &&& r.provider@ == normalized_provider(c.provider@)
                &&& r.ollama_model@ == normalized_model(c.ollama_model@)
                &&& r.ollama_url@ == normalized_url(c.ollama_url@)
            },
            None => {
                &&& r.provider@ == normalized_provider("gemini"@)
                &&& r.ollama_model@ == normalized_model("mistral"@)
                &&& r.ollama_url@ == normalized_url("http://127.0.0.1:11434"@)
            },
        },
{
    match stored {
        Some(c) => c.normalized(),
        None => AppConfig {
            provider: default_provider(),
            ollama_model: default_ollama_model(),
            ollama_url: default_ollama_url(),
        }.normalized(),
    }
}

/// The error for a configuration that could not be written back.
pub fn persist_failure_message() -> (r: String)
    ensures
        r@ == "failed to persist TuxTests AI configuration"@,
{
    "failed to persist TuxTests AI configuration".to_string()
}


// ---------------------------------------------------------------------------
// Diagnostic findings
// ---------------------------------------------------------------------------
pub const SMART_UNAVAILABLE_EXPLANATION: &'static str = "TuxTests could not collect structured SMART data for this drive, so health interpretation is limited to the available kernel and topology data.";

pub const SMART_UNAVAILABLE_ACTION: &'static str = "Run the deeper scan from a session where polkit or sudo can grant smartctl access, then compare the structured SMART report.";

pub const SMART_FAILED_EXPLANATION: &'static str = "The drive reported a failing SMART health state. This is a direct device health signal, not an AI inference.";

pub const SMART_FAILED_ACTION: &'static str = "Back up important data immediately, then inspect the full smartctl report and plan replacement if the failure is confirmed.";

pub const SMART_COUNTER_EXPLANATION: &'static str = "SMART counters can reveal degradation before the top-level health flag changes. Non-zero values should be interpreted with drive type, age, and trend history in mind.";

pub const SMART_COUNTER_ACTION: &'static str = "Review the full SMART details, rerun after workload, and treat rising counts as a stronger replacement signal than a single static reading.";

pub const SMART_NOT_APPLICABLE_EXPLANATION: &'static str = "SMART does not apply to virtual or mapped block devices such as zram, loop, RAM disks and device-mapper nodes, so no SMART probe was run. This is informational, not a health or privilege problem.";

pub const SMART_ADVISORY_EXPLANATION: &'static str = "This SMART value is past an advisory threshold. It is planning and triage guidance, not a failure claim; interpret it with the drive's type, age and trend history in mind.";

pub const SMART_ADVISORY_ACTION: &'static str = "Check cooling, workload and the full SMART details, and plan capacity or replacement if the value keeps rising.";

/// The drive temperature, in degrees Celsius, from which an advisory warning is given.
pub const HIGH_TEMPERATURE_CELSIUS: i64 = 70;

/// The NVMe endurance use, in percent of the rated endurance, from which an advisory
/// warning is given.
pub const HIGH_PERCENTAGE_USED: i64 = 90;

/// The NVMe unsafe-shutdown count from which an advisory notice is given.
pub const HIGH_UNSAFE_SHUTDOWNS: i64 = 100;

pub const PCIE_FINDING_TITLE: &'static str = "PCIe error-containment messages detected";

pub const PCIE_FINDING_EXPLANATION: &'static str = "Kernel PCIe DPC/AER messages can indicate link instability, firmware quirks, or physical signal-integrity issues. TuxTests should present this as a diagnostic lead rather than a confirmed root cause.";

pub const PCIE_FINDING_ACTION: &'static str = "Inspect the affected PCIe path, compare privileged lspci output, and check BIOS/firmware before making power-management changes.";

/// A finding as plain values: category, severity, title, evidence, explanation,
/// recommended action, confidence and drive.
pub type FindingView = (
    FindingCategory,
    FindingSeverity,
    Seq<char>,
    Seq<char>,
    Seq<char>,
    Option<Seq<char>>,
    Seq<char>,
    Option<Seq<char>>,
);

pub open spec fn finding_view(f: DiagnosticFinding) -> FindingView {
    (
        f.category,
        f.severity,
        f.title@,
        f.evidence@,
        f.explanation@,
        opt_text(f.recommended_action),
        f.confidence@,
        opt_text(f.drive),
    )
}

pub open spec fn finding_views(fs: Seq<DiagnosticFinding>) -> Seq<FindingView> {
    fs.map_values(|f: DiagnosticFinding| finding_view(f))
}

/// A SMART counter as plain values: label, count and severity.
pub type CounterView = (Seq<char>, i64, FindingSeverity);

/// The SMART counters a report is checked for, in order, with their severities.
pub open spec fn counter_entries(r: SmartReport) -> Seq<(Seq<char>, Option<i64>, FindingSeverity)> {
    seq![
        ("reallocated sectors"@, r.reallocated_sectors, FindingSeverity::Warning),
        ("current pending sectors"@, r.current_pending_sectors, FindingSeverity::Critical),
        ("offline uncorrectable sectors"@, r.offline_uncorrectable, FindingSeverity::Critical),
        ("NVMe media errors"@, r.media_errors, FindingSeverity::Warning),
        ("NVMe error-log entries"@, r.num_err_log_entries, FindingSeverity::Notice),
    ]
}

/// The entries whose count is present and above zero.
pub open spec fn positive_counters(entries: Seq<(Seq<char>, Option<i64>, FindingSeverity)>) -> Seq<
    CounterView,
>
    decreases entries.len(),
{
    if entries.len() == 0 {
        seq![]
    } else {
        let e = entries.last();
        positive_counters(entries.drop_last()) + match e.1 {
            Some(v) => if v > 0 {
                seq![(e.0, v, e.2)]
            } else {
                seq![]
            },
            None => seq![],
        }
    }
}

pub open spec fn counter_views(cs: Seq<(&'static str, i64, FindingSeverity)>) -> Seq<CounterView> {
    cs.map_values(|c: (&'static str, i64, FindingSeverity)| (c.0@, c.1, c.2))
}

fn push_counter(
    out: &mut Vec<(&'static str, i64, FindingSeverity)>,
    label: &'static str,
    value: Option<i64>,
    severity: FindingSeverity,
)
    ensures
        counter_views(final(out)@) == counter_views(old(out)@) + match value {
            Some(v) => if v > 0 {
                seq![(label@, v, severity)]
            } else {
                seq![]
            },
            None => seq![],
        },
{
    match value {
        Some(count) => {
            if count > 0 {
                out.push((label, count, severity));
                assert(counter_views(out@) =~= counter_views(old(out)@) + seq![
                    (label@, count, severity),
                ]);
            } else {
                assert(counter_views(out@) =~= counter_views(old(out)@) + seq![]);
            }
        },
        None => {
            assert(counter_views(out@) =~= counter_views(old(out)@) + seq![]);
        },
    }
}

/// The SMART counters of a report that are above zero, with their severities.
pub fn smart_counter_findings(report: &SmartReport) -> (r: Vec<(&'static str, i64, FindingSeverity)>)
    ensures
        counter_views(r@) == positive_counters(counter_entries(*report)),
{
    let ghost entries = counter_entries(*report);
    let mut out: Vec<(&'static str, i64, FindingSeverity)> = Vec::new();
    assert(counter_views(out@) =~= seq![]);
    push_counter(&mut out, "reallocated sectors", report.reallocated_sectors, FindingSeverity::Warning);
    assert(entries.take(1).drop_last() =~= Seq::<(Seq<char>, Option<i64>, FindingSeverity)>::empty());
    assert(positive_counters(Seq::<(Seq<char>, Option<i64>, FindingSeverity)>::empty()) =~= seq![]);
    assert(entries.take(1).last() == entries[0]);
    assert(counter_views(out@) =~= positive_counters(entries.take(1)));
    push_counter(
        &mut out,
        "current pending sectors",
        report.current_pending_sectors,
        FindingSeverity::Critical,
    );
    assert(entries.take(2).drop_last() =~= entries.take(1));
    assert(entries.take(2).last() == entries[1]);
    assert(counter_views(out@) =~= positive_counters(entries.take(2)));
    push_counter(
        &mut out,
        "offline uncorrectable sectors",
        report.offline_uncorrectable,
        FindingSeverity::Critical,
    );
    assert(entries.take(3).drop_last() =~= entries.take(2));
    assert(entries.take(3).last() == entries[2]);
    assert(counter_views(out@) =~= positive_counters(entries.take(3)));
    push_counter(&mut out, "NVMe media errors", report.media_errors, FindingSeverity::Warning);
    assert(entries.take(4).drop_last() =~= entries.take(3));
    assert(entries.take(4).last() == entries[3]);
    assert(counter_views(out@) =~= positive_counters(entries.take(4)));
    push_counter(
        &mut out,
        "NVMe error-log entries",
        report.num_err_log_entries,
        FindingSeverity::Notice,
    );
    assert(entries.drop_last() =~= entries.take(4));
    assert(counter_views(out@) =~= positive_counters(entries));
    out
}

/// `s`, or `fallback` when `s` is empty.
pub fn if_empty(s: String, fallback: &str) -> (r: String)
    ensures
        r@ == if s@.len() == 0 {
            fallback@
        } else {
            s@
        },
{
    if s.as_str().is_empty() {
        fallback.to_string()
    } else {
        s
    }
}

pub open spec fn unavailable_finding(name: Seq<char>, r: SmartReport) -> FindingView {
    (
        FindingCategory::Privilege,
        FindingSeverity::Notice,
        "SMART data unavailable for "@ + name,
        join(string_texts(r.limitations@), "; "@),
        SMART_UNAVAILABLE_EXPLANATION@,
        Some(SMART_UNAVAILABLE_ACTION@),
        "high"@,
        Some(name),
    )
}

pub open spec fn failed_finding(name: Seq<char>, r: SmartReport) -> FindingView {
    let joined = join(string_texts(r.exit_status_description@), "; "@);
    (
        FindingCategory::Smart,
        FindingSeverity::Critical,
        "SMART overall-health check failed for "@ + name,
        if joined.len() == 0 {
            "smart_status.passed=false"@
        } else {
            joined
        },
        SMART_FAILED_EXPLANATION@,
        Some(SMART_FAILED_ACTION@),
        "high"@,
        Some(name),
    )
}

pub open spec fn counter_finding(name: Seq<char>, c: CounterView) -> FindingView {
    (
        FindingCategory::Smart,
        c.2,
        c.0 + " reported on "@ + name,
        c.0 + "="@ + int_text(c.1 as int),
        SMART_COUNTER_EXPLANATION@,
        Some(SMART_COUNTER_ACTION@),
        "medium"@,
        Some(name),
    )
}

pub open spec fn not_applicable_finding(name: Seq<char>, r: SmartReport) -> FindingView {
    (
        FindingCategory::Smart,
        FindingSeverity::Info,
        "SMART not applicable for "@ + name,
        join(string_texts(r.limitations@), "; "@),
        SMART_NOT_APPLICABLE_EXPLANATION@,
        None,
        "high"@,
        Some(name),
    )
}

/// An advisory finding: `label on <drive>`, with `key=<value>` as its evidence.
pub open spec fn advisory_finding(
    name: Seq<char>,
    label: Seq<char>,
    key: Seq<char>,
    v: i64,
    severity: FindingSeverity,
) -> FindingView {
    (
        FindingCategory::Smart,
        severity,
        label + " on "@ + name,
        key + "="@ + int_text(v as int),
        SMART_ADVISORY_EXPLANATION@,
        Some(SMART_ADVISORY_ACTION@),
        "medium"@,
        Some(name),
    )
}

/// The advisory finding for a value at or above its threshold, if any.
pub open spec fn advisory_part(
    name: Seq<char>,
    label: Seq<char>,
    key: Seq<char>,
    value: Option<i64>,
    threshold: i64,
    severity: FindingSeverity,
) -> Seq<FindingView> {
    match value {
        Some(v) => if v >= threshold {
            seq![advisory_finding(name, label, key, v, severity)]
        } else {
            seq![]
        },
        None => seq![],
    }
}

/// The advisory findings of a report: a high temperature, high NVMe endurance use and
/// many NVMe unsafe shutdowns, in that order.
pub open spec fn advisory_findings(name: Seq<char>, r: SmartReport) -> Seq<FindingView> {
    advisory_part(
        name,
        "High SMART temperature"@,
        "temperature_celsius"@,
        r.temperature_celsius,
        HIGH_TEMPERATURE_CELSIUS,
        FindingSeverity::Warning,
    ) + advisory_part(
        name,
        "Elevated NVMe endurance use"@,
        "percentage_used"@,
        r.percentage_used,
        HIGH_PERCENTAGE_USED,
        FindingSeverity::Warning,
    ) + advisory_part(
        name,
        "Notable NVMe unsafe-shutdown count"@,
        "unsafe_shutdowns"@,
        r.unsafe_shutdowns,
        HIGH_UNSAFE_SHUTDOWNS,
        FindingSeverity::Notice,
    )
}

/// The SMART findings of one drive: for a report without data, an informational finding
/// when SMART does not apply and a privilege notice otherwise; for a report with data, a
/// failed health check, each non-zero degradation counter, then the advisory findings.
pub open spec fn drive_findings(d: DriveInfo) -> Seq<FindingView> {
    match d.smart {
        None => seq![],
        Some(r) => if !r.available {
            if r.status == SmartProbeStatus::NotApplicable {
                seq![not_applicable_finding(d.name@, r)]
            } else {
                seq![unavailable_finding(d.name@, r)]
            }
        } else {
            (if r.passed == Some(false) {
                seq![failed_finding(d.name@, r)]
            } else {
                seq![]
            }) + positive_counters(counter_entries(r)).map_values(
                |c: CounterView| counter_finding(d.name@, c),
            ) + advisory_findings(d.name@, r)
        },
    }
}

/// The SMART findings of the drives, in order.
pub open spec fn smart_findings(drives: Seq<DriveInfo>) -> Seq<FindingView>
    decreases drives.len(),
{
    if drives.len() == 0 {
        seq![]
    } else {
        smart_findings(drives.drop_last()) + drive_findings(drives.last())
    }
}

/// A kernel message about PCIe error containment.
pub open spec fn is_pcie_error(a: Seq<char>) -> bool {
    contains(a, "DPC: error containment"@) || contains(a, "PoisonedTLP"@) || contains(
        a,
        "DL_ActiveErr"@,
    )
}

pub open spec fn pcie_finding(a: Seq<char>) -> FindingView {
    (
        FindingCategory::Pcie,
        FindingSeverity::Warning,
        PCIE_FINDING_TITLE@,
        a,
        PCIE_FINDING_EXPLANATION@,
        Some(PCIE_FINDING_ACTION@),
        "medium"@,
        None,
    )
}

/// A finding for each kernel message about PCIe error containment, in order.
pub open spec fn pcie_findings(anomalies: Seq<Seq<char>>) -> Seq<FindingView>
    decreases anomalies.len(),
{
    if anomalies.len() == 0 {
        seq![]
    } else {
        pcie_findings(anomalies.drop_last()) + if is_pcie_error(anomalies.last()) {
            seq![pcie_finding(anomalies.last())]
        } else {
            seq![]
        }
    }
}

/// The findings of a scan: the SMART findings of each drive when SMART was requested,
/// then the PCIe error-containment findings.
pub open spec fn scan_findings(
    drives: Seq<DriveInfo>,
    smart_requested: bool,
    anomalies: Seq<Seq<char>>,
) -> Seq<FindingView> {
    (if smart_requested {
        smart_findings(drives)
    } else {
        seq![]
    }) + pcie_findings(anomalies)
}

fn push_finding(out: &mut Vec<DiagnosticFinding>, f: DiagnosticFinding)
    ensures
        finding_views(final(out)@) == finding_views(old(out)@).push(finding_view(f)),
{
    out.push(f);
    assert(finding_views(out@) =~= finding_views(old(out)@).push(finding_view(f)));
}

fn drive_findings_into(out: &mut Vec<DiagnosticFinding>, drive: &DriveInfo)
    ensures
        finding_views(final(out)@) == finding_views(old(out)@) + drive_findings(*drive),
{
    match &drive.smart {
        None => {
            assert(finding_views(out@) =~= finding_views(out@) + seq![]);
        },
        Some(report) => {
            if !report.available && report.status == SmartProbeStatus::NotApplicable {
                let mut title = "SMART not applicable for ".to_string();
                push_str(&mut title, drive.name.as_str());
                push_finding(
                    out,
                    DiagnosticFinding {
                        category: FindingCategory::Smart,
                        severity: FindingSeverity::Info,
                        title,
                        evidence: join_strings(&report.limitations, "; "),
                        explanation: SMART_NOT_APPLICABLE_EXPLANATION.to_string(),
                        recommended_action: None,
                        confidence: "high".to_string(),
                        drive: Some(drive.name.clone()),
                    },
                );
                assert(finding_views(old(out)@).push(not_applicable_finding(drive.name@, *report))
                    =~= finding_views(old(out)@) + seq![not_applicable_finding(drive.name@, *report)]);
                return ;
            }
            if !report.available {
                let mut title = "SMART data unavailable for ".to_string();
                push_str(&mut title, drive.name.as_str());
                push_finding(
                    out,
                    DiagnosticFinding {
                        category: FindingCategory::Privilege,
                        severity: FindingSeverity::Notice,
                        title,
                        evidence: join_strings(&report.limitations, "; "),
                        explanation: SMART_UNAVAILABLE_EXPLANATION.to_string(),
                        recommended_action: Some(SMART_UNAVAILABLE_ACTION.to_string()),
                        confidence: "high".to_string(),
                        drive: Some(drive.name.clone()),
                    },
                );
                assert(finding_views(old(out)@).push(unavailable_finding(drive.name@, *report))
                    =~= finding_views(old(out)@) + seq![unavailable_finding(drive.name@, *report)]);
                return ;
            }
            let ghost start = finding_views(out@);
            if report.passed == Some(false) {
                let mut title = "SMART overall-health check failed for ".to_string();
                push_str(&mut title, drive.name.as_str());
                let joined = join_strings(&report.exit_status_description, "; ");
                push_finding(
                    out,
                    DiagnosticFinding {
                        category: FindingCategory::Smart,
                        severity: FindingSeverity::Critical,
                        title,
                        evidence: if_empty(joined, "smart_status.passed=false"),
                        explanation: SMART_FAILED_EXPLANATION.to_string(),
                        recommended_action: Some(SMART_FAILED_ACTION.to_string()),
                        confidence: "high".to_string(),
                        drive: Some(drive.name.clone()),
                    },
                );
                assert(finding_views(out@) =~= start + seq![failed_finding(drive.name@, *report)]);
            } else {
                assert(finding_views(out@) =~= start + seq![]);
            }
            let ghost mid = finding_views(out@);
            let counters = smart_counter_findings(report);
            let ghost cviews = counter_views(counters@);
            let mut k: usize = 0;
            while k < counters.len()
                invariant
                    k <= counters.len(),
                    cviews == counter_views(counters@),
                    finding_views(out@) == mid + cviews.take(k as int).map_values(
                        |c: CounterView| counter_finding(drive.name@, c),
                    ),
                decreases counters.len() - k,
            {
                let (label, value, severity) = counters[k];
                let mut title = label.to_string();
                push_str(&mut title, " reported on ");
                push_str(&mut title, drive.name.as_str());
                let mut evidence = label.to_string();
                push_str(&mut evidence, "=");
                push_int(&mut evidence, value);
                let ghost before = finding_views(out@);
                push_finding(
                    out,
                    DiagnosticFinding {
                        category: FindingCategory::Smart,
                        severity,
                        title,
                        evidence,
                        explanation: SMART_COUNTER_EXPLANATION.to_string(),
                        recommended_action: Some(SMART_COUNTER_ACTION.to_string()),
                        confidence: "medium".to_string(),
                        drive: Some(drive.name.clone()),
                    },
                );
                assert(cviews[k as int] == (label@, value, severity));
                assert(cviews.take(k + 1).map_values(
                    |c: CounterView| counter_finding(drive.name@, c),
                ) =~= cviews.take(k as int).map_values(
                    |c: CounterView| counter_finding(drive.name@, c),
                ).push(counter_finding(drive.name@, cviews[k as int])));
                k = k + 1;
            }
            assert(cviews.take(counters.len() as int) =~= cviews);
            let ghost after_counters = finding_views(out@);
            push_advisory(
                out,
                &drive.name,
                "High SMART temperature",
                "temperature_celsius",
                report.temperature_celsius,
                HIGH_TEMPERATURE_CELSIUS,
                FindingSeverity::Warning,
            );
            push_advisory(
                out,
                &drive.name,
                "Elevated NVMe endurance use",
                "percentage_used",
                report.percentage_used,
                HIGH_PERCENTAGE_USED,
                FindingSeverity::Warning,
            );
            push_advisory(
                out,
                &drive.name,
                "Notable NVMe unsafe-shutdown count",
                "unsafe_shutdowns",
                report.unsafe_shutdowns,
                HIGH_UNSAFE_SHUTDOWNS,
                FindingSeverity::Notice,
            );
            assert(finding_views(out@) =~= after_counters + advisory_findings(drive.name@, *report));
        },
    }
}

fn push_advisory(
    out: &mut Vec<DiagnosticFinding>,
    name: &String,
    label: &str,
    key: &str,
    value: Option<i64>,
    threshold: i64,
    severity: FindingSeverity,
)
    ensures
        finding_views(final(out)@) == finding_views(old(out)@) + advisory_part(
            name@,
            label@,
            key@,
            value,
            threshold,
            severity,
        ),
{
    match value {
        Some(v) => {
            if v >= threshold {
                let mut title = label.to_string();
                push_str(&mut title, " on ");
                push_str(&mut title, name.as_str());
                let mut evidence = key.to_string();
                push_str(&mut evidence, "=");
                push_int(&mut evidence, v);
                push_finding(
                    out,
                    DiagnosticFinding {
                        category: FindingCategory::Smart,
                        severity,
                        title,
                        evidence,
                        explanation: SMART_ADVISORY_EXPLANATION.to_string(),
                        recommended_action: Some(SMART_ADVISORY_ACTION.to_string()),
                        confidence: "medium".to_string(),
                        drive: Some(name.clone()),
                    },
                );
                assert(finding_views(out@) =~= finding_views(old(out)@) + seq![
                    advisory_finding(name@, label@, key@, v, severity),
                ]);
            } else {
                assert(finding_views(out@) =~= finding_views(old(out)@) + seq![]);
            }
        },
        None => {
            assert(finding_views(out@) =~= finding_views(old(out)@) + seq![]);
        },
    }
}

/// The diagnostic findings of a scan: for each drive with a SMART report (when SMART was
/// requested) whether its data was unavailable, whether its health check failed, and each
/// non-zero degradation counter; then each kernel anomaly about PCIe error containment.
pub fn build_findings(
    drives: &Vec<DriveInfo>,
    smart_requested: bool,
    kernel_anomalies: &Vec<String>,
) -> (r: Vec<DiagnosticFinding>)
    ensures
        finding_views(r@) == scan_findings(
            drives@,
            smart_requested,
            string_texts(kernel_anomalies@),
        ),
{
    let mut findings: Vec<DiagnosticFinding> = Vec::new();
    assert(finding_views(findings@) =~= seq![]);
    if smart_requested {
        let mut i: usize = 0;
        while i < drives.len()
            invariant
                i <= drives.len(),
                finding_views(findings@) == smart_findings(drives@.take(i as int)),
            decreases drives.len() - i,
        {
            drive_findings_into(&mut findings, &drives[i]);
            assert(drives@.take(i + 1).drop_last() =~= drives@.take(i as int));
            i = i + 1;
        }
        assert(drives@.take(drives.len() as int) =~= drives@);
    }
    let ghost smart_part = finding_views(findings@);
    let ghost anomalies = string_texts(kernel_anomalies@);
    let mut j: usize = 0;
    assert(smart_part + pcie_findings(anomalies.take(0)) =~= smart_part);
    while j < kernel_anomalies.len()
        invariant
            j <= kernel_anomalies.len(),
            anomalies == string_texts(kernel_anomalies@),
            finding_views(findings@) == smart_part + pcie_findings(anomalies.take(j as int)),
        decreases kernel_anomalies.len() - j,
    {
        let a = chars_of(kernel_anomalies[j].as_str());
        assert(anomalies.take(j + 1).drop_last() =~= anomalies.take(j as int));
        assert(anomalies.take(j + 1).last() == a@);
        let ghost before = finding_views(findings@);
        if contains_str(&a, "DPC: error containment") || contains_str(&a, "PoisonedTLP")
            || contains_str(&a, "DL_ActiveErr") {
            push_finding(
                &mut findings,
                DiagnosticFinding {
                    category: FindingCategory::Pcie,
                    severity: FindingSeverity::Warning,
                    title: PCIE_FINDING_TITLE.to_string(),
                    evidence: kernel_anomalies[j].clone(),
                    explanation: PCIE_FINDING_EXPLANATION.to_string(),
                    recommended_action: Some(PCIE_FINDING_ACTION.to_string()),
                    confidence: "medium".to_string(),
                    drive: None,
                },
            );
            assert(finding_views(findings@) =~= smart_part + pcie_findings(
                anomalies.take(j + 1),
            ));
        } else {
            assert(finding_views(findings@) =~= smart_part + pcie_findings(
                anomalies.take(j + 1),
            ));
        }
        j = j + 1;
    }
    assert(anomalies.take(kernel_anomalies.len() as int) =~= anomalies);
    findings
}


// ---------------------------------------------------------------------------
// Payload summary
// ---------------------------------------------------------------------------
/// The number of drives whose connection mentions USB (in any letter case).
pub open spec fn usb_count(drives: Seq<DriveInfo>) -> nat
    decreases drives.len(),
{
    if drives.len() == 0 {
        0
    } else {
        usb_count(drives.drop_last()) + if contains(lowercase(drives.last().connection@), "usb"@) {
            1nat
        } else {
            0nat
        }
    }
}

pub open spec fn max_nat(a: nat, b: nat) -> nat {
    if a >= b {
        a
    } else {
        b
    }
}

/// The deepest level among lineage nodes (0 for none).
pub open spec fn max_level(nodes: Seq<crate::models::TopologyNode>) -> nat
    decreases nodes.len(),
{
    if nodes.len() == 0 {
        0
    } else {
        max_nat(max_level(nodes.drop_last()), nodes.last().level as nat)
    }
}

/// The deepest lineage level among the drives (0 for none).
pub open spec fn max_depth(drives: Seq<DriveInfo>) -> nat
    decreases drives.len(),
{
    if drives.len() == 0 {
        0
    } else {
        max_nat(max_depth(drives.drop_last()), max_level(drives.last().topology@))
    }
}

/// The one-line summary of a scan.
pub open spec fn summary_text(drives: Seq<DriveInfo>) -> Seq<char> {
    "System has "@ + crate::text::decimal(drives.len()) + " drives, "@ + crate::text::decimal(
        usb_count(drives),
    ) + " are USB. Maximum topology depth detected: "@ + crate::text::decimal(max_depth(drives))
        + "."@
}

/// The one-line summary of a scan: how many drives, how many of them on USB, and the
/// deepest device lineage.
pub fn summary_header(drives: &Vec<DriveInfo>) -> (r: String)
    ensures
        r@ == summary_text(drives@),
{
    let mut usb: u64 = 0;
    let mut depth: usize = 0;
    let mut i: usize = 0;
    while i < drives.len()
        invariant
            i <= drives.len(),
            usb as nat == usb_count(drives@.take(i as int)),
            usb <= i,
            depth as nat == max_depth(drives@.take(i as int)),
        decreases drives.len() - i,
    {
        assert(drives@.take(i + 1).drop_last() =~= drives@.take(i as int));
        assert(drives@.take(i + 1).last() == drives@[i as int]);
        let drive = &drives[i];
        let lowered = to_lowercase(drive.connection.as_str());
        let l = chars_of(lowered.as_str());
        if contains_str(&l, "usb") {
            usb = usb + 1;
        }
        let ghost nodes = drive.topology@;
        let mut k: usize = 0;
        let mut deepest: usize = 0;
        while k < drive.topology.len()
            invariant
                k <= drive.topology.len(),
                nodes == drive.topology@,
                deepest as nat == max_level(nodes.take(k as int)),
            decreases drive.topology.len() - k,
        {
            assert(nodes.take(k + 1).drop_last() =~= nodes.take(k as int));
            assert(nodes.take(k + 1).last() == nodes[k as int]);
            if drive.topology[k].level > deepest {
                deepest = drive.topology[k].level;
            }
            k = k + 1;
        }
        assert(nodes.take(drive.topology.len() as int) =~= nodes);
        if deepest > depth {
            depth = deepest;
        }
        i = i + 1;
    }
    assert(drives@.take(drives.len() as int) =~= drives@);
    let mut s = "System has ".to_string();
    crate::text::push_decimal(&mut s, drives.len() as u64);
    push_str(&mut s, " drives, ");
    crate::text::push_decimal(&mut s, usb);
    push_str(&mut s, " are USB. Maximum topology depth detected: ");
    crate::text::push_decimal(&mut s, depth as u64);
    push_str(&mut s, ".");
    s
}

// ---------------------------------------------------------------------------
// Payload assembly
// ---------------------------------------------------------------------------
/// Stores what a SMART probe found on its drive, and hands back the probe's anomalies.
pub fn apply_smart_outcome(drive: &mut DriveInfo, outcome: SmartOutcome) -> (r: Vec<String>)
    ensures
        *final(drive) == (DriveInfo {
            health_ok: outcome.health_ok,
            smartctl_exit_code: outcome.exit_code,
            smart: outcome.report,
            ..*old(drive)
        }),
        r@ == outcome.anomalies@,
{
    drive.health_ok = outcome.health_ok;
    drive.smartctl_exit_code = outcome.exit_code;
    drive.smart = outcome.report;
    outcome.anomalies
}

/// A payload from its collected parts: the summary line and the findings are derived from
/// the drives and the kernel anomalies (SMART findings only when SMART was requested).
pub fn assemble_payload(
    system: SystemInfo,
    drives: Vec<DriveInfo>,
    benchmarks: BTreeMap<String, BenchmarkResult>,
    kernel_anomalies: Vec<String>,
    smart_requested: bool,
    fstab: Vec<FstabEntry>,
) -> (r: TuxPayload)
    ensures
        r.summary_header@ == summary_text(drives@),
        finding_views(r.findings@) == scan_findings(
            drives@,
            smart_requested,
            string_texts(kernel_anomalies@),
        ),
        r.system == system,
        r.drives@ == drives@,
        r.benchmarks == benchmarks,
        r.kernel_anomalies@ == kernel_anomalies@,
        r.fstab@ == fstab@,
{
    let summary_header = summary_header(&drives);
    let findings = build_findings(&drives, smart_requested, &kernel_anomalies);
    TuxPayload { summary_header, system, drives, benchmarks, findings, kernel_anomalies, fstab }
}

/// The summary line of the mock payload.
pub const MOCK_SUMMARY: &'static str = "System has 1 drives, 0 are USB. Maximum topology depth detected: 3.";

/// The anomaly line of the mock payload.
pub const MOCK_ANOMALY: &'static str = "mock anomaly: High predictive failure counts on dummy payload";

/// A payload around one drive read from a fixture, on a fixed mock system, for working
/// without hardware.
pub fn mock_payload(drive: DriveInfo) -> (r: TuxPayload)
    ensures
        r.summary_header@ == MOCK_SUMMARY@,
        r.system.hostname@ == "mock-host"@,
        r.system.kernel_version@ == "6.x-mock"@,
        r.system.cpu@ == "Mock Sandbox CPU (Threadripper Stub)"@,
        r.system.ram_gb == 128,
        opt_text(r.system.motherboard) == Some("MockBoard 9000"@),
        opt_text(r.system.pcie_aspm_policy) == Some("default"@),
        obeys_cmp::<String>() ==> r.system.os_release@.len() == 1 && (exists|k: String|
            r.system.os_release@.contains_key(k) && k@ == "PRETTY_NAME"@
                && r.system.os_release@[k]@ == "Mock GNU/Linux"@),
        r.drives@ == seq![drive],
        r.benchmarks@ == Map::<String, BenchmarkResult>::empty(),
        r.findings@.len() == 0,
        string_texts(r.kernel_anomalies@) == seq![MOCK_ANOMALY@],
        r.fstab@.len() == 0,
{
    let mut os_release: BTreeMap<String, String> = BTreeMap::new();
    let key = "PRETTY_NAME".to_string();
    let value = "Mock GNU/Linux".to_string();
    let ghost k = key;
    let ghost v = value;
    os_release.insert(key, value);
    proof {
        if obeys_cmp::<String>() {
            assert(os_release@ == Map::<String, String>::empty().insert(k, v));
            assert(os_release@.dom() =~= set![k]);
            assert(set![k].len() == 1);
            assert(os_release@.contains_key(k));
            assert(k@ == "PRETTY_NAME"@ && os_release@[k]@ == "Mock GNU/Linux"@);
        }
    }
    let anomalies = vec![MOCK_ANOMALY.to_string()];
    assert(string_texts(anomalies@) =~= seq![MOCK_ANOMALY@]);
    TuxPayload {
        summary_header: MOCK_SUMMARY.to_string(),
        system: SystemInfo {
            os_release,
            hostname: "mock-host".to_string(),
            kernel_version: "6.x-mock".to_string(),
            cpu: "Mock Sandbox CPU (Threadripper Stub)".to_string(),
            ram_gb: 128,
            motherboard: Some("MockBoard 9000".to_string()),
            pcie_aspm_policy: Some("default".to_string()),
        },
        drives: vec![drive],
        benchmarks: BTreeMap::new(),
        findings: Vec::new(),
        kernel_anomalies: anomalies,
        fstab: Vec::new(),
    }
}

// ---------------------------------------------------------------------------
// Laws
// ---------------------------------------------------------------------------
/// An update that names no field leaves the configuration as it is; one that succeeds
/// stores a supported provider and a non-empty model in canonical form, and keeps each
/// field it does not name.
pub proof fn config_update_law(r: Result<AppConfig, String>, current: AppConfig, update: ConfigUpdate)
    requires
        is_update_of(r, current, update),
    ensures
        update.provider is None && update.ollama_model is None && update.ollama_url is None ==> (
        r matches Ok(c) && c.provider@ == current.provider@ && c.ollama_model@
            == current.ollama_model@ && c.ollama_url@ == current.ollama_url@),
        r matches Ok(c) ==> {
            &&& update.provider is Some ==> c.provider@ == "gemini"@ || c.provider@ == "ollama"@
            &&& update.provider is None ==> c.provider@ == current.provider@
            &&& update.ollama_model is Some ==> c.ollama_model@.len() > 0 && model_result(
                c.ollama_model@,
            ) == Ok::<Seq<char>, Seq<char>>(c.ollama_model@)
            &&& update.ollama_model is None ==> c.ollama_model@ == current.ollama_model@
            &&& update.ollama_url is None ==> c.ollama_url@ == current.ollama_url@
        },
{
    if let Some(m) = update.ollama_model {
        crate::config::normalized_model_is_canonical(m@);
    }
}

proof fn lemma_pcie_findings_shape(anomalies: Seq<Seq<char>>)
    ensures
        forall|i: int|
            0 <= i < pcie_findings(anomalies).len() ==> {
                let f = #[trigger] pcie_findings(anomalies)[i];
                &&& f.0 == FindingCategory::Pcie
                &&& f.1 == FindingSeverity::Warning
                &&& anomalies.contains(f.3)
                &&& is_pcie_error(f.3)
            },
        pcie_findings(anomalies).len() <= anomalies.len(),
    decreases anomalies.len(),
{
    if anomalies.len() > 0 {
        let rest = anomalies.drop_last();
        lemma_pcie_findings_shape(rest);
        let a = pcie_findings(rest);
        let b: Seq<FindingView> = if is_pcie_error(anomalies.last()) {
            seq![pcie_finding(anomalies.last())]
        } else {
            seq![]
        };
        assert(pcie_findings(anomalies) == a + b);
        assert forall|i: int| 0 <= i < (a + b).len() implies {
            let f = #[trigger] (a + b)[i];
            &&& f.0 == FindingCategory::Pcie
            &&& f.1 == FindingSeverity::Warning
            &&& anomalies.contains(f.3)
            &&& is_pcie_error(f.3)
        } by {
            if i < a.len() {
                assert((a + b)[i] == a[i]);
                let x = a[i].3;
                assert(rest.contains(x));
                let k = choose|k: int| 0 <= k < rest.len() && rest[k] == x;
                assert(anomalies[k] == x);
            } else {
                assert((a + b)[i] == b[i - a.len()]);
                assert(anomalies[anomalies.len() - 1] == anomalies.last());
            }
        }
    }
}

/// Without a SMART request, a scan's findings are PCIe warnings only, one for each kernel
/// anomaly about PCIe error containment and quoting it.
pub proof fn findings_without_smart_law(drives: Seq<DriveInfo>, anomalies: Seq<Seq<char>>)
    ensures
        scan_findings(drives, false, anomalies).len() <= anomalies.len(),
        forall|i: int|
            0 <= i < scan_findings(drives, false, anomalies).len() ==> {
                let f = #[trigger] scan_findings(drives, false, anomalies)[i];
                &&& f.0 == FindingCategory::Pcie
                &&& f.1 == FindingSeverity::Warning
                &&& anomalies.contains(f.3)
                &&& is_pcie_error(f.3)
            },
{
    lemma_pcie_findings_shape(anomalies);
    assert(scan_findings(drives, false, anomalies) =~= pcie_findings(anomalies));
}

/// A drive that SMART does not apply to gets one informational finding, never a
/// privilege notice or a warning; advisory findings are SMART findings below Critical.
pub proof fn skipped_and_advisory_findings_law(d: DriveInfo, name: Seq<char>, r: SmartReport)
    ensures
        (d.smart matches Some(s) && !s.available && s.status == SmartProbeStatus::NotApplicable)
            ==> drive_findings(d).len() == 1 && drive_findings(d)[0].0 == FindingCategory::Smart
            && drive_findings(d)[0].1 == FindingSeverity::Info,
        forall|i: int|
            0 <= i < advisory_findings(name, r).len() ==> {
                let f = #[trigger] advisory_findings(name, r)[i];
                &&& f.0 == FindingCategory::Smart
                &&& f.1 != FindingSeverity::Critical
                &&& f.7 == Some(name)
            },
{
    let a = advisory_part(
        name,
        "High SMART temperature"@,
        "temperature_celsius"@,
        r.temperature_celsius,
        HIGH_TEMPERATURE_CELSIUS,
        FindingSeverity::Warning,
    );
    let b = advisory_part(
        name,
        "Elevated NVMe endurance use"@,
        "percentage_used"@,
        r.percentage_used,
        HIGH_PERCENTAGE_USED,
        FindingSeverity::Warning,
    );
    let c = advisory_part(
        name,
        "Notable NVMe unsafe-shutdown count"@,
        "unsafe_shutdowns"@,
        r.unsafe_shutdowns,
        HIGH_UNSAFE_SHUTDOWNS,
        FindingSeverity::Notice,
    );
    assert forall|i: int| 0 <= i < (a + b + c).len() implies {
        let f = #[trigger] (a + b + c)[i];
        &&& f.0 == FindingCategory::Smart
        &&& f.1 != FindingSeverity::Critical
        &&& f.7 == Some(name)
    } by {
        if i < a.len() {
            assert((a + b + c)[i] == a[i]);
        } else if i < a.len() + b.len() {
            assert((a + b + c)[i] == b[i - a.len()]);
        } else {
            assert((a + b + c)[i] == c[i - a.len() - b.len()]);
        }
    }
}

/// The counter entry that a present, positive count gives.
spec fn counter_part(e: (Seq<char>, Option<i64>, FindingSeverity)) -> Seq<CounterView> {
    match e.1 {
        Some(v) => if v > 0 {
            seq![(e.0, v, e.2)]
        } else {
            seq![]
        },
        None => seq![],
    }
}

proof fn lemma_positive_counters_push(
    s: Seq<(Seq<char>, Option<i64>, FindingSeverity)>,
    e: (Seq<char>, Option<i64>, FindingSeverity),
)
    ensures
        positive_counters(s.push(e)) == positive_counters(s) + counter_part(e),
{
    assert(s.push(e).drop_last() =~= s);
}

/// Every SMART degradation counter of a report that is present and above zero is listed
/// with its count and severity: reallocated sectors and NVMe media errors as warnings,
/// pending and offline-uncorrectable sectors as critical, NVMe error-log entries as a
/// notice; and nothing else is listed.
pub proof fn counter_findings_law(r: SmartReport)
    ensures
        forall|v: i64|
            r.reallocated_sectors == Some(v) && v > 0 ==> #[trigger] positive_counters(
                counter_entries(r),
            ).contains(("reallocated sectors"@, v, FindingSeverity::Warning)),
        forall|v: i64|
            r.current_pending_sectors == Some(v) && v > 0 ==> #[trigger] positive_counters(
                counter_entries(r),
            ).contains(("current pending sectors"@, v, FindingSeverity::Critical)),
        forall|v: i64|
            r.offline_uncorrectable == Some(v) && v > 0 ==> #[trigger] positive_counters(
                counter_entries(r),
            ).contains(("offline uncorrectable sectors"@, v, FindingSeverity::Critical)),
        forall|v: i64|
            r.media_errors == Some(v) && v > 0 ==> #[trigger] positive_counters(
                counter_entries(r),
            ).contains(("NVMe media errors"@, v, FindingSeverity::Warning)),
        forall|v: i64|
            r.num_err_log_entries == Some(v) && v > 0 ==> #[trigger] positive_counters(
                counter_entries(r),
            ).contains(("NVMe error-log entries"@, v, FindingSeverity::Notice)),
        forall|i: int|
            0 <= i < positive_counters(counter_entries(r)).len() ==> {
                let c = #[trigger] positive_counters(counter_entries(r))[i];
                &&& c.1 > 0
                &&& {
                    ||| c.0 == "reallocated sectors"@ && r.reallocated_sectors == Some(c.1) && c.2
                        == FindingSeverity::Warning
                    ||| c.0 == "current pending sectors"@ && r.current_pending_sectors == Some(c.1)
                        && c.2 == FindingSeverity::Critical
                    ||| c.0 == "offline uncorrectable sectors"@ && r.offline_uncorrectable == Some(
                        c.1,
                    ) && c.2 == FindingSeverity::Critical
                    ||| c.0 == "NVMe media errors"@ && r.media_errors == Some(c.1) && c.2
                        == FindingSeverity::Warning
                    ||| c.0 == "NVMe error-log entries"@ && r.num_err_log_entries == Some(c.1)
                        && c.2 == FindingSeverity::Notice
                }
            },
{
    let e0 = ("reallocated sectors"@, r.reallocated_sectors, FindingSeverity::Warning);
    let e1 = ("current pending sectors"@, r.current_pending_sectors, FindingSeverity::Critical);
    let e2 = (
        "offline uncorrectable sectors"@,
        r.offline_uncorrectable,
        FindingSeverity::Critical,
    );
    let e3 = ("NVMe media errors"@, r.media_errors, FindingSeverity::Warning);
    let e4 = ("NVMe error-log entries"@, r.num_err_log_entries, FindingSeverity::Notice);
    let empty = Seq::<(Seq<char>, Option<i64>, FindingSeverity)>::empty();
    assert(positive_counters(empty) =~= Seq::<CounterView>::empty());
    lemma_positive_counters_push(empty, e0);
    lemma_positive_counters_push(empty.push(e0), e1);
    lemma_positive_counters_push(empty.push(e0).push(e1), e2);
    lemma_positive_counters_push(empty.push(e0).push(e1).push(e2), e3);
    lemma_positive_counters_push(empty.push(e0).push(e1).push(e2).push(e3), e4);
    assert(counter_entries(r) =~= empty.push(e0).push(e1).push(e2).push(e3).push(e4));
    let p0 = counter_part(e0);
    let p1 = counter_part(e1);
    let p2 = counter_part(e2);
    let p3 = counter_part(e3);
    let p4 = counter_part(e4);
    let all = positive_counters(counter_entries(r));
    assert(all =~= p0 + p1 + p2 + p3 + p4);
    let o1: int = p0.len() as int;
    let o2: int = o1 + p1.len();
    let o3: int = o2 + p2.len();
    let o4: int = o3 + p3.len();
    assert forall|v: i64| r.reallocated_sectors == Some(v) && v > 0 implies all.contains(("reallocated sectors"@, v, FindingSeverity::Warning)) by {
        assert(all[0] == p0[0]);
    }
    assert forall|v: i64| r.current_pending_sectors == Some(v) && v > 0 implies all.contains(("current pending sectors"@, v, FindingSeverity::Critical)) by {
        assert(all[o1] == p1[0]);
    }
    assert forall|v: i64| r.offline_uncorrectable == Some(v) && v > 0 implies all.contains(("offline uncorrectable sectors"@, v, FindingSeverity::Critical)) by {
        assert(all[o2] == p2[0]);
    }
    assert forall|v: i64| r.media_errors == Some(v) && v > 0 implies all.contains(("NVMe media errors"@, v, FindingSeverity::Warning)) by {
        assert(all[o3] == p3[0]);
    }
    assert forall|v: i64| r.num_err_log_entries == Some(v) && v > 0 implies all.contains(("NVMe error-log entries"@, v, FindingSeverity::Notice)) by {
        assert(all[o4] == p4[0]);
    }
    assert forall|i: int| 0 <= i < all.len() implies {
        let c = #[trigger] all[i];
        &&& c.1 > 0
        &&& {
            ||| c.0 == "reallocated sectors"@ && r.reallocated_sectors == Some(c.1) && c.2
                == FindingSeverity::Warning
            ||| c.0 == "current pending sectors"@ && r.current_pending_sectors == Some(c.1) && c.2
                == FindingSeverity::Critical
            ||| c.0 == "offline uncorrectable sectors"@ && r.offline_uncorrectable == Some(c.1)
                && c.2 == FindingSeverity::Critical
            ||| c.0 == "NVMe media errors"@ && r.media_errors == Some(c.1) && c.2
                == FindingSeverity::Warning
            ||| c.0 == "NVMe error-log entries"@ && r.num_err_log_entries == Some(c.1) && c.2
                == FindingSeverity::Notice
        }
    } by {
        if i < o1 {
            assert(all[i] == p0[i]);
        } else if i < o2 {
            assert(all[i] == p1[i - o1]);
        } else if i < o3 {
            assert(all[i] == p2[i - o2]);
        } else if i < o4 {
            assert(all[i] == p3[i - o3]);
        } else {
            assert(all[i] == p4[i - o4]);
        }
    }
}

} // verus!
