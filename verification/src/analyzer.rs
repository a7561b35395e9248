//! AI analysis routing: which provider serves a request, and the system prompt that
//! grounds the model in the payload's PCIe facts.
use crate::config::{provider_result, normalize_provider, AppConfig};
use crate::models::{DriveInfo, PcieDeviceInfo, TuxPayload};
use crate::pci::{dedup, distinct, lemma_dedup};
use crate::text::{
    chars_of, join, join_strings, parse_int, parse_u32, push_str, same_text, str_eq, string_texts,
    trim, trimmed_chars,
};
use vstd::prelude::*;

verus! {

broadcast use vstd::string::group_string_axioms;

/// The instructions given to every model before the payload.
pub const SYSTEM_PROMPT: &'static str = "You are an expert Linux diagnostics agent. Analyze the provided JSON representing a Linux machine's hardware layout. Identify specific bottlenecks (e.g., drives at >90% capacity, high-speed SSDs bottlenecked by physical USB 2.0 connections) and provide 3 concrete, actionable upgrade or mitigation suggestions. Format output strictly in Markdown. When PCIe or ASPM issues are discussed, ground your advice in the payload's pcie_aspm_policy and per-device pcie_path facts. Use both `aspm_capability` and `aspm` when present. Treat local payload facts as highest priority. Distinguish clearly between observed facts, reasonable inferences, and open diagnostic questions. Do not recommend disabling ASPM if the relevant PCIe link already reports `ASPM Disabled`; instead say that ASPM is already disabled on that link. If a link reports `ASPM not supported`, do not present ASPM toggling as confirmed remediation for that link, but you may still discuss capability mismatches or firmware behavior as diagnostic possibilities. If `aspm_probe_error` is present, treat that as an inspection limitation and explicitly say the per-link ASPM state could not be confirmed from the automated probe.";

pub const DISABLED_LINKS_INTRO: &'static str = "\n\nObserved PCIe links where ASPM is already disabled. Do not recommend turning ASPM off again on these links, but you may still discuss other PCIe or firmware causes if supported by the payload: ";

pub const UNSUPPORTED_LINKS_INTRO: &'static str = "\nObserved PCIe links where the local payload reports `ASPM not supported`: ";

pub const UNSUPPORTED_LINKS_OUTRO: &'static str = ". Do not present ASPM toggling as a confirmed fix there. You may still mention capability mismatches, firmware quirks, or further investigation as possibilities, but label them as inference rather than established cause.";

pub const PROBE_LIMITED_INTRO: &'static str = "\nInspection-only rule: `aspm_probe_error` means the automated probe lacked visibility. Probe errors are not root causes by themselves, but they do mean ASPM or link-management behavior remains unconfirmed and may require elevated inspection for: ";

pub const DOWNGRADED_LINKS_INTRO: &'static str = "\nReal PCIe bandwidth constraints are present on these downgraded links and may be treated as actual bottlenecks when relevant: ";

pub const MISSING_GEMINI_KEY: &'static str = "❌ Gemini API key is missing from the system keyring. Run `tuxtests --set-gemini-key \"YOUR_KEY_HERE\"` first.";

/// Where an analysis request goes.
#[derive(Debug, Clone, PartialEq, Eq)]
pub enum AnalysisTarget {
    Gemini,
    Ollama { model: String, url: String },
}

// ---------------------------------------------------------------------------
// Provider routing
// ---------------------------------------------------------------------------
pub open spec fn invalid_provider_text(provider: Seq<char>, err: Seq<char>) -> Seq<char> {
    "❌ Invalid provider configuration '"@ + provider + "': "@ + err
        + ". Use `tuxtests --set-llm-provider <gemini|ollama>` to repair it."@
}

/// The target `r` is what the configuration selects, given whether a Gemini key is stored.
pub open spec fn is_target_of(
    r: Result<AnalysisTarget, String>,
    config: AppConfig,
    gemini_key_available: bool,
) -> bool {
    match provider_result(config.provider@) {
        Err(e) => r matches Err(m) && m@ == invalid_provider_text(config.provider@, e),
        Ok(p) => if p == "gemini"@ {
            if gemini_key_available {
                r == Ok::<AnalysisTarget, String>(AnalysisTarget::Gemini)
            } else {
                r matches Err(m) && m@ == MISSING_GEMINI_KEY@
            }
        } else {
            r matches Ok(AnalysisTarget::Ollama { model, url }) && model == config.ollama_model
                && url == config.ollama_url
        },
    }
}

/// The provider that serves an analysis, or why none can.
pub fn resolve_analysis_target(config: &AppConfig, gemini_key_available: bool) -> (r: Result<
    AnalysisTarget,
    String,
>)
    ensures
        is_target_of(r, *config, gemini_key_available),
{
    let provider = match normalize_provider(config.provider.as_str()) {
        Ok(p) => p,
        Err(err) => {
            let mut m = "❌ Invalid provider configuration '".to_string();
            push_str(&mut m, config.provider.as_str());
            push_str(&mut m, "': ");
            push_str(&mut m, err.as_str());
            push_str(&mut m, ". Use `tuxtests --set-llm-provider <gemini|ollama>` to repair it.");
            return Err(m);
        },
    };
    let pv = chars_of(provider.as_str());
    if same_text(&pv, "gemini") {
        if gemini_key_available {
            Ok(AnalysisTarget::Gemini)
        } else {
            Err(MISSING_GEMINI_KEY.to_string())
        }
    } else {
        Ok(
            AnalysisTarget::Ollama {
                model: config.ollama_model.clone(),
                url: config.ollama_url.clone(),
            },
        )
    }
}

pub open spec fn provider_label(target: AnalysisTarget) -> Seq<char> {
    match target {
        AnalysisTarget::Gemini => "gemini"@,
        AnalysisTarget::Ollama { .. } => "ollama"@,
    }
}

/// The provider's name.
pub fn provider_name(target: &AnalysisTarget) -> (r: &'static str)
    ensures
        r@ == provider_label(*target),
{
    match target {
        AnalysisTarget::Gemini => "gemini",
        AnalysisTarget::Ollama { .. } => "ollama",
    }
}

pub open spec fn routing_failure_text(target: AnalysisTarget) -> Seq<char> {
    "❌ Failed to route inference through the '"@ + provider_label(target)
        + "' provider. Check provider-specific diagnostics above."@
}

/// The error for a provider that returned no analysis.
pub fn routing_failure_message(target: &AnalysisTarget) -> (r: String)
    ensures
        r@ == routing_failure_text(*target),
{
    let mut m = "❌ Failed to route inference through the '".to_string();
    push_str(&mut m, provider_name(target));
    push_str(&mut m, "' provider. Check provider-specific diagnostics above.");
    m
}

// ---------------------------------------------------------------------------
// Link facts
// ---------------------------------------------------------------------------
/// A link width as sysfs writes it, read as a number.
pub open spec fn width_value(o: Option<String>) -> Option<int> {
    match o {
        Some(s) => parse_int(trim(s@), false, 0, u32::MAX as int),
        None => None,
    }
}

/// The link runs on fewer lanes than it supports.
pub open spec fn width_downgraded(p: PcieDeviceInfo) -> bool {
    &&& width_value(p.current_link_width) is Some
    &&& width_value(p.max_link_width) is Some
    &&& width_value(p.current_link_width)->0 < width_value(p.max_link_width)->0
}

/// A link width read as a number (white space around it allowed).
pub fn parse_link_width(value: &Option<String>) -> (r: Option<u32>)
    ensures
        match r {
            Some(w) => width_value(*value) == Some(w as int),
            None => width_value(*value) is None,
        },
{
    match value {
        Some(s) => {
            let t = trimmed_chars(s.as_str());
            parse_u32(&t)
        },
        None => None,
    }
}

/// Whether a link runs below what it supports: slower than its maximum speed (which the
/// caller decides, since link speeds are decimal fractions) or on fewer lanes.
pub fn link_is_downgraded(path: &PcieDeviceInfo, speed_downgraded: bool) -> (r: bool)
    ensures
        r == (speed_downgraded || width_downgraded(*path)),
{
    let width_downgraded = match (
        parse_link_width(&path.current_link_width),
        parse_link_width(&path.max_link_width),
    ) {
        (Some(current), Some(max)) => current < max,
        _ => false,
    };
    speed_downgraded || width_downgraded
}

/// Which links a section of the system prompt lists.
#[derive(Debug, Clone, Copy, PartialEq, Eq)]
pub enum LinkFilter {
    /// ASPM is disabled, or not supported, on the link.
    AspmAlreadyDisabled,
    /// The link does not support ASPM.
    AspmNotSupported,
    /// The automated probe could not read the link's ASPM state.
    ProbeLimited,
    /// The link runs below its capability.
    Downgraded,
}

pub open spec fn text_is(o: Option<String>, lit: Seq<char>) -> bool {
    o matches Some(s) && s@ == lit
}

pub open spec fn selects(f: LinkFilter, p: PcieDeviceInfo, speed_downgraded: bool) -> bool {
    match f {
        LinkFilter::AspmAlreadyDisabled => text_is(p.aspm, "ASPM Disabled"@) || text_is(
            p.aspm_capability,
            "ASPM not supported"@,
        ),
        LinkFilter::AspmNotSupported => text_is(p.aspm_capability, "ASPM not supported"@),
        LinkFilter::ProbeLimited => p.aspm_probe_error is Some,
        LinkFilter::Downgraded => speed_downgraded || width_downgraded(p),
    }
}

/// The caller's speed verdict for link `k` of drive `d` (false where it gave none).
pub open spec fn speed_flag(flags: Seq<Vec<bool>>, d: int, k: int) -> bool {
    0 <= d < flags.len() && 0 <= k < flags[d]@.len() && flags[d]@[k]
}

/// The label of a link in the prompt.
pub open spec fn link_label(p: PcieDeviceInfo, drive: DriveInfo) -> Seq<char> {
    p.bdf@ + " on "@ + drive.name@
}

/// The labels of the selected links among the first `k` of drive `d`'s path.
pub open spec fn path_candidates(
    drive: DriveInfo,
    d: int,
    f: LinkFilter,
    flags: Seq<Vec<bool>>,
    k: int,
) -> Seq<Seq<char>>
    decreases k,
{
    if k <= 0 {
        seq![]
    } else {
        let p = drive.pcie_path@[k - 1];
        path_candidates(drive, d, f, flags, k - 1) + if selects(f, p, speed_flag(flags, d, k - 1)) {
            seq![link_label(p, drive)]
        } else {
            seq![]
        }
    }
}

/// The labels of the selected links of the first `n` drives, repeats included.
pub open spec fn link_candidates(
    drives: Seq<DriveInfo>,
    f: LinkFilter,
    flags: Seq<Vec<bool>>,
    n: int,
) -> Seq<Seq<char>>
    decreases n,
{
    if n <= 0 {
        seq![]
    } else {
        link_candidates(drives, f, flags, n - 1) + path_candidates(
            drives[n - 1],
            n - 1,
            f,
            flags,
            drives[n - 1].pcie_path@.len() as int,
        )
    }
}

/// The distinct labels of the links that `f` selects, in payload order.
pub open spec fn link_labels(payload: TuxPayload, f: LinkFilter, flags: Seq<Vec<bool>>) -> Seq<
    Seq<char>,
> {
    dedup(link_candidates(payload.drives@, f, flags, payload.drives@.len() as int))
}

fn selects_link(f: LinkFilter, p: &PcieDeviceInfo, speed_downgraded: bool) -> (r: bool)
    ensures
        r == selects(f, *p, speed_downgraded),
{
    match f {
        LinkFilter::AspmAlreadyDisabled => text_equals(&p.aspm, "ASPM Disabled") || text_equals(
            &p.aspm_capability,
            "ASPM not supported",
        ),
        LinkFilter::AspmNotSupported => text_equals(&p.aspm_capability, "ASPM not supported"),
        LinkFilter::ProbeLimited => p.aspm_probe_error.is_some(),
        LinkFilter::Downgraded => link_is_downgraded(p, speed_downgraded),
    }
}

fn text_equals(o: &Option<String>, lit: &str) -> (r: bool)
    ensures
        r == text_is(*o, lit@),
{
    match o {
        Some(s) => str_eq(s.as_str(), lit),
        None => false,
    }
}

fn flag_at(flags: &Vec<Vec<bool>>, d: usize, k: usize) -> (r: bool)
    ensures
        r == speed_flag(flags@, d as int, k as int),
{
    d < flags.len() && k < flags[d].len() && flags[d][k]
}

fn listed_label(list: &Vec<String>, label: &String) -> (r: bool)
    ensures
        r == string_texts(list@).contains(label@),
{
    let mut i: usize = 0;
    while i < list.len()
        invariant
            i <= list.len(),
            forall|k: int| 0 <= k < i ==> list@[k]@ != label@,
        decreases list.len() - i,
    {
        if str_eq(list[i].as_str(), label.as_str()) {
            assert(string_texts(list@)[i as int] == label@);
            return true;
        }
        i = i + 1;
    }
    proof {
        if string_texts(list@).contains(label@) {
            let k = choose|k: int|
                0 <= k < string_texts(list@).len() && string_texts(list@)[k] == label@;
            assert(list@[k]@ == label@);
        }
    }
    false
}

/// The distinct labels (`<address> on <drive>`) of the links that `filter` selects, in
/// payload order. `speed_downgraded[d][k]` tells whether link `k` of drive `d` runs below
/// its maximum speed.
pub fn collect_links(payload: &TuxPayload, filter: LinkFilter, speed_downgraded: &Vec<Vec<bool>>) -> (r:
    Vec<String>)
    ensures
        string_texts(r@) == link_labels(*payload, filter, speed_downgraded@),
{
    let mut labels: Vec<String> = Vec::new();
    let ghost drives = payload.drives@;
    let mut d: usize = 0;
    while d < payload.drives.len()
        invariant
            d <= payload.drives.len(),
            drives == payload.drives@,
            string_texts(labels@) == dedup(
                link_candidates(drives, filter, speed_downgraded@, d as int),
            ),
        decreases payload.drives.len() - d,
    {
        let drive = &payload.drives[d];
        let ghost prefix = link_candidates(drives, filter, speed_downgraded@, d as int);
        let mut k: usize = 0;
        assert(prefix + path_candidates(*drive, d as int, filter, speed_downgraded@, 0) =~= prefix);
        while k < drive.pcie_path.len()
            invariant
                k <= drive.pcie_path.len(),
                *drive == drives[d as int],
                string_texts(labels@) == dedup(
                    prefix + path_candidates(*drive, d as int, filter, speed_downgraded@, k as int),
                ),
            decreases drive.pcie_path.len() - k,
        {
            let path = &drive.pcie_path[k];
            let ghost before = prefix + path_candidates(
                *drive,
                d as int,
                filter,
                speed_downgraded@,
                k as int,
            );
            if selects_link(filter, path, flag_at(speed_downgraded, d, k)) {
                let mut label = path.bdf.clone();
                push_str(&mut label, " on ");
                push_str(&mut label, drive.name.as_str());
                assert(label@ =~= link_label(*path, *drive));
                assert(prefix + path_candidates(*drive, d as int, filter, speed_downgraded@, k + 1)
                    =~= before.push(label@));
                assert(before.push(label@).drop_last() =~= before);
                if !listed_label(&labels, &label) {
                    let ghost old_labels = string_texts(labels@);
                    labels.push(label);
                    assert(string_texts(labels@) =~= old_labels.push(labels@[labels@.len() - 1]@));
                }
            } else {
                assert(prefix + path_candidates(*drive, d as int, filter, speed_downgraded@, k + 1)
                    =~= before);
            }
            k = k + 1;
        }
        d = d + 1;
    }
    labels
}

// ---------------------------------------------------------------------------
// System prompt
// ---------------------------------------------------------------------------
/// A prompt section that lists `labels` between `intro` and `outro`, when there are any.
pub open spec fn section(labels: Seq<Seq<char>>, intro: Seq<char>, outro: Seq<char>) -> Seq<char> {
    if labels.len() > 0 {
        intro + join(labels, ", "@) + outro
    } else {
        seq![]
    }
}

/// The system prompt for a payload.
pub open spec fn system_prompt(payload: TuxPayload, flags: Seq<Vec<bool>>) -> Seq<char> {
    SYSTEM_PROMPT@ + section(
        link_labels(payload, LinkFilter::AspmAlreadyDisabled, flags),
        DISABLED_LINKS_INTRO@,
        "."@,
    ) + section(
        link_labels(payload, LinkFilter::AspmNotSupported, flags),
        UNSUPPORTED_LINKS_INTRO@,
        UNSUPPORTED_LINKS_OUTRO@,
    ) + section(
        link_labels(payload, LinkFilter::ProbeLimited, flags),
        PROBE_LIMITED_INTRO@,
        "."@,
    ) + section(
        link_labels(payload, LinkFilter::Downgraded, flags),
        DOWNGRADED_LINKS_INTRO@,
        "."@,
    )
}

fn push_section(out: &mut String, labels: &Vec<String>, intro: &str, outro: &str)
    ensures
        final(out)@ == old(out)@ + section(string_texts(labels@), intro@, outro@),
{
    if labels.len() > 0 {
        push_str(out, intro);
        let joined = join_strings(labels, ", ");
        push_str(out, joined.as_str());
        push_str(out, outro);
    } else {
        assert(old(out)@ + seq![] =~= old(out)@);
    }
}

/// The system prompt: the standing instructions, then the links on which ASPM is already
/// off, does not exist, or could not be read, and the links that run below their
/// capability. `speed_downgraded[d][k]` tells whether link `k` of drive `d` runs below
/// its maximum speed.
pub fn build_system_prompt(payload: &TuxPayload, speed_downgraded: &Vec<Vec<bool>>) -> (r: String)
    ensures
        r@ == system_prompt(*payload, speed_downgraded@),
{
    let mut prompt = SYSTEM_PROMPT.to_string();
    let disabled = collect_links(payload, LinkFilter::AspmAlreadyDisabled, speed_downgraded);
    push_section(&mut prompt, &disabled, DISABLED_LINKS_INTRO, ".");
    let unsupported = collect_links(payload, LinkFilter::AspmNotSupported, speed_downgraded);
    push_section(&mut prompt, &unsupported, UNSUPPORTED_LINKS_INTRO, UNSUPPORTED_LINKS_OUTRO);
    let probe_limited = collect_links(payload, LinkFilter::ProbeLimited, speed_downgraded);
    push_section(&mut prompt, &probe_limited, PROBE_LIMITED_INTRO, ".");
    let downgraded = collect_links(payload, LinkFilter::Downgraded, speed_downgraded);
    push_section(&mut prompt, &downgraded, DOWNGRADED_LINKS_INTRO, ".");
    prompt
}

// ---------------------------------------------------------------------------
// Laws
// ---------------------------------------------------------------------------
proof fn lemma_concat_contains(a: Seq<Seq<char>>, b: Seq<Seq<char>>, x: Seq<char>)
    ensures
        (a + b).contains(x) <==> a.contains(x) || b.contains(x),
{
    if (a + b).contains(x) {
        let k = choose|k: int| 0 <= k < (a + b).len() && (a + b)[k] == x;
        if k < a.len() {
            assert(a[k] == x);
        } else {
            assert(b[k - a.len()] == x);
        }
    }
    if a.contains(x) {
        let k = choose|k: int| 0 <= k < a.len() && a[k] == x;
        assert((a + b)[k] == x);
    }
    if b.contains(x) {
        let k = choose|k: int| 0 <= k < b.len() && b[k] == x;
        assert((a + b)[k + a.len()] == x);
    }
}

proof fn lemma_path_candidates_narrower(
    drive: DriveInfo,
    d: int,
    flags: Seq<Vec<bool>>,
    k: int,
    x: Seq<char>,
)
    requires
        path_candidates(drive, d, LinkFilter::AspmNotSupported, flags, k).contains(x),
    ensures
        path_candidates(drive, d, LinkFilter::AspmAlreadyDisabled, flags, k).contains(x),
    decreases k,
{
    if k > 0 {
        let p = drive.pcie_path@[k - 1];
        let f = speed_flag(flags, d, k - 1);
        let a = path_candidates(drive, d, LinkFilter::AspmNotSupported, flags, k - 1);
        let b: Seq<Seq<char>> = if selects(LinkFilter::AspmNotSupported, p, f) {
            seq![link_label(p, drive)]
        } else {
            seq![]
        };
        let a2 = path_candidates(drive, d, LinkFilter::AspmAlreadyDisabled, flags, k - 1);
        let b2: Seq<Seq<char>> = if selects(LinkFilter::AspmAlreadyDisabled, p, f) {
            seq![link_label(p, drive)]
        } else {
            seq![]
        };
        lemma_concat_contains(a, b, x);
        lemma_concat_contains(a2, b2, x);
        if a.contains(x) {
            lemma_path_candidates_narrower(drive, d, flags, k - 1, x);
        } else {
            assert(b.contains(x));
            assert(b2[0] == x);
        }
    }
}

proof fn lemma_link_candidates_narrower(
    drives: Seq<DriveInfo>,
    flags: Seq<Vec<bool>>,
    n: int,
    x: Seq<char>,
)
    requires
        link_candidates(drives, LinkFilter::AspmNotSupported, flags, n).contains(x),
    ensures
        link_candidates(drives, LinkFilter::AspmAlreadyDisabled, flags, n).contains(x),
    decreases n,
{
    if n > 0 {
        let len = drives[n - 1].pcie_path@.len() as int;
        let a = link_candidates(drives, LinkFilter::AspmNotSupported, flags, n - 1);
        let b = path_candidates(drives[n - 1], n - 1, LinkFilter::AspmNotSupported, flags, len);
        let a2 = link_candidates(drives, LinkFilter::AspmAlreadyDisabled, flags, n - 1);
        let b2 = path_candidates(drives[n - 1], n - 1, LinkFilter::AspmAlreadyDisabled, flags, len);
        lemma_concat_contains(a, b, x);
        lemma_concat_contains(a2, b2, x);
        if a.contains(x) {
            lemma_link_candidates_narrower(drives, flags, n - 1, x);
        } else {
            lemma_path_candidates_narrower(drives[n - 1], n - 1, flags, len, x);
        }
    }
}

/// Each section of the system prompt names every link once, and a link without ASPM
/// support is always also among the links on which ASPM counts as already disabled.
pub proof fn link_sections_law(payload: TuxPayload, flags: Seq<Vec<bool>>, f: LinkFilter)
    ensures
        distinct(link_labels(payload, f, flags)),
        forall|x: Seq<char>|
            link_labels(payload, LinkFilter::AspmNotSupported, flags).contains(x) ==> link_labels(
                payload,
                LinkFilter::AspmAlreadyDisabled,
                flags,
            ).contains(x),
{
    let drives = payload.drives@;
    let n = drives.len() as int;
    lemma_dedup(link_candidates(drives, f, flags, n));
    lemma_dedup(link_candidates(drives, LinkFilter::AspmNotSupported, flags, n));
    lemma_dedup(link_candidates(drives, LinkFilter::AspmAlreadyDisabled, flags, n));
    assert forall|x: Seq<char>|
        link_labels(payload, LinkFilter::AspmNotSupported, flags).contains(x) implies link_labels(
        payload,
        LinkFilter::AspmAlreadyDisabled,
        flags,
    ).contains(x) by {
        lemma_link_candidates_narrower(drives, flags, n, x);
    }
}

proof fn lemma_no_links(drives: Seq<DriveInfo>, f: LinkFilter, flags: Seq<Vec<bool>>, n: int)
    requires
        n <= drives.len(),
        forall|d: int| 0 <= d < drives.len() ==> (#[trigger] drives[d]).pcie_path@.len() == 0,
    ensures
        link_candidates(drives, f, flags, n) == Seq::<Seq<char>>::empty(),
    decreases n,
{
    if n > 0 {
        lemma_no_links(drives, f, flags, n - 1);
        assert(drives[n - 1].pcie_path@.len() == 0);
        assert(link_candidates(drives, f, flags, n) =~= Seq::<Seq<char>>::empty());
    }
}

/// The system prompt always opens with the standing instructions, and a payload without
/// PCIe links gets nothing more.
pub proof fn system_prompt_law(payload: TuxPayload, flags: Seq<Vec<bool>>)
    ensures
        system_prompt(payload, flags).subrange(0, SYSTEM_PROMPT@.len() as int) == SYSTEM_PROMPT@,
        (forall|d: int|
            0 <= d < payload.drives@.len() ==> (#[trigger] payload.drives@[d]).pcie_path@.len()
                == 0) ==> system_prompt(payload, flags) == SYSTEM_PROMPT@,
{
    let s = system_prompt(payload, flags);
    assert(s.subrange(0, SYSTEM_PROMPT@.len() as int) =~= SYSTEM_PROMPT@);
    if forall|d: int|
        0 <= d < payload.drives@.len() ==> (#[trigger] payload.drives@[d]).pcie_path@.len() == 0 {
        let drives = payload.drives@;
        let n = drives.len() as int;
        lemma_no_links(drives, LinkFilter::AspmAlreadyDisabled, flags, n);
        lemma_no_links(drives, LinkFilter::AspmNotSupported, flags, n);
        lemma_no_links(drives, LinkFilter::ProbeLimited, flags, n);
        lemma_no_links(drives, LinkFilter::Downgraded, flags, n);
        assert(dedup(Seq::<Seq<char>>::empty()) =~= Seq::<Seq<char>>::empty());
        assert(s =~= SYSTEM_PROMPT@);
    }
}

proof fn lemma_path_candidates_exact(
    drive: DriveInfo,
    d: int,
    f: LinkFilter,
    flags: Seq<Vec<bool>>,
    k: int,
    x: Seq<char>,
)
    requires
        0 <= k <= drive.pcie_path@.len(),
    ensures
        path_candidates(drive, d, f, flags, k).contains(x) <==> exists|j: int|
            0 <= j < k && selects(f, #[trigger] drive.pcie_path@[j], speed_flag(flags, d, j)) && x
                == link_label(drive.pcie_path@[j], drive),
    decreases k,
{
    if k > 0 {
        lemma_path_candidates_exact(drive, d, f, flags, k - 1, x);
        let p = drive.pcie_path@[k - 1];
        let a = path_candidates(drive, d, f, flags, k - 1);
        let b: Seq<Seq<char>> = if selects(f, p, speed_flag(flags, d, k - 1)) {
            seq![link_label(p, drive)]
        } else {
            seq![]
        };
        lemma_concat_contains(a, b, x);
        if b.contains(x) {
            assert(b[0] == x);
        }
        if exists|j: int|
            0 <= j < k && selects(f, #[trigger] drive.pcie_path@[j], speed_flag(flags, d, j)) && x
                == link_label(drive.pcie_path@[j], drive) {
            let j = choose|j: int|
                0 <= j < k && selects(f, #[trigger] drive.pcie_path@[j], speed_flag(flags, d, j))
                    && x == link_label(drive.pcie_path@[j], drive);
            if j == k - 1 {
                assert(b[0] == x);
            }
        }
    }
}

proof fn lemma_link_candidates_exact(
    drives: Seq<DriveInfo>,
    f: LinkFilter,
    flags: Seq<Vec<bool>>,
    n: int,
    x: Seq<char>,
)
    requires
        0 <= n <= drives.len(),
    ensures
        link_candidates(drives, f, flags, n).contains(x) <==> exists|d: int, k: int|
            0 <= d < n && 0 <= k < drives[d].pcie_path@.len() && selects(
                f,
                #[trigger] drives[d].pcie_path@[k],
                speed_flag(flags, d, k),
            ) && x == link_label(drives[d].pcie_path@[k], drives[d]),
    decreases n,
{
    if n > 0 {
        lemma_link_candidates_exact(drives, f, flags, n - 1, x);
        let len = drives[n - 1].pcie_path@.len() as int;
        let a = link_candidates(drives, f, flags, n - 1);
        let b = path_candidates(drives[n - 1], n - 1, f, flags, len);
        lemma_concat_contains(a, b, x);
        lemma_path_candidates_exact(drives[n - 1], n - 1, f, flags, len, x);
        if b.contains(x) {
            let k = choose|j: int|
                0 <= j < len && selects(
                    f,
                    #[trigger] drives[n - 1].pcie_path@[j],
                    speed_flag(flags, n - 1, j),
                ) && x == link_label(drives[n - 1].pcie_path@[j], drives[n - 1]);
            assert(0 <= n - 1 < n && 0 <= k < drives[n - 1].pcie_path@.len() && selects(
                f,
                drives[n - 1].pcie_path@[k],
                speed_flag(flags, n - 1, k),
            ) && x == link_label(drives[n - 1].pcie_path@[k], drives[n - 1]));
        }
        if exists|d: int, k: int|
            0 <= d < n && 0 <= k < drives[d].pcie_path@.len() && selects(
                f,
                #[trigger] drives[d].pcie_path@[k],
                speed_flag(flags, d, k),
            ) && x == link_label(drives[d].pcie_path@[k], drives[d]) {
            let (d, k) = choose|d: int, k: int|
                0 <= d < n && 0 <= k < drives[d].pcie_path@.len() && selects(
                    f,
                    #[trigger] drives[d].pcie_path@[k],
                    speed_flag(flags, d, k),
                ) && x == link_label(drives[d].pcie_path@[k], drives[d]);
            if d == n - 1 {
                assert(0 <= k < len && selects(
                    f,
                    drives[n - 1].pcie_path@[k],
                    speed_flag(flags, n - 1, k),
                ) && x == link_label(drives[n - 1].pcie_path@[k], drives[n - 1]));
            } else {
                assert(0 <= d < n - 1);
            }
        }
    }
}

/// The downgraded-links section lists exactly the links that run below their capability:
/// a link is listed (as `<address> on <drive>`) when the caller's speed verdict for it is
/// set or it runs on fewer lanes than it supports, and every listed label is such a link.
pub proof fn downgraded_links_law(payload: TuxPayload, flags: Seq<Vec<bool>>)
    ensures
        forall|d: int, k: int|
            0 <= d < payload.drives@.len() && 0 <= k < payload.drives@[d].pcie_path@.len() && (
            speed_flag(flags, d, k) || width_downgraded(
                #[trigger] payload.drives@[d].pcie_path@[k],
            )) ==> link_labels(payload, LinkFilter::Downgraded, flags).contains(
                payload.drives@[d].pcie_path@[k].bdf@ + " on "@ + payload.drives@[d].name@,
            ),
        forall|x: Seq<char>|
            #[trigger] link_labels(payload, LinkFilter::Downgraded, flags).contains(x) ==> exists|
                d: int,
                k: int,
            |
                0 <= d < payload.drives@.len() && 0 <= k < payload.drives@[d].pcie_path@.len() && (
                speed_flag(flags, d, k) || width_downgraded(
                    #[trigger] payload.drives@[d].pcie_path@[k],
                )) && x == payload.drives@[d].pcie_path@[k].bdf@ + " on "@
                    + payload.drives@[d].name@,
{
    let drives = payload.drives@;
    let n = drives.len() as int;
    let f = LinkFilter::Downgraded;
    let cands = link_candidates(drives, f, flags, n);
    lemma_dedup(cands);
    assert forall|d: int, k: int|
        0 <= d < drives.len() && 0 <= k < drives[d].pcie_path@.len() && (speed_flag(flags, d, k)
            || width_downgraded(#[trigger] drives[d].pcie_path@[k])) implies link_labels(
        payload,
        f,
        flags,
    ).contains(drives[d].pcie_path@[k].bdf@ + " on "@ + drives[d].name@) by {
        let x = drives[d].pcie_path@[k].bdf@ + " on "@ + drives[d].name@;
        lemma_link_candidates_exact(drives, f, flags, n, x);
        assert(selects(f, drives[d].pcie_path@[k], speed_flag(flags, d, k)));
        assert(x == link_label(drives[d].pcie_path@[k], drives[d]));
    }
    assert forall|x: Seq<char>| #[trigger] link_labels(payload, f, flags).contains(x) implies exists|
        d: int,
        k: int,
    |
        0 <= d < drives.len() && 0 <= k < drives[d].pcie_path@.len() && (speed_flag(flags, d, k)
            || width_downgraded(#[trigger] drives[d].pcie_path@[k])) && x
            == drives[d].pcie_path@[k].bdf@ + " on "@ + drives[d].name@ by {
        lemma_link_candidates_exact(drives, f, flags, n, x);
        let (d, k) = choose|d: int, k: int|
            0 <= d < n && 0 <= k < drives[d].pcie_path@.len() && selects(
                f,
                #[trigger] drives[d].pcie_path@[k],
                speed_flag(flags, d, k),
            ) && x == link_label(drives[d].pcie_path@[k], drives[d]);
        assert(0 <= d < drives.len() && 0 <= k < drives[d].pcie_path@.len() && (speed_flag(
            flags,
            d,
            k,
        ) || width_downgraded(drives[d].pcie_path@[k])) && x == drives[d].pcie_path@[k].bdf@
            + " on "@ + drives[d].name@);
    }
}

} // verus!
