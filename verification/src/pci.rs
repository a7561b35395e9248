//! PCIe links on a drive's path: PCI addresses, ASPM facts from `lspci -vv`, and the
//! enrichment of links that kernel anomalies point at.
use crate::models::{PcieDeviceInfo, TopologyNode};
use crate::smart::opt_text;
use crate::text::{
    chars_of, concat, find, find_seq, hex_digit, is_hex_digit, lines, lines_of,
    occurs_at, push_str, same_text, skip_class_from, split_char, split_on, starts_with, str_eq,
    string_of, string_texts, sub_chars, texts, trim, trim_bounds, trim_class, trimmed_chars,
    words, words_of, CharClass,
};
use vstd::prelude::*;

verus! {

broadcast use vstd::string::group_string_axioms;

// ---------------------------------------------------------------------------
// PCI addresses
// ---------------------------------------------------------------------------
/// A PCI address in `domain:bus:device.function` form, e.g. `0000:03:00.0`.
pub open spec fn is_bdf(s: Seq<char>) -> bool {
    &&& s.len() == 12
    &&& s[4] == ':' && s[7] == ':' && s[10] == '.'
    &&& forall|i: int| 0 <= i < 12 && i != 4 && i != 7 && i != 10 ==> is_hex_digit(#[trigger] s[i])
}

/// Whether `value` is a PCI address in `domain:bus:device.function` form.
pub fn is_pci_bdf(value: &str) -> (r: bool)
    ensures
        r == is_bdf(value@),
{
    let v = chars_of(value);
    is_bdf_chars(&v)
}

fn is_bdf_chars(v: &Vec<char>) -> (r: bool)
    ensures
        r == is_bdf(v@),
{
    if v.len() != 12 || v[4] != ':' || v[7] != ':' || v[10] != '.' {
        return false;
    }
    let mut i: usize = 0;
    while i < 12
        invariant
            v.len() == 12,
            i <= 12,
            forall|k: int| 0 <= k < i && k != 4 && k != 7 && k != 10 ==> is_hex_digit(
                #[trigger] v@[k],
            ),
        decreases 12 - i,
    {
        if i != 4 && i != 7 && i != 10 && !hex_digit(v[i]) {
            return false;
        }
        i = i + 1;
    }
    true
}

/// A whitespace-separated token of a kernel log line without surrounding punctuation.
pub open spec fn clean_token(w: Seq<char>) -> Seq<char> {
    trim_class(w, CharClass::AddressPunctuation)
}

/// The PCI addresses among the tokens `ws`, in order.
pub open spec fn token_addresses(ws: Seq<Seq<char>>) -> Seq<Seq<char>>
    decreases ws.len(),
{
    if ws.len() == 0 {
        seq![]
    } else {
        token_addresses(ws.drop_last()) + if is_bdf(clean_token(ws.last())) {
            seq![clean_token(ws.last())]
        } else {
            seq![]
        }
    }
}

/// The PCI addresses that the anomaly lines mention, in order, repeats included.
pub open spec fn anomaly_addresses(anomalies: Seq<Seq<char>>) -> Seq<Seq<char>>
    decreases anomalies.len(),
{
    if anomalies.len() == 0 {
        seq![]
    } else {
        anomaly_addresses(anomalies.drop_last()) + token_addresses(words(anomalies.last()))
    }
}

/// `s` with every repeat of an earlier element left out.
pub open spec fn dedup(s: Seq<Seq<char>>) -> Seq<Seq<char>>
    decreases s.len(),
{
    if s.len() == 0 {
        seq![]
    } else {
        let d = dedup(s.drop_last());
        if d.contains(s.last()) {
            d
        } else {
            d.push(s.last())
        }
    }
}

/// Whether `list` already holds `text`.
fn listed(list: &Vec<String>, text: &Vec<char>) -> (r: bool)
    ensures
        r == string_texts(list@).contains(text@),
{
    let mut i: usize = 0;
    while i < list.len()
        invariant
            i <= list.len(),
            forall|k: int| 0 <= k < i ==> list@[k]@ != text@,
        decreases list.len() - i,
    {
        if same_text(text, list[i].as_str()) {
            assert(string_texts(list@)[i as int] == text@);
            return true;
        }
        i = i + 1;
    }
    proof {
        if string_texts(list@).contains(text@) {
            let k = choose|k: int|
                0 <= k < string_texts(list@).len() && string_texts(list@)[k] == text@;
            assert(list@[k]@ == text@);
        }
    }
    false
}

/// The distinct PCI addresses that the kernel anomalies mention, in order of first mention.
pub fn extract_bdfs_from_anomalies(kernel_anomalies: &Vec<String>) -> (r: Vec<String>)
    ensures
        string_texts(r@) == dedup(anomaly_addresses(string_texts(kernel_anomalies@))),
{
    let ghost all = string_texts(kernel_anomalies@);
    let mut bdfs: Vec<String> = Vec::new();
    let mut i: usize = 0;
    while i < kernel_anomalies.len()
        invariant
            i <= kernel_anomalies.len(),
            all == string_texts(kernel_anomalies@),
            string_texts(bdfs@) == dedup(anomaly_addresses(all.take(i as int))),
        decreases kernel_anomalies.len() - i,
    {
        let line = chars_of(kernel_anomalies[i].as_str());
        let tokens = words_of(&line);
        let ghost ws = texts(tokens@);
        let ghost prefix = anomaly_addresses(all.take(i as int));
        let mut j: usize = 0;
        assert(prefix + token_addresses(ws.take(0)) =~= prefix);
        while j < tokens.len()
            invariant
                j <= tokens.len(),
                ws == texts(tokens@),
                string_texts(bdfs@) == dedup(prefix + token_addresses(ws.take(j as int))),
            decreases tokens.len() - j,
        {
            let tok = &tokens[j];
            let (a, b) = trim_bounds(tok, CharClass::AddressPunctuation);
            let cleaned = sub_chars(tok, a, b);
            let ghost before = prefix + token_addresses(ws.take(j as int));
            proof {
                assert(ws.take(j + 1).drop_last() =~= ws.take(j as int));
                assert(ws.take(j + 1).last() == tok@);
            }
            if is_bdf_chars(&cleaned) {
                assert(prefix + token_addresses(ws.take(j + 1)) =~= before.push(cleaned@));
                assert(before.push(cleaned@).drop_last() =~= before);
                if !listed(&bdfs, &cleaned) {
                    let ghost d = string_texts(bdfs@);
                    bdfs.push(string_of(&cleaned));
                    assert(string_texts(bdfs@) =~= d.push(cleaned@));
                }
            } else {
                assert(prefix + token_addresses(ws.take(j + 1)) =~= before);
            }
            j = j + 1;
        }
        proof {
            assert(ws.take(tokens.len() as int) =~= ws);
            assert(all.take(i + 1).drop_last() =~= all.take(i as int));
            assert(all.take(i + 1).last() == line@);
        }
        i = i + 1;
    }
    assert(all.take(kernel_anomalies.len() as int) =~= all);
    bdfs
}

// ---------------------------------------------------------------------------
// lspci link details
// ---------------------------------------------------------------------------
/// The ASPM facts that one `lspci -vv` run gave.
#[derive(Debug, Clone, PartialEq, Eq)]
pub struct LspciLinkDetails {
    pub aspm_capability: Option<String>,
    pub aspm: Option<String>,
    pub source: String,
}

/// The result of probing one PCIe device with lspci.
#[derive(Debug, Clone, PartialEq, Eq)]
pub enum ProbeOutcome {
    Success(LspciLinkDetails),
    Failed(String),
}

/// The first `;`-separated segment that starts (after white space) with `ASPM`.
pub open spec fn first_aspm_segment(segments: Seq<Seq<char>>) -> Option<Seq<char>>
    decreases segments.len(),
{
    if segments.len() == 0 {
        None
    } else if occurs_at(
        segments[0].subrange(
            skip_class_from(segments[0], CharClass::Whitespace, 0),
            segments[0].len() as int,
        ),
        "ASPM"@,
        0,
    ) {
        Some(segments[0])
    } else {
        first_aspm_segment(segments.drop_first())
    }
}

/// The ASPM state on the first `LnkCtl:` line: its `ASPM` segment, trimmed.
pub open spec fn aspm_of_lines(ls: Seq<Seq<char>>) -> Option<Seq<char>>
    decreases ls.len(),
{
    if ls.len() == 0 {
        None
    } else {
        let t = trim(ls[0]);
        if occurs_at(t, "LnkCtl:"@, 0) {
            match first_aspm_segment(split_on(t.skip(7), ';')) {
                Some(seg) => Some(trim(seg)),
                None => None,
            }
        } else {
            aspm_of_lines(ls.drop_first())
        }
    }
}

/// The ASPM support on the first `LnkCap:` line: from `ASPM ` up to the next comma,
/// trimmed.
pub open spec fn aspm_capability_of_lines(ls: Seq<Seq<char>>) -> Option<Seq<char>>
    decreases ls.len(),
{
    if ls.len() == 0 {
        None
    } else {
        let t = trim(ls[0]);
        if occurs_at(t, "LnkCap:"@, 0) {
            let rest = t.skip(7);
            match find(rest, "ASPM "@) {
                Some(start) => {
                    let seg = rest.skip(start);
                    let end = match find(seg, ","@) {
                        Some(e) => e,
                        None => seg.len() as int,
                    };
                    Some(trim(seg.take(end)))
                },
                None => None,
            }
        } else {
            aspm_capability_of_lines(ls.drop_first())
        }
    }
}

fn strip_leading_ws(v: &Vec<char>) -> (r: Vec<char>)
    ensures
        r@ == v@.subrange(skip_class_from(v@, CharClass::Whitespace, 0), v@.len() as int),
{
    let mut i: usize = 0;
    while i < v.len() && crate::text::is_whitespace(v[i])
        invariant
            i <= v.len(),
            skip_class_from(v@, CharClass::Whitespace, 0) == skip_class_from(
                v@,
                CharClass::Whitespace,
                i as int,
            ),
        decreases v.len() - i,
    {
        i = i + 1;
    }
    sub_chars(v, i, v.len())
}

/// The ASPM state that `lspci -vv` output reports on its `LnkCtl:` line.
pub fn parse_aspm_from_lspci(stdout: &str) -> (r: Option<String>)
    ensures
        opt_text(r) == aspm_of_lines(lines(stdout@)),
{
    let text = chars_of(stdout);
    let ls = lines_of(&text);
    let ghost all = texts(ls@);
    let mut i: usize = 0;
    assert(all.skip(0) =~= all);
    while i < ls.len()
        invariant
            i <= ls.len(),
            all == texts(ls@),
            all == lines(stdout@),
            aspm_of_lines(all) == aspm_of_lines(all.skip(i as int)),
        decreases ls.len() - i,
    {
        assert(all.skip(i as int)[0] == ls@[i as int]@);
        assert(all.skip(i as int).drop_first() =~= all.skip(i + 1));
        let line = &ls[i];
        let (a, b) = trim_bounds(line, CharClass::Whitespace);
        let t = sub_chars(line, a, b);
        if starts_with(&t, "LnkCtl:") {
            proof {
                reveal_strlit("LnkCtl:");
            }
            let rest = sub_chars(&t, 7, t.len());
            assert(rest@ =~= t@.skip(7));
            let segments = split_char(&rest, ';');
            let ghost segs = texts(segments@);
            let mut k: usize = 0;
            assert(segs.skip(0) =~= segs);
            assert(aspm_of_lines(lines(stdout@)) == match first_aspm_segment(segs) {
                Some(seg) => Some(trim(seg)),
                None => None,
            });
            while k < segments.len()
                invariant
                    k <= segments.len(),
                    segs == texts(segments@),
                    aspm_of_lines(lines(stdout@)) == match first_aspm_segment(segs) {
                        Some(seg) => Some(trim(seg)),
                        None => None,
                    },
                    first_aspm_segment(segs) == first_aspm_segment(segs.skip(k as int)),
                decreases segments.len() - k,
            {
                assert(segs.skip(k as int)[0] == segments@[k as int]@);
                assert(segs.skip(k as int).drop_first() =~= segs.skip(k + 1));
                let seg = &segments[k];
                let stripped = strip_leading_ws(seg);
                if starts_with(&stripped, "ASPM") {
                    let (c, d) = trim_bounds(seg, CharClass::Whitespace);
                    return Some(crate::text::string_of_range(seg, c, d));
                }
                k = k + 1;
            }
            return None;
        }
        i = i + 1;
    }
    None
}

/// The ASPM support that `lspci -vv` output reports on its `LnkCap:` line.
pub fn parse_aspm_capability_from_lspci(stdout: &str) -> (r: Option<String>)
    ensures
        opt_text(r) == aspm_capability_of_lines(lines(stdout@)),
{
    let text = chars_of(stdout);
    let ls = lines_of(&text);
    let ghost all = texts(ls@);
    let mut i: usize = 0;
    assert(all.skip(0) =~= all);
    let marker = chars_of("ASPM ");
    let comma = chars_of(",");
    while i < ls.len()
        invariant
            i <= ls.len(),
            all == texts(ls@),
            all == lines(stdout@),
            marker@ == "ASPM "@,
            comma@ == ","@,
            aspm_capability_of_lines(all) == aspm_capability_of_lines(all.skip(i as int)),
        decreases ls.len() - i,
    {
        assert(all.skip(i as int)[0] == ls@[i as int]@);
        assert(all.skip(i as int).drop_first() =~= all.skip(i + 1));
        let line = &ls[i];
        let (a, b) = trim_bounds(line, CharClass::Whitespace);
        let t = sub_chars(line, a, b);
        if starts_with(&t, "LnkCap:") {
            proof {
                reveal_strlit("LnkCap:");
            }
            let rest = sub_chars(&t, 7, t.len());
            assert(rest@ =~= t@.skip(7));
            match find_seq(&rest, &marker) {
                Some(start) => {
                    proof {
                        crate::text::lemma_find_from_facts(rest@, marker@, 0);
                    }
                    let seg = sub_chars(&rest, start, rest.len());
                    assert(seg@ =~= rest@.skip(start as int));
                    let end = match find_seq(&seg, &comma) {
                        Some(e) => {
                            proof {
                                crate::text::lemma_find_from_facts(seg@, comma@, 0);
                            }
                            e
                        },
                        None => seg.len(),
                    };
                    let head = sub_chars(&seg, 0, end);
                    assert(head@ =~= seg@.take(end as int));
                    let (c, d) = trim_bounds(&head, CharClass::Whitespace);
                    return Some(crate::text::string_of_range(&head, c, d));
                },
                None => {
                    return None;
                },
            }
        }
        i = i + 1;
    }
    None
}

/// The link details of one lspci run, when it reported any ASPM fact.
pub fn parse_link_details(stdout: &str, source: &str) -> (r: Option<LspciLinkDetails>)
    ensures
        ({
            let aspm = aspm_of_lines(lines(stdout@));
            let cap = aspm_capability_of_lines(lines(stdout@));
            match r {
                None => aspm is None && cap is None,
                Some(d) => (aspm is Some || cap is Some) && opt_text(d.aspm) == aspm && opt_text(
                    d.aspm_capability,
                ) == cap && d.source@ == source@,
            }
        }),
{
    let aspm = parse_aspm_from_lspci(stdout);
    let aspm_capability = parse_aspm_capability_from_lspci(stdout);
    if aspm.is_none() && aspm_capability.is_none() {
        None
    } else {
        Some(LspciLinkDetails { aspm_capability, aspm, source: source.to_string() })
    }
}


// ---------------------------------------------------------------------------
// Probing a device
// ---------------------------------------------------------------------------
/// The program and arguments that probe one device: `sudo -n lspci -vv -s <bdf>` when
/// elevated, else `lspci -vv -s <bdf>`.
pub fn lspci_invocation(bdf: &str, privileged: bool) -> (r: (String, Vec<String>))
    ensures
        privileged ==> r.0@ == "sudo"@ && string_texts(r.1@) == seq![
            "-n"@,
            "lspci"@,
            "-vv"@,
            "-s"@,
            bdf@,
        ],
        !privileged ==> r.0@ == "lspci"@ && string_texts(r.1@) == seq!["-vv"@, "-s"@, bdf@],
{
    if privileged {
        let args = vec![
            "-n".to_string(),
            "lspci".to_string(),
            "-vv".to_string(),
            "-s".to_string(),
            bdf.to_string(),
        ];
        assert(string_texts(args@) =~= seq!["-n"@, "lspci"@, "-vv"@, "-s"@, bdf@]);
        ("sudo".to_string(), args)
    } else {
        let args = vec!["-vv".to_string(), "-s".to_string(), bdf.to_string()];
        assert(string_texts(args@) =~= seq!["-vv"@, "-s"@, bdf@]);
        ("lspci".to_string(), args)
    }
}

/// The failure message for a program that exited unsuccessfully with `status` (as the
/// platform prints an exit status), quoting its error output when it wrote any.
pub open spec fn command_error_text(program: Seq<char>, status: Seq<char>, stderr: Seq<char>) -> Seq<
    char,
> {
    if trim(stderr).len() == 0 {
        program + " exited with status "@ + status
    } else {
        program + " exited with status "@ + status + ": "@ + trim(stderr)
    }
}

/// The failure message for a program that exited unsuccessfully.
pub fn command_error_message(program: &str, status: &str, stderr: &str) -> (r: String)
    ensures
        r@ == command_error_text(program@, status@, stderr@),
{
    let mut m = concat(program, " exited with status ");
    push_str(&mut m, status);
    let t = trimmed_chars(stderr);
    if t.len() > 0 {
        push_str(&mut m, ": ");
        let s = string_of(&t);
        push_str(&mut m, s.as_str());
    }
    m
}

/// The failure message for a program that could not be started.
pub fn spawn_error_message(program: &str, err: &str) -> (r: String)
    ensures
        r@ == program@ + " could not be executed ("@ + err@ + ")"@,
{
    let mut m = concat(program, " could not be executed (");
    push_str(&mut m, err);
    push_str(&mut m, ")");
    m
}

pub open spec fn sudo_unavailable_text(bdf: Seq<char>, err: Seq<char>) -> Seq<char> {
    "elevated PCIe inspection was unavailable for "@ + bdf + " ("@ + err
        + "). Re-run `sudo lspci -vv -s "@ + bdf
        + "` or run TuxTests under sudo for fuller PCIe/ASPM results."@
}

/// `o` is what a probe of `bdf` means, given what lspci printed (`Ok`) or why it failed
/// (`Err`).
pub open spec fn is_probe_outcome(
    o: ProbeOutcome,
    bdf: Seq<char>,
    privileged: bool,
    run: Result<Seq<char>, Seq<char>>,
) -> bool {
    let source = if privileged {
        "sudo_lspci"@
    } else {
        "lspci"@
    };
    match run {
        Ok(stdout) => {
            let aspm = aspm_of_lines(lines(stdout));
            let cap = aspm_capability_of_lines(lines(stdout));
            if aspm is None && cap is None {
                o matches ProbeOutcome::Failed(m) && m@ == if privileged {
                    "sudo lspci returned output without PCIe link details for "@ + bdf
                } else {
                    "unprivileged lspci output did not expose PCIe link details for "@ + bdf
                }
            } else {
                o matches ProbeOutcome::Success(d) && opt_text(d.aspm) == aspm && opt_text(
                    d.aspm_capability,
                ) == cap && d.source@ == source
            }
        },
        Err(e) => o matches ProbeOutcome::Failed(m) && m@ == if privileged {
            sudo_unavailable_text(bdf, e)
        } else {
            e
        },
    }
}

pub open spec fn run_text(run: Result<String, String>) -> Result<Seq<char>, Seq<char>> {
    match run {
        Ok(s) => Ok(s@),
        Err(e) => Err(e@),
    }
}

/// What a run of lspci on `bdf` means: link details, or why there are none. `run` holds
/// lspci's output, or the message of its failure.
pub fn interpret_lspci_run(bdf: &str, privileged: bool, run: Result<String, String>) -> (r:
    ProbeOutcome)
    ensures
        is_probe_outcome(r, bdf@, privileged, run_text(run)),
{
    if privileged {
        match run {
            Ok(stdout) => match parse_link_details(stdout.as_str(), "sudo_lspci") {
                Some(d) => ProbeOutcome::Success(d),
                None => ProbeOutcome::Failed(
                    concat("sudo lspci returned output without PCIe link details for ", bdf),
                ),
            },
            Err(e) => {
                let mut m = concat("elevated PCIe inspection was unavailable for ", bdf);
                push_str(&mut m, " (");
                push_str(&mut m, e.as_str());
                push_str(&mut m, "). Re-run `sudo lspci -vv -s ");
                push_str(&mut m, bdf);
                push_str(
                    &mut m,
                    "` or run TuxTests under sudo for fuller PCIe/ASPM results.",
                );
                assert(m@ =~= sudo_unavailable_text(bdf@, e@));
                ProbeOutcome::Failed(m)
            },
        }
    } else {
        match run {
            Ok(stdout) => match parse_link_details(stdout.as_str(), "lspci") {
                Some(d) => ProbeOutcome::Success(d),
                None => ProbeOutcome::Failed(
                    concat("unprivileged lspci output did not expose PCIe link details for ", bdf),
                ),
            },
            Err(e) => ProbeOutcome::Failed(e),
        }
    }
}

/// A sysfs reading without surrounding white space, when anything remains.
pub open spec fn nonempty_trimmed(raw: Option<Seq<char>>) -> Option<Seq<char>> {
    match raw {
        Some(s) => if trim(s).len() > 0 {
            Some(trim(s))
        } else {
            None
        },
        None => None,
    }
}

/// A sysfs reading without surrounding white space, when anything remains.
pub fn trimmed_reading(raw: Option<String>) -> (r: Option<String>)
    ensures
        opt_text(r) == nonempty_trimmed(opt_text(raw)),
{
    match raw {
        Some(s) => {
            let t = trimmed_chars(s.as_str());
            if t.len() > 0 {
                Some(string_of(&t))
            } else {
                None
            }
        },
        None => None,
    }
}

/// The facts of one PCIe device: its sysfs link readings (already trimmed) and the
/// outcome of probing it with lspci.
pub fn assemble_pcie_device(
    bdf: &str,
    driver: Option<String>,
    current_link_speed: Option<String>,
    current_link_width: Option<String>,
    max_link_speed: Option<String>,
    max_link_width: Option<String>,
    probe: ProbeOutcome,
) -> (r: PcieDeviceInfo)
    ensures
        r.bdf@ == bdf@,
        r.driver == driver,
        r.current_link_speed == current_link_speed,
        r.current_link_width == current_link_width,
        r.max_link_speed == max_link_speed,
        r.max_link_width == max_link_width,
        match probe {
            ProbeOutcome::Success(d) => r.aspm_capability == d.aspm_capability && r.aspm
                == d.aspm && r.aspm_source == Some(d.source) && r.aspm_probe_error is None,
            ProbeOutcome::Failed(e) => r.aspm_capability is None && r.aspm is None
                && r.aspm_source is None && r.aspm_probe_error == Some(e),
        },
{
    let (aspm_capability, aspm, aspm_source, aspm_probe_error) = match probe {
        ProbeOutcome::Success(details) => (
            details.aspm_capability,
            details.aspm,
            Some(details.source),
            None,
        ),
        ProbeOutcome::Failed(err) => (None, None, None, Some(err)),
    };
    PcieDeviceInfo {
        bdf: bdf.to_string(),
        driver,
        current_link_speed,
        current_link_width,
        max_link_speed,
        max_link_width,
        aspm_capability,
        aspm,
        aspm_source,
        aspm_probe_error,
    }
}

// ---------------------------------------------------------------------------
// Paths
// ---------------------------------------------------------------------------
/// The PCI addresses of the PCI nodes of a drive's lineage, in order.
pub open spec fn pci_nodes(topology: Seq<TopologyNode>) -> Seq<String>
    decreases topology.len(),
{
    if topology.len() == 0 {
        seq![]
    } else {
        let n = topology.last();
        pci_nodes(topology.drop_last()) + if n.subsystem@ == "pci"@ && is_bdf(n.sysname@) {
            seq![n.sysname]
        } else {
            seq![]
        }
    }
}

/// The PCIe path of a drive: each PCI node of its lineage, in order, as `probe` describes
/// the device at that address.
pub fn collect_pcie_path<F: Fn(&String) -> PcieDeviceInfo>(topology: &[TopologyNode], probe: F) -> (r:
    Vec<PcieDeviceInfo>)
    requires
        forall|s: &String| probe.requires((s,)),
    ensures
        r@.len() == pci_nodes(topology@).len(),
        forall|k: int|
            0 <= k < r@.len() ==> probe.ensures((&pci_nodes(topology@)[k],), #[trigger] r@[k]),
{
    let mut out: Vec<PcieDeviceInfo> = Vec::new();
    let mut i: usize = 0;
    while i < topology.len()
        invariant
            i <= topology.len(),
            forall|s: &String| probe.requires((s,)),
            out@.len() == pci_nodes(topology@.take(i as int)).len(),
            forall|k: int|
                0 <= k < out@.len() ==> probe.ensures(
                    (&pci_nodes(topology@.take(i as int))[k],),
                    #[trigger] out@[k],
                ),
        decreases topology.len() - i,
    {
        let ghost before = pci_nodes(topology@.take(i as int));
        assert(topology@.take(i + 1).drop_last() =~= topology@.take(i as int));
        assert(topology@.take(i + 1).last() == topology@[i as int]);
        let node = &topology[i];
        if str_eq(node.subsystem.as_str(), "pci") && is_pci_bdf(node.sysname.as_str()) {
            let d = probe(&node.sysname);
            out.push(d);
            assert(pci_nodes(topology@.take(i + 1)) =~= before.push(node.sysname));
        } else {
            assert(pci_nodes(topology@.take(i + 1)) =~= before);
        }
        i = i + 1;
    }
    assert(topology@.take(topology.len() as int) =~= topology@);
    out
}


// ---------------------------------------------------------------------------
// Enrichment
// ---------------------------------------------------------------------------
/// Some device of the path is named by a kernel anomaly.
pub open spec fn path_has_anomaly(devices: Seq<PcieDeviceInfo>, anomalies: Seq<Seq<char>>) -> bool {
    exists|j: int|
        0 <= j < devices.len() && dedup(anomaly_addresses(anomalies)).contains(
            #[trigger] devices[j].bdf@,
        )
}

/// A device lacks the ASPM state or the ASPM support.
pub open spec fn lacks_aspm_facts(d: PcieDeviceInfo) -> bool {
    d.aspm is None || d.aspm_capability is None
}

/// `n` is `d` after an elevated probe with outcome `o`: missing ASPM facts are filled in
/// and the source recorded, or the probe's error is recorded.
pub open spec fn enriched(n: PcieDeviceInfo, d: PcieDeviceInfo, o: ProbeOutcome) -> bool {
    &&& n.bdf == d.bdf && n.driver == d.driver
    &&& n.current_link_speed == d.current_link_speed
    &&& n.current_link_width == d.current_link_width
    &&& n.max_link_speed == d.max_link_speed && n.max_link_width == d.max_link_width
    &&& match o {
        ProbeOutcome::Success(det) => {
            &&& n.aspm == if d.aspm is Some {
                d.aspm
            } else {
                det.aspm
            }
            &&& n.aspm_capability == if d.aspm_capability is Some {
                d.aspm_capability
            } else {
                det.aspm_capability
            }
            &&& n.aspm_source == Some(det.source)
            &&& n.aspm_probe_error is None
        },
        ProbeOutcome::Failed(e) => {
            &&& n.aspm == d.aspm && n.aspm_capability == d.aspm_capability
            &&& n.aspm_source == d.aspm_source
            &&& n.aspm_probe_error == Some(e)
        },
    }
}

fn clone_text(o: &Option<String>) -> (r: Option<String>)
    ensures
        r == *o,
{
    match o {
        Some(s) => Some(s.clone()),
        None => None,
    }
}

fn enrich_device(d: &PcieDeviceInfo, o: ProbeOutcome) -> (r: PcieDeviceInfo)
    ensures
        enriched(r, *d, o),
{
    let (aspm, aspm_capability, aspm_source, aspm_probe_error) = match o {
        ProbeOutcome::Success(det) => (
            if d.aspm.is_some() {
                clone_text(&d.aspm)
            } else {
                det.aspm
            },
            if d.aspm_capability.is_some() {
                clone_text(&d.aspm_capability)
            } else {
                det.aspm_capability
            },
            Some(det.source),
            None,
        ),
        ProbeOutcome::Failed(err) => (
            clone_text(&d.aspm),
            clone_text(&d.aspm_capability),
            clone_text(&d.aspm_source),
            Some(err),
        ),
    };
    PcieDeviceInfo {
        bdf: d.bdf.clone(),
        driver: clone_text(&d.driver),
        current_link_speed: clone_text(&d.current_link_speed),
        current_link_width: clone_text(&d.current_link_width),
        max_link_speed: clone_text(&d.max_link_speed),
        max_link_width: clone_text(&d.max_link_width),
        aspm_capability,
        aspm,
        aspm_source,
        aspm_probe_error,
    }
}

/// When a kernel anomaly names any device of a drive's PCIe path, probes each device of
/// that path that lacks ASPM facts with `probe` (an elevated lspci) and records what it
/// found; other devices, and every device of a path without such an anomaly, stay as
/// they were.
pub fn enrich_anomaly_link_aspm<F: Fn(&String) -> ProbeOutcome>(
    devices: &mut Vec<PcieDeviceInfo>,
    kernel_anomalies: &Vec<String>,
    probe: F,
)
    requires
        forall|s: &String| probe.requires((s,)),
    ensures
        final(devices)@.len() == old(devices)@.len(),
        forall|i: int|
            0 <= i < old(devices)@.len() ==> {
                let d = old(devices)@[i];
                if path_has_anomaly(old(devices)@, string_texts(kernel_anomalies@))
                    && lacks_aspm_facts(d) {
                    exists|o: ProbeOutcome|
                        probe.ensures((&d.bdf,), o) && enriched(#[trigger] final(devices)@[i], d, o)
                } else {
                    final(devices)@[i] == d
                }
            },
{
    let ghost orig = devices@;
    let ghost anomalies = string_texts(kernel_anomalies@);
    let bdfs = extract_bdfs_from_anomalies(kernel_anomalies);
    let mut has_anomaly = false;
    let mut j: usize = 0;
    while j < devices.len()
        invariant
            j <= devices.len(),
            devices@ == orig,
            string_texts(bdfs@) == dedup(anomaly_addresses(anomalies)),
            anomalies == string_texts(kernel_anomalies@),
            has_anomaly == exists|k: int|
                0 <= k < j && dedup(anomaly_addresses(anomalies)).contains(
                    #[trigger] orig[k].bdf@,
                ),
        decreases devices.len() - j,
    {
        let b = chars_of(devices[j].bdf.as_str());
        if listed(&bdfs, &b) {
            has_anomaly = true;
        }
        j = j + 1;
    }
    assert(has_anomaly == path_has_anomaly(orig, anomalies));
    let mut i: usize = 0;
    while i < devices.len()
        invariant
            i <= devices.len(),
            devices@.len() == orig.len(),
            forall|s: &String| probe.requires((s,)),
            has_anomaly == path_has_anomaly(orig, anomalies),
            anomalies == string_texts(kernel_anomalies@),
            forall|k: int| i <= k < orig.len() ==> devices@[k] == orig[k],
            forall|k: int|
                0 <= k < i ==> {
                    let d = orig[k];
                    if has_anomaly && lacks_aspm_facts(d) {
                        exists|o: ProbeOutcome|
                            probe.ensures((&d.bdf,), o) && enriched(#[trigger] devices@[k], d, o)
                    } else {
                        devices@[k] == d
                    }
                },
        decreases devices.len() - i,
    {
        if has_anomaly && (devices[i].aspm.is_none() || devices[i].aspm_capability.is_none()) {
            let o = probe(&devices[i].bdf);
            let n = enrich_device(&devices[i], o);
            let ghost before = devices@;
            devices.set(i, n);
            assert(probe.ensures((&orig[i as int].bdf,), o) && enriched(devices@[i as int], orig[i as int], o));
            assert forall|k: int| 0 <= k < i implies {
                let d = orig[k];
                if has_anomaly && lacks_aspm_facts(d) {
                    exists|o: ProbeOutcome|
                        probe.ensures((&d.bdf,), o) && enriched(#[trigger] devices@[k], d, o)
                } else {
                    devices@[k] == d
                }
            } by {
                assert(devices@[k] == before[k]);
            }
        }
        i = i + 1;
    }
}


// ---------------------------------------------------------------------------
// Laws
// ---------------------------------------------------------------------------
/// No element of a sequence occurs twice in it.
pub open spec fn distinct(s: Seq<Seq<char>>) -> bool {
    forall|i: int, j: int| 0 <= i < j < s.len() ==> s[i] != s[j]
}

/// `dedup` keeps exactly the elements of its input, each once.
pub proof fn lemma_dedup(s: Seq<Seq<char>>)
    ensures
        distinct(dedup(s)),
        forall|x: Seq<char>| dedup(s).contains(x) <==> s.contains(x),
    decreases s.len(),
{
    if s.len() > 0 {
        lemma_dedup(s.drop_last());
        let d = dedup(s.drop_last());
        assert forall|x: Seq<char>| s.contains(x) <==> s.drop_last().contains(x) || x == s.last() by {
            if s.contains(x) {
                let k = choose|k: int| 0 <= k < s.len() && s[k] == x;
                if k < s.len() - 1 {
                    assert(s.drop_last()[k] == x);
                }
            }
            if s.drop_last().contains(x) {
                let k = choose|k: int| 0 <= k < s.drop_last().len() && s.drop_last()[k] == x;
                assert(s[k] == x);
            }
            if x == s.last() {
                assert(s[s.len() - 1] == x);
            }
        }
        if !d.contains(s.last()) {
            let e = d.push(s.last());
            assert forall|x: Seq<char>| e.contains(x) <==> d.contains(x) || x == s.last() by {
                if e.contains(x) {
                    let k = choose|k: int| 0 <= k < e.len() && e[k] == x;
                    if k < d.len() {
                        assert(d[k] == x);
                    }
                }
                if d.contains(x) {
                    let k = choose|k: int| 0 <= k < d.len() && d[k] == x;
                    assert(e[k] == x);
                }
                if x == s.last() {
                    assert(e[e.len() - 1] == x);
                }
            }
            assert forall|i: int, j: int| 0 <= i < j < e.len() implies e[i] != e[j] by {
                if j == e.len() - 1 {
                    assert(e[i] == d[i]);
                }
            }
        }
    }
}

/// Every PCI address collected from tokens is a well-formed address.
pub proof fn lemma_token_addresses_are_bdfs(ws: Seq<Seq<char>>)
    ensures
        forall|i: int| 0 <= i < token_addresses(ws).len() ==> is_bdf(#[trigger] token_addresses(ws)[i]),
    decreases ws.len(),
{
    if ws.len() > 0 {
        lemma_token_addresses_are_bdfs(ws.drop_last());
        let a = token_addresses(ws.drop_last());
        let c = clean_token(ws.last());
        let b: Seq<Seq<char>> = if is_bdf(c) { seq![c] } else { seq![] };
        assert(token_addresses(ws) == a + b);
        assert forall|i: int| 0 <= i < (a + b).len() implies is_bdf(#[trigger] (a + b)[i]) by {
            if i >= a.len() {
                assert((a + b)[i] == b[i - a.len()]);
            } else {
                assert((a + b)[i] == a[i]);
            }
        }
    }
}

/// Every PCI address collected from anomaly lines is a well-formed address.
pub proof fn lemma_anomaly_addresses_are_bdfs(anomalies: Seq<Seq<char>>)
    ensures
        forall|i: int|
            0 <= i < anomaly_addresses(anomalies).len() ==> is_bdf(
                #[trigger] anomaly_addresses(anomalies)[i],
            ),
    decreases anomalies.len(),
{
    if anomalies.len() > 0 {
        lemma_anomaly_addresses_are_bdfs(anomalies.drop_last());
        lemma_token_addresses_are_bdfs(words(anomalies.last()));
        let a = anomaly_addresses(anomalies.drop_last());
        let b = token_addresses(words(anomalies.last()));
        assert(anomaly_addresses(anomalies) == a + b);
        assert forall|i: int| 0 <= i < (a + b).len() implies is_bdf(#[trigger] (a + b)[i]) by {
            if i >= a.len() {
                assert((a + b)[i] == b[i - a.len()]);
            } else {
                assert((a + b)[i] == a[i]);
            }
        }
    }
}

/// The addresses taken from kernel anomalies are well-formed PCI addresses, each listed
/// once, and every address that an anomaly mentions is listed.
pub proof fn anomaly_addresses_are_distinct_and_complete(anomalies: Seq<Seq<char>>)
    ensures
        distinct(dedup(anomaly_addresses(anomalies))),
        forall|x: Seq<char>|
            dedup(anomaly_addresses(anomalies)).contains(x) ==> is_bdf(x),
        forall|x: Seq<char>|
            anomaly_addresses(anomalies).contains(x) ==> dedup(
                anomaly_addresses(anomalies),
            ).contains(x),
{
    let s = anomaly_addresses(anomalies);
    lemma_dedup(s);
    lemma_anomaly_addresses_are_bdfs(anomalies);
    assert forall|x: Seq<char>| dedup(s).contains(x) implies is_bdf(x) by {
        assert(s.contains(x));
        let k = choose|k: int| 0 <= k < s.len() && s[k] == x;
        assert(is_bdf(s[k]));
    }
}

/// Enrichment never loses a fact: the address, the driver and the sysfs link readings
/// stay, and an ASPM state or ASPM support that a device already had is kept.
pub proof fn enrichment_keeps_known_facts(n: PcieDeviceInfo, d: PcieDeviceInfo, o: ProbeOutcome)
    requires
        enriched(n, d, o),
    ensures
        n.bdf == d.bdf,
        n.driver == d.driver,
        n.current_link_speed == d.current_link_speed,
        n.current_link_width == d.current_link_width,
        n.max_link_speed == d.max_link_speed,
        n.max_link_width == d.max_link_width,
        d.aspm is Some ==> n.aspm == d.aspm,
        d.aspm_capability is Some ==> n.aspm_capability == d.aspm_capability,
{
}

} // verus!
