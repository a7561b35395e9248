//! Host facts: OS release fields, host name, motherboard, memory, and a drive's device
//! lineage as udev walks it.
use crate::models::{SystemInfo, TopologyNode};
use crate::pci::{nonempty_trimmed, trimmed_reading};
use crate::smart::opt_text;
use crate::storage::gib_from_bytes;
use crate::text::{
    chars_of, concat, find, find_seq, lines, lines_of, push_str, string_of_range, texts, trim, trimmed_chars,
};
use std::collections::BTreeMap;
use vstd::prelude::*;

verus! {

broadcast use vstd::string::group_string_axioms;

// ---------------------------------------------------------------------------
// /etc/os-release
// ---------------------------------------------------------------------------
/// `s` without double quotes.
pub open spec fn without_quotes(s: Seq<char>) -> Seq<char>
    decreases s.len(),
{
    if s.len() == 0 {
        seq![]
    } else {
        without_quotes(s.drop_last()) + if s.last() == '"' {
            seq![]
        } else {
            seq![s.last()]
        }
    }
}

/// The key and value of an `os-release` line: the text before its first `=`, and the
/// text after it without double quotes.
pub open spec fn os_release_pair(line: Seq<char>) -> Option<(Seq<char>, Seq<char>)> {
    match find(line, "="@) {
        Some(k) => Some((line.take(k), without_quotes(line.skip(k + 1)))),
        None => None,
    }
}

/// The pairs of the lines of an `os-release` text, in order.
pub open spec fn os_release_pairs(ls: Seq<Seq<char>>) -> Seq<(Seq<char>, Seq<char>)>
    decreases ls.len(),
{
    if ls.len() == 0 {
        seq![]
    } else {
        os_release_pairs(ls.drop_last()) + match os_release_pair(ls.last()) {
            Some(p) => seq![p],
            None => seq![],
        }
    }
}

pub open spec fn pair_texts(ps: Seq<(String, String)>) -> Seq<(Seq<char>, Seq<char>)> {
    ps.map_values(|p: (String, String)| (p.0@, p.1@))
}

/// The key/value pairs of an `/etc/os-release` text, in order; a later key overrides an
/// earlier one when they are collected into a map.
pub fn parse_os_release(content: &str) -> (r: Vec<(String, String)>)
    ensures
        pair_texts(r@) == os_release_pairs(lines(content@)),
{
    let text = chars_of(content);
    let ls = lines_of(&text);
    let ghost all = texts(ls@);
    let eq = chars_of("=");
    let mut out: Vec<(String, String)> = Vec::new();
    let mut i: usize = 0;
    assert(pair_texts(out@) =~= seq![]);
    while i < ls.len()
        invariant
            i <= ls.len(),
            all == texts(ls@),
            eq@ == "="@,
            pair_texts(out@) == os_release_pairs(all.take(i as int)),
        decreases ls.len() - i,
    {
        let ghost before = pair_texts(out@);
        assert(all.take(i + 1).drop_last() =~= all.take(i as int));
        assert(all.take(i + 1).last() == ls@[i as int]@);
        let line = &ls[i];
        match find_seq(line, &eq) {
            Some(k) => {
                proof {
                    crate::text::lemma_find_from_facts(line@, eq@, 0);
                    reveal_strlit("=");
                }
                let key = string_of_range(line, 0, k);
                let mut value = String::new();
                let mut j: usize = k + 1;
                let ghost rest = line@.skip(k + 1);
                while j < line.len()
                    invariant
                        k + 1 <= j <= line.len(),
                        rest == line@.skip(k + 1),
                        value@ == without_quotes(rest.take(j - k - 1)),
                    decreases line.len() - j,
                {
                    assert(rest.take(j - k).drop_last() =~= rest.take(j - k - 1));
                    assert(rest.take(j - k).last() == line@[j as int]);
                    if line[j] != '"' {
                        value.push(line[j]);
                    }
                    assert(value@ =~= without_quotes(rest.take(j - k)));
                    j = j + 1;
                }
                assert(rest.take(line.len() - k - 1) =~= rest);
                assert(key@ =~= line@.take(k as int));
                out.push((key, value));
                assert(pair_texts(out@) =~= before + seq![
                    (line@.take(k as int), without_quotes(rest)),
                ]);
            },
            None => {
                assert(pair_texts(out@) =~= before + seq![]);
            },
        }
        i = i + 1;
    }
    assert(all.take(ls.len() as int) =~= all);
    out
}

// ---------------------------------------------------------------------------
// Host name and motherboard
// ---------------------------------------------------------------------------
/// The host name: the system's, else the trimmed `/etc/hostname` (consulted only when the
/// system gives none); "Unknown Host" when the chosen one is blank.
pub open spec fn host_name(sys: Option<Seq<char>>, etc: Option<Seq<char>>) -> Seq<char> {
    let h = match sys {
        Some(s) => Some(s),
        None => match etc {
            Some(e) => Some(trim(e)),
            None => None,
        },
    };
    match h {
        Some(x) => if trim(x).len() > 0 {
            x
        } else {
            "Unknown Host"@
        },
        None => "Unknown Host"@,
    }
}

/// The host name from the system's answer and the text of `/etc/hostname`.
pub fn choose_hostname(sys_hostname: Option<String>, etc_hostname: Option<String>) -> (r: String)
    ensures
        r@ == host_name(opt_text(sys_hostname), opt_text(etc_hostname)),
{
    let h = match sys_hostname {
        Some(s) => Some(s),
        None => match etc_hostname {
            Some(e) => Some(crate::text::trimmed(e.as_str())),
            None => None,
        },
    };
    match h {
        Some(x) => {
            let t = trimmed_chars(x.as_str());
            if t.len() > 0 {
                x
            } else {
                "Unknown Host".to_string()
            }
        },
        None => "Unknown Host".to_string(),
    }
}

/// The motherboard: vendor and board name (each trimmed, blank ones ignored), once when
/// they are equal.
pub open spec fn motherboard_name(vendor: Option<Seq<char>>, board: Option<Seq<char>>) -> Option<
    Seq<char>,
> {
    let v = nonempty_trimmed(vendor);
    let b = nonempty_trimmed(board);
    match (v, b) {
        (Some(x), Some(y)) => if x == y {
            Some(y)
        } else {
            Some(x + " "@ + y)
        },
        (Some(x), None) => Some(x),
        (None, Some(y)) => Some(y),
        (None, None) => None,
    }
}

/// The motherboard from the DMI board vendor and board name files.
pub fn combine_motherboard(vendor: Option<String>, board: Option<String>) -> (r: Option<String>)
    ensures
        opt_text(r) == motherboard_name(opt_text(vendor), opt_text(board)),
{
    let v = trimmed_reading(vendor);
    let b = trimmed_reading(board);
    match (v, b) {
        (Some(x), Some(y)) => {
            if crate::text::str_eq(x.as_str(), y.as_str()) {
                Some(y)
            } else {
                let mut s = concat(x.as_str(), " ");
                push_str(&mut s, y.as_str());
                Some(s)
            }
        },
        (Some(x), None) => Some(x),
        (None, Some(y)) => Some(y),
        (None, None) => None,
    }
}

/// The host facts, from what the system and its files report: the `os-release` map, the
/// system and `/etc/hostname` host names, the kernel version, the brand of the first
/// CPU, the memory in bytes, the DMI board vendor and name, and the ASPM policy file.
pub fn assemble_system_info(
    os_release: BTreeMap<String, String>,
    sys_hostname: Option<String>,
    etc_hostname: Option<String>,
    kernel_version: Option<String>,
    cpu_brand: Option<String>,
    total_memory_bytes: u64,
    board_vendor: Option<String>,
    board_name: Option<String>,
    aspm_policy: Option<String>,
) -> (r: SystemInfo)
    ensures
        r.os_release == os_release,
        r.hostname@ == host_name(opt_text(sys_hostname), opt_text(etc_hostname)),
        r.kernel_version@ == match kernel_version {
            Some(k) => k@,
            None => "Unknown Kernel"@,
        },
        r.cpu@ == match cpu_brand {
            Some(c) => c@,
            None => "Unknown CPU"@,
        },
        r.ram_gb == total_memory_bytes / 1073741824,
        opt_text(r.motherboard) == motherboard_name(opt_text(board_vendor), opt_text(board_name)),
        opt_text(r.pcie_aspm_policy) == nonempty_trimmed(opt_text(aspm_policy)),
{
    SystemInfo {
        os_release,
        hostname: choose_hostname(sys_hostname, etc_hostname),
        kernel_version: match kernel_version {
            Some(k) => k,
            None => "Unknown Kernel".to_string(),
        },
        cpu: match cpu_brand {
            Some(c) => c,
            None => "Unknown CPU".to_string(),
        },
        ram_gb: gib_from_bytes(total_memory_bytes),
        motherboard: combine_motherboard(board_vendor, board_name),
        pcie_aspm_policy: trimmed_reading(aspm_policy),
    }
}

// ---------------------------------------------------------------------------
// Device lineage
// ---------------------------------------------------------------------------
/// One device met while walking from a block device up to its root controller.
#[derive(Debug, Clone)]
pub struct WalkedDevice {
    /// The udev subsystem ("unknown" when the device has none).
    pub subsystem: String,
    pub sysname: String,
    /// The `speed` attribute of the device, when it has one.
    pub speed: Option<String>,
}

/// The connection that a USB speed (in Mbit/s) stands for.
pub open spec fn usb_speed_text(speed: Seq<char>) -> Seq<char> {
    if speed == "480"@ {
        "USB 2.0 (High-Speed)"@
    } else if speed == "5000"@ {
        "USB 3.0/3.1 Gen 1 (SuperSpeed)"@
    } else if speed == "10000"@ {
        "USB 3.1 Gen 2 (SuperSpeed+)"@
    } else if speed == "20000"@ {
        "USB 3.2 Gen 2x2"@
    } else {
        "USB ("@ + speed + " Mbps)"@
    }
}

/// The connection that a USB speed attribute stands for.
pub fn usb_speed_summary(speed: &str) -> (r: String)
    ensures
        r@ == usb_speed_text(speed@),
{
    if crate::text::str_eq(speed, "480") {
        "USB 2.0 (High-Speed)".to_string()
    } else if crate::text::str_eq(speed, "5000") {
        "USB 3.0/3.1 Gen 1 (SuperSpeed)".to_string()
    } else if crate::text::str_eq(speed, "10000") {
        "USB 3.1 Gen 2 (SuperSpeed+)".to_string()
    } else if crate::text::str_eq(speed, "20000") {
        "USB 3.2 Gen 2x2".to_string()
    } else {
        let mut s = concat("USB (", speed);
        push_str(&mut s, " Mbps)");
        s
    }
}

/// The connection summary of a walk: the speed of the first USB device that has one.
pub open spec fn walk_summary(walk: Seq<WalkedDevice>) -> Option<Seq<char>>
    decreases walk.len(),
{
    if walk.len() == 0 {
        None
    } else if walk[0].subsystem@ == "usb"@ && walk[0].speed is Some {
        Some(usb_speed_text(walk[0].speed->0@))
    } else {
        walk_summary(walk.drop_first())
    }
}

/// The lineage of a walk: its devices from the root (level 1) down to the block device.
pub open spec fn is_lineage_of(nodes: Seq<TopologyNode>, walk: Seq<WalkedDevice>) -> bool {
    &&& nodes.len() == walk.len()
    &&& forall|i: int|
        0 <= i < nodes.len() ==> {
            &&& (#[trigger] nodes[i]).level == i + 1
            &&& nodes[i].subsystem == walk[walk.len() - 1 - i].subsystem
            &&& nodes[i].sysname == walk[walk.len() - 1 - i].sysname
        }
}

/// The connection summary and the numbered lineage of a walk from a block device up to
/// its root controller (the walk lists the block device first).
pub fn topology_from_walk(walk: &Vec<WalkedDevice>) -> (r: (Option<String>, Vec<TopologyNode>))
    ensures
        opt_text(r.0) == walk_summary(walk@),
        is_lineage_of(r.1@, walk@),
{
    let mut summary: Option<String> = None;
    let mut i: usize = 0;
    assert(walk@.skip(0) =~= walk@);
    while i < walk.len()
        invariant_except_break
            summary is None,
            walk_summary(walk@) == walk_summary(walk@.skip(i as int)),
        invariant
            i <= walk.len(),
        ensures
            opt_text(summary) == walk_summary(walk@),
        decreases walk.len() - i,
    {
        assert(walk@.skip(i as int)[0] == walk@[i as int]);
        assert(walk@.skip(i as int).drop_first() =~= walk@.skip(i + 1));
        let d = &walk[i];
        if crate::text::str_eq(d.subsystem.as_str(), "usb") {
            match &d.speed {
                Some(speed) => {
                    summary = Some(usb_speed_summary(speed.as_str()));
                    assert(walk@.skip(i as int)[0].speed == Some(*speed));
                    break;
                },
                None => {},
            }
        }
        i = i + 1;
    }
    let mut nodes: Vec<TopologyNode> = Vec::new();
    let n = walk.len();
    let mut k: usize = 0;
    while k < n
        invariant
            n == walk.len(),
            k <= n,
            nodes@.len() == k,
            forall|j: int|
                0 <= j < k ==> {
                    &&& (#[trigger] nodes@[j]).level == j + 1
                    &&& nodes@[j].subsystem == walk@[n - 1 - j].subsystem
                    &&& nodes@[j].sysname == walk@[n - 1 - j].sysname
                },
        decreases n - k,
    {
        let d = &walk[n - 1 - k];
        nodes.push(
            TopologyNode {
                level: k + 1,
                subsystem: d.subsystem.clone(),
                sysname: d.sysname.clone(),
            },
        );
        k = k + 1;
    }
    (summary, nodes)
}

// ---------------------------------------------------------------------------
// Laws
// ---------------------------------------------------------------------------
/// Each known USB speed has its own connection summary, and only that speed gives it:
/// 480 Mbit/s is USB 2.0, 5000 is USB 3.0/3.1 Gen 1, 10000 is USB 3.1 Gen 2 and 20000 is
/// USB 3.2 Gen 2x2; any other speed is reported in Mbit/s as it was read.
pub proof fn usb_speed_summary_law(speed: Seq<char>)
    ensures
        usb_speed_text(speed) == "USB 2.0 (High-Speed)"@ <==> speed == "480"@,
        usb_speed_text(speed) == "USB 3.0/3.1 Gen 1 (SuperSpeed)"@ <==> speed == "5000"@,
        usb_speed_text(speed) == "USB 3.1 Gen 2 (SuperSpeed+)"@ <==> speed == "10000"@,
        usb_speed_text(speed) == "USB 3.2 Gen 2x2"@ <==> speed == "20000"@,
        speed != "480"@ && speed != "5000"@ && speed != "10000"@ && speed != "20000"@
            ==> usb_speed_text(speed) == "USB ("@ + speed + " Mbps)"@,
{
    reveal_strlit("480");
    reveal_strlit("5000");
    reveal_strlit("10000");
    reveal_strlit("20000");
    reveal_strlit("USB 2.0 (High-Speed)");
    reveal_strlit("USB 3.0/3.1 Gen 1 (SuperSpeed)");
    reveal_strlit("USB 3.1 Gen 2 (SuperSpeed+)");
    reveal_strlit("USB 3.2 Gen 2x2");
    reveal_strlit("USB (");
    reveal_strlit(" Mbps)");
    let a = "USB 2.0 (High-Speed)"@;
    let b = "USB 3.0/3.1 Gen 1 (SuperSpeed)"@;
    let c = "USB 3.1 Gen 2 (SuperSpeed+)"@;
    let d = "USB 3.2 Gen 2x2"@;
    assert(a[4] == '2' && b[4] == '3' && c[4] == '3' && d[4] == '3');
    assert(a.len() != b.len() && a.len() != c.len() && a.len() != d.len() && b.len() != c.len()
        && b.len() != d.len() && c.len() != d.len());
    assert("10000"@[0] == '1' && "20000"@[0] == '2');
    assert("10000"@ != "20000"@);
    let other = "USB ("@ + speed + " Mbps)"@;
    assert(other[4] == '(');
    assert(a != other && b != other && c != other && d != other);
}

} // verus!
