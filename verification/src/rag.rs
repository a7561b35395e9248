//! Log retrieval by identifier: the kernel log lines that report trouble with a drive.
use crate::models::{DriveInfo, TopologyNode};
use crate::text::{
    chars_of, contains, contains_seq, contains_str, lines, lines_of, lowercase, string_of,
    string_texts, texts, to_lowercase, trim, trimmed_chars,
};
use vstd::prelude::*;

verus! {

broadcast use vstd::string::group_string_axioms;

/// The most anomaly lines kept per drive.
pub const MAX_ANOMALIES_PER_DRIVE: usize = 20;

/// The sysnames of a lineage that hold more than white space, in order.
pub open spec fn node_targets(nodes: Seq<TopologyNode>) -> Seq<Seq<char>>
    decreases nodes.len(),
{
    if nodes.len() == 0 {
        seq![]
    } else {
        node_targets(nodes.drop_last()) + if trim(nodes.last().sysname@).len() > 0 {
            seq![nodes.last().sysname@]
        } else {
            seq![]
        }
    }
}

/// The identifiers a drive is found by in the log: its name, its serial (when not blank)
/// and the sysnames of its lineage (when not blank).
pub open spec fn drive_targets(drive: DriveInfo) -> Seq<Seq<char>> {
    seq![drive.name@] + match drive.serial {
        Some(s) => if trim(s@).len() > 0 {
            seq![s@]
        } else {
            seq![]
        },
        None => seq![],
    } + node_targets(drive.topology@)
}

/// A log line reports trouble: an error, a reset, an abort or a failure.
pub open spec fn reports_trouble(line: Seq<char>) -> bool {
    let l = lowercase(line);
    contains(l, "error"@) || contains(l, "reset"@) || contains(l, "abort"@) || contains(
        l,
        "fail"@,
    )
}

/// A log line mentions one of the identifiers.
pub open spec fn mentions_any(line: Seq<char>, targets: Seq<Seq<char>>) -> bool {
    exists|k: int| 0 <= k < targets.len() && contains(line, #[trigger] targets[k])
}

/// The lines that report trouble and mention one of the identifiers, in order.
pub open spec fn trouble_lines(ls: Seq<Seq<char>>, targets: Seq<Seq<char>>) -> Seq<Seq<char>>
    decreases ls.len(),
{
    if ls.len() == 0 {
        seq![]
    } else {
        trouble_lines(ls.drop_last(), targets) + if reports_trouble(ls.last()) && mentions_any(
            ls.last(),
            targets,
        ) {
            seq![ls.last()]
        } else {
            seq![]
        }
    }
}

/// The anomalies of a drive in a log: its trouble lines, at most the first 20.
pub open spec fn drive_anomalies(drive: DriveInfo, log: Seq<char>) -> Seq<Seq<char>> {
    let m = trouble_lines(lines(log), drive_targets(drive));
    if m.len() > 20 {
        m.take(20)
    } else {
        m
    }
}

fn drive_target_list(drive: &DriveInfo) -> (r: Vec<Vec<char>>)
    ensures
        texts(r@) == drive_targets(*drive),
{
    let mut targets: Vec<Vec<char>> = Vec::new();
    targets.push(chars_of(drive.name.as_str()));
    let ghost after_name = texts(targets@);
    assert(after_name =~= seq![drive.name@]);
    match &drive.serial {
        Some(serial) => {
            let t = trimmed_chars(serial.as_str());
            if t.len() > 0 {
                targets.push(chars_of(serial.as_str()));
                assert(texts(targets@) =~= after_name + seq![serial@]);
            } else {
                assert(texts(targets@) =~= after_name + seq![]);
            }
        },
        None => {
            assert(texts(targets@) =~= after_name + seq![]);
        },
    }
    let ghost base = texts(targets@);
    let ghost nodes = drive.topology@;
    let mut i: usize = 0;
    assert(base + node_targets(nodes.take(0)) =~= base);
    while i < drive.topology.len()
        invariant
            i <= drive.topology.len(),
            nodes == drive.topology@,
            texts(targets@) == base + node_targets(nodes.take(i as int)),
        decreases drive.topology.len() - i,
    {
        let ghost before = texts(targets@);
        assert(nodes.take(i + 1).drop_last() =~= nodes.take(i as int));
        assert(nodes.take(i + 1).last() == nodes[i as int]);
        let sysname = &drive.topology[i].sysname;
        let t = trimmed_chars(sysname.as_str());
        if t.len() > 0 {
            targets.push(chars_of(sysname.as_str()));
            assert(texts(targets@) =~= before + seq![sysname@]);
        } else {
            assert(texts(targets@) =~= before + seq![]);
        }
        assert(base + node_targets(nodes.take(i + 1)) =~= texts(targets@));
        i = i + 1;
    }
    assert(nodes.take(drive.topology.len() as int) =~= nodes);
    targets
}

fn mentions_target(line: &Vec<char>, targets: &Vec<Vec<char>>) -> (r: bool)
    ensures
        r == mentions_any(line@, texts(targets@)),
{
    let mut k: usize = 0;
    while k < targets.len()
        invariant
            k <= targets.len(),
            forall|j: int| 0 <= j < k ==> !contains(line@, #[trigger] texts(targets@)[j]),
        decreases targets.len() - k,
    {
        if contains_seq(line, &targets[k]) {
            assert(contains(line@, texts(targets@)[k as int]));
            return true;
        }
        k = k + 1;
    }
    false
}

/// The kernel log lines that report an error, reset, abort or failure and mention the
/// drive (by name, serial or a device of its lineage), in log order, at most 20.
pub fn retrieve_kernel_anomalies(drive: &DriveInfo, log_output: &str) -> (r: Vec<String>)
    ensures
        string_texts(r@) == drive_anomalies(*drive, log_output@),
        r@.len() <= 20,
{
    let targets = drive_target_list(drive);
    let text = chars_of(log_output);
    let ls = lines_of(&text);
    let ghost all = texts(ls@);
    let ghost ts = texts(targets@);
    let mut anomalies: Vec<String> = Vec::new();
    let mut i: usize = 0;
    assert(string_texts(anomalies@) =~= seq![]);
    while i < ls.len()
        invariant
            i <= ls.len(),
            all == texts(ls@),
            ts == texts(targets@),
            string_texts(anomalies@) == trouble_lines(all.take(i as int), ts),
        decreases ls.len() - i,
    {
        let ghost before = string_texts(anomalies@);
        assert(all.take(i + 1).drop_last() =~= all.take(i as int));
        assert(all.take(i + 1).last() == ls@[i as int]@);
        let line = &ls[i];
        let line_str = string_of(line);
        let lowered = to_lowercase(line_str.as_str());
        let l = chars_of(lowered.as_str());
        if (contains_str(&l, "error") || contains_str(&l, "reset") || contains_str(&l, "abort")
            || contains_str(&l, "fail")) && mentions_target(line, &targets) {
            anomalies.push(line_str);
            assert(string_texts(anomalies@) =~= before + seq![line@]);
        } else {
            assert(string_texts(anomalies@) =~= before + seq![]);
        }
        i = i + 1;
    }
    assert(all.take(ls.len() as int) =~= all);
    let ghost kept = string_texts(anomalies@);
    anomalies.truncate(MAX_ANOMALIES_PER_DRIVE);
    assert(string_texts(anomalies@) =~= if kept.len() > 20 {
        kept.take(20)
    } else {
        kept
    });
    anomalies
}

// ---------------------------------------------------------------------------
// Log sources
// ---------------------------------------------------------------------------
/// The command of each attempt to read the kernel log: `dmesg`, then
/// `journalctl -k --no-pager -n 500`, then `pkexec dmesg`.
pub open spec fn log_command(attempt: int) -> Option<(Seq<char>, Seq<Seq<char>>)> {
    if attempt == 0 {
        Some(("dmesg"@, seq![]))
    } else if attempt == 1 {
        Some(("journalctl"@, seq!["-k"@, "--no-pager"@, "-n"@, "500"@]))
    } else if attempt == 2 {
        Some(("pkexec"@, seq!["dmesg"@]))
    } else {
        None
    }
}

/// The next command to read the kernel log with, after `attempt` attempts that collected
/// `collected`: none once a log was collected or all three sources were tried.
pub fn next_kernel_log_command(attempt: usize, collected: &str) -> (r: Option<(String, Vec<String>)>)
    ensures
        match r {
            None => collected@.len() > 0 || attempt >= 3,
            Some(c) => collected@.len() == 0 && log_command(attempt as int) == Some(
                (c.0@, string_texts(c.1@)),
            ),
        },
{
    if !collected.is_empty() {
        return None;
    }
    if attempt == 0 {
        let args: Vec<String> = Vec::new();
        assert(string_texts(args@) =~= seq![]);
        Some(("dmesg".to_string(), args))
    } else if attempt == 1 {
        let args = vec![
            "-k".to_string(),
            "--no-pager".to_string(),
            "-n".to_string(),
            "500".to_string(),
        ];
        assert(string_texts(args@) =~= seq!["-k"@, "--no-pager"@, "-n"@, "500"@]);
        Some(("journalctl".to_string(), args))
    } else if attempt == 2 {
        let args = vec!["dmesg".to_string()];
        assert(string_texts(args@) =~= seq!["dmesg"@]);
        Some(("pkexec".to_string(), args))
    } else {
        None
    }
}

// ---------------------------------------------------------------------------
// Laws
// ---------------------------------------------------------------------------
proof fn lemma_trouble_lines_sound(ls: Seq<Seq<char>>, targets: Seq<Seq<char>>)
    ensures
        forall|i: int|
            0 <= i < trouble_lines(ls, targets).len() ==> {
                let l = #[trigger] trouble_lines(ls, targets)[i];
                &&& ls.contains(l)
                &&& reports_trouble(l)
                &&& mentions_any(l, targets)
            },
    decreases ls.len(),
{
    if ls.len() > 0 {
        lemma_trouble_lines_sound(ls.drop_last(), targets);
        let a = trouble_lines(ls.drop_last(), targets);
        let b: Seq<Seq<char>> = if reports_trouble(ls.last()) && mentions_any(ls.last(), targets) {
            seq![ls.last()]
        } else {
            seq![]
        };
        assert(trouble_lines(ls, targets) == a + b);
        assert forall|i: int| 0 <= i < (a + b).len() implies {
            let l = #[trigger] (a + b)[i];
            &&& ls.contains(l)
            &&& reports_trouble(l)
            &&& mentions_any(l, targets)
        } by {
            if i < a.len() {
                assert((a + b)[i] == a[i]);
                let l = a[i];
                assert(ls.drop_last().contains(l));
                let k = choose|k: int| 0 <= k < ls.drop_last().len() && ls.drop_last()[k] == l;
                assert(ls[k] == l);
            } else {
                assert((a + b)[i] == b[i - a.len()]);
                assert(ls[ls.len() - 1] == ls.last());
            }
        }
    }
}

/// Every anomaly retrieved for a drive is a line of the log that reports trouble and
/// mentions the drive's name, serial or a device of its lineage; at most 20 are kept.
pub proof fn drive_anomalies_law(drive: DriveInfo, log: Seq<char>)
    ensures
        drive_anomalies(drive, log).len() <= MAX_ANOMALIES_PER_DRIVE,
        forall|i: int|
            0 <= i < drive_anomalies(drive, log).len() ==> {
                let l = #[trigger] drive_anomalies(drive, log)[i];
                &&& lines(log).contains(l)
                &&& reports_trouble(l)
                &&& mentions_any(l, drive_targets(drive))
            },
{
    let m = trouble_lines(lines(log), drive_targets(drive));
    lemma_trouble_lines_sound(lines(log), drive_targets(drive));
    assert forall|i: int| 0 <= i < drive_anomalies(drive, log).len() implies {
        let l = #[trigger] drive_anomalies(drive, log)[i];
        &&& lines(log).contains(l)
        &&& reports_trouble(l)
        &&& mentions_any(l, drive_targets(drive))
    } by {
        assert(drive_anomalies(drive, log)[i] == m[i]);
    }
}

/// A log line names the drive: by its name, by its serial when that is not blank, or by
/// the sysname, when not blank, of any device of its lineage.
pub open spec fn names_drive(line: Seq<char>, d: DriveInfo) -> bool {
    ||| contains(line, d.name@)
    ||| d.serial matches Some(s) && trim(s@).len() > 0 && contains(line, s@)
    ||| exists|k: int|
        0 <= k < d.topology@.len() && trim(d.topology@[k].sysname@).len() > 0 && contains(
            line,
            #[trigger] d.topology@[k].sysname@,
        )
}

/// The lines that report trouble and name the drive, in order.
pub open spec fn lines_about_drive(ls: Seq<Seq<char>>, d: DriveInfo) -> Seq<Seq<char>>
    decreases ls.len(),
{
    if ls.len() == 0 {
        seq![]
    } else {
        lines_about_drive(ls.drop_last(), d) + if reports_trouble(ls.last()) && names_drive(
            ls.last(),
            d,
        ) {
            seq![ls.last()]
        } else {
            seq![]
        }
    }
}

proof fn lemma_mentions_concat(line: Seq<char>, a: Seq<Seq<char>>, b: Seq<Seq<char>>)
    ensures
        mentions_any(line, a + b) <==> mentions_any(line, a) || mentions_any(line, b),
{
    if mentions_any(line, a + b) {
        let k = choose|k: int| 0 <= k < (a + b).len() && contains(line, #[trigger] (a + b)[k]);
        if k < a.len() {
            assert(contains(line, a[k]));
        } else {
            assert(contains(line, b[k - a.len()]));
        }
    }
    if mentions_any(line, a) {
        let k = choose|k: int| 0 <= k < a.len() && contains(line, #[trigger] a[k]);
        assert((a + b)[k] == a[k]);
    }
    if mentions_any(line, b) {
        let k = choose|k: int| 0 <= k < b.len() && contains(line, #[trigger] b[k]);
        assert((a + b)[k + a.len()] == b[k]);
    }
}

proof fn lemma_mentions_nodes(line: Seq<char>, nodes: Seq<TopologyNode>)
    ensures
        mentions_any(line, node_targets(nodes)) <==> exists|k: int|
            0 <= k < nodes.len() && trim(nodes[k].sysname@).len() > 0 && contains(
                line,
                #[trigger] nodes[k].sysname@,
            ),
    decreases nodes.len(),
{
    if nodes.len() > 0 {
        let rest = nodes.drop_last();
        lemma_mentions_nodes(line, rest);
        let last = nodes.last();
        let b: Seq<Seq<char>> = if trim(last.sysname@).len() > 0 {
            seq![last.sysname@]
        } else {
            seq![]
        };
        lemma_mentions_concat(line, node_targets(rest), b);
        if mentions_any(line, b) {
            let j = choose|j: int| 0 <= j < b.len() && contains(line, #[trigger] b[j]);
            assert(nodes[nodes.len() - 1] == last);
            assert(contains(line, nodes[nodes.len() - 1].sysname@));
        }
        if mentions_any(line, node_targets(rest)) {
            let k = choose|k: int|
                0 <= k < rest.len() && trim(rest[k].sysname@).len() > 0 && contains(
                    line,
                    #[trigger] rest[k].sysname@,
                );
            assert(nodes[k] == rest[k]);
        }
        if exists|k: int|
            0 <= k < nodes.len() && trim(nodes[k].sysname@).len() > 0 && contains(
                line,
                #[trigger] nodes[k].sysname@,
            ) {
            let k = choose|k: int|
                0 <= k < nodes.len() && trim(nodes[k].sysname@).len() > 0 && contains(
                    line,
                    #[trigger] nodes[k].sysname@,
                );
            if k < nodes.len() - 1 {
                assert(rest[k] == nodes[k]);
            } else {
                assert(b[0] == last.sysname@);
            }
        }
    }
}

proof fn lemma_mentions_drive(line: Seq<char>, d: DriveInfo)
    ensures
        mentions_any(line, drive_targets(d)) <==> names_drive(line, d),
{
    let a: Seq<Seq<char>> = seq![d.name@];
    let s: Seq<Seq<char>> = match d.serial {
        Some(x) => if trim(x@).len() > 0 {
            seq![x@]
        } else {
            seq![]
        },
        None => seq![],
    };
    let n = node_targets(d.topology@);
    lemma_mentions_concat(line, a + s, n);
    lemma_mentions_concat(line, a, s);
    lemma_mentions_nodes(line, d.topology@);
    if mentions_any(line, a) {
        let k = choose|k: int| 0 <= k < a.len() && contains(line, #[trigger] a[k]);
    }
    if contains(line, d.name@) {
        assert(contains(line, a[0]));
    }
    if mentions_any(line, s) {
        let k = choose|k: int| 0 <= k < s.len() && contains(line, #[trigger] s[k]);
    }
    if d.serial matches Some(x) && trim(x@).len() > 0 && contains(line, x@) {
        assert(contains(line, s[0]));
    }
}

proof fn lemma_trouble_lines_about_drive(ls: Seq<Seq<char>>, d: DriveInfo)
    ensures
        trouble_lines(ls, drive_targets(d)) == lines_about_drive(ls, d),
    decreases ls.len(),
{
    if ls.len() > 0 {
        lemma_trouble_lines_about_drive(ls.drop_last(), d);
        lemma_mentions_drive(ls.last(), d);
    }
}

/// The anomalies retrieved for a drive are exactly the log lines that report trouble
/// (an error, reset, abort or failure) and name the drive by its name, its non-blank
/// serial or the non-blank sysname of any device of its lineage, in log order, the first
/// 20 of them when there are more.
pub proof fn drive_anomalies_are_lines_about_the_drive(d: DriveInfo, log: Seq<char>)
    ensures
        drive_anomalies(d, log) == (if lines_about_drive(lines(log), d).len() > 20 {
            lines_about_drive(lines(log), d).take(20)
        } else {
            lines_about_drive(lines(log), d)
        }),
{
    lemma_trouble_lines_about_drive(lines(log), d);
}

proof fn lemma_lines_about_drive_prefix(ls: Seq<Seq<char>>, d: DriveInfo, j: int)
    requires
        0 <= j <= ls.len(),
    ensures
        lines_about_drive(ls.take(j), d).len() <= lines_about_drive(ls, d).len(),
        forall|m: int|
            0 <= m < lines_about_drive(ls.take(j), d).len() ==> #[trigger] lines_about_drive(
                ls.take(j),
                d,
            )[m] == lines_about_drive(ls, d)[m],
    decreases ls.len(),
{
    if j == ls.len() {
        assert(ls.take(j) =~= ls);
    } else {
        let rest = ls.drop_last();
        lemma_lines_about_drive_prefix(rest, d, j);
        assert(rest.take(j) =~= ls.take(j));
        let a = lines_about_drive(rest, d);
        let b: Seq<Seq<char>> = if reports_trouble(ls.last()) && names_drive(ls.last(), d) {
            seq![ls.last()]
        } else {
            seq![]
        };
        assert(lines_about_drive(ls, d) == a + b);
        assert forall|m: int| 0 <= m < lines_about_drive(ls.take(j), d).len() implies #[trigger] lines_about_drive(
            ls.take(j),
            d,
        )[m] == lines_about_drive(ls, d)[m] by {
            assert(lines_about_drive(rest.take(j), d)[m] == a[m]);
            assert((a + b)[m] == a[m]);
        }
    }
}

/// Completeness of retrieval: a log line that reports trouble and names the drive (by its
/// name, non-blank serial or a non-blank lineage sysname) is among the drive's anomalies
/// whenever fewer than 20 such lines come before it.
pub proof fn trouble_about_the_drive_is_retrieved(d: DriveInfo, log: Seq<char>, i: int)
    requires
        0 <= i < lines(log).len(),
        reports_trouble(lines(log)[i]),
        names_drive(lines(log)[i], d),
        lines_about_drive(lines(log).take(i), d).len() < 20,
    ensures
        drive_anomalies(d, log).contains(lines(log)[i]),
{
    let ls = lines(log);
    let l = ls[i];
    drive_anomalies_are_lines_about_the_drive(d, log);
    assert(ls.take(i + 1).drop_last() =~= ls.take(i));
    assert(ls.take(i + 1).last() == l);
    let before = lines_about_drive(ls.take(i), d);
    assert(lines_about_drive(ls.take(i + 1), d) == before + seq![l]);
    assert((before + seq![l])[before.len() as int] == l);
    lemma_lines_about_drive_prefix(ls, d, i + 1);
    let all = lines_about_drive(ls, d);
    let c = before.len() as int;
    assert(all[c] == l);
    if all.len() > 20 {
        assert(all.take(20)[c] == l);
    }
}

} // verus!
