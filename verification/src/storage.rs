//! Block devices: reading `lsblk -J -b` entries into drive records, and `/etc/fstab`.
use crate::json::{JsonNumber, JsonValue};
use crate::models::{DriveInfo, FstabEntry, PcieDeviceInfo, TopologyNode};
use crate::smart::opt_text;
use crate::text::{
    chars_of, concat, eq_ignore_ascii_case, lines, lines_of, occurs_at, parse_int, parse_u64,
    parse_u8, push_str, same_ignoring_ascii_case, same_text, string_of, string_texts, sub_chars, texts, to_uppercase, trim, trim_bounds, trim_end_class,
    trimmed_chars, uppercase, words, words_of, CharClass,
};
use vstd::prelude::*;

verus! {

broadcast use vstd::string::group_string_axioms;

/// One block device as `lsblk -J -b -o NAME,TYPE,SIZE,PKNAME,SERIAL,MOUNTPOINTS,TRAN,
/// FSTYPE,UUID,LABEL,FSUSE%` describes it.
#[derive(Debug)]
pub struct LsblkDevice {
    pub name: String,
    pub device_type: String,
    /// A number of bytes, or a string holding one (older lsblk versions).
    pub size: JsonValue,
    pub pkname: Option<String>,
    pub serial: Option<String>,
    pub mountpoints: Option<Vec<Option<String>>>,
    pub tran: Option<String>,
    pub fstype: Option<String>,
    pub uuid: Option<String>,
    pub label: Option<String>,
    pub fsuse_percent: Option<String>,
}

/// The size in bytes that an lsblk `size` field gives (0 when it gives none).
pub open spec fn size_bytes(size: JsonValue) -> nat {
    match size {
        JsonValue::Number(JsonNumber::PosInt(n)) => n as nat,
        JsonValue::Number(_) => 0,
        JsonValue::Str(s) => match parse_int(trim(s@), false, 0, u64::MAX as int) {
            Some(v) => v as nat,
            None => 0,
        },
        _ => 0,
    }
}

/// The size in bytes that an lsblk `size` field gives: a number, or a string holding
/// one; 0 otherwise.
pub fn parse_size_bytes(size: &JsonValue) -> (r: u64)
    ensures
        r == size_bytes(*size),
{
    match size {
        JsonValue::Number(JsonNumber::PosInt(n)) => *n,
        JsonValue::Number(_) => 0,
        JsonValue::Str(s) => {
            let t = trimmed_chars(s.as_str());
            match parse_u64(&t) {
                Some(v) => v,
                None => 0,
            }
        },
        _ => 0,
    }
}

/// Whole gibibytes in a number of bytes.
pub fn gib_from_bytes(bytes: u64) -> (r: u64)
    ensures
        r == bytes / 1073741824,
{
    bytes / 1073741824
}

/// The mount points that are present and not blank, trimmed, in order.
pub open spec fn mount_texts(ms: Seq<Option<String>>) -> Seq<Seq<char>>
    decreases ms.len(),
{
    if ms.len() == 0 {
        seq![]
    } else {
        mount_texts(ms.drop_last()) + match ms.last() {
            Some(m) => if trim(m@).len() > 0 {
                seq![trim(m@)]
            } else {
                seq![]
            },
            None => seq![],
        }
    }
}

/// The mount points of a device, trimmed, without absent or blank ones.
pub fn normalize_mountpoints(mountpoints: Option<Vec<Option<String>>>) -> (r: Vec<String>)
    ensures
        string_texts(r@) == match mountpoints {
            Some(ms) => mount_texts(ms@),
            None => seq![],
        },
{
    let mut out: Vec<String> = Vec::new();
    assert(string_texts(out@) =~= seq![]);
    match mountpoints {
        None => out,
        Some(ms) => {
            let mut i: usize = 0;
            while i < ms.len()
                invariant
                    i <= ms.len(),
                    string_texts(out@) == mount_texts(ms@.take(i as int)),
                decreases ms.len() - i,
            {
                let ghost before = string_texts(out@);
                assert(ms@.take(i + 1).drop_last() =~= ms@.take(i as int));
                assert(ms@.take(i + 1).last() == ms@[i as int]);
                match &ms[i] {
                    Some(m) => {
                        let t = trimmed_chars(m.as_str());
                        if t.len() > 0 {
                            out.push(string_of(&t));
                            assert(string_texts(out@) =~= before + seq![t@]);
                        } else {
                            assert(before + seq![] =~= before);
                        }
                    },
                    None => {
                        assert(before + seq![] =~= before);
                    },
                }
                i = i + 1;
            }
            assert(ms@.take(ms.len() as int) =~= ms@);
            out
        },
    }
}

/// The filesystem usage that lsblk's `FSUSE%` gives, e.g. `84%` (0 when unreadable).
pub open spec fn usage_percent(value: Option<Seq<char>>) -> int {
    let v = match value {
        Some(s) => s,
        None => seq![],
    };
    match parse_int(trim_end_class(trim(v), CharClass::Percent), false, 0, 255) {
        Some(p) => p,
        None => 0,
    }
}

/// The filesystem usage in percent, from lsblk's `FSUSE%` column; 0 when unreadable.
pub fn parse_usage_percent(value: Option<&str>) -> (r: u8)
    ensures
        r as int == usage_percent(
            match value {
                Some(s) => Some(s@),
                None => None,
            },
        ),
{
    let t = match value {
        Some(s) => trimmed_chars(s),
        None => Vec::new(),
    };
    assert(value is None ==> t@ =~= trim(seq![])) by {
        if value is None {
            assert(trim(Seq::<char>::empty()) =~= Seq::<char>::empty());
        }
    }
    let mut j: usize = t.len();
    while j > 0 && t[j - 1] == '%'
        invariant
            j <= t.len(),
            crate::text::skip_class_back(t@, CharClass::Percent, t@.len() as int)
                == crate::text::skip_class_back(t@, CharClass::Percent, j as int),
        decreases j,
    {
        j = j - 1;
    }
    let digits = sub_chars(&t, 0, j);
    match parse_u8(&digits) {
        Some(p) => p,
        None => 0,
    }
}

/// A LUKS device: of type `crypt`, or with a `crypto_LUKS` filesystem (ASCII case
/// ignored).
pub open spec fn luks_hint(device_type: Seq<char>, fstype: Option<Seq<char>>) -> Option<bool> {
    if eq_ignore_ascii_case(device_type, "crypt"@) || (fstype matches Some(f)
        && eq_ignore_ascii_case(f, "crypto_luks"@)) {
        Some(true)
    } else {
        None
    }
}

/// `Some(true)` for a LUKS device, `None` when nothing says so.
pub fn infer_is_luks(device_type: &str, fstype: Option<&str>) -> (r: Option<bool>)
    ensures
        r == luks_hint(
            device_type@,
            match fstype {
                Some(f) => Some(f@),
                None => None,
            },
        ),
{
    let dt = chars_of(device_type);
    let type_hint = same_ignoring_ascii_case(&dt, "crypt");
    let fs_hint = match fstype {
        Some(f) => {
            let fv = chars_of(f);
            same_ignoring_ascii_case(&fv, "crypto_luks")
        },
        None => false,
    };
    if type_hint || fs_hint {
        Some(true)
    } else {
        None
    }
}

/// How a drive is connected when udev named no USB speed, from lsblk's transport.
pub open spec fn transport_fallback(tran: Option<Seq<char>>) -> Seq<char> {
    let raw = uppercase(
        match tran {
            Some(t) => t,
            None => seq![],
        },
    );
    if raw == "USB"@ {
        "USB (External / Unknown Speed)"@
    } else if raw.len() > 0 {
        "Internal ("@ + raw + ")"@
    } else {
        "Internal/PCIe/SATA (Unknown)"@
    }
}

/// How a drive is connected when udev named no USB speed.
pub fn connection_fallback(tran: &Option<String>) -> (r: String)
    ensures
        r@ == transport_fallback(opt_text(*tran)),
{
    let raw = match tran {
        Some(t) => to_uppercase(t.as_str()),
        None => to_uppercase(""),
    };
    proof {
        if tran is None {
            reveal_strlit("");
            assert(""@ =~= Seq::<char>::empty());
        }
    }
    let rv = chars_of(raw.as_str());
    if same_text(&rv, "USB") {
        "USB (External / Unknown Speed)".to_string()
    } else if rv.len() > 0 {
        let mut s = concat("Internal (", raw.as_str());
        push_str(&mut s, ")");
        s
    } else {
        "Internal/PCIe/SATA (Unknown)".to_string()
    }
}

/// `r` is the drive record for `dev`, given what udev found (a USB connection summary,
/// the sysfs path, the lineage) and the device's PCIe path; `mount` is its first mount
/// point.
pub open spec fn is_drive_of(
    r: DriveInfo,
    mount: Option<String>,
    dev: LsblkDevice,
    udev_connection: Option<String>,
    syspath: String,
    topology: Seq<TopologyNode>,
    pcie_path: Seq<PcieDeviceInfo>,
) -> bool {
    let mounts = match dev.mountpoints {
        Some(ms) => mount_texts(ms@),
        None => seq![],
    };
    &&& r.name == dev.name && r.drive_type == dev.device_type
    &&& r.connection@ == match udev_connection {
        Some(c) => c@,
        None => transport_fallback(opt_text(dev.tran)),
    }
    &&& r.capacity_gb == size_bytes(dev.size) / 1073741824
    &&& r.usage_percent as int == usage_percent(opt_text(dev.fsuse_percent))
    &&& r.health_ok
    &&& r.physical_path@ == if syspath@.len() > 0 {
        syspath@
    } else {
        "Unmapped in Phase 4"@
    }
    &&& r.fstype == dev.fstype && r.uuid == dev.uuid && r.label == dev.label
    &&& string_texts(r.active_mountpoints@) == mounts
    &&& r.topology@ == topology && r.pcie_path@ == pcie_path
    &&& r.serial == match dev.serial {
        Some(s) => if trim(s@).len() > 0 {
            Some(s)
        } else {
            None
        },
        None => None,
    }
    &&& r.smartctl_exit_code is None && r.smart is None
    &&& r.parent == dev.pkname
    &&& r.is_luks == luks_hint(dev.device_type@, opt_text(dev.fstype))
    &&& opt_text(mount) == if mounts.len() > 0 {
        Some(mounts[0])
    } else {
        None
    }
}

/// The drive record of one lsblk device, and its first mount point.
pub fn map_lsblk_device(
    dev: LsblkDevice,
    udev_connection: Option<String>,
    syspath: String,
    topology: Vec<TopologyNode>,
    pcie_path: Vec<PcieDeviceInfo>,
) -> (r: (DriveInfo, Option<String>))
    ensures
        is_drive_of(r.0, r.1, dev, udev_connection, syspath, topology@, pcie_path@),
{
    let size_num = parse_size_bytes(&dev.size);
    let capacity_gb = gib_from_bytes(size_num);
    let connection = match udev_connection {
        Some(c) => c,
        None => connection_fallback(&dev.tran),
    };
    let physical_path = if !syspath.as_str().is_empty() {
        syspath
    } else {
        "Unmapped in Phase 4".to_string()
    };
    let mountpoints_vec = normalize_mountpoints(dev.mountpoints);
    let mount_target = if mountpoints_vec.len() > 0 {
        Some(mountpoints_vec[0].clone())
    } else {
        None
    };
    let usage_percent = match &dev.fsuse_percent {
        Some(u) => parse_usage_percent(Some(u.as_str())),
        None => parse_usage_percent(None),
    };
    let is_luks = match &dev.fstype {
        Some(f) => infer_is_luks(dev.device_type.as_str(), Some(f.as_str())),
        None => infer_is_luks(dev.device_type.as_str(), None),
    };
    let serial = match dev.serial {
        Some(s) => {
            let t = trimmed_chars(s.as_str());
            if t.len() > 0 {
                Some(s)
            } else {
                None
            }
        },
        None => None,
    };
    let drive = DriveInfo {
        name: dev.name,
        drive_type: dev.device_type,
        connection,
        capacity_gb,
        usage_percent,
        health_ok: true,
        physical_path,
        fstype: dev.fstype,
        uuid: dev.uuid,
        label: dev.label,
        active_mountpoints: mountpoints_vec,
        topology,
        pcie_path,
        serial,
        smartctl_exit_code: None,
        smart: None,
        parent: dev.pkname,
        is_luks,
    };
    (drive, mount_target)
}

// ---------------------------------------------------------------------------
// fstab
// ---------------------------------------------------------------------------
/// The fields of an fstab entry's line, when it is one: not blank, not a comment, and
/// with at least four fields.
pub open spec fn fstab_fields(line: Seq<char>) -> Option<Seq<Seq<char>>> {
    let t = trim(line);
    if occurs_at(t, "#"@, 0) || t.len() == 0 || words(t).len() < 4 {
        None
    } else {
        Some(words(t))
    }
}

/// The view of an fstab entry: file system, mount point, type, options, dump, pass.
pub open spec fn fstab_view(e: FstabEntry) -> Seq<Seq<char>> {
    seq![e.file_system@, e.mount_point@, e.type_@, e.options@, e.dump@, e.pass@]
}

/// The entry of a line's fields: the first four, then dump and pass (`0` when missing).
pub open spec fn entry_of_fields(ws: Seq<Seq<char>>) -> Seq<Seq<char>> {
    seq![
        ws[0],
        ws[1],
        ws[2],
        ws[3],
        if ws.len() > 4 {
            ws[4]
        } else {
            "0"@
        },
        if ws.len() > 5 {
            ws[5]
        } else {
            "0"@
        },
    ]
}

/// The entries of the lines of an fstab text, in order.
pub open spec fn fstab_entries(ls: Seq<Seq<char>>) -> Seq<Seq<Seq<char>>>
    decreases ls.len(),
{
    if ls.len() == 0 {
        seq![]
    } else {
        fstab_entries(ls.drop_last()) + match fstab_fields(ls.last()) {
            Some(ws) => seq![entry_of_fields(ws)],
            None => seq![],
        }
    }
}

/// The mount entries of an fstab text.
pub fn parse_fstab(content: &str) -> (r: Vec<FstabEntry>)
    ensures
        r@.map_values(|e: FstabEntry| fstab_view(e)) == fstab_entries(lines(content@)),
{
    let text = chars_of(content);
    let ls = lines_of(&text);
    let ghost all = texts(ls@);
    let mut entries: Vec<FstabEntry> = Vec::new();
    let mut i: usize = 0;
    assert(entries@.map_values(|e: FstabEntry| fstab_view(e)) =~= seq![]);
    while i < ls.len()
        invariant
            i <= ls.len(),
            all == texts(ls@),
            entries@.map_values(|e: FstabEntry| fstab_view(e)) == fstab_entries(
                all.take(i as int),
            ),
        decreases ls.len() - i,
    {
        let ghost before = entries@.map_values(|e: FstabEntry| fstab_view(e));
        assert(all.take(i + 1).drop_last() =~= all.take(i as int));
        assert(all.take(i + 1).last() == ls@[i as int]@);
        let line = &ls[i];
        let (a, b) = trim_bounds(line, CharClass::Whitespace);
        let t = sub_chars(line, a, b);
        let hash = chars_of("#");
        let is_comment = crate::text::matches_at(&t, &hash, 0);
        let parts = words_of(&t);
        if !is_comment && t.len() > 0 && parts.len() >= 4 {
            let dump = if parts.len() > 4 {
                string_of(&parts[4])
            } else {
                "0".to_string()
            };
            let pass = if parts.len() > 5 {
                string_of(&parts[5])
            } else {
                "0".to_string()
            };
            let entry = FstabEntry {
                file_system: string_of(&parts[0]),
                mount_point: string_of(&parts[1]),
                type_: string_of(&parts[2]),
                options: string_of(&parts[3]),
                dump,
                pass,
            };
            assert(fstab_view(entry) =~= entry_of_fields(texts(parts@)));
            entries.push(entry);
            assert(entries@.map_values(|e: FstabEntry| fstab_view(e)) =~= before + seq![
                fstab_view(entry),
            ]);
        } else {
            assert(entries@.map_values(|e: FstabEntry| fstab_view(e)) =~= before + seq![]);
        }
        i = i + 1;
    }
    assert(all.take(ls.len() as int) =~= all);
    entries
}

} // verus!
