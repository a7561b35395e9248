//! SMART health: reading `smartctl -x -j` output into a structured report, and deciding
//! what a probe's outcome means for a drive.
use crate::json::{
    as_bool, as_str, get, index_token, json_as_str, json_parse, parse_json, json_get, json_pointer, pointer, step, str_texts, JsonNumber,
    JsonValue,
};
use crate::models::{SmartProbeStatus, SmartReport, SmartTransport};
use crate::text::{
    chars_of, concat, contains, contains_str, int_text, lines, lines_of, occurs_at, parse_u32,
    push_int, push_str, starts_with, sub_chars, texts, words, words_of, join, join_strings, lowercase, to_lowercase, parse_i64, parse_int, str_eq, string_of, string_texts,
    trim, trimmed_chars,
};
use vstd::prelude::*;

verus! {

broadcast use vstd::string::group_string_axioms;

/// What a SMART probe produced for one drive.
#[derive(Debug, Clone)]
pub struct SmartOutcome {
    pub health_ok: bool,
    pub exit_code: Option<i32>,
    pub report: Option<SmartReport>,
    pub anomalies: Vec<String>,
}

// ---------------------------------------------------------------------------
// Specification helpers
// ---------------------------------------------------------------------------
pub open spec fn opt_text(o: Option<String>) -> Option<Seq<char>> {
    match o {
        Some(s) => Some(s@),
        None => None,
    }
}

pub open spec fn opt_int(o: Option<i64>) -> Option<int> {
    match o {
        Some(v) => Some(v as int),
        None => None,
    }
}

/// The first of two optional values that is present.
pub open spec fn first_some<T>(a: Option<T>, b: Option<T>) -> Option<T> {
    if a is Some {
        a
    } else {
        b
    }
}

/// A JSON Pointer path, as its list of tokens.
pub open spec fn path1(a: &str) -> Seq<Seq<char>> {
    seq![a@]
}

pub open spec fn path2(a: &str, b: &str) -> Seq<Seq<char>> {
    seq![a@, b@]
}

/// The texts of a list of JSON Pointer paths.
pub open spec fn path_texts(paths: Seq<&[&str]>) -> Seq<Seq<Seq<char>>> {
    paths.map_values(|p: &[&str]| str_texts(p@))
}

/// What `value_to_i64` reads from a JSON value: an integer that fits `i64`, or a string
/// that holds one (around white space).
pub open spec fn value_i64(v: Option<JsonValue>) -> Option<int> {
    match v {
        Some(JsonValue::Number(JsonNumber::PosInt(n))) => if n <= i64::MAX {
            Some(n as int)
        } else {
            None
        },
        Some(JsonValue::Number(JsonNumber::NegInt(n))) => Some(n as int),
        Some(JsonValue::Str(s)) => parse_int(trim(s@), true, i64::MIN as int, i64::MAX as int),
        _ => None,
    }
}

/// The first of `paths` that leads to a string with text besides white space; that text,
/// trimmed.
pub open spec fn string_at(json: JsonValue, paths: Seq<Seq<Seq<char>>>) -> Option<Seq<char>>
    decreases paths.len(),
{
    if paths.len() == 0 {
        None
    } else {
        let s = as_str(pointer(json, paths[0]));
        if s is Some && trim(s->0).len() > 0 {
            Some(trim(s->0))
        } else {
            string_at(json, paths.drop_first())
        }
    }
}

/// The first of `paths` that leads to an integer, as `value_i64` reads it.
pub open spec fn integer_at(json: JsonValue, paths: Seq<Seq<Seq<char>>>) -> Option<int>
    decreases paths.len(),
{
    if paths.len() == 0 {
        None
    } else {
        let v = value_i64(pointer(json, paths[0]));
        if v is Some {
            v
        } else {
            integer_at(json, paths.drop_first())
        }
    }
}

/// An ATA attribute entry matches by its name or by its id.
pub open spec fn attribute_matches(a: JsonValue, names: Seq<Seq<char>>, ids: Seq<i64>) -> bool {
    (as_str(get(a, "name"@)) matches Some(n) && names.contains(n)) || (value_i64(
        get(a, "id"@),
    ) matches Some(i) && exists|k: int| 0 <= k < ids.len() && ids[k] as int == i)
}

/// The first matching ATA attribute entry.
pub open spec fn first_matching(items: Seq<JsonValue>, names: Seq<Seq<char>>, ids: Seq<i64>) -> Option<
    JsonValue,
>
    decreases items.len(),
{
    if items.len() == 0 {
        None
    } else if attribute_matches(items[0], names, ids) {
        Some(items[0])
    } else {
        first_matching(items.drop_first(), names, ids)
    }
}

/// The raw value of an ATA attribute entry: `raw.value`, else `raw.string`, else `value`.
pub open spec fn attribute_raw(a: JsonValue) -> Option<int> {
    first_some(
        value_i64(pointer(a, path2("raw", "value"))),
        first_some(value_i64(pointer(a, path2("raw", "string"))), value_i64(get(a, "value"@))),
    )
}

/// The raw value of the first ATA attribute with one of `names` or `ids`.
pub open spec fn ata_raw(json: JsonValue, names: Seq<Seq<char>>, ids: Seq<i64>) -> Option<int> {
    match pointer(json, path2("ata_smart_attributes", "table")) {
        Some(JsonValue::Array(items)) => match first_matching(items@, names, ids) {
            Some(a) => attribute_raw(a),
            None => None,
        },
        _ => None,
    }
}

/// An NVMe health-log counter.
pub open spec fn nvme_counter(json: JsonValue, name: &str) -> Option<int> {
    match get(json, "nvme_smart_health_information_log"@) {
        Some(log) => value_i64(get(log, name@)),
        None => None,
    }
}

/// The texts among `parts` that are present.
pub open spec fn present(parts: Seq<Option<Seq<char>>>) -> Seq<Seq<char>>
    decreases parts.len(),
{
    if parts.len() == 0 {
        seq![]
    } else {
        present(parts.drop_last()) + match parts.last() {
            Some(t) => seq![t],
            None => seq![],
        }
    }
}

pub proof fn lemma_present_push(s: Seq<Option<Seq<char>>>, o: Option<Seq<char>>)
    ensures
        present(s.push(o)) == present(s) + match o {
            Some(t) => seq![t],
            None => seq![],
        },
        present(seq![]) == Seq::<Seq<char>>::empty(),
{
    assert(s.push(o).drop_last() =~= s);
}

/// The device type, protocol and name that smartctl reports, joined and lower-cased.
pub open spec fn transport_text(json: JsonValue) -> Seq<char> {
    lowercase(
        join(
            present(
                seq![
                    string_at(json, seq![path2("device", "type")]),
                    string_at(json, seq![path2("device", "protocol")]),
                    string_at(json, seq![path2("device", "name")]),
                ],
            ),
            " "@,
        ),
    )
}

/// The transport that a device description names.
pub open spec fn transport_of(t: Seq<char>) -> SmartTransport {
    if contains(t, "nvme"@) {
        SmartTransport::Nvme
    } else if contains(t, "snt"@) || contains(t, "usb"@) || contains(t, "jmicron"@) || contains(
        t,
        "asmedia"@,
    ) {
        SmartTransport::UsbBridge
    } else if contains(t, "scsi"@) {
        SmartTransport::Scsi
    } else if contains(t, "ata"@) || contains(t, "sat"@) {
        SmartTransport::Ata
    } else {
        SmartTransport::Unknown
    }
}

/// The trimmed, non-empty `string` members of smartctl's messages.
pub open spec fn message_texts(items: Seq<JsonValue>) -> Seq<Seq<char>>
    decreases items.len(),
{
    if items.len() == 0 {
        seq![]
    } else {
        let s = as_str(get(items.last(), "string"@));
        message_texts(items.drop_last()) + if s is Some && trim(s->0).len() > 0 {
            seq![trim(s->0)]
        } else {
            seq![]
        }
    }
}

/// The messages smartctl attached to its output.
pub open spec fn smartctl_messages(json: JsonValue) -> Seq<Seq<char>> {
    match pointer(json, path2("smartctl", "messages")) {
        Some(JsonValue::Array(items)) => message_texts(items@),
        _ => seq![],
    }
}

/// What a probe without usable facts is classified as, from smartctl's exit code and its
/// messages.
pub open spec fn unavailable_status(code: i32, limitations: Seq<Seq<char>>) -> SmartProbeStatus {
    let t = lowercase(join(limitations, "\n"@));
    if contains(t, "unknown usb bridge"@) || contains(t, "unsupported"@) || contains(
        t,
        "please specify device type"@,
    ) {
        SmartProbeStatus::Unsupported
    } else if code & 2 != 0 {
        SmartProbeStatus::AccessDenied
    } else if code & 1 != 0 {
        SmartProbeStatus::ParseFailed
    } else {
        SmartProbeStatus::Unknown
    }
}

pub open spec fn model_paths() -> Seq<Seq<Seq<char>>> {
    seq![path1("model_name"), path1("model_family"), path2("device", "model_name")]
}

pub open spec fn temperature_paths() -> Seq<Seq<Seq<char>>> {
    seq![path2("temperature", "current"), path2("nvme_smart_health_information_log", "temperature")]
}

pub open spec fn self_test_path() -> Seq<Seq<char>> {
    seq![
        "ata_smart_self_test_log"@,
        "standard"@,
        "table"@,
        "0"@,
        "status"@,
        "string"@,
    ]
}

/// The temperature: the reported current value, else ATA attribute 194, else 190.
pub open spec fn temperature_of(json: JsonValue) -> Option<int> {
    first_some(
        integer_at(json, temperature_paths()),
        first_some(
            ata_raw(json, seq!["Temperature_Celsius"@], seq![194i64]),
            ata_raw(json, seq!["Airflow_Temperature_Cel"@], seq![190i64]),
        ),
    )
}

pub open spec fn power_on_hours_of(json: JsonValue) -> Option<int> {
    first_some(
        integer_at(json, seq![path2("power_on_time", "hours")]),
        ata_raw(json, seq!["Power_On_Hours"@], seq![9i64]),
    )
}

pub open spec fn power_cycles_of(json: JsonValue) -> Option<int> {
    first_some(
        integer_at(json, seq![path1("power_cycle_count")]),
        ata_raw(json, seq!["Power_Cycle_Count"@], seq![12i64]),
    )
}

/// Reallocated sectors: ATA attribute 5, else the SCSI grown defect list.
pub open spec fn reallocated_of(json: JsonValue) -> Option<int> {
    first_some(
        ata_raw(json, seq!["Reallocated_Sector_Ct"@], seq![5i64]),
        integer_at(json, seq![path1("scsi_grown_defect_list")]),
    )
}

/// Whether a report holds any SMART fact at all.
pub open spec fn has_facts(r: SmartReport) -> bool {
    r.passed is Some || r.model is Some || r.serial is Some || r.temperature_celsius is Some
        || r.power_on_hours is Some || r.power_cycles is Some || r.unsafe_shutdowns is Some
        || r.percentage_used is Some || r.reallocated_sectors is Some
        || r.current_pending_sectors is Some || r.offline_uncorrectable is Some
        || r.media_errors is Some || r.num_err_log_entries is Some || r.self_test_status is Some
}

/// `r` is the report that smartctl's JSON document `json` describes.
pub open spec fn is_report_of(
    r: SmartReport,
    json: JsonValue,
    exit_code: Option<i32>,
    exit_status_description: Seq<String>,
) -> bool {
    is_report_with_notes(r, json, exit_code, exit_status_description, seq![])
}

/// `r` is the report that `json` describes, with `notes` added to its limitations after
/// smartctl's own messages.
pub open spec fn is_report_with_notes(
    r: SmartReport,
    json: JsonValue,
    exit_code: Option<i32>,
    exit_status_description: Seq<String>,
    notes: Seq<Seq<char>>,
) -> bool {
    &&& r.passed == as_bool(pointer(json, path2("smart_status", "passed")))
    &&& r.transport == transport_of(transport_text(json))
    &&& opt_text(r.model) == string_at(json, model_paths())
    &&& opt_text(r.serial) == string_at(json, seq![path1("serial_number")])
    &&& opt_int(r.temperature_celsius) == temperature_of(json)
    &&& opt_int(r.power_on_hours) == power_on_hours_of(json)
    &&& opt_int(r.power_cycles) == power_cycles_of(json)
    &&& opt_int(r.unsafe_shutdowns) == nvme_counter(json, "unsafe_shutdowns")
    &&& opt_int(r.percentage_used) == nvme_counter(json, "percentage_used")
    &&& opt_int(r.reallocated_sectors) == reallocated_of(json)
    &&& opt_int(r.current_pending_sectors) == ata_raw(
        json,
        seq!["Current_Pending_Sector"@],
        seq![197i64],
    )
    &&& opt_int(r.offline_uncorrectable) == ata_raw(
        json,
        seq!["Offline_Uncorrectable"@],
        seq![198i64],
    )
    &&& opt_int(r.media_errors) == nvme_counter(json, "media_errors")
    &&& opt_int(r.num_err_log_entries) == nvme_counter(json, "num_err_log_entries")
    &&& opt_text(r.self_test_status) == as_str(pointer(json, self_test_path()))
    &&& r.smartctl_exit_code == exit_code
    &&& r.exit_status_description@ == exit_status_description
    &&& string_texts(r.limitations@) == smartctl_messages(json) + notes
    &&& r.available == has_facts(r)
    &&& r.status == if has_facts(r) {
        SmartProbeStatus::Available
    } else {
        unavailable_status(
            match exit_code {
                Some(c) => c,
                None => 0,
            },
            smartctl_messages(json),
        )
    }
}

// ---------------------------------------------------------------------------
// Reading the JSON document
// ---------------------------------------------------------------------------
pub open spec fn deref(v: Option<&JsonValue>) -> Option<JsonValue> {
    match v {
        Some(x) => Some(*x),
        None => None,
    }
}

/// An integer as smartctl writes it: a JSON integer that fits `i64`, or a string holding
/// one.
pub fn value_to_i64(v: Option<&JsonValue>) -> (r: Option<i64>)
    ensures
        opt_int(r) == value_i64(deref(v)),
{
    match v {
        Some(JsonValue::Number(JsonNumber::PosInt(n))) => {
            if *n <= 9223372036854775807u64 {
                Some(*n as i64)
            } else {
                None
            }
        },
        Some(JsonValue::Number(JsonNumber::NegInt(n))) => Some(*n),
        Some(JsonValue::Str(s)) => {
            let t = trimmed_chars(s.as_str());
            parse_i64(&t)
        },
        _ => None,
    }
}

/// The trimmed text of the first of `paths` that leads to a string with more than
/// white space.
pub fn string_at_paths(json: &JsonValue, paths: &[&[&str]]) -> (r: Option<String>)
    ensures
        opt_text(r) == string_at(*json, path_texts(paths@)),
{
    let ghost all = path_texts(paths@);
    let mut i: usize = 0;
    assert(all.skip(0) =~= all);
    while i < paths.len()
        invariant
            i <= paths.len(),
            all == path_texts(paths@),
            string_at(*json, all) == string_at(*json, all.skip(i as int)),
        decreases paths.len() - i,
    {
        assert(all.skip(i as int)[0] == str_texts(paths@[i as int]@));
        assert(all.skip(i as int).drop_first() =~= all.skip(i + 1));
        let p = json_pointer(json, paths[i]);
        match json_as_str(p) {
            Some(s) => {
                let t = trimmed_chars(s.as_str());
                if t.len() > 0 {
                    return Some(string_of(&t));
                }
            },
            None => {},
        }
        i = i + 1;
    }
    None
}

/// The first of `paths` that leads to an integer.
pub fn integer_at_paths(json: &JsonValue, paths: &[&[&str]]) -> (r: Option<i64>)
    ensures
        opt_int(r) == integer_at(*json, path_texts(paths@)),
{
    let ghost all = path_texts(paths@);
    let mut i: usize = 0;
    assert(all.skip(0) =~= all);
    while i < paths.len()
        invariant
            i <= paths.len(),
            all == path_texts(paths@),
            integer_at(*json, all) == integer_at(*json, all.skip(i as int)),
        decreases paths.len() - i,
    {
        assert(all.skip(i as int)[0] == str_texts(paths@[i as int]@));
        assert(all.skip(i as int).drop_first() =~= all.skip(i + 1));
        let v = value_to_i64(json_pointer(json, paths[i]));
        if v.is_some() {
            return v;
        }
        i = i + 1;
    }
    None
}

fn name_listed(names: &[&str], n: &String) -> (r: bool)
    ensures
        r == str_texts(names@).contains(n@),
{
    let mut i: usize = 0;
    while i < names.len()
        invariant
            i <= names.len(),
            forall|k: int| 0 <= k < i ==> names@[k]@ != n@,
        decreases names.len() - i,
    {
        if str_eq(names[i], n.as_str()) {
            assert(str_texts(names@)[i as int] == n@);
            return true;
        }
        i = i + 1;
    }
    proof {
        if str_texts(names@).contains(n@) {
            let k = choose|k: int| 0 <= k < str_texts(names@).len() && str_texts(names@)[k] == n@;
            assert(names@[k]@ == n@);
        }
    }
    false
}

fn id_listed(ids: &[i64], id: i64) -> (r: bool)
    ensures
        r == exists|k: int| 0 <= k < ids@.len() && ids@[k] as int == id as int,
{
    let mut i: usize = 0;
    while i < ids.len()
        invariant
            i <= ids.len(),
            forall|k: int| 0 <= k < i ==> ids@[k] != id,
        decreases ids.len() - i,
    {
        if ids[i] == id {
            return true;
        }
        i = i + 1;
    }
    false
}

/// Whether an ATA attribute entry has one of `names` or one of `ids`.
pub fn ata_attribute_matches(a: &JsonValue, names: &[&str], ids: &[i64]) -> (r: bool)
    ensures
        r == attribute_matches(*a, str_texts(names@), ids@),
{
    let name_matches = match json_as_str(json_get(a, "name")) {
        Some(n) => name_listed(names, n),
        None => false,
    };
    let id_matches = match value_to_i64(json_get(a, "id")) {
        Some(id) => id_listed(ids, id),
        None => false,
    };
    name_matches || id_matches
}

/// The raw value of the first ATA attribute entry with one of `names` or `ids`.
pub fn ata_raw_attribute_any(json: &JsonValue, names: &[&str], ids: &[i64]) -> (r: Option<i64>)
    ensures
        opt_int(r) == ata_raw(*json, str_texts(names@), ids@),
{
    let table = json_pointer(json, &["ata_smart_attributes", "table"]);
    assert(str_texts(seq!["ata_smart_attributes", "table"]) =~= path2(
        "ata_smart_attributes",
        "table",
    ));
    match table {
        Some(JsonValue::Array(items)) => {
            let ghost ns = str_texts(names@);
            let mut i: usize = 0;
            assert(items@.skip(0) =~= items@);
            while i < items.len()
                invariant
                    i <= items.len(),
                    ns == str_texts(names@),
                    ata_raw(*json, ns, ids@) == match first_matching(items@, ns, ids@) {
                        Some(a) => attribute_raw(a),
                        None => None,
                    },
                    first_matching(items@, ns, ids@) == first_matching(
                        items@.skip(i as int),
                        ns,
                        ids@,
                    ),
                decreases items.len() - i,
            {
                assert(items@.skip(i as int)[0] == items@[i as int]);
                assert(items@.skip(i as int).drop_first() =~= items@.skip(i + 1));
                let a = &items[i];
                if ata_attribute_matches(a, names, ids) {
                    let from_value = value_to_i64(json_pointer(a, &["raw", "value"]));
                    assert(str_texts(seq!["raw", "value"]) =~= path2("raw", "value"));
                    if from_value.is_some() {
                        return from_value;
                    }
                    let from_string = value_to_i64(json_pointer(a, &["raw", "string"]));
                    assert(str_texts(seq!["raw", "string"]) =~= path2("raw", "string"));
                    if from_string.is_some() {
                        return from_string;
                    }
                    return value_to_i64(json_get(a, "value"));
                }
                i = i + 1;
            }
            None
        },
        _ => None,
    }
}


/// The transport that smartctl's device description names.
pub fn transport_from_json(json: &JsonValue) -> (r: SmartTransport)
    ensures
        r == transport_of(transport_text(*json)),
{
    let p_type: &[&str] = &["device", "type"];
    let p_protocol: &[&str] = &["device", "protocol"];
    let p_name: &[&str] = &["device", "name"];
    let ps_type: &[&[&str]] = &[p_type];
    let ps_protocol: &[&[&str]] = &[p_protocol];
    let ps_name: &[&[&str]] = &[p_name];
    assert(ps_type@ =~= seq![p_type]);
    assert(ps_protocol@ =~= seq![p_protocol]);
    assert(ps_name@ =~= seq![p_name]);
    let a = string_at_paths(json, ps_type);
    let b = string_at_paths(json, ps_protocol);
    let c = string_at_paths(json, ps_name);
    proof {
        assert(str_texts(p_type@) =~= path2("device", "type"));
        assert(str_texts(p_protocol@) =~= path2("device", "protocol"));
        assert(str_texts(p_name@) =~= path2("device", "name"));
        assert(path_texts(seq![p_type]) =~= seq![path2("device", "type")]);
        assert(path_texts(seq![p_protocol]) =~= seq![path2("device", "protocol")]);
        assert(path_texts(seq![p_name]) =~= seq![path2("device", "name")]);
    }
    let ghost parts = seq![opt_text(a), opt_text(b), opt_text(c)];
    let mut present_parts: Vec<String> = Vec::new();
    proof {
        lemma_present_push(seq![], opt_text(a));
        lemma_present_push(seq![opt_text(a)], opt_text(b));
        lemma_present_push(seq![opt_text(a), opt_text(b)], opt_text(c));
        assert(seq![opt_text(a)] =~= seq![].push(opt_text(a)));
        assert(seq![opt_text(a), opt_text(b)] =~= seq![opt_text(a)].push(opt_text(b)));
        assert(parts =~= seq![opt_text(a), opt_text(b)].push(opt_text(c)));
    }
    match a {
        Some(t) => present_parts.push(t),
        None => {},
    }
    assert(string_texts(present_parts@) =~= present(seq![opt_text(a)]));
    match b {
        Some(t) => present_parts.push(t),
        None => {},
    }
    assert(string_texts(present_parts@) =~= present(seq![opt_text(a), opt_text(b)]));
    match c {
        Some(t) => present_parts.push(t),
        None => {},
    }
    assert(string_texts(present_parts@) =~= present(parts));
    let joined = join_strings(&present_parts, " ");
    let lowered = to_lowercase(joined.as_str());
    let t = chars_of(lowered.as_str());
    if contains_str(&t, "nvme") {
        SmartTransport::Nvme
    } else if contains_str(&t, "snt") || contains_str(&t, "usb") || contains_str(&t, "jmicron")
        || contains_str(&t, "asmedia") {
        SmartTransport::UsbBridge
    } else if contains_str(&t, "scsi") {
        SmartTransport::Scsi
    } else if contains_str(&t, "ata") || contains_str(&t, "sat") {
        SmartTransport::Ata
    } else {
        SmartTransport::Unknown
    }
}

/// The messages smartctl attached to its output, trimmed, without empty ones.
pub fn smartctl_messages_of(json: &JsonValue) -> (r: Vec<String>)
    ensures
        string_texts(r@) == smartctl_messages(*json),
{
    let mut out: Vec<String> = Vec::new();
    let p: &[&str] = &["smartctl", "messages"];
    assert(str_texts(p@) =~= path2("smartctl", "messages"));
    match json_pointer(json, p) {
        Some(JsonValue::Array(items)) => {
            let mut i: usize = 0;
            while i < items.len()
                invariant
                    i <= items.len(),
                    string_texts(out@) == message_texts(items@.take(i as int)),
                decreases items.len() - i,
            {
                let ghost before = string_texts(out@);
                assert(items@.take(i + 1).drop_last() =~= items@.take(i as int));
                assert(items@.take(i + 1).last() == items@[i as int]);
                match json_as_str(json_get(&items[i], "string")) {
                    Some(m) => {
                        let t = trimmed_chars(m.as_str());
                        if t.len() > 0 {
                            out.push(string_of(&t));
                            assert(string_texts(out@) =~= before + seq![t@]);
                        } else {
                            assert(before + seq![] =~= before);
                        }
                    },
                    None => {
                        assert(before + seq![] =~= before);
                    },
                }
                i = i + 1;
            }
            assert(items@.take(items@.len() as int) =~= items@);
            out
        },
        _ => {
            assert(string_texts(out@) =~= seq![]);
            out
        },
    }
}

/// Whether a report holds any SMART fact at all.
pub fn has_usable_smart_facts(report: &SmartReport) -> (r: bool)
    ensures
        r == has_facts(*report),
{
    report.passed.is_some() || report.model.is_some() || report.serial.is_some()
        || report.temperature_celsius.is_some() || report.power_on_hours.is_some()
        || report.power_cycles.is_some() || report.unsafe_shutdowns.is_some()
        || report.percentage_used.is_some() || report.reallocated_sectors.is_some()
        || report.current_pending_sectors.is_some() || report.offline_uncorrectable.is_some()
        || report.media_errors.is_some() || report.num_err_log_entries.is_some()
        || report.self_test_status.is_some()
}

/// The status of a probe without usable facts.
pub fn unavailable_status_from_json(code: i32, limitations: &Vec<String>) -> (r: SmartProbeStatus)
    ensures
        r == unavailable_status(code, string_texts(limitations@)),
{
    let joined = join_strings(limitations, "\n");
    let lowered = to_lowercase(joined.as_str());
    let t = chars_of(lowered.as_str());
    if contains_str(&t, "unknown usb bridge") || contains_str(&t, "unsupported") || contains_str(
        &t,
        "please specify device type",
    ) {
        SmartProbeStatus::Unsupported
    } else if code & 2 != 0 {
        SmartProbeStatus::AccessDenied
    } else if code & 1 != 0 {
        SmartProbeStatus::ParseFailed
    } else {
        SmartProbeStatus::Unknown
    }
}


fn string_at_1(json: &JsonValue, a: &str) -> (r: Option<String>)
    ensures
        opt_text(r) == string_at(*json, seq![path1(a)]),
{
    let p: &[&str] = &[a];
    let ps: &[&[&str]] = &[p];
    assert(ps@ =~= seq![p]);
    assert(str_texts(p@) =~= path1(a));
    assert(path_texts(ps@) =~= seq![path1(a)]);
    string_at_paths(json, ps)
}

fn integer_at_1(json: &JsonValue, a: &str) -> (r: Option<i64>)
    ensures
        opt_int(r) == integer_at(*json, seq![path1(a)]),
{
    let p: &[&str] = &[a];
    let ps: &[&[&str]] = &[p];
    assert(ps@ =~= seq![p]);
    assert(str_texts(p@) =~= path1(a));
    assert(path_texts(ps@) =~= seq![path1(a)]);
    integer_at_paths(json, ps)
}

fn integer_at_2(json: &JsonValue, a: &str, b: &str) -> (r: Option<i64>)
    ensures
        opt_int(r) == integer_at(*json, seq![path2(a, b)]),
{
    let p: &[&str] = &[a, b];
    let ps: &[&[&str]] = &[p];
    assert(ps@ =~= seq![p]);
    assert(str_texts(p@) =~= path2(a, b));
    assert(path_texts(ps@) =~= seq![path2(a, b)]);
    integer_at_paths(json, ps)
}

fn ata_raw_1(json: &JsonValue, name: &str, id: i64) -> (r: Option<i64>)
    ensures
        opt_int(r) == ata_raw(*json, seq![name@], seq![id]),
{
    let names: &[&str] = &[name];
    let ids: &[i64] = &[id];
    assert(str_texts(names@) =~= seq![name@]);
    assert(ids@ =~= seq![id]);
    ata_raw_attribute_any(json, names, ids)
}

/// An NVMe health-log counter.
fn nvme_counter_of(json: &JsonValue, name: &str) -> (r: Option<i64>)
    ensures
        opt_int(r) == nvme_counter(*json, name),
{
    match json_get(json, "nvme_smart_health_information_log") {
        Some(log) => value_to_i64(json_get(log, name)),
        None => None,
    }
}

fn first_of(a: Option<i64>, b: Option<i64>) -> (r: Option<i64>)
    ensures
        opt_int(r) == first_some(opt_int(a), opt_int(b)),
{
    if a.is_some() {
        a
    } else {
        b
    }
}

/// The report that smartctl's JSON document describes.
pub fn smart_report_from_json(
    json: &JsonValue,
    exit_code: Option<i32>,
    exit_status_description: Vec<String>,
) -> (r: SmartReport)
    ensures
        is_report_of(r, *json, exit_code, exit_status_description@),
{
    proof {
        assert(smartctl_messages(*json) + seq![] =~= smartctl_messages(*json));
    }
    let p_passed: &[&str] = &["smart_status", "passed"];
    assert(str_texts(p_passed@) =~= path2("smart_status", "passed"));
    let passed = match json_pointer(json, p_passed) {
        Some(JsonValue::Bool(b)) => Some(*b),
        _ => None,
    };
    let p_model_name: &[&str] = &["model_name"];
    let p_model_family: &[&str] = &["model_family"];
    let p_device_model: &[&str] = &["device", "model_name"];
    let model_paths_exec: &[&[&str]] = &[p_model_name, p_model_family, p_device_model];
    proof {
        assert(model_paths_exec@ =~= seq![p_model_name, p_model_family, p_device_model]);
        assert(str_texts(p_model_name@) =~= path1("model_name"));
        assert(str_texts(p_model_family@) =~= path1("model_family"));
        assert(str_texts(p_device_model@) =~= path2("device", "model_name"));
        assert(path_texts(model_paths_exec@) =~= model_paths());
    }
    let model = string_at_paths(json, model_paths_exec);
    let serial = string_at_1(json, "serial_number");
    let p_temp: &[&str] = &["temperature", "current"];
    let p_nvme_temp: &[&str] = &["nvme_smart_health_information_log", "temperature"];
    let temp_paths_exec: &[&[&str]] = &[p_temp, p_nvme_temp];
    proof {
        assert(temp_paths_exec@ =~= seq![p_temp, p_nvme_temp]);
        assert(str_texts(p_temp@) =~= path2("temperature", "current"));
        assert(str_texts(p_nvme_temp@) =~= path2(
            "nvme_smart_health_information_log",
            "temperature",
        ));
        assert(path_texts(temp_paths_exec@) =~= temperature_paths());
    }
    let temperature = first_of(
        integer_at_paths(json, temp_paths_exec),
        first_of(
            ata_raw_1(json, "Temperature_Celsius", 194),
            ata_raw_1(json, "Airflow_Temperature_Cel", 190),
        ),
    );
    let power_on_hours = first_of(
        integer_at_2(json, "power_on_time", "hours"),
        ata_raw_1(json, "Power_On_Hours", 9),
    );
    let power_cycles = first_of(
        integer_at_1(json, "power_cycle_count"),
        ata_raw_1(json, "Power_Cycle_Count", 12),
    );
    let reallocated = first_of(
        ata_raw_1(json, "Reallocated_Sector_Ct", 5),
        integer_at_1(json, "scsi_grown_defect_list"),
    );
    let p_self_test: &[&str] = &[
        "ata_smart_self_test_log",
        "standard",
        "table",
        "0",
        "status",
        "string",
    ];
    assert(str_texts(p_self_test@) =~= self_test_path());
    let self_test_status = match json_as_str(json_pointer(json, p_self_test)) {
        Some(t) => Some(t.clone()),
        None => None,
    };
    let limitations = smartctl_messages_of(json);
    let mut report = SmartReport {
        status: SmartProbeStatus::Available,
        available: true,
        passed,
        transport: transport_from_json(json),
        model,
        serial,
        temperature_celsius: temperature,
        power_on_hours,
        power_cycles,
        unsafe_shutdowns: nvme_counter_of(json, "unsafe_shutdowns"),
        percentage_used: nvme_counter_of(json, "percentage_used"),
        reallocated_sectors: reallocated,
        current_pending_sectors: ata_raw_1(json, "Current_Pending_Sector", 197),
        offline_uncorrectable: ata_raw_1(json, "Offline_Uncorrectable", 198),
        media_errors: nvme_counter_of(json, "media_errors"),
        num_err_log_entries: nvme_counter_of(json, "num_err_log_entries"),
        self_test_status,
        smartctl_exit_code: exit_code,
        exit_status_description,
        limitations,
    };
    if !has_usable_smart_facts(&report) {
        report.available = false;
        let code = match exit_code {
            Some(c) => c,
            None => 0,
        };
        report.status = unavailable_status_from_json(code, &report.limitations);
    }
    report
}

/// Reads smartctl's JSON output into a report; the error of an unreadable document is the
/// parser's message.
pub fn parse_smart_json(
    stdout: &str,
    exit_code: Option<i32>,
    exit_status_description: Vec<String>,
) -> (r: Result<SmartReport, String>)
    ensures
        match json_parse(stdout@) {
            Ok(json) => r matches Ok(report) && is_report_of(
                report,
                json,
                exit_code,
                exit_status_description@,
            ),
            Err(m) => r matches Err(e) && e@ == m,
        },
{
    match parse_json(stdout) {
        Ok(json) => Ok(smart_report_from_json(&json, exit_code, exit_status_description)),
        Err(e) => Err(e),
    }
}


// ---------------------------------------------------------------------------
// Exit status of smartctl
// ---------------------------------------------------------------------------
/// The bits of smartctl's exit status, lowest first.
pub open spec fn exit_bit(k: int) -> i32 {
    if k == 0 {
        1
    } else if k == 1 {
        2
    } else if k == 2 {
        4
    } else if k == 3 {
        8
    } else if k == 4 {
        16
    } else if k == 5 {
        32
    } else if k == 6 {
        64
    } else {
        128
    }
}

/// What each bit of smartctl's exit status means, as its manual gives it.
pub open spec fn exit_bit_text(k: int) -> Seq<char> {
    if k == 0 {
        "command line did not parse"@
    } else if k == 1 {
        "device open failed or SMART access failed"@
    } else if k == 2 {
        "SMART status indicates disk failing"@
    } else if k == 3 {
        "prefail attribute is at or below threshold"@
    } else if k == 4 {
        "old-age or prefail attribute is at or below threshold"@
    } else if k == 5 {
        "SMART error log contains errors"@
    } else if k == 6 {
        "SMART self-test log contains errors"@
    } else {
        "device error log contains errors"@
    }
}

/// The meanings of the bits `0..k` that are set in `code`, lowest bit first.
pub open spec fn exit_descriptions_upto(code: i32, k: int) -> Seq<Seq<char>>
    decreases k,
{
    if k <= 0 {
        seq![]
    } else {
        exit_descriptions_upto(code, k - 1) + if code & exit_bit(k - 1) != 0 {
            seq![exit_bit_text(k - 1)]
        } else {
            seq![]
        }
    }
}

/// The meanings of the bits set in smartctl's exit status.
pub open spec fn exit_descriptions(code: i32) -> Seq<Seq<char>> {
    exit_descriptions_upto(code, 8)
}

fn exit_bit_of(k: usize) -> (r: i32)
    requires
        k < 8,
    ensures
        r == exit_bit(k as int),
{
    if k == 0 {
        1
    } else if k == 1 {
        2
    } else if k == 2 {
        4
    } else if k == 3 {
        8
    } else if k == 4 {
        16
    } else if k == 5 {
        32
    } else if k == 6 {
        64
    } else {
        128
    }
}

fn exit_bit_text_of(k: usize) -> (r: String)
    requires
        k < 8,
    ensures
        r@ == exit_bit_text(k as int),
{
    if k == 0 {
        "command line did not parse".to_string()
    } else if k == 1 {
        "device open failed or SMART access failed".to_string()
    } else if k == 2 {
        "SMART status indicates disk failing".to_string()
    } else if k == 3 {
        "prefail attribute is at or below threshold".to_string()
    } else if k == 4 {
        "old-age or prefail attribute is at or below threshold".to_string()
    } else if k == 5 {
        "SMART error log contains errors".to_string()
    } else if k == 6 {
        "SMART self-test log contains errors".to_string()
    } else {
        "device error log contains errors".to_string()
    }
}

/// The meanings of the bits set in smartctl's exit status.
pub fn describe_exit_status(code: i32) -> (r: Vec<String>)
    ensures
        string_texts(r@) == exit_descriptions(code),
{
    let mut out: Vec<String> = Vec::new();
    let mut k: usize = 0;
    while k < 8
        invariant
            k <= 8,
            string_texts(out@) == exit_descriptions_upto(code, k as int),
        decreases 8 - k,
    {
        let ghost before = string_texts(out@);
        if code & exit_bit_of(k) != 0 {
            out.push(exit_bit_text_of(k));
            assert(string_texts(out@) =~= before + seq![exit_bit_text(k as int)]);
        } else {
            assert(before + seq![] =~= before);
        }
        k = k + 1;
    }
    out
}

/// The exit-status bits that mean smartctl could not reach the device's SMART data.
pub fn smart_access_bits() -> (r: i32)
    ensures
        r == 3,
{
    let r: i32 = 1 | 2;
    assert(1i32 | 2i32 == 3i32) by (bit_vector);
    r
}

/// The exit-status bits that report disk trouble.
pub fn smart_failure_bits() -> (r: i32)
    ensures
        r == 252,
{
    let r: i32 = 4 | 8 | 16 | 32 | 64 | 128;
    assert(4i32 | 8i32 | 16i32 | 32i32 | 64i32 | 128i32 == 252i32) by (bit_vector);
    r
}

/// Whether a drive counts as healthy, from its SMART verdict and smartctl's exit status.
pub open spec fn health_ok(passed: Option<bool>, code: i32) -> bool {
    if code & 3 != 0 {
        false
    } else {
        match passed {
            Some(p) => p && code & 252 == 0,
            None => code == 0 || code & 252 == 0,
        }
    }
}

/// Whether a drive counts as healthy, from its report and smartctl's exit status.
pub fn infer_health_ok(report: &SmartReport, code: i32) -> (r: bool)
    ensures
        r == health_ok(report.passed, code),
{
    if code & smart_access_bits() != 0 {
        return false;
    }
    if let Some(passed) = report.passed {
        return passed && code & smart_failure_bits() == 0;
    }
    code == 0 || code & smart_failure_bits() == 0
}

// ---------------------------------------------------------------------------
// Reports and outcomes without SMART data
// ---------------------------------------------------------------------------
/// `r` is a report without SMART facts.
pub open spec fn is_unavailable_report(
    r: SmartReport,
    exit_code: Option<i32>,
    status: SmartProbeStatus,
    exit_status_description: Seq<Seq<char>>,
    limitations: Seq<Seq<char>>,
) -> bool {
    &&& r.status == status
    &&& !r.available
    &&& r.passed is None
    &&& r.transport == SmartTransport::Unknown
    &&& r.model is None && r.serial is None && r.temperature_celsius is None
    &&& r.power_on_hours is None && r.power_cycles is None && r.unsafe_shutdowns is None
    &&& r.percentage_used is None && r.reallocated_sectors is None
    &&& r.current_pending_sectors is None && r.offline_uncorrectable is None
    &&& r.media_errors is None && r.num_err_log_entries is None && r.self_test_status is None
    &&& r.smartctl_exit_code == exit_code
    &&& string_texts(r.exit_status_description@) == exit_status_description
    &&& string_texts(r.limitations@) == limitations
}

/// A report without SMART facts.
pub fn unavailable_report(
    exit_code: Option<i32>,
    status: SmartProbeStatus,
    exit_status_description: Vec<String>,
    limitations: Vec<String>,
) -> (r: SmartReport)
    ensures
        is_unavailable_report(
            r,
            exit_code,
            status,
            string_texts(exit_status_description@),
            string_texts(limitations@),
        ),
        r.exit_status_description@ == exit_status_description@,
        r.limitations@ == limitations@,
{
    SmartReport {
        status,
        available: false,
        passed: None,
        transport: SmartTransport::Unknown,
        model: None,
        serial: None,
        temperature_celsius: None,
        power_on_hours: None,
        power_cycles: None,
        unsafe_shutdowns: None,
        percentage_used: None,
        reallocated_sectors: None,
        current_pending_sectors: None,
        offline_uncorrectable: None,
        media_errors: None,
        num_err_log_entries: None,
        self_test_status: None,
        smartctl_exit_code: exit_code,
        exit_status_description,
        limitations,
    }
}

/// The exit-status meanings of an optional exit code (none without one).
pub open spec fn optional_exit_descriptions(exit_code: Option<i32>) -> Seq<Seq<char>> {
    match exit_code {
        Some(c) => exit_descriptions(c),
        None => seq![],
    }
}

/// `o` is the outcome of a probe that yielded no SMART data, for the reason `anomaly`.
pub open spec fn is_unavailable_outcome(
    o: SmartOutcome,
    exit_code: Option<i32>,
    status: SmartProbeStatus,
    anomaly: Seq<char>,
) -> bool {
    &&& !o.health_ok
    &&& o.exit_code == exit_code
    &&& o.report matches Some(r) && is_unavailable_report(
        r,
        exit_code,
        status,
        optional_exit_descriptions(exit_code),
        seq![anomaly],
    )
    &&& string_texts(o.anomalies@) == seq![anomaly]
}

/// The outcome of a probe that yielded no SMART data.
pub fn unavailable_outcome(exit_code: Option<i32>, status: SmartProbeStatus, anomaly: String) -> (r:
    SmartOutcome)
    ensures
        is_unavailable_outcome(r, exit_code, status, anomaly@),
{
    let descriptions = match exit_code {
        Some(c) => describe_exit_status(c),
        None => Vec::new(),
    };
    assert(string_texts(descriptions@) =~= optional_exit_descriptions(exit_code));
    let limitations = vec![anomaly.clone()];
    let anomalies = vec![anomaly];
    assert(string_texts(limitations@) =~= seq![anomaly@]);
    assert(string_texts(anomalies@) =~= seq![anomaly@]);
    SmartOutcome {
        health_ok: false,
        exit_code,
        report: Some(unavailable_report(exit_code, status, descriptions, limitations)),
        anomalies,
    }
}

/// The outcome for a device that SMART does not apply to.
pub fn skipped(reason: &str) -> (r: SmartOutcome)
    ensures
        r.health_ok,
        r.exit_code is None,
        r.anomalies@.len() == 0,
        r.report matches Some(rep) && is_unavailable_report(
            rep,
            None,
            SmartProbeStatus::NotApplicable,
            seq![],
            seq!["SMART not applicable: "@ + reason@],
        ),
{
    let note = concat("SMART not applicable: ", reason);
    let limitations = vec![note];
    assert(string_texts(limitations@) =~= seq!["SMART not applicable: "@ + reason@]);
    let descriptions: Vec<String> = Vec::new();
    assert(string_texts(descriptions@) =~= seq![]);
    SmartOutcome {
        health_ok: true,
        exit_code: None,
        report: Some(
            unavailable_report(None, SmartProbeStatus::NotApplicable, descriptions, limitations),
        ),
        anomalies: Vec::new(),
    }
}


// ---------------------------------------------------------------------------
// Devices without SMART
// ---------------------------------------------------------------------------
/// A virtual or mapped block device, which has no SMART data: a zram, loop, RAM-disk or
/// device-mapper node by its name, or a loop, LVM or dm-crypt device by its lsblk type.
pub open spec fn is_virtual_device(name: Seq<char>, kind: Seq<char>) -> bool {
    occurs_at(name, "zram"@, 0) || occurs_at(name, "loop"@, 0) || occurs_at(name, "ram"@, 0)
        || occurs_at(name, "dm-"@, 0) || kind == "loop"@ || kind == "lvm"@ || kind == "crypt"@
}

/// Why SMART is skipped for the block device `name` of lsblk type `kind`: its reason when
/// the device is virtual or mapped, none when it should be probed.
pub fn smart_skip_reason(name: &str, kind: &str) -> (r: Option<String>)
    ensures
        match r {
            Some(reason) => is_virtual_device(name@, kind@) && reason@ == name@
                + " is a virtual or mapped block device ("@ + kind@ + ")"@,
            None => !is_virtual_device(name@, kind@),
        },
{
    let n = chars_of(name);
    if starts_with(&n, "zram") || starts_with(&n, "loop") || starts_with(&n, "ram")
        || starts_with(&n, "dm-") || str_eq(kind, "loop") || str_eq(kind, "lvm") || str_eq(
        kind,
        "crypt",
    ) {
        let mut reason = concat(name, " is a virtual or mapped block device (");
        push_str(&mut reason, kind);
        push_str(&mut reason, ")");
        Some(reason)
    } else {
        None
    }
}

// ---------------------------------------------------------------------------
// Probing a drive
// ---------------------------------------------------------------------------
/// How a run of `smartctl -x -j` ended.
#[derive(Debug, Clone)]
pub enum SmartctlRun {
    /// smartctl ran; its output streams (decoded as UTF-8, lossily) and its exit code
    /// (0 when the process reported none).
    Finished { stdout: String, stderr: String, exit_code: i32 },
    /// smartctl (or pkexec) could not be started; the error's message.
    SpawnFailed { error: String },
}

/// The output shows that smartctl itself is missing.
pub open spec fn tool_missing(stdout: Seq<char>, stderr: Seq<char>) -> bool {
    let t = lowercase(stdout + "\n"@ + stderr);
    contains(t, "no such file"@) || contains(t, "not found"@)
}

/// The error stream shows that access to the device was refused.
pub open spec fn access_refused(stderr: Seq<char>) -> bool {
    let t = lowercase(stderr);
    contains(t, "not authorized"@) || contains(t, "authentication failed"@) || contains(
        t,
        "operation not permitted"@,
    )
}

/// Whether smartctl's output shows that smartmontools is missing.
pub fn smartmontools_missing(stdout: &str, stderr: &str) -> (r: bool)
    ensures
        r == tool_missing(stdout@, stderr@),
{
    let mut combined = String::new();
    push_str(&mut combined, stdout);
    push_str(&mut combined, "\n");
    push_str(&mut combined, stderr);
    let lowered = to_lowercase(combined.as_str());
    let t = chars_of(lowered.as_str());
    contains_str(&t, "no such file") || contains_str(&t, "not found")
}

/// Whether smartctl's error stream shows a refused access.
pub fn access_denied(stderr: &str) -> (r: bool)
    ensures
        r == access_refused(stderr@),
{
    let lowered = to_lowercase(stderr);
    let t = chars_of(lowered.as_str());
    contains_str(&t, "not authorized") || contains_str(&t, "authentication failed")
        || contains_str(&t, "operation not permitted")
}

pub open spec fn access_denied_text(device_node: Seq<char>, direct: bool) -> Seq<char> {
    if direct {
        "anomaly: smartctl access denied on "@ + device_node
    } else {
        "anomaly: smartctl access denied by polkit authentication on "@ + device_node
    }
}

/// The anomaly for a refused access; `direct` when smartctl ran without pkexec.
pub fn access_denied_anomaly(device_node: &str, direct: bool) -> (r: String)
    ensures
        r@ == access_denied_text(device_node@, direct),
{
    if direct {
        concat("anomaly: smartctl access denied on ", device_node)
    } else {
        concat("anomaly: smartctl access denied by polkit authentication on ", device_node)
    }
}

pub open spec fn execution_failed_text(direct: bool, err: Seq<char>) -> Seq<char> {
    if direct {
        "anomaly: smartctl execution failed ("@ + err + ")"@
    } else {
        "anomaly: privileged execution via pkexec failed ("@ + err + ")"@
    }
}

/// The anomaly for a process that could not be started, given its error's message.
pub fn execution_failed_anomaly(direct: bool, err: &str) -> (r: String)
    ensures
        r@ == execution_failed_text(direct, err@),
{
    let mut r = if direct {
        concat("anomaly: smartctl execution failed (", err)
    } else {
        concat("anomaly: privileged execution via pkexec failed (", err)
    };
    push_str(&mut r, ")");
    r
}

pub open spec fn tool_missing_text(device_node: Seq<char>) -> Seq<char> {
    "anomaly: smartmontools missing or execution failed on "@ + device_node
}

pub open spec fn exit_code_text(device_node: Seq<char>, code: i32) -> Seq<char> {
    "anomaly: smartctl reported exit code "@ + int_text(code as int) + " on "@ + device_node
        + ": "@ + join(exit_descriptions(code), ", "@)
}

pub open spec fn parse_failed_text(device_node: Seq<char>, err: Seq<char>, code: i32) -> Seq<char> {
    "anomaly: smartctl JSON parsing failed on "@ + device_node + ": "@ + err + if exit_descriptions(
        code,
    ).len() > 0 {
        "; exit status: "@ + join(exit_descriptions(code), ", "@)
    } else {
        seq![]
    }
}

/// The white-space-trimmed error stream as a limitation note, when it holds anything.
pub open spec fn stderr_notes(stderr: Seq<char>) -> Seq<Seq<char>> {
    if trim(stderr).len() > 0 {
        seq![trim(stderr)]
    } else {
        seq![]
    }
}

/// `o` is what a run of smartctl on `device_node` means.
pub open spec fn is_outcome_of_run(
    o: SmartOutcome,
    device_node: Seq<char>,
    direct: bool,
    run: SmartctlRun,
) -> bool {
    match run {
        SmartctlRun::SpawnFailed { error } => is_unavailable_outcome(
            o,
            None,
            SmartProbeStatus::ExecutionFailed,
            execution_failed_text(direct, error@),
        ),
        SmartctlRun::Finished { stdout, stderr, exit_code } => {
            if tool_missing(stdout@, stderr@) {
                is_unavailable_outcome(
                    o,
                    Some(exit_code),
                    SmartProbeStatus::ToolMissing,
                    tool_missing_text(device_node),
                )
            } else if access_refused(stderr@) {
                is_unavailable_outcome(
                    o,
                    Some(exit_code),
                    SmartProbeStatus::AccessDenied,
                    access_denied_text(device_node, direct),
                )
            } else {
                match json_parse(stdout@) {
                    Ok(json) => {
                        &&& o.exit_code == Some(exit_code)
                        &&& o.report matches Some(rep) && is_report_with_notes(
                            rep,
                            json,
                            Some(exit_code),
                            rep.exit_status_description@,
                            stderr_notes(stderr@),
                        ) && string_texts(rep.exit_status_description@) == exit_descriptions(
                            exit_code,
                        ) && o.health_ok == health_ok(rep.passed, exit_code)
                        &&& string_texts(o.anomalies@) == if exit_descriptions(exit_code).len()
                            > 0 {
                            seq![exit_code_text(device_node, exit_code)]
                        } else {
                            seq![]
                        }
                    },
                    Err(m) => {
                        &&& o.health_ok == (exit_code == 0)
                        &&& o.exit_code == Some(exit_code)
                        &&& o.report matches Some(rep) && is_unavailable_report(
                            rep,
                            Some(exit_code),
                            SmartProbeStatus::ParseFailed,
                            exit_descriptions(exit_code),
                            seq![m],
                        )
                        &&& string_texts(o.anomalies@) == seq![
                            parse_failed_text(device_node, m, exit_code),
                        ]
                    },
                }
            }
        },
    }
}

/// The command that reads a drive's SMART data: `smartctl -x -j /dev/<device_node>`,
/// run directly when the effective user is root and through pkexec otherwise; the flag
/// tells whether it runs directly.
pub fn smartctl_invocation(device_node: &str, euid: Option<u32>) -> (r: (String, Vec<String>, bool))
    ensures
        r.2 == (euid == Some(0u32)),
        r.2 ==> r.0@ == "smartctl"@ && string_texts(r.1@) == seq![
            "-x"@,
            "-j"@,
            "/dev/"@ + device_node@,
        ],
        !r.2 ==> r.0@ == "pkexec"@ && string_texts(r.1@) == seq![
            "smartctl"@,
            "-x"@,
            "-j"@,
            "/dev/"@ + device_node@,
        ],
{
    let dev_path = concat("/dev/", device_node);
    let direct = match euid {
        Some(id) => id == 0,
        None => false,
    };
    if direct {
        let args = vec!["-x".to_string(), "-j".to_string(), dev_path];
        assert(string_texts(args@) =~= seq!["-x"@, "-j"@, "/dev/"@ + device_node@]);
        ("smartctl".to_string(), args, true)
    } else {
        let args = vec!["smartctl".to_string(), "-x".to_string(), "-j".to_string(), dev_path];
        assert(string_texts(args@) =~= seq!["smartctl"@, "-x"@, "-j"@, "/dev/"@ + device_node@]);
        ("pkexec".to_string(), args, false)
    }
}

/// What a run of `smartctl -x -j /dev/<device_node>` means for the drive; `direct` when
/// smartctl ran without pkexec.
pub fn interpret_smartctl_run(device_node: &str, direct: bool, run: SmartctlRun) -> (r:
    SmartOutcome)
    ensures
        is_outcome_of_run(r, device_node@, direct, run),
{
    match run {
        SmartctlRun::SpawnFailed { error } => unavailable_outcome(
            None,
            SmartProbeStatus::ExecutionFailed,
            execution_failed_anomaly(direct, error.as_str()),
        ),
        SmartctlRun::Finished { stdout, stderr, exit_code } => {
            let code = exit_code;
            let descriptions = describe_exit_status(code);
            if smartmontools_missing(stdout.as_str(), stderr.as_str()) {
                return unavailable_outcome(
                    Some(code),
                    SmartProbeStatus::ToolMissing,
                    concat(
                        "anomaly: smartmontools missing or execution failed on ",
                        device_node,
                    ),
                );
            }
            if access_denied(stderr.as_str()) {
                return unavailable_outcome(
                    Some(code),
                    SmartProbeStatus::AccessDenied,
                    access_denied_anomaly(device_node, direct),
                );
            }
            match parse_smart_json(stdout.as_str(), Some(code), descriptions.clone()) {
                Ok(report) => {
                    let mut report = report;
                    let ghost before = string_texts(report.limitations@);
                    let note = trimmed_chars(stderr.as_str());
                    if note.len() > 0 {
                        report.limitations.push(string_of(&note));
                        assert(string_texts(report.limitations@) =~= before + seq![note@]);
                    } else {
                        assert(before + seq![] =~= before);
                    }
                    let health_ok = infer_health_ok(&report, code);
                    let mut anomalies: Vec<String> = Vec::new();
                    if descriptions.len() > 0 {
                        let mut a = String::new();
                        push_str(&mut a, "anomaly: smartctl reported exit code ");
                        push_int(&mut a, code as i64);
                        push_str(&mut a, " on ");
                        push_str(&mut a, device_node);
                        push_str(&mut a, ": ");
                        let joined = join_strings(&descriptions, ", ");
                        push_str(&mut a, joined.as_str());
                        anomalies.push(a);
                        assert(string_texts(anomalies@) =~= seq![
                            exit_code_text(device_node@, code),
                        ]);
                    } else {
                        assert(string_texts(anomalies@) =~= seq![]);
                    }
                    SmartOutcome {
                        health_ok,
                        exit_code: Some(code),
                        report: Some(report),
                        anomalies,
                    }
                },
                Err(err) => {
                    let mut anomaly = String::new();
                    push_str(&mut anomaly, "anomaly: smartctl JSON parsing failed on ");
                    push_str(&mut anomaly, device_node);
                    push_str(&mut anomaly, ": ");
                    push_str(&mut anomaly, err.as_str());
                    if descriptions.len() > 0 {
                        push_str(&mut anomaly, "; exit status: ");
                        let joined = join_strings(&descriptions, ", ");
                        push_str(&mut anomaly, joined.as_str());
                    }
                    assert(anomaly@ =~= parse_failed_text(device_node@, err@, code));
                    let limitations = vec![err];
                    let anomalies = vec![anomaly];
                    assert(string_texts(limitations@) =~= seq![limitations@[0]@]);
                    assert(string_texts(anomalies@) =~= seq![anomalies@[0]@]);
                    SmartOutcome {
                        health_ok: code == 0,
                        exit_code: Some(code),
                        report: Some(
                            unavailable_report(
                                Some(code),
                                SmartProbeStatus::ParseFailed,
                                descriptions,
                                limitations,
                            ),
                        ),
                        anomalies,
                    }
                },
            }
        },
    }
}

// ---------------------------------------------------------------------------
// Effective user id
// ---------------------------------------------------------------------------
/// The effective uid on a `Uid:` line of `/proc/self/status`: its second number.
pub open spec fn uid_line_euid(line: Seq<char>) -> Option<int> {
    if occurs_at(line, "Uid:"@, 0) {
        let fields = words(line.skip(4));
        if fields.len() >= 2 {
            parse_int(fields[1], false, 0, u32::MAX as int)
        } else {
            None
        }
    } else {
        None
    }
}

/// The first `Uid:` line that yields an effective uid, and that uid.
pub open spec fn euid_from_lines(lines: Seq<Seq<char>>) -> Option<int>
    decreases lines.len(),
{
    if lines.len() == 0 {
        None
    } else {
        let e = uid_line_euid(lines[0]);
        if e is Some {
            e
        } else {
            euid_from_lines(lines.drop_first())
        }
    }
}

/// The effective uid that the text of `/proc/self/status` gives.
pub fn euid_from_proc_status(status: &str) -> (r: Option<u32>)
    ensures
        match r {
            Some(u) => euid_from_lines(lines(status@)) == Some(u as int),
            None => euid_from_lines(lines(status@)) is None,
        },
{
    let text = chars_of(status);
    let ls = lines_of(&text);
    let ghost all = texts(ls@);
    let mut i: usize = 0;
    assert(all.skip(0) =~= all);
    while i < ls.len()
        invariant
            i <= ls.len(),
            all == texts(ls@),
            all == lines(status@),
            euid_from_lines(all) == euid_from_lines(all.skip(i as int)),
        decreases ls.len() - i,
    {
        assert(all.skip(i as int)[0] == ls@[i as int]@);
        assert(all.skip(i as int).drop_first() =~= all.skip(i + 1));
        let line = &ls[i];
        if starts_with(line, "Uid:") {
            proof {
                reveal_strlit("Uid:");
            }
            let rest = sub_chars(line, 4, line.len());
            assert(rest@ =~= line@.skip(4));
            let fields = words_of(&rest);
            if fields.len() >= 2 {
                let e = parse_u32(&fields[1]);
                if e.is_some() {
                    return e;
                }
            }
        }
        i = i + 1;
    }
    None
}


// ---------------------------------------------------------------------------
// Laws
// ---------------------------------------------------------------------------
/// The exit-status meanings of the bits `0..k` are empty exactly when none of those bits
/// is set.
pub proof fn lemma_no_exit_descriptions(code: i32, k: int)
    requires
        0 <= k <= 8,
    ensures
        exit_descriptions_upto(code, k).len() == 0 <==> forall|j: int|
            0 <= j < k ==> code & #[trigger] exit_bit(j) == 0,
    decreases k,
{
    if k > 0 {
        lemma_no_exit_descriptions(code, k - 1);
        if exit_descriptions_upto(code, k).len() == 0 {
            assert forall|j: int| 0 <= j < k implies code & #[trigger] exit_bit(j) == 0 by {
                if j < k - 1 {
                } else {
                    assert(j == k - 1);
                }
            }
        }
    }
}

/// A drive counts as healthy exactly when its SMART verdict is not a failure and
/// smartctl's exit status sets none of the bits that its manual describes.
pub proof fn health_verdict_law(passed: Option<bool>, code: i32)
    ensures
        health_ok(passed, code) <==> (passed != Some(false) && exit_descriptions(code).len()
            == 0),
{
    lemma_no_exit_descriptions(code, 8);
    let all_clear = forall|j: int| 0 <= j < 8 ==> code & #[trigger] exit_bit(j) == 0;
    assert(exit_bit(0) == 1 && exit_bit(1) == 2 && exit_bit(2) == 4 && exit_bit(3) == 8);
    assert(exit_bit(4) == 16 && exit_bit(5) == 32 && exit_bit(6) == 64 && exit_bit(7) == 128);
    assert(all_clear <==> (code & 1 == 0 && code & 2 == 0 && code & 4 == 0 && code & 8 == 0
        && code & 16 == 0 && code & 32 == 0 && code & 64 == 0 && code & 128 == 0)) by {
        if code & 1 == 0 && code & 2 == 0 && code & 4 == 0 && code & 8 == 0 && code & 16 == 0
            && code & 32 == 0 && code & 64 == 0 && code & 128 == 0 {
            assert forall|j: int| 0 <= j < 8 implies code & #[trigger] exit_bit(j) == 0 by {
                assert(j == 0 || j == 1 || j == 2 || j == 3 || j == 4 || j == 5 || j == 6 || j
                    == 7);
            }
        }
        if all_clear {
            assert(code & exit_bit(0) == 0 && code & exit_bit(1) == 0 && code & exit_bit(2) == 0);
            assert(code & exit_bit(3) == 0 && code & exit_bit(4) == 0 && code & exit_bit(5) == 0);
            assert(code & exit_bit(6) == 0 && code & exit_bit(7) == 0);
        }
    }
    assert((code & 1 == 0 && code & 2 == 0 && code & 4 == 0 && code & 8 == 0 && code & 16 == 0
        && code & 32 == 0 && code & 64 == 0 && code & 128 == 0) <==> (code & 3 == 0 && code & 252
        == 0)) by (bit_vector);
    assert(code == 0 ==> code & 3 == 0 && code & 252 == 0) by (bit_vector);
}

/// A report read from smartctl's JSON is marked available exactly when its status is
/// `Available`.
pub proof fn report_availability_law(
    r: SmartReport,
    json: JsonValue,
    exit_code: Option<i32>,
    exit_status_description: Seq<String>,
    notes: Seq<Seq<char>>,
)
    requires
        is_report_with_notes(r, json, exit_code, exit_status_description, notes),
    ensures
        r.available <==> r.status == SmartProbeStatus::Available,
{
}

/// Every run of smartctl yields a report that carries the run's exit code, and a drive
/// judged healthy carries no anomaly unless smartctl's output could not be read.
pub proof fn run_outcome_law(o: SmartOutcome, device_node: Seq<char>, direct: bool, run: SmartctlRun)
    requires
        is_outcome_of_run(o, device_node, direct, run),
    ensures
        o.report matches Some(rep) && rep.smartctl_exit_code == o.exit_code,
        o.health_ok && o.anomalies@.len() > 0 ==> (o.report matches Some(rep) && rep.status
            == SmartProbeStatus::ParseFailed),
{
    match run {
        SmartctlRun::SpawnFailed { .. } => {},
        SmartctlRun::Finished { stdout, stderr, exit_code } => {
            if !tool_missing(stdout@, stderr@) && !access_refused(stderr@) {
                match json_parse(stdout@) {
                    Ok(json) => {
                        let rep = o.report->Some_0;
                        health_verdict_law(rep.passed, exit_code);
                        if o.health_ok {
                            assert(string_texts(o.anomalies@).len() == 0);
                        }
                    },
                    Err(m) => {},
                }
            }
        },
    }
}

/// The JSON Pointer `/<k1>/<k2>` on an object that has a member `k1` leads where the
/// member lookups lead.
proof fn lemma_pointer_through_members(a: JsonValue, k1: Seq<char>, k2: Seq<char>, b: JsonValue)
    requires
        get(a, k1) == Some(b),
        get(b, k2) is Some,
    ensures
        pointer(a, seq![k1, k2]) == get(b, k2),
{
    let toks = seq![k1, k2];
    assert(toks.drop_first() =~= seq![k2]);
    assert(seq![k2].drop_first() =~= Seq::<Seq<char>>::empty());
    assert(step(a, k1) == Some(b));
    assert(step(b, k2) == get(b, k2));
    let c = get(b, k2)->Some_0;
    assert(pointer(c, Seq::<Seq<char>>::empty()) == Some(c));
    assert(pointer(b, seq![k2]) == pointer(c, seq![k2].drop_first()));
    assert(pointer(b, seq![k2]) == get(b, k2));
    assert(pointer(a, toks) == pointer(b, toks.drop_first()));
}

/// The count read from an ATA attribute entry is its raw count: an integer `raw.value`
/// gives the count; without `raw.value`, a `raw.string` holding an integer gives it; the
/// normalized `value` field is read only when the entry has no `raw` member.
pub proof fn attribute_raw_count_law(a: JsonValue, raw: JsonValue)
    ensures
        forall|n: u64|
            get(a, "raw"@) == Some(raw) && get(raw, "value"@) == Some(
                JsonValue::Number(JsonNumber::PosInt(n)),
            ) && n <= i64::MAX ==> #[trigger] attribute_raw(a) == Some(n as int),
        forall|n: i64|
            get(a, "raw"@) == Some(raw) && get(raw, "value"@) == Some(
                JsonValue::Number(JsonNumber::NegInt(n)),
            ) ==> #[trigger] attribute_raw(a) == Some(n as int),
        forall|s: String|
            get(a, "raw"@) == Some(raw) && get(raw, "value"@) is None && get(raw, "string"@)
                == Some(JsonValue::Str(s)) && parse_int(
                trim(s@),
                true,
                i64::MIN as int,
                i64::MAX as int,
            ) is Some ==> #[trigger] attribute_raw(a) == parse_int(
                trim(s@),
                true,
                i64::MIN as int,
                i64::MAX as int,
            ),
        get(a, "raw"@) is None ==> attribute_raw(a) == value_i64(get(a, "value"@)),
{
    reveal_strlit("raw");
    reveal_strlit("value");
    reveal_strlit("string");
    let pv = path2("raw", "value");
    let ps = path2("raw", "string");
    assert(pv == seq!["raw"@, "value"@]);
    assert(ps == seq!["raw"@, "string"@]);
    if get(a, "raw"@) == Some(raw) {
        if get(raw, "value"@) is Some {
            lemma_pointer_through_members(a, "raw"@, "value"@, raw);
        } else {
            if get(raw, "string"@) is Some {
                lemma_pointer_through_members(a, "raw"@, "string"@, raw);
            }
            // raw has no `value` member: the pointer to it leads nowhere a count is read.
            assert(value_i64(pointer(a, pv)) is None) by {
                assert(pv.drop_first() =~= seq!["value"@]);
                assert(seq!["value"@].drop_first() =~= Seq::<Seq<char>>::empty());
                assert(step(a, "raw"@) == Some(raw));
                assert(pointer(a, pv) == pointer(raw, seq!["value"@]));
                assert(step(raw, "value"@) is None);
                match raw {
                    JsonValue::Array(items) => {
                        assert(index_token("value"@) is None) by {
                            assert("value"@[0] == 'v');
                            assert(!crate::text::is_digit('v'));
                        }
                    },
                    _ => {},
                }
            }
        }
    } else if get(a, "raw"@) is None {
        assert(value_i64(pointer(a, pv)) is None && value_i64(pointer(a, ps)) is None) by {
            assert(pv.drop_first() =~= seq!["value"@]);
            assert(ps.drop_first() =~= seq!["string"@]);
            match a {
                JsonValue::Object(entries) => {
                    assert(step(a, "raw"@) is None);
                },
                JsonValue::Array(items) => {
                    assert(index_token("raw"@) is None) by {
                        assert("raw"@[0] == 'r');
                        assert(!crate::text::is_digit('r'));
                    }
                },
                _ => {},
            }
        }
    }
}

} // verus!
