//! JSON documents as the diagnostics read them, and lookups by JSON Pointer tokens.
use vstd::prelude::*;

verus! {

/// A JSON number as `serde_json` keeps it: a non-negative integer, a negative integer,
/// or a floating-point value (whose digits no rule of this crate reads).
#[derive(Debug, Clone, PartialEq, Eq)]
pub enum JsonNumber {
    PosInt(u64),
    NegInt(i64),
    Float,
}

/// A JSON document. Object members are kept in the order the parser yields them.
#[derive(Debug)]
pub enum JsonValue {
    Null,
    Bool(bool),
    Number(JsonNumber),
    Str(String),
    Array(Vec<JsonValue>),
    Object(Vec<(String, JsonValue)>),
}

#[verifier::external_type_specification]
#[verifier::external_body]
pub struct ExSerdeJsonValue(serde_json::Value);

/// What `serde_json::from_str::<serde_json::Value>` gives for a text: the document it
/// parses, or the message of its error.
pub uninterp spec fn json_parse(text: Seq<char>) -> Result<JsonValue, Seq<char>>;

/// Moves a `serde_json::Value` into a `JsonValue`, variant by variant.
#[verifier::external_body]
fn json_from_value(v: serde_json::Value) -> JsonValue {
    match v {
        serde_json::Value::Null => JsonValue::Null,
        serde_json::Value::Bool(b) => JsonValue::Bool(b),
        serde_json::Value::Number(n) => JsonValue::Number(match (n.as_u64(), n.as_i64()) {
            (Some(u), _) => JsonNumber::PosInt(u),
            (None, Some(i)) => JsonNumber::NegInt(i),
            (None, None) => JsonNumber::Float,
        }),
        serde_json::Value::String(s) => JsonValue::Str(s),
        serde_json::Value::Array(a) => JsonValue::Array(a.into_iter().map(json_from_value).collect()),
        serde_json::Value::Object(m) => JsonValue::Object(m.into_iter().map(|(k, v)| (k, json_from_value(v))).collect()),
    }
}

/// Calls `serde_json::from_str::<serde_json::Value>`. Its result, as a `JsonValue`, or
/// the text of its error, is named `json_parse` of the input.
#[verifier::external_body]
fn serde_parse(text: &str) -> (r: Result<JsonValue, String>)
    ensures
        match r {
            Ok(v) => json_parse(text@) == Ok::<JsonValue, Seq<char>>(v),
            Err(m) => json_parse(text@) == Err::<JsonValue, Seq<char>>(m@),
        },
{
    match serde_json::from_str::<serde_json::Value>(text) {
        Ok(v) => Ok(json_from_value(v)),
        Err(e) => Err(e.to_string()),
    }
}

/// A JSON document read from text, or the message of the error that refuses the text.
pub fn parse_json(text: &str) -> (r: Result<JsonValue, String>)
    ensures
        match r {
            Ok(v) => json_parse(text@) == Ok::<JsonValue, Seq<char>>(v),
            Err(m) => json_parse(text@) == Err::<JsonValue, Seq<char>>(m@),
        },
{
    serde_parse(text)
}

// ---------------------------------------------------------------------------
// Lookups
// ---------------------------------------------------------------------------
/// The value of the first member named `key`.
pub open spec fn member(entries: Seq<(String, JsonValue)>, key: Seq<char>) -> Option<JsonValue>
    decreases entries.len(),
{
    if entries.len() == 0 {
        None
    } else if entries[0].0@ == key {
        Some(entries[0].1)
    } else {
        member(entries.drop_first(), key)
    }
}

/// What `Value::get` with a string key gives.
pub open spec fn get(v: JsonValue, key: Seq<char>) -> Option<JsonValue> {
    match v {
        JsonValue::Object(entries) => member(entries@, key),
        _ => None,
    }
}

/// The array index a pointer token names: decimal digits, no sign, no leading zero.
pub open spec fn index_token(t: Seq<char>) -> Option<int> {
    if t.len() > 0 && (t[0] == '+' || (t[0] == '0' && t.len() != 1)) {
        None
    } else {
        crate::text::parse_int(t, false, 0, usize::MAX as int)
    }
}

/// One step of a JSON Pointer: a member of an object, or an element of an array.
pub open spec fn step(v: JsonValue, token: Seq<char>) -> Option<JsonValue> {
    match v {
        JsonValue::Object(entries) => member(entries@, token),
        JsonValue::Array(items) => match index_token(token) {
            Some(i) => if i < items@.len() {
                Some(items@[i])
            } else {
                None
            },
            None => None,
        },
        _ => None,
    }
}

/// What `Value::pointer` gives for the pointer made of `tokens` (each preceded by `/`).
pub open spec fn pointer(v: JsonValue, tokens: Seq<Seq<char>>) -> Option<JsonValue>
    decreases tokens.len(),
{
    if tokens.len() == 0 {
        Some(v)
    } else {
        match step(v, tokens[0]) {
            Some(c) => pointer(c, tokens.drop_first()),
            None => None,
        }
    }
}

/// The texts of a list of string slices.
pub open spec fn str_texts(tokens: Seq<&str>) -> Seq<Seq<char>> {
    tokens.map_values(|t: &str| t@)
}

pub open spec fn as_str(v: Option<JsonValue>) -> Option<Seq<char>> {
    match v {
        Some(JsonValue::Str(s)) => Some(s@),
        _ => None,
    }
}

pub open spec fn as_bool(v: Option<JsonValue>) -> Option<bool> {
    match v {
        Some(JsonValue::Bool(b)) => Some(b),
        _ => None,
    }
}

/// The value of `Value::get(key)` on an object.
pub fn json_get<'a>(v: &'a JsonValue, key: &str) -> (r: Option<&'a JsonValue>)
    ensures
        r matches Some(c) ==> get(*v, key@) == Some(*c),
        r is None ==> get(*v, key@) is None,
{
    match v {
        JsonValue::Object(entries) => {
            let kv = crate::text::chars_of(key);
            let mut i: usize = 0;
            assert(entries@.skip(0) =~= entries@);
            while i < entries.len()
                invariant
                    i <= entries.len(),
                    kv@ == key@,
                    get(*v, key@) == member(entries@, key@),
                    member(entries@, key@) == member(entries@.skip(i as int), key@),
                decreases entries.len() - i,
            {
                assert(entries@.skip(i as int).drop_first() =~= entries@.skip(i + 1));
                assert(entries@.skip(i as int)[0] == entries@[i as int]);
                if crate::text::same_text(&kv, entries[i].0.as_str()) {
                    return Some(&entries[i].1);
                }
                i = i + 1;
            }
            None
        },
        _ => None,
    }
}

/// The element that a pointer token names in an array, as `serde_json` reads the token.
fn index_of_token(t: &str) -> (r: Option<usize>)
    ensures
        r matches Some(i) ==> index_token(t@) == Some(i as int),
        r is None ==> index_token(t@) is None,
{
    let v = crate::text::chars_of(t);
    if v.len() > 0 && (v[0] == '+' || (v[0] == '0' && v.len() != 1)) {
        return None;
    }
    let r = crate::text::parse_unsigned(&v, usize::MAX as u64);
    match r {
        Some(i) => Some(i as usize),
        None => None,
    }
}

/// One pointer step.
fn json_step<'a>(v: &'a JsonValue, token: &str) -> (r: Option<&'a JsonValue>)
    ensures
        r matches Some(c) ==> step(*v, token@) == Some(*c),
        r is None ==> step(*v, token@) is None,
{
    match v {
        JsonValue::Object(_) => json_get(v, token),
        JsonValue::Array(items) => match index_of_token(token) {
            Some(i) => if i < items.len() {
                Some(&items[i])
            } else {
                None
            },
            None => None,
        },
        _ => None,
    }
}

/// What `Value::pointer` gives for the pointer made of `tokens`.
pub fn json_pointer<'a>(v: &'a JsonValue, tokens: &[&str]) -> (r: Option<&'a JsonValue>)
    ensures
        r matches Some(c) ==> pointer(*v, str_texts(tokens@)) == Some(*c),
        r is None ==> pointer(*v, str_texts(tokens@)) is None,
{
    let mut cur: &JsonValue = v;
    let mut i: usize = 0;
    assert(str_texts(tokens@).skip(0) =~= str_texts(tokens@));
    while i < tokens.len()
        invariant
            i <= tokens.len(),
            pointer(*v, str_texts(tokens@)) == pointer(*cur, str_texts(tokens@).skip(i as int)),
        decreases tokens.len() - i,
    {
        let ghost rest = str_texts(tokens@).skip(i as int);
        assert(rest[0] == tokens@[i as int]@);
        assert(rest.drop_first() =~= str_texts(tokens@).skip(i + 1));
        match json_step(cur, tokens[i]) {
            Some(c) => {
                cur = c;
            },
            None => {
                return None;
            },
        }
        i = i + 1;
    }
    assert(str_texts(tokens@).skip(i as int) =~= seq![]);
    Some(cur)
}

/// What `Value::as_str` gives.
pub fn json_as_str<'a>(v: Option<&'a JsonValue>) -> (r: Option<&'a String>)
    ensures
        match r {
            Some(s) => as_str(match v {
                Some(x) => Some(*x),
                None => None,
            }) == Some(s@),
            None => as_str(match v {
                Some(x) => Some(*x),
                None => None,
            }) is None,
        },
{
    match v {
        Some(JsonValue::Str(s)) => Some(s),
        _ => None,
    }
}

} // verus!
