//! The AI provider protocols: Gemini model selection, request addresses and response
//! reading; the single prompt sent to Ollama.
use crate::json::{get, json_get, JsonValue};
use crate::smart::opt_text;
use crate::text::{chars_of, concat, contains, contains_str, push_str};
use vstd::prelude::*;

verus! {

broadcast use vstd::string::group_string_axioms;

/// The model used when the model list names no known Gemini model.
pub const FALLBACK_GEMINI_MODEL: &'static str = "models/gemini-1.5-pro";

/// How strongly a model name is preferred: 3.1 Pro, then 3.1, then 1.5 Pro, then Pro.
pub open spec fn model_tier(name: Seq<char>) -> int {
    if contains(name, "gemini-3.1-pro"@) {
        4
    } else if contains(name, "gemini-3.1"@) {
        3
    } else if contains(name, "gemini-1.5-pro"@) {
        2
    } else if contains(name, "gemini-pro"@) {
        1
    } else {
        0
    }
}

/// How strongly a model name is preferred.
pub fn gemini_model_tier(name: &str) -> (r: u32)
    ensures
        r as int == model_tier(name@),
{
    let n = chars_of(name);
    if contains_str(&n, "gemini-3.1-pro") {
        4
    } else if contains_str(&n, "gemini-3.1") {
        3
    } else if contains_str(&n, "gemini-1.5-pro") {
        2
    } else if contains_str(&n, "gemini-pro") {
        1
    } else {
        0
    }
}

/// The `name` of an entry of the model list, when it is a string.
pub open spec fn entry_name(m: JsonValue) -> Option<Seq<char>> {
    match get(m, "name"@) {
        Some(JsonValue::Str(s)) => Some(s@),
        _ => None,
    }
}

/// The chosen model and its tier after the first `k` entries: an entry replaces the
/// choice only with a strictly higher tier.
pub open spec fn choice_after(models: Seq<JsonValue>, k: int) -> (Seq<char>, int)
    decreases k,
{
    if k <= 0 {
        (FALLBACK_GEMINI_MODEL@, 0)
    } else {
        let prev = choice_after(models, k - 1);
        match entry_name(models[k - 1]) {
            Some(n) => if model_tier(n) > prev.1 {
                (n, model_tier(n))
            } else {
                prev
            },
            None => prev,
        }
    }
}

/// The model that a `models` listing response selects.
pub open spec fn chosen_model(listing: JsonValue) -> Seq<char> {
    match get(listing, "models"@) {
        Some(JsonValue::Array(models)) => choice_after(models@, models@.len() as int).0,
        _ => FALLBACK_GEMINI_MODEL@,
    }
}

/// The model to ask, from the response to the model listing: the first model of the
/// highest known tier, else the fallback.
pub fn choose_gemini_model(listing: &JsonValue) -> (r: String)
    ensures
        r@ == chosen_model(*listing),
{
    let mut chosen = FALLBACK_GEMINI_MODEL.to_string();
    let mut highest: u32 = 0;
    match json_get(listing, "models") {
        Some(JsonValue::Array(models)) => {
            let mut k: usize = 0;
            while k < models.len()
                invariant
                    k <= models.len(),
                    (chosen@, highest as int) == choice_after(models@, k as int),
                    highest <= 4,
                decreases models.len() - k,
            {
                match json_get(&models[k], "name") {
                    Some(JsonValue::Str(name)) => {
                        let tier = gemini_model_tier(name.as_str());
                        if tier > highest {
                            highest = tier;
                            chosen = name.clone();
                        }
                    },
                    _ => {},
                }
                k = k + 1;
            }
            chosen
        },
        _ => chosen,
    }
}

/// The address that lists the available models.
pub fn gemini_models_url(api_key: &str) -> (r: String)
    ensures
        r@ == "https://generativelanguage.googleapis.com/v1beta/models?key="@ + api_key@,
{
    concat("https://generativelanguage.googleapis.com/v1beta/models?key=", api_key)
}

/// The address that generates content with a model.
pub fn gemini_generate_url(model_path: &str, api_key: &str) -> (r: String)
    ensures
        r@ == "https://generativelanguage.googleapis.com/v1beta/"@ + model_path@
            + ":generateContent?key="@ + api_key@,
{
    let mut u = concat("https://generativelanguage.googleapis.com/v1beta/", model_path);
    push_str(&mut u, ":generateContent?key=");
    push_str(&mut u, api_key);
    u
}

/// An element of a JSON array (what indexing a value with a number reads).
pub open spec fn element(v: Option<JsonValue>, i: int) -> Option<JsonValue> {
    match v {
        Some(JsonValue::Array(items)) => if 0 <= i < items@.len() {
            Some(items@[i])
        } else {
            None
        },
        _ => None,
    }
}

/// A member of a JSON object (what indexing a value with a string reads).
pub open spec fn field(v: Option<JsonValue>, key: Seq<char>) -> Option<JsonValue> {
    match v {
        Some(x) => get(x, key),
        None => None,
    }
}

/// The text of a generation response: `candidates[0].content.parts[0].text`.
pub open spec fn response_text(resp: JsonValue) -> Option<Seq<char>> {
    match field(
        element(field(field(element(field(Some(resp), "candidates"@), 0), "content"@), "parts"@), 0),
        "text"@,
    ) {
        Some(JsonValue::Str(s)) => Some(s@),
        _ => None,
    }
}

fn json_element<'a>(v: Option<&'a JsonValue>, i: usize) -> (r: Option<&'a JsonValue>)
    ensures
        crate::smart::deref(r) == element(crate::smart::deref(v), i as int),
{
    match v {
        Some(JsonValue::Array(items)) => if i < items.len() {
            Some(&items[i])
        } else {
            None
        },
        _ => None,
    }
}

fn json_field<'a>(v: Option<&'a JsonValue>, key: &str) -> (r: Option<&'a JsonValue>)
    ensures
        crate::smart::deref(r) == field(crate::smart::deref(v), key@),
{
    match v {
        Some(x) => json_get(x, key),
        None => None,
    }
}

/// The Markdown that a generation response carries.
pub fn gemini_response_text(resp: &JsonValue) -> (r: Option<String>)
    ensures
        opt_text(r) == response_text(*resp),
{
    let candidates = json_field(Some(resp), "candidates");
    let first = json_element(candidates, 0);
    let content = json_field(first, "content");
    let parts = json_field(content, "parts");
    let part = json_element(parts, 0);
    match json_field(part, "text") {
        Some(JsonValue::Str(s)) => Some(s.clone()),
        _ => None,
    }
}

/// The single prompt given to Ollama: the instructions, then the payload under a
/// heading (instruction templates of many local models lack a system role).
pub fn ollama_prompt(system_prompt: &str, payload_json: &str) -> (r: String)
    ensures
        r@ == system_prompt@ + "\n\n### HARDWARE PAYLOAD (JSON) ###\n"@ + payload_json@,
{
    let mut p = concat(system_prompt, "\n\n### HARDWARE PAYLOAD (JSON) ###\n");
    push_str(&mut p, payload_json);
    p
}

} // verus!
