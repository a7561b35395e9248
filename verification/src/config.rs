//! The AI provider configuration and the rules that normalize it.
use crate::text::{
    chars_of, concat, find, lowercase, push_str, same_text, to_lowercase, trim, trim_end_class,
    trimmed, CharClass,
};
use vstd::prelude::*;

verus! {

broadcast use vstd::string::group_string_axioms;

/// Which AI provider analyses a payload, and where a local Ollama server listens.
#[derive(Debug, Clone)]
pub struct AppConfig {
    pub provider: String,
    pub ollama_model: String,
    pub ollama_url: String,
}

/// The provider used when none (or an invalid one) is configured.
pub fn default_provider() -> (r: String)
    ensures
        r@ == "gemini"@,
{
    "gemini".to_string()
}

/// The Ollama model used when none (or an empty one) is configured.
pub fn default_ollama_model() -> (r: String)
    ensures
        r@ == "mistral"@,
{
    "mistral".to_string()
}

/// The Ollama endpoint used when none (or an invalid one) is configured.
pub fn default_ollama_url() -> (r: String)
    ensures
        r@ == "http://127.0.0.1:11434"@,
{
    "http://127.0.0.1:11434".to_string()
}

// ---------------------------------------------------------------------------
// Provider and model
// ---------------------------------------------------------------------------
/// What `normalize_provider` gives: the trimmed, lower-cased name when it is `gemini` or
/// `ollama`, else an error that quotes the trimmed input.
pub open spec fn provider_result(input: Seq<char>) -> Result<Seq<char>, Seq<char>> {
    let p = lowercase(trim(input));
    if p == "gemini"@ || p == "ollama"@ {
        Ok(p)
    } else {
        Err("unsupported provider '"@ + trim(input) + "'; expected 'gemini' or 'ollama'"@)
    }
}

pub open spec fn result_text(r: Result<String, String>) -> Result<Seq<char>, Seq<char>> {
    match r {
        Ok(s) => Ok(s@),
        Err(e) => Err(e@),
    }
}

/// The provider name in canonical form, or why it is not one.
pub fn normalize_provider(input: &str) -> (r: Result<String, String>)
    ensures
        result_text(r) == provider_result(input@),
{
    let t = trimmed(input);
    let provider = to_lowercase(t.as_str());
    let pv = chars_of(provider.as_str());
    if same_text(&pv, "gemini") || same_text(&pv, "ollama") {
        Ok(provider)
    } else {
        let mut m = concat("unsupported provider '", t.as_str());
        push_str(&mut m, "'; expected 'gemini' or 'ollama'");
        Err(m)
    }
}

/// What `normalize_ollama_model` gives: the trimmed name, unless nothing remains.
pub open spec fn model_result(input: Seq<char>) -> Result<Seq<char>, Seq<char>> {
    if trim(input).len() == 0 {
        Err("ollama model cannot be empty"@)
    } else {
        Ok(trim(input))
    }
}

/// The Ollama model name without surrounding white space, or why it is unusable.
pub fn normalize_ollama_model(input: &str) -> (r: Result<String, String>)
    ensures
        result_text(r) == model_result(input@),
{
    let model = trimmed(input);
    if model.as_str().is_empty() {
        Err("ollama model cannot be empty".to_string())
    } else {
        Ok(model)
    }
}

// ---------------------------------------------------------------------------
// Ollama URL
// ---------------------------------------------------------------------------
#[verifier::external_type_specification]
#[verifier::external_body]
pub struct ExUrl(reqwest::Url);

/// The serialization of a URL, which determines it (`Url::as_str`).
pub uninterp spec fn url_text(u: reqwest::Url) -> Seq<char>;

/// What `Url::parse` gives for a text: the serialization of the URL it parses, or the
/// message of its error.
pub uninterp spec fn url_parse_result(input: Seq<char>) -> Result<Seq<char>, Seq<char>>;

/// Whether the URL serialized as `text` has a host (`Url::host_str` is `Some`).
pub uninterp spec fn url_has_host(text: Seq<char>) -> bool;

/// The serialization after `Url::set_query(None)`.
pub uninterp spec fn url_without_query(text: Seq<char>) -> Seq<char>;

/// The serialization after `Url::set_fragment(None)`.
pub uninterp spec fn url_without_fragment(text: Seq<char>) -> Seq<char>;

/// What `Url::path` gives.
pub uninterp spec fn url_path_of(text: Seq<char>) -> Seq<char>;

/// The serialization after `Url::set_path("")`.
pub uninterp spec fn url_with_empty_path(text: Seq<char>) -> Seq<char>;

/// Calls `Url::parse`. Its result is named `url_parse_result` of the input: the URL's
/// serialization, or the text of its error.
#[verifier::external_body]
fn parse_url(input: &str) -> (r: Result<reqwest::Url, String>)
    ensures
        match r {
            Ok(u) => url_parse_result(input@) == Ok::<Seq<char>, Seq<char>>(url_text(u)),
            Err(m) => url_parse_result(input@) == Err::<Seq<char>, Seq<char>>(m@),
        },
{
    reqwest::Url::parse(input).map_err(|e| e.to_string())
}

/// The part of a URL serialization before its first colon.
pub open spec fn before_colon(text: Seq<char>) -> Seq<char> {
    match find(text, ":"@) {
        Some(k) => text.take(k),
        None => text,
    }
}

/// Calls `Url::scheme`, which returns the serialization up to the colon after the scheme
/// (the scheme holds no colon).
#[verifier::external_body]
fn url_scheme(u: &reqwest::Url) -> (r: String)
    ensures
        r@ == before_colon(url_text(*u)),
{
    u.scheme().to_string()
}

/// Calls `Url::host_str` and reports whether it gave a host; named `url_has_host`.
#[verifier::external_body]
fn url_host_present(u: &reqwest::Url) -> (r: bool)
    ensures
        r == url_has_host(url_text(*u)),
{
    u.host_str().is_some()
}

/// Calls `Url::set_query(None)`; the new serialization is named `url_without_query`.
#[verifier::external_body]
fn url_clear_query(u: &mut reqwest::Url)
    ensures
        url_text(*final(u)) == url_without_query(url_text(*old(u))),
{
    u.set_query(None)
}

/// Calls `Url::set_fragment(None)`; the new serialization is named `url_without_fragment`.
#[verifier::external_body]
fn url_clear_fragment(u: &mut reqwest::Url)
    ensures
        url_text(*final(u)) == url_without_fragment(url_text(*old(u))),
{
    u.set_fragment(None)
}

/// Calls `Url::path`; its result is named `url_path_of`.
#[verifier::external_body]
fn url_path(u: &reqwest::Url) -> (r: String)
    ensures
        r@ == url_path_of(url_text(*u)),
{
    u.path().to_string()
}

/// Calls `Url::set_path("")`; the new serialization is named `url_with_empty_path`.
#[verifier::external_body]
fn url_clear_path(u: &mut reqwest::Url)
    ensures
        url_text(*final(u)) == url_with_empty_path(url_text(*old(u))),
{
    u.set_path("")
}

/// Calls `Url::to_string`, which writes the serialization.
#[verifier::external_body]
fn url_to_string(u: &reqwest::Url) -> (r: String)
    ensures
        r@ == url_text(*u),
{
    u.to_string()
}

/// The start of every error about an Ollama URL.
pub open spec fn url_error_prefix(t: Seq<char>) -> Seq<char> {
    "invalid Ollama URL '"@ + t + "': "@
}

/// The base URL that a parsed URL's serialization reduces to: no query, no fragment, and
/// no path beyond `/`; then without trailing slashes.
pub open spec fn base_url_text(text: Seq<char>) -> Seq<char> {
    let a = url_without_fragment(url_without_query(text));
    let b = if url_path_of(a) != "/"@ {
        url_with_empty_path(a)
    } else {
        a
    };
    trim_end_class(b, CharClass::Slash)
}

/// What `normalize_ollama_url` gives for an input.
pub open spec fn ollama_url_result(input: Seq<char>) -> Result<Seq<char>, Seq<char>> {
    let t = trim(input);
    match url_parse_result(t) {
        Err(m) => Err(url_error_prefix(t) + m),
        Ok(text) => {
            let s = before_colon(text);
            if s != "http"@ && s != "https"@ {
                Err(url_error_prefix(t) + "unsupported scheme '"@ + s + "'"@)
            } else if !url_has_host(text) {
                Err(url_error_prefix(t) + "missing host"@)
            } else {
                Ok(base_url_text(text))
            }
        },
    }
}

/// The Ollama base URL: an `http` or `https` URL with a host, reduced to scheme, host and
/// port; or why the input is not one.
pub fn normalize_ollama_url(input: &str) -> (r: Result<String, String>)
    ensures
        result_text(r) == ollama_url_result(input@),
{
    let t = trimmed(input);
    let mut parsed = match parse_url(t.as_str()) {
        Ok(u) => u,
        Err(e) => {
            let mut m = concat("invalid Ollama URL '", t.as_str());
            push_str(&mut m, "': ");
            push_str(&mut m, e.as_str());
            return Err(m);
        },
    };
    let ghost text = url_text(parsed);
    let scheme = url_scheme(&parsed);
    let sv = chars_of(scheme.as_str());
    if !same_text(&sv, "http") && !same_text(&sv, "https") {
        let mut m = concat("invalid Ollama URL '", t.as_str());
        push_str(&mut m, "': ");
        push_str(&mut m, "unsupported scheme '");
        push_str(&mut m, scheme.as_str());
        push_str(&mut m, "'");
        assert(m@ =~= url_error_prefix(t@) + "unsupported scheme '"@ + scheme@ + "'"@);
        return Err(m);
    }
    if !url_host_present(&parsed) {
        let mut m = concat("invalid Ollama URL '", t.as_str());
        push_str(&mut m, "': ");
        push_str(&mut m, "missing host");
        assert(m@ =~= url_error_prefix(t@) + "missing host"@);
        return Err(m);
    }
    url_clear_query(&mut parsed);
    url_clear_fragment(&mut parsed);
    let path = url_path(&parsed);
    let pv = chars_of(path.as_str());
    if !same_text(&pv, "/") {
        url_clear_path(&mut parsed);
    }
    let s = url_to_string(&parsed);
    let v = chars_of(s.as_str());
    Ok(trim_end_of(&v, CharClass::Slash))
}

/// The characters of `v` without those of class `cls` at its end, as a string.
fn trim_end_of(v: &Vec<char>, cls: CharClass) -> (r: String)
    ensures
        r@ == trim_end_class(v@, cls),
{
    let mut j: usize = v.len();
    while j > 0 && crate::text::char_in_class(cls, v[j - 1])
        invariant
            j <= v.len(),
            crate::text::skip_class_back(v@, cls, v@.len() as int) == crate::text::skip_class_back(
                v@,
                cls,
                j as int,
            ),
        decreases j,
    {
        j = j - 1;
    }
    crate::text::string_of_range(v, 0, j)
}


// ---------------------------------------------------------------------------
// Normalized configuration
// ---------------------------------------------------------------------------
/// The provider that a configured value normalizes to.
pub open spec fn normalized_provider(p: Seq<char>) -> Seq<char> {
    match provider_result(p) {
        Ok(x) => x,
        Err(_) => "gemini"@,
    }
}

/// The Ollama model that a configured value normalizes to.
pub open spec fn normalized_model(m: Seq<char>) -> Seq<char> {
    match model_result(m) {
        Ok(x) => x,
        Err(_) => "mistral"@,
    }
}

/// The Ollama URL that a configured value normalizes to.
pub open spec fn normalized_url(u: Seq<char>) -> Seq<char> {
    match ollama_url_result(u) {
        Ok(x) => x,
        Err(_) => "http://127.0.0.1:11434"@,
    }
}

impl AppConfig {
    /// The configuration with each field normalized, and each field that cannot be
    /// normalized replaced by its default.
    pub fn normalized(self) -> (r: Self)
        ensures
            r.provider@ == normalized_provider(self.provider@),
            r.ollama_model@ == normalized_model(self.ollama_model@),
            r.ollama_url@ == normalized_url(self.ollama_url@),
    {
        let provider = match normalize_provider(self.provider.as_str()) {
            Ok(p) => p,
            Err(_) => default_provider(),
        };
        let ollama_model = match normalize_ollama_model(self.ollama_model.as_str()) {
            Ok(m) => m,
            Err(_) => default_ollama_model(),
        };
        let ollama_url = match normalize_ollama_url(self.ollama_url.as_str()) {
            Ok(u) => u,
            Err(_) => default_ollama_url(),
        };
        AppConfig { provider, ollama_model, ollama_url }
    }
}

/// A normalized provider is always `gemini` or `ollama`.
pub proof fn normalized_provider_is_supported(p: Seq<char>)
    ensures
        normalized_provider(p) == "gemini"@ || normalized_provider(p) == "ollama"@,
{
}

/// A normalized Ollama model is never empty and is its own normalization.
pub proof fn normalized_model_is_canonical(m: Seq<char>)
    ensures
        normalized_model(m).len() > 0,
        model_result(normalized_model(m)) == Ok::<Seq<char>, Seq<char>>(normalized_model(m)),
{
    crate::text::lemma_trim_class_idempotent(m, CharClass::Whitespace);
    if model_result(m) is Err {
        reveal_strlit("mistral");
        let d = "mistral"@;
        assert(!crate::text::is_ws(d[0]) && !crate::text::is_ws(d.last()));
        crate::text::lemma_trim_class_of_clean(d, CharClass::Whitespace);
    }
}

/// A canonical provider name (`gemini` or `ollama`) normalizes to itself.
proof fn lemma_provider_name_is_canonical(p: Seq<char>)
    requires
        p == "gemini"@ || p == "ollama"@,
    ensures
        provider_result(p) == Ok::<Seq<char>, Seq<char>>(p),
{
    reveal_strlit("gemini");
    reveal_strlit("ollama");
    assert(!crate::text::is_ws(p[0]) && !crate::text::is_ws(p.last()));
    crate::text::lemma_trim_class_of_clean(p, CharClass::Whitespace);
    assert(crate::text::all_ascii(p));
    assert(p.map_values(|c: char| crate::text::ascii_lower(c)) =~= p);
}

/// Normalizing a provider name is idempotent: an accepted name is accepted again as it
/// is.
pub proof fn provider_normalization_is_idempotent(input: Seq<char>)
    ensures
        provider_result(input) matches Ok(p) ==> provider_result(p) == Ok::<Seq<char>, Seq<
            char,
        >>(p),
{
    if let Ok(p) = provider_result(input) {
        lemma_provider_name_is_canonical(p);
    }
}

/// Normalizing a configuration's provider and model a second time changes nothing.
pub proof fn normalized_provider_and_model_are_stable(p: Seq<char>, m: Seq<char>)
    ensures
        normalized_provider(normalized_provider(p)) == normalized_provider(p),
        normalized_model(normalized_model(m)) == normalized_model(m),
{
    reveal_strlit("gemini");
    lemma_provider_name_is_canonical(normalized_provider(p));
    normalized_model_is_canonical(m);
}

} // verus!
