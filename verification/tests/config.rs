use tuxtests::config::{
    default_ollama_model, default_ollama_url, normalize_ollama_model, normalize_ollama_url,
    normalize_provider, AppConfig,
};
use tuxtests::engine::{apply_config_update, persist_failure_message, ConfigUpdate};

#[test]
fn normalizes_provider_values() {
    assert_eq!(normalize_provider(" Gemini ").unwrap(), "gemini");
    assert_eq!(normalize_provider("OLLAMA").unwrap(), "ollama");
    assert!(normalize_provider("openai").is_err());
}

#[test]
fn normalizes_ollama_model_values() {
    assert_eq!(
        normalize_ollama_model(" gemma3:latest ").unwrap(),
        "gemma3:latest"
    );
    assert!(normalize_ollama_model("   ").is_err());
}

#[test]
fn normalizes_ollama_url_values() {
    assert_eq!(
        normalize_ollama_url("http://localhost:11434/").unwrap(),
        "http://localhost:11434"
    );
    assert_eq!(
        normalize_ollama_url("https://example.com:443/api?x=1#frag").unwrap(),
        "https://example.com"
    );
    assert!(normalize_ollama_url("localhost:11434").is_err());
}

#[test]
fn normalizes_legacy_config_values() {
    let config = AppConfig {
        provider: "BAD".to_string(),
        ollama_model: " ".to_string(),
        ollama_url: "".to_string(),
    }
    .normalized();

    assert_eq!(config.provider, "gemini");
    assert_eq!(config.ollama_model, default_ollama_model());
    assert_eq!(config.ollama_url, default_ollama_url());
}

#[test]
fn provider_error_quotes_the_trimmed_input() {
    assert_eq!(
        normalize_provider("  OpenAI ").unwrap_err(),
        "unsupported provider 'OpenAI'; expected 'gemini' or 'ollama'"
    );
}

#[test]
fn model_error_names_the_rule() {
    assert_eq!(
        normalize_ollama_model("").unwrap_err(),
        "ollama model cannot be empty"
    );
}

#[test]
fn url_errors_name_scheme_and_parse_failures() {
    assert_eq!(
        normalize_ollama_url(" ftp://example.com/x ").unwrap_err(),
        "invalid Ollama URL 'ftp://example.com/x': unsupported scheme 'ftp'"
    );
    let err = normalize_ollama_url("http://").unwrap_err();
    assert!(err.starts_with("invalid Ollama URL 'http://': "));
    assert_eq!(
        normalize_ollama_url("http://127.0.0.1:11434/api/generate").unwrap(),
        "http://127.0.0.1:11434"
    );
    assert_eq!(
        normalize_ollama_url("HTTP://Example.COM:8080").unwrap(),
        "http://example.com:8080"
    );
}

#[test]
fn normalized_config_is_kept_when_already_canonical() {
    let config = AppConfig {
        provider: "ollama".to_string(),
        ollama_model: "gemma3".to_string(),
        ollama_url: "http://localhost:11434".to_string(),
    }
    .normalized();
    assert_eq!(config.provider, "ollama");
    assert_eq!(config.ollama_model, "gemma3");
    assert_eq!(config.ollama_url, "http://localhost:11434");
    let again = config.clone().normalized();
    assert_eq!(again.provider, config.provider);
    assert_eq!(again.ollama_model, config.ollama_model);
    assert_eq!(again.ollama_url, config.ollama_url);
}

fn current() -> AppConfig {
    AppConfig {
        provider: "gemini".to_string(),
        ollama_model: "mistral".to_string(),
        ollama_url: "http://127.0.0.1:11434".to_string(),
    }
}

#[test]
fn applies_requested_updates_only() {
    let updated = apply_config_update(
        current(),
        ConfigUpdate {
            provider: Some(" Ollama".to_string()),
            ollama_model: None,
            ollama_url: Some("http://10.0.0.2:11434/".to_string()),
        },
    )
    .unwrap();
    assert_eq!(updated.provider, "ollama");
    assert_eq!(updated.ollama_model, "mistral");
    assert_eq!(updated.ollama_url, "http://10.0.0.2:11434");

    let unchanged = apply_config_update(current(), ConfigUpdate::default()).unwrap();
    assert_eq!(unchanged.provider, "gemini");
}

#[test]
fn refuses_updates_with_the_first_invalid_field() {
    let err = apply_config_update(
        current(),
        ConfigUpdate {
            provider: Some("openai".to_string()),
            ollama_model: Some(" ".to_string()),
            ollama_url: None,
        },
    )
    .unwrap_err();
    assert!(err.starts_with("unsupported provider 'openai'"));
    let err = apply_config_update(
        current(),
        ConfigUpdate {
            provider: None,
            ollama_model: Some(" ".to_string()),
            ollama_url: Some("nope".to_string()),
        },
    )
    .unwrap_err();
    assert_eq!(err, "ollama model cannot be empty");
    let err = apply_config_update(
        current(),
        ConfigUpdate {
            provider: None,
            ollama_model: None,
            ollama_url: Some("file:///tmp".to_string()),
        },
    )
    .unwrap_err();
    assert!(err.contains("unsupported scheme 'file'"));
    assert_eq!(persist_failure_message(), "failed to persist TuxTests AI configuration");
}
