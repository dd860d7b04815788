use std::time::Duration;

use typesafe_systemone::client::error_message;
use typesafe_systemone::{Client, Environment, Error, RetryPolicy, DEFAULT_BASE_URL, DEFAULT_MODEL};

fn no_env() -> Environment {
    Environment { api_key: None, base_url: None, model: None }
}

fn built(r: Result<Client, Error>) -> Client {
    match r {
        Ok(c) => c,
        Err(e) => panic!("{e:?}"),
    }
}

fn failed(r: Result<Client, Error>) -> Error {
    match r {
        Ok(_) => panic!("built"),
        Err(e) => e,
    }
}

#[test]
fn builder_requires_api_key() {
    let err = failed(Client::builder().build(no_env()));
    assert!(matches!(err, Error::Config(_)), "{err:?}");
    let err = failed(Client::builder().api_key("   ").build(no_env()));
    assert!(matches!(err, Error::Config(_)), "{err:?}");
}

#[test]
fn missing_key_message_names_the_variable() {
    match failed(Client::from_env(no_env())) {
        Error::Config(m) => assert_eq!(m, "no API key: pass ClientBuilder::api_key or set TYPESAFE_API_KEY"),
        other => panic!("{other:?}"),
    }
}

#[test]
fn builder_defaults() {
    let c = built(Client::builder().api_key("k").build(no_env()));
    assert_eq!(c.default_model(), DEFAULT_MODEL);
    let dbg = c.describe();
    assert!(!dbg.contains('k') || !dbg.contains("api_key"), "description must not leak the key: {dbg}");
}

#[test]
fn descriptions_redact_the_key() {
    let b = Client::builder().api_key("sekrit-123").model("jev-1.13.0");
    let text = b.describe();
    assert!(!text.contains("sekrit-123"), "{text}");
    assert!(text.contains("<redacted>"), "{text}");
    assert_eq!(
        text,
        "ClientBuilder { api_key: Some(\"<redacted>\"), base_url: None, model: Some(\"jev-1.13.0\"), retry: None, timeout: None, .. }"
    );
    let c = built(b.build(no_env()));
    let text = c.describe();
    assert!(!text.contains("sekrit-123"), "{text}");
    assert_eq!(
        text,
        "Client { base_url: \"https://api.typesafe.ai\", model: \"jev-1.13.0\", retry: RetryPolicy { max_retries: 2, backoff_initial: 500ms, backoff_max: 5s, backoff_jitter: 250000, respect_retry_after: true }, timeout: 30s, .. }"
    );
}

#[test]
fn builder_default_values() {
    let c = built(Client::builder().api_key("k").build(no_env()));
    assert_eq!(c.default_model(), DEFAULT_MODEL);
    assert_eq!(c.base_url(), DEFAULT_BASE_URL);
    assert_eq!(c.api_key(), "k");
    assert_eq!(c.timeout(), Duration::from_secs(30));
    assert_eq!(c.retry_policy(), &RetryPolicy::default());
}

#[test]
fn environment_fills_what_was_not_set() {
    let env = Environment {
        api_key: Some("  env-key \n".to_string()),
        base_url: Some(" http://localhost:8080/ ".to_string()),
        model: Some("jev-1.13.0".to_string()),
    };
    let c = built(Client::from_env(env));
    assert_eq!(c.api_key(), "env-key");
    assert_eq!(c.base_url(), "http://localhost:8080");
    assert_eq!(c.default_model(), "jev-1.13.0");
}

#[test]
fn explicit_values_win_over_environment() {
    let env = Environment {
        api_key: Some("env-key".to_string()),
        base_url: Some("http://env".to_string()),
        model: Some("env-model".to_string()),
    };
    let c = built(
        Client::builder()
            .api_key("mine")
            .base_url("http://mine")
            .model("jev-preview")
            .timeout(Duration::from_secs(3))
            .retry(RetryPolicy::none())
            .build(env),
    );
    assert_eq!(c.api_key(), "mine");
    assert_eq!(c.base_url(), "http://mine");
    assert_eq!(c.default_model(), "jev-preview");
    assert_eq!(c.timeout(), Duration::from_secs(3));
    assert_eq!(c.retry_policy().max_retries, 0);
}

#[test]
fn blank_values_fall_back() {
    let env = Environment {
        api_key: Some("env-key".to_string()),
        base_url: Some("   ".to_string()),
        model: Some("".to_string()),
    };
    let c = built(Client::builder().api_key(" \t ").build(env));
    assert_eq!(c.api_key(), "env-key");
    assert_eq!(c.base_url(), DEFAULT_BASE_URL);
    assert_eq!(c.default_model(), DEFAULT_MODEL);
    let blank_env = Environment { api_key: Some("  ".to_string()), base_url: None, model: None };
    assert!(matches!(failed(Client::from_env(blank_env)), Error::Config(_)));
}

#[test]
fn trailing_slash_in_base_url_is_tolerated() {
    let c = built(Client::builder().api_key("k").base_url("http://127.0.0.1:9000//").build(no_env()));
    assert_eq!(c.base_url(), "http://127.0.0.1:9000");
    assert_eq!(c.endpoint("/v1/models"), "http://127.0.0.1:9000/v1/models");
}

#[test]
fn explicit_key_is_kept_untrimmed() {
    let c = built(Client::builder().api_key(" k ").build(no_env()));
    assert_eq!(c.api_key(), " k ");
}

#[test]
fn given_http_client_is_used() {
    let http = reqwest::Client::new();
    let c = built(Client::builder().api_key("k").http_client(http).build(no_env()));
    let _ = c.http();
    let c2 = c.clone();
    assert_eq!(c2.api_key(), "k");
}

#[test]
fn error_message_takes_detail_message_or_error() {
    assert_eq!(error_message(r#"{"detail": "Invalid API key"}"#.to_string()), "Invalid API key");
    assert_eq!(error_message(r#"{"message": "bad", "error": "worse"}"#.to_string()), "bad");
    assert_eq!(error_message(r#"{"error": {"code": 7}}"#.to_string()), r#"{"code":7}"#);
    assert_eq!(error_message(r#"{"other": 1}"#.to_string()), r#"{"other": 1}"#);
    assert_eq!(error_message("slow down".to_string()), "slow down");
    assert_eq!(error_message(r#"["detail"]"#.to_string()), r#"["detail"]"#);
}

#[test]
fn error_message_is_cut_at_a_character_boundary() {
    let short = "é".repeat(1024);
    assert_eq!(error_message(short.clone()), short);
    let long = format!("a{}", "é".repeat(1100));
    let m = error_message(long);
    assert!(m.ends_with('…'));
    let kept = m.trim_end_matches('…');
    assert_eq!(kept.len(), 2047);
    assert_eq!(kept, format!("a{}", "é".repeat(1023)));
}

#[test]
fn whitespace_is_what_std_calls_whitespace() {
    for u in 0u32..=0x10FFFF {
        if let Some(ch) = char::from_u32(u) {
            assert_eq!(typesafe_systemone::text::is_whitespace(ch), ch.is_whitespace(), "U+{u:04X}");
        }
    }
}

#[test]
fn trim_removes_unicode_whitespace() {
    assert_eq!(typesafe_systemone::text::trim("\u{3000}\u{85} k \t\n"), "k");
    assert_eq!(typesafe_systemone::text::trim("   "), "");
    assert_eq!(typesafe_systemone::text::trim_slashes("a//"), "a");
}

#[test]
fn unicode_blank_key_counts_as_missing() {
    let e = failed(Client::builder().api_key("\u{2003}\u{a0}").build(no_env()));
    assert!(matches!(e, Error::Config(_)));
}
