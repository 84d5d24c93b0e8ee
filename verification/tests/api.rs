use fallow::api::{ErrorEnvelope, actionable_error_hint, api_url_from, format_http_status_message};

fn envelope(code: Option<&str>, message: Option<&str>) -> ErrorEnvelope {
    ErrorEnvelope {
        code: code.map(str::to_string),
        message: message.map(str::to_string),
    }
}

#[test]
fn refresh_token_stale_hint_points_to_reactivation() {
    let body = r#"{"error":true,"message":"token stale","code":"token_stale"}"#;
    let env = envelope(Some("token_stale"), Some("token stale"));
    let message = format_http_status_message(401, body, Some(&env), "refresh");
    assert!(
        message.contains("Reactivate with: fallow license activate --trial"),
        "expected reactivation hint, got: {message}"
    );
    assert!(message.contains("token_stale"));
}

#[test]
fn refresh_invalid_token_hint_points_to_reactivation() {
    let body = r#"{"error":true,"code":"invalid_token"}"#;
    let env = envelope(Some("invalid_token"), None);
    let message = format_http_status_message(401, body, Some(&env), "refresh");
    assert!(message.contains("missing required claims"));
    assert!(message.contains("invalid_token"));
}

#[test]
fn upload_inventory_unauthorized_points_to_api_keys_not_trial() {
    let body = r#"{"error":true,"code":"unauthorized"}"#;
    let env = envelope(Some("unauthorized"), None);
    let message = format_http_status_message(401, body, Some(&env), "upload-inventory");
    assert!(message.contains("https://fallow.cloud/settings#api-keys"));
    assert!(message.contains("FALLOW_API_KEY"));
    assert!(message.contains("will not fix"));
}

#[test]
fn trial_rate_limit_hint_mentions_five_per_hour() {
    let body = r#"{"error":true,"code":"rate_limit_exceeded"}"#;
    let env = envelope(Some("rate_limit_exceeded"), None);
    let message = format_http_status_message(429, body, Some(&env), "trial");
    assert!(message.contains("5 per hour per IP"));
    assert!(message.contains("FALLOW_LICENSE"));
}

#[test]
fn unknown_code_falls_back_to_backend_message_when_present() {
    let body = r#"{"error":true,"code":"checkout_error","message":"stripe returned no session url"}"#;
    let env = envelope(Some("checkout_error"), Some("stripe returned no session url"));
    let message = format_http_status_message(500, body, Some(&env), "refresh");
    assert!(message.starts_with("refresh request failed with HTTP 500"));
    assert!(message.ends_with(": stripe returned no session url"));
}

#[test]
fn unknown_code_without_message_falls_back_to_raw_body() {
    let body = r#"{"error":true,"code":"checkout_error"}"#;
    let env = envelope(Some("checkout_error"), None);
    let message = format_http_status_message(500, body, Some(&env), "refresh");
    assert!(message.starts_with("refresh request failed with HTTP 500"));
    assert!(message.contains("checkout_error"));
}

#[test]
fn empty_body_still_produces_minimal_message() {
    let message = format_http_status_message(502, "", None, "trial");
    assert_eq!(message, "trial request failed with HTTP 502");
}

#[test]
fn hinted_message_appends_status_and_code_exactly() {
    let env = envelope(Some("payload_too_large"), Some("too big"));
    let message = format_http_status_message(413, "x", Some(&env), "upload-inventory");
    assert_eq!(
        message,
        "inventory exceeds the 200,000-function server limit. Scope the walk with --exclude-paths, or open an issue if this is a legitimately large repo. (HTTP 413, code payload_too_large)"
    );
}

#[test]
fn blank_message_falls_back_to_trimmed_body() {
    let env = envelope(Some("other"), Some("   "));
    let message = format_http_status_message(404, "  not found \n", Some(&env), "trial");
    assert_eq!(message, "trial request failed with HTTP 404: not found");
}

#[test]
fn unknown_operation_code_pairs_have_no_hint() {
    assert_eq!(actionable_error_hint("trial", "token_stale"), None);
    assert_eq!(actionable_error_hint("upload-inventory", "rate_limit_exceeded"), None);
    assert!(actionable_error_hint("trial", "unauthorized").is_some());
}

#[test]
fn api_url_respects_env_override_and_default() {
    assert_eq!(
        api_url_from(None, "/v1/coverage/repo/inventory"),
        "https://api.fallow.cloud/v1/coverage/repo/inventory",
    );
    assert_eq!(
        api_url_from(Some("http://127.0.0.1:3000/"), "/v1/coverage/a/inventory"),
        "http://127.0.0.1:3000/v1/coverage/a/inventory",
    );
    assert_eq!(
        api_url_from(Some("   "), "/v1/x"),
        "https://api.fallow.cloud/v1/x",
    );
}

#[test]
fn api_url_never_doubles_the_slash() {
    for base in ["https://api.example.com/", "https://api.example.com///", "https://api.example.com"] {
        let url = api_url_from(Some(base), "/v1/x");
        assert!(url.ends_with("/v1/x"));
        assert!(!url.contains(".com//"), "{url}");
    }
}
