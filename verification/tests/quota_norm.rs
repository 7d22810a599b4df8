use codex_router::auth::AuthDotJson;
use codex_router::quota::{
    body_preview, calculate_reset_time, clamp_used_percent, classify_error_response,
    codex_payload_to_quota_info, codex_usage_urls, epoch_seconds_to_rfc3339,
    format_plan_type_with_credits, get_fallback_quota, join_url, normalize_epoch,
    parse_quota_response, refresh_outcome, should_fallback_on_unauthorized,
    summarize_fetch_failures, CodexCreditStatus, CodexRateLimitStatus,
    CodexRateLimitWindowSnapshot, CodexResetAt, CodexUsagePayload, ErrorClass, FetchFailure,
    QuotaFetchError, RefreshError, RefreshResponse,
};

fn auth_stub() -> AuthDotJson {
    AuthDotJson {
        openai_api_key: None,
        tokens: None,
        last_refresh: None,
    }
}

#[test]
fn parses_quota_response() {
    let data: serde_json::Value =
        serde_json::from_str(r#"{"data":{"usage":[{"n_requests":5,"n_tokens":10}]}}"#).unwrap();
    let info = parse_quota_response(&auth_stub(), &data);
    assert_eq!(info.used_requests, Some(5));
    assert_eq!(info.used_tokens, Some(10));
}

#[test]
fn calculates_reset_time_from_reset_after_seconds() {
    let reset_at = Some(CodexResetAt::EpochSeconds(1000));
    let reset_after_seconds = Some(3600);

    let result = calculate_reset_time(reset_at.as_ref(), reset_after_seconds);
    assert!(result.is_some());

    let parsed = chrono::DateTime::parse_from_rfc3339(&result.unwrap()).unwrap();
    let now = chrono::Utc::now();
    let diff = parsed.with_timezone(&chrono::Utc) - now;
    assert!(diff.num_seconds() > 3590 && diff.num_seconds() < 3610);
}

#[test]
fn codex_usage_urls_prefers_non_api_path_first() {
    let urls = codex_usage_urls(None);

    assert_eq!(urls[0], "https://chatgpt.com/backend-api/codex/usage");
    assert_eq!(urls[1], "https://chatgpt.com/backend-api/api/codex/usage");
    assert!(urls.contains(&"https://chat.openai.com/backend-api/codex/usage".to_string()));
    assert!(urls.contains(&"https://chat.openai.com/backend-api/api/codex/usage".to_string()));
}

#[test]
fn configured_base_overrides_hosts() {
    let urls = codex_usage_urls(Some("  https://proxy.example/base/  ".to_string()));
    assert_eq!(urls.len(), 2);
    assert_eq!(urls[0], "https://proxy.example/base/codex/usage");
    assert_eq!(urls[1], "https://proxy.example/base/api/codex/usage");

    let defaults = codex_usage_urls(Some("   ".to_string()));
    assert_eq!(defaults.len(), 4);
}

#[test]
fn clamps_used_percent_into_range() {
    assert_eq!(clamp_used_percent(-5_000), 0);
    assert_eq!(clamp_used_percent(250_000), 100);
    assert_eq!(clamp_used_percent(12_345), 12);
    assert_eq!(clamp_used_percent(12_500), 13);
    assert_eq!(clamp_used_percent(100_000), 100);
    assert_eq!(clamp_used_percent(0), 0);
}

#[test]
fn normalizes_epoch_millis_to_seconds() {
    assert_eq!(normalize_epoch(1_735_689_600), 1_735_689_600);
    assert_eq!(normalize_epoch(1_735_689_600_000), 1_735_689_600);
    assert_eq!(
        epoch_seconds_to_rfc3339(1_735_689_600),
        "2025-01-01T00:00:00Z"
    );
    assert_eq!(
        epoch_seconds_to_rfc3339(1_735_689_600_000),
        "2025-01-01T00:00:00Z"
    );
}

#[test]
fn formats_plan_with_credits() {
    let credits = CodexCreditStatus {
        unlimited: Some(false),
        balance: Some("12.34".to_string()),
    };
    assert_eq!(
        format_plan_type_with_credits("pro".to_string(), Some(&credits)),
        "pro (credits: 12.34)"
    );
    let unlimited = CodexCreditStatus {
        unlimited: Some(true),
        balance: None,
    };
    assert_eq!(
        format_plan_type_with_credits("pro".to_string(), Some(&unlimited)),
        "pro (credits: unlimited)"
    );
    assert_eq!(format_plan_type_with_credits("team".to_string(), None), "team");
}

#[test]
fn normalizes_codex_usage_payload() {
    let payload = CodexUsagePayload {
        plan_type: Some("pro".to_string()),
        rate_limit: Some(CodexRateLimitStatus {
            primary_window: Some(CodexRateLimitWindowSnapshot {
                used_percent_milli: Some(25_000),
                reset_at: Some(CodexResetAt::IsoString("2026-01-13T00:00:00Z".to_string())),
                reset_after_seconds: None,
            }),
            secondary_window: Some(CodexRateLimitWindowSnapshot {
                used_percent_milli: Some(10_000),
                reset_at: Some(CodexResetAt::EpochSeconds(1_735_689_600)),
                reset_after_seconds: None,
            }),
        }),
        credits: Some(CodexCreditStatus {
            unlimited: Some(false),
            balance: Some("12.34".to_string()),
        }),
    };
    let info = codex_payload_to_quota_info(&auth_stub(), payload);
    assert_eq!(info.plan_type, "pro (credits: 12.34)");
    assert_eq!(info.used_requests, Some(25));
    assert_eq!(info.total_requests, Some(100));
    assert_eq!(info.used_tokens, Some(10));
    assert_eq!(info.total_tokens, Some(100));
    assert_eq!(info.reset_date.as_deref(), Some("2026-01-13T00:00:00Z"));
    assert_eq!(
        info.secondary_reset_date.as_deref(),
        Some("2025-01-01T00:00:00Z")
    );
}

#[test]
fn joins_urls_with_single_slash() {
    assert_eq!(join_url("https://x/", "/y"), "https://x/y");
    assert_eq!(join_url("https://x", "y"), "https://x/y");
    assert_eq!(join_url("https://x//", "//y"), "https://x/y");
}

#[test]
fn detects_invalid_api_key_bodies() {
    assert!(should_fallback_on_unauthorized(
        r#"{"error":{"code":"invalid_api_key"}}"#
    ));
    assert!(should_fallback_on_unauthorized(
        "Incorrect API key provided"
    ));
    assert!(!should_fallback_on_unauthorized("Unauthorized"));
}

#[test]
fn previews_bodies_with_escaped_breaks() {
    assert_eq!(body_preview(b" not-json\r\n "), "not-json\\r\\n");
    let long = vec![b'a'; 300];
    assert_eq!(body_preview(&long).len(), 256);
}

#[test]
fn fallback_quota_is_empty() {
    let q = get_fallback_quota(&auth_stub());
    assert!(q.used_requests.is_none());
    assert!(q.used_tokens.is_none());
    assert_eq!(q.plan_type, "Unknown");
}

#[test]
fn classifies_error_responses() {
    assert_eq!(
        classify_error_response(401, true, r#""invalid_api_key""#),
        ErrorClass::UseFallback
    );
    assert_eq!(
        classify_error_response(401, true, "Unauthorized"),
        ErrorClass::Expired
    );
    assert_eq!(
        classify_error_response(401, false, r#""invalid_api_key""#),
        ErrorClass::Expired
    );
    assert_eq!(classify_error_response(404, true, "x"), ErrorClass::Upstream);
}

#[test]
fn classifies_refresh_outcomes() {
    let parsed = RefreshResponse {
        _id_token: None,
        access_token: Some("a".to_string()),
        refresh_token: Some("r".to_string()),
    };
    assert!(matches!(
        refresh_outcome(200, Some(parsed), String::new()),
        Ok(_)
    ));
    assert!(matches!(
        refresh_outcome(200, None, String::new()),
        Err(RefreshError::ParseFailed)
    ));
    match refresh_outcome(401, None, "expired".to_string()) {
        Err(RefreshError::ExpiredOrInvalid(body)) => assert_eq!(body, "expired"),
        other => panic!("unexpected: {:?}", other),
    }
    match refresh_outcome(500, None, "oops".to_string()) {
        Err(RefreshError::Failed(status, body)) => {
            assert_eq!(status, 500);
            assert_eq!(body, "oops");
        }
        other => panic!("unexpected: {:?}", other),
    }
}

#[test]
fn condenses_sweep_failures() {
    assert_eq!(
        summarize_fetch_failures(&Vec::new()),
        QuotaFetchError::NoEndpoints
    );
    assert_eq!(
        summarize_fetch_failures(&vec![
            FetchFailure::Message("first".to_string()),
            FetchFailure::AuthExpired,
        ]),
        QuotaFetchError::Expired
    );
    assert_eq!(
        summarize_fetch_failures(&vec![
            FetchFailure::Message("first".to_string()),
            FetchFailure::Message("second".to_string()),
        ]),
        QuotaFetchError::AllFailed("All quota endpoints failed:\nfirst\nsecond".to_string())
    );
}
