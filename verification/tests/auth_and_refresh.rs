use codex_router::auth::{
    decode_jwt_claims, format_auth_info, get_account_id, get_email, get_plan_type, AuthDotJson,
    IdToken, TokenData,
};
use codex_router::coordinator::{
    apply_cycle_outcome, apply_refresh_response, CycleAction, CycleEvent, CycleOutcome,
    CyclePhase, RefreshCycle,
};
use codex_router::profile::ProfileSummary;
use codex_router::quota::{QuotaInfo, RefreshResponse};

const JWT: &str = "eyJhbGciOiJub25lIn0.eyJlbWFpbCI6InVzZXJAZXhhbXBsZS5jb20iLCJodHRwczovL2FwaS5vcGVuYWkuY29tL2F1dGgiOnsiY2hhdGdwdF9wbGFuX3R5cGUiOiJwcm8iLCJjaGF0Z3B0X2FjY291bnRfaWQiOiJhY2N0XzEyMyJ9fQ.sig";

fn token_auth() -> AuthDotJson {
    AuthDotJson {
        openai_api_key: None,
        tokens: Some(TokenData {
            id_token: Some(IdToken::Raw(JWT.to_string())),
            access_token: "access".to_string(),
            refresh_token: "refresh".to_string(),
            account_id: Some("acct_123".to_string()),
        }),
        last_refresh: None,
    }
}

#[test]
fn reads_claims_from_raw_jwt() {
    let auth = token_auth();
    assert_eq!(get_email(&auth), Some("user@example.com".to_string()));
    assert_eq!(get_account_id(&auth), Some("acct_123".to_string()));
    assert_eq!(get_plan_type(&auth), Some("pro".to_string()));

    let claims = decode_jwt_claims(JWT).unwrap();
    assert_eq!(claims.email.as_deref(), Some("user@example.com"));
    assert_eq!(claims.chatgpt_plan_type.as_deref(), Some("pro"));
    assert_eq!(claims.chatgpt_account_id.as_deref(), Some("acct_123"));
    assert_eq!(claims.raw_jwt.as_deref(), Some(JWT));

    assert!(decode_jwt_claims("nodots").is_none());
}

#[test]
fn formats_auth_info_lines() {
    let text = format_auth_info(&token_auth());
    assert_eq!(
        text,
        "Email: user@example.com\nAccount ID: acct_123\nPlan: pro"
    );
    let empty = AuthDotJson {
        openai_api_key: None,
        tokens: None,
        last_refresh: None,
    };
    assert_eq!(
        format_auth_info(&empty),
        "Email: N/A\nAccount ID: N/A\nPlan: N/A"
    );
}

#[test]
fn refresh_replaces_pair_and_keeps_everything_else() {
    let auth = token_auth();
    let resp = RefreshResponse {
        _id_token: None,
        access_token: Some("new-access".to_string()),
        refresh_token: Some("new-refresh".to_string()),
    };
    let updated = apply_refresh_response(auth, resp, 1_700_000_000);
    let tokens = updated.tokens.as_ref().unwrap();
    assert_eq!(tokens.access_token, "new-access");
    assert_eq!(tokens.refresh_token, "new-refresh");
    assert_eq!(tokens.account_id.as_deref(), Some("acct_123"));
    assert!(matches!(tokens.id_token, Some(IdToken::Raw(_))));
    assert!(updated.openai_api_key.is_none());
    assert_eq!(updated.last_refresh, Some(1_700_000_000));

    // An omitted field keeps its old value.
    let partial = RefreshResponse {
        _id_token: None,
        access_token: Some("only-access".to_string()),
        refresh_token: None,
    };
    let again = apply_refresh_response(updated, partial, 1_700_000_001);
    let tokens = again.tokens.as_ref().unwrap();
    assert_eq!(tokens.access_token, "only-access");
    assert_eq!(tokens.refresh_token, "new-refresh");
}

fn snapshot() -> QuotaInfo {
    QuotaInfo {
        account_id: "acct_123".to_string(),
        email: "user@example.com".to_string(),
        plan_type: "pro".to_string(),
        used_requests: Some(10),
        total_requests: Some(100),
        used_tokens: Some(20),
        total_tokens: Some(100),
        reset_date: None,
        secondary_reset_date: None,
    }
}

#[test]
fn cycle_updates_on_first_fetch_success() {
    let mut cycle = RefreshCycle::start(token_auth());
    let action = cycle.step(CycleEvent::FetchSuccess(snapshot()), 0);
    assert_eq!(action, CycleAction::Stop);
    assert!(matches!(
        cycle.phase,
        CyclePhase::Done(CycleOutcome::Updated(_))
    ));
}

#[test]
fn cycle_refreshes_and_retries_exactly_once() {
    let mut cycle = RefreshCycle::start(token_auth());
    let action = cycle.step(CycleEvent::FetchAuthExpired, 0);
    assert_eq!(action, CycleAction::Refresh);
    assert_eq!(cycle.phase, CyclePhase::Refreshing);

    let resp = RefreshResponse {
        _id_token: None,
        access_token: Some("fresh".to_string()),
        refresh_token: None,
    };
    let action = cycle.step(CycleEvent::RefreshSucceeded(resp), 77);
    assert_eq!(action, CycleAction::PersistAndFetch);
    assert_eq!(cycle.phase, CyclePhase::Retrying);
    assert_eq!(
        cycle.auth.tokens.as_ref().unwrap().access_token,
        "fresh"
    );
    assert_eq!(cycle.auth.last_refresh, Some(77));

    // The retry fetch ends the cycle whatever happens: a second expiry
    // invalidates instead of refreshing again.
    let action = cycle.step(CycleEvent::FetchAuthExpired, 78);
    assert_eq!(action, CycleAction::Stop);
    assert_eq!(cycle.phase, CyclePhase::Done(CycleOutcome::Invalidated));
}

#[test]
fn cycle_invalidates_when_refresh_fails() {
    let mut cycle = RefreshCycle::start(token_auth());
    cycle.step(CycleEvent::FetchAuthExpired, 0);
    let action = cycle.step(CycleEvent::RefreshFailed, 0);
    assert_eq!(action, CycleAction::Stop);
    assert_eq!(cycle.phase, CyclePhase::Done(CycleOutcome::Invalidated));
}

#[test]
fn cycle_skips_on_transient_failure() {
    let mut cycle = RefreshCycle::start(token_auth());
    let action = cycle.step(CycleEvent::FetchTransient, 0);
    assert_eq!(action, CycleAction::Stop);
    assert_eq!(cycle.phase, CyclePhase::Done(CycleOutcome::Skipped));
}

#[test]
fn cycle_invalidates_expired_credential_without_tokens() {
    let bare = AuthDotJson {
        openai_api_key: Some("sk-test".to_string()),
        tokens: None,
        last_refresh: None,
    };
    let mut cycle = RefreshCycle::start(bare);
    let action = cycle.step(CycleEvent::FetchAuthExpired, 0);
    assert_eq!(action, CycleAction::Stop);
    assert_eq!(cycle.phase, CyclePhase::Done(CycleOutcome::Invalidated));
}

#[test]
fn outcomes_apply_to_the_registry_entry() {
    let mut account = ProfileSummary {
        name: "work".to_string(),
        email: None,
        is_current: false,
        is_valid: true,
        quota: None,
    };
    apply_cycle_outcome(&mut account, CycleOutcome::Updated(snapshot()));
    assert!(account.is_valid);
    assert!(account.quota.is_some());

    apply_cycle_outcome(&mut account, CycleOutcome::Invalidated);
    assert!(!account.is_valid);
    assert!(account.quota.is_some());

    let before = account.clone();
    apply_cycle_outcome(&mut account, CycleOutcome::Skipped);
    assert_eq!(account, before);
}
