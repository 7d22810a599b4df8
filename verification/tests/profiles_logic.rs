use codex_router::auth::{AuthDotJson, IdToken, TokenData};
use codex_router::auth::{IdTokenInfo, OpenAiAuthClaims};
use codex_router::profile::{
    can_delete_profile, needs_current_profile_marker, pick_profile_name, plan_profile_save,
    sanitize_profile_name, suggested_profile_name, summarize_profiles, token_fingerprint,
    ProfileRecord, SavePlan,
};

#[test]
fn token_fingerprint_prefers_api_key() {
    let auth = AuthDotJson {
        openai_api_key: Some("sk-test".to_string()),
        tokens: None,
        last_refresh: None,
    };

    assert_eq!(token_fingerprint(&auth), Some("sk-test".to_string()));
}

#[test]
fn token_fingerprint_uses_tokens_when_no_api_key() {
    let auth = AuthDotJson {
        openai_api_key: None,
        tokens: Some(TokenData {
            id_token: Some(IdToken::Raw("id.raw".to_string())),
            access_token: "access".to_string(),
            refresh_token: "refresh".to_string(),
            account_id: Some("acct_123".to_string()),
        }),
        last_refresh: None,
    };

    assert_eq!(
        token_fingerprint(&auth),
        Some("access|refresh|id.raw".to_string())
    );
}

#[test]
fn sanitizes_profile_names() {
    assert_eq!(sanitize_profile_name("My Name!"), "my-name");
    assert_eq!(sanitize_profile_name("user_1"), "user_1");
    assert_eq!(sanitize_profile_name("--weird--"), "weird");
    assert_eq!(sanitize_profile_name("!!!"), "profile");
    assert_eq!(sanitize_profile_name(""), "profile");
    assert_eq!(sanitize_profile_name("a..b"), "a-b");
}

#[test]
fn picks_first_free_name() {
    let taken = vec!["work".to_string(), "work-2".to_string()];
    assert_eq!(
        pick_profile_name("work", &taken),
        Some("work-3".to_string())
    );
    assert_eq!(pick_profile_name("home", &taken), Some("home".to_string()));
}

#[test]
fn save_plan_noops_when_account_and_fingerprint_match() {
    let records = vec![ProfileRecord {
        name: "work".to_string(),
        account_id: Some("acct_123".to_string()),
        fingerprint: Some("fp".to_string()),
    }];
    let plan = plan_profile_save(
        &Some("acct_123".to_string()),
        &Some("fp".to_string()),
        &records,
        "new",
    );
    assert_eq!(
        plan,
        SavePlan::AlreadyExists {
            name: "work".to_string()
        }
    );
}

#[test]
fn save_plan_overwrites_when_fingerprint_changes() {
    let records = vec![ProfileRecord {
        name: "work".to_string(),
        account_id: Some("acct_123".to_string()),
        fingerprint: Some("old-fp".to_string()),
    }];
    let plan = plan_profile_save(
        &Some("acct_123".to_string()),
        &Some("new-fp".to_string()),
        &records,
        "ignored",
    );
    assert_eq!(
        plan,
        SavePlan::Overwrite {
            name: "work".to_string()
        }
    );
}

#[test]
fn save_plan_creates_under_free_name() {
    let records = vec![ProfileRecord {
        name: "new".to_string(),
        account_id: Some("acct_other".to_string()),
        fingerprint: Some("fp".to_string()),
    }];
    let plan = plan_profile_save(
        &Some("acct_123".to_string()),
        &Some("fp".to_string()),
        &records,
        "new",
    );
    assert_eq!(
        plan,
        SavePlan::CreateNew {
            name: "new-2".to_string()
        }
    );
}

#[test]
fn current_profile_cannot_be_deleted() {
    assert!(!can_delete_profile("work", Some("work")));
    assert!(can_delete_profile("work", Some("other")));
    assert!(can_delete_profile("work", None));
}

#[test]
fn lists_profiles_sorted_with_current_marker() {
    let entries = vec![
        ("beta".to_string(), None),
        ("alpha".to_string(), Some("alpha@example.com".to_string())),
    ];
    let profiles = summarize_profiles(entries, Some("beta".to_string()));
    assert_eq!(profiles.len(), 2);
    assert_eq!(profiles[0].name, "alpha");
    assert_eq!(profiles[1].name, "beta");
    assert!(profiles.iter().any(|p| p.name == "beta" && p.is_current));
    assert!(profiles.iter().all(|p| p.is_valid && p.quota.is_none()));
}

#[test]
fn suggests_name_from_email_local_part() {
    let auth = AuthDotJson {
        openai_api_key: None,
        tokens: Some(TokenData {
            id_token: Some(IdToken::Info(IdTokenInfo {
                email: Some("Jane.Doe@example.com".to_string()),
                chatgpt_plan_type: None,
                chatgpt_account_id: None,
                openai_auth: Some(OpenAiAuthClaims {
                    chatgpt_plan_type: Some("pro".to_string()),
                    chatgpt_account_id: Some("acct_1".to_string()),
                }),
                raw_jwt: None,
            })),
            access_token: "a".to_string(),
            refresh_token: "r".to_string(),
            account_id: None,
        }),
        last_refresh: None,
    };
    assert_eq!(suggested_profile_name(&auth), "jane-doe");
}

#[test]
fn login_sets_marker_only_when_blank() {
    assert!(needs_current_profile_marker(None));
    assert!(needs_current_profile_marker(Some("  \n")));
    assert!(!needs_current_profile_marker(Some("work")));
}
