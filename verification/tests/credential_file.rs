use codex_router::auth::{AuthDotJson, IdToken, TokenData};
use codex_router::credfile::{parse_auth, render_auth};

fn refreshed_credential() -> AuthDotJson {
    AuthDotJson {
        openai_api_key: None,
        tokens: Some(TokenData {
            id_token: Some(IdToken::Raw("eyJhbGci.payload.sig".to_string())),
            access_token: "new-access".to_string(),
            refresh_token: "new-refresh".to_string(),
            account_id: Some("acct_123".to_string()),
        }),
        last_refresh: Some(1_700_000_000),
    }
}

#[test]
fn persisted_credential_reloads_unchanged() {
    let auth = refreshed_credential();
    let text = render_auth(&auth);
    let reloaded = parse_auth(&text).expect("canonical text parses");
    assert_eq!(reloaded, auth);

    let tokens = reloaded.tokens.unwrap();
    assert_eq!(tokens.access_token, "new-access");
    assert_eq!(tokens.refresh_token, "new-refresh");
    assert_eq!(tokens.account_id.as_deref(), Some("acct_123"));
}

#[test]
fn round_trip_covers_sparse_and_awkward_credentials() {
    let sparse = AuthDotJson {
        openai_api_key: None,
        tokens: None,
        last_refresh: None,
    };
    assert_eq!(parse_auth(&render_auth(&sparse)), Some(sparse));

    let key_only = AuthDotJson {
        openai_api_key: Some("sk-te\"st\\x".to_string()),
        tokens: None,
        last_refresh: Some(-5),
    };
    let text = render_auth(&key_only);
    assert_eq!(parse_auth(&text), Some(key_only));

    let no_id = AuthDotJson {
        openai_api_key: None,
        tokens: Some(TokenData {
            id_token: None,
            access_token: String::new(),
            refresh_token: "r".to_string(),
            account_id: None,
        }),
        last_refresh: Some(0),
    };
    assert_eq!(parse_auth(&render_auth(&no_id)), Some(no_id));
}

#[test]
fn parser_rejects_foreign_shapes() {
    assert!(parse_auth("").is_none());
    assert!(parse_auth("{}").is_none());
    assert!(parse_auth("{\"OPENAI_API_KEY\":null,\"tokens\":null,\"last_refresh\":null} ").is_none());
}

#[test]
fn rendered_text_is_plain_json() {
    let auth = refreshed_credential();
    let text = render_auth(&auth);
    let value: serde_json::Value = serde_json::from_str(&text).expect("valid JSON");
    assert_eq!(
        value["tokens"]["access_token"].as_str(),
        Some("new-access")
    );
    assert_eq!(value["last_refresh"].as_i64(), Some(1_700_000_000));
}
