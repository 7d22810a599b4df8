use codex_router::auth::{AuthDotJson, TokenData};
use codex_router::codex_types::{ContentPart, ResponseItem};
use codex_router::router::{
    all_failed_error, build_responses_request, normalize_reasoning_effort, resolve_bearer_token,
    ChatMessage,
};

#[test]
fn mini_models_lose_extreme_efforts() {
    assert_eq!(
        normalize_reasoning_effort("gpt-5.2-mini", Some("low".to_string())),
        Some("medium".to_string())
    );
    assert_eq!(
        normalize_reasoning_effort("GPT-MINI", Some("xhigh".to_string())),
        Some("medium".to_string())
    );
    assert_eq!(
        normalize_reasoning_effort("gpt-5.2-mini", Some("high".to_string())),
        Some("high".to_string())
    );
    assert_eq!(normalize_reasoning_effort("gpt-5.2-mini", None), None);
    assert_eq!(
        normalize_reasoning_effort("gpt-5.2-codex", Some("low".to_string())),
        Some("low".to_string())
    );
}

#[test]
fn builds_upstream_request_from_messages() {
    let messages = vec![
        ChatMessage {
            role: "system".to_string(),
            content: "be brief".to_string(),
        },
        ChatMessage {
            role: "user".to_string(),
            content: "hi".to_string(),
        },
        ChatMessage {
            role: "assistant".to_string(),
            content: "hello".to_string(),
        },
    ];
    let req = build_responses_request(
        "gpt-5.2-codex".to_string(),
        Some("medium".to_string()),
        messages,
    );
    assert_eq!(req.model, "gpt-5.2-codex");
    assert_eq!(req.instructions, "be brief");
    assert_eq!(req.input.len(), 2);
    match &req.input[0] {
        ResponseItem::Message { id, role, content } => {
            assert_eq!(role, "user");
            assert_eq!(content.len(), 1);
            match &content[0] {
                ContentPart::Text { text } => assert_eq!(text, "hi"),
            }
            let id = id.as_ref().unwrap();
            assert!(id.starts_with("msg_"));
            assert_eq!(id.len(), 36);
        }
    }
    assert!(req.stream);
    assert!(!req.store);
    assert_eq!(req.tool_choice, "auto");
    assert!(!req.parallel_tool_calls);
    assert_eq!(req.reasoning.as_ref().unwrap().effort, "medium");
    assert!(req.tools.is_empty());
    assert!(req.output_fields.is_empty());
}

#[test]
fn bearer_token_prefers_access_token() {
    let with_tokens = AuthDotJson {
        openai_api_key: Some("sk-test".to_string()),
        tokens: Some(TokenData {
            id_token: None,
            access_token: "access".to_string(),
            refresh_token: "refresh".to_string(),
            account_id: None,
        }),
        last_refresh: None,
    };
    assert_eq!(resolve_bearer_token(&with_tokens), Some("access".to_string()));

    let key_only = AuthDotJson {
        openai_api_key: Some("sk-test".to_string()),
        tokens: None,
        last_refresh: None,
    };
    assert_eq!(resolve_bearer_token(&key_only), Some("sk-test".to_string()));

    let nothing = AuthDotJson {
        openai_api_key: None,
        tokens: None,
        last_refresh: None,
    };
    assert_eq!(resolve_bearer_token(&nothing), None);
}

#[test]
fn terminal_error_for_exhausted_candidates() {
    let err = all_failed_error();
    assert_eq!(err.error, "All accounts failed or exhausted");
    assert!(err.hint.is_none());
    assert!(err.profiles_missing_quota.is_none());
}
