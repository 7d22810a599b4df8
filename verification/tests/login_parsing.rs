use codex_router::login_output::{extract_url, looks_like_code, parse_login_output, strip_ansi};

#[test]
fn parses_device_code_output() {
    let output = "Open this link\nhttps://auth.openai.com/codex/device\n\nEnter this one-time code\nABCD-EFGH\n";
    let parsed = parse_login_output(output);
    assert_eq!(
        parsed.url.as_deref(),
        Some("https://auth.openai.com/codex/device")
    );
    assert_eq!(parsed.code.as_deref(), Some("ABCD-EFGH"));
}

#[test]
fn parses_local_server_output() {
    let output = "Starting local login server on http://localhost:1455.\nIf your browser did not open, navigate to this URL to authenticate:\n\nhttp://localhost:1455/auth/authorize?foo=bar\n";
    let parsed = parse_login_output(output);
    assert_eq!(
        parsed.url.as_deref(),
        Some("http://localhost:1455/auth/authorize?foo=bar")
    );
    assert_eq!(parsed.code, None);
}

#[test]
fn strips_color_sequences() {
    let colored = "\u{1b}[1;32mOpen\u{1b}[0m http://x";
    assert_eq!(strip_ansi(colored), "Open http://x");
}

#[test]
fn extracts_url_and_drops_trailing_punctuation() {
    assert_eq!(
        extract_url("see https://example.com/path."),
        Some("https://example.com/path".to_string())
    );
    assert_eq!(extract_url("no links here"), None);
}

#[test]
fn code_shape_is_checked() {
    assert!(looks_like_code("ABCD-EFGH"));
    assert!(!looks_like_code("ABCDEFGH"));
    assert!(!looks_like_code("ABCD EFGH-1"));
    assert!(!looks_like_code("ab-cd"));
    assert!(!looks_like_code("A-1"));
}
