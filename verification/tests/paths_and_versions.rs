use codex_router::config::{
    get_auth_file, get_current_profile_file, get_official_auth_file, get_profile_auth_file,
    get_profiles_dir, get_router_config_dir, get_router_state_file, DEFAULT_USER_AGENT,
};
use codex_router::profile::ProfileSummary;
use codex_router::shared::SharedState;
use codex_router::state::RouterState;
use codex_router::version::version_cmp;
use std::cmp::Ordering;

#[test]
fn builds_paths_under_home() {
    assert_eq!(get_auth_file("/home/u/.codex_router"), "/home/u/.codex_router/auth.json");
    assert_eq!(get_profiles_dir("/h"), "/h/profiles");
    assert_eq!(get_current_profile_file("/h"), "/h/.current_profile");
    assert_eq!(get_router_config_dir("/h"), "/h/router");
    assert_eq!(get_router_state_file("/h"), "/h/router/state.json");
    assert_eq!(get_official_auth_file("/home/u/.codex"), "/home/u/.codex/auth.json");
    assert_eq!(
        get_profile_auth_file("/h", "work"),
        "/h/profiles/work/auth.json"
    );
    assert_eq!(DEFAULT_USER_AGENT, "codex-cli");
}

#[test]
fn router_state_defaults() {
    let state = RouterState::default();
    assert_eq!(state.refresh_interval_seconds, 600);
    assert!(state.auto_refresh_enabled);
    assert!(state.last_selected_profile.is_none());
}

#[test]
fn compares_versions_numerically() {
    assert_eq!(version_cmp("v20.10.0", "v18.19.1"), Ordering::Greater);
    assert_eq!(version_cmp("v1.2.3", "1.2.3"), Ordering::Equal);
    assert_eq!(version_cmp("1.2", "1.2.1"), Ordering::Less);
    assert_eq!(version_cmp("1.x.2", "1.2"), Ordering::Equal);
    assert_eq!(version_cmp("2", "10"), Ordering::Less);
}

#[test]
fn shared_state_publishes_whole_snapshots() {
    let state = SharedState::new();
    assert!(state.read_profiles().is_empty());
    state.update_profiles(vec![ProfileSummary {
        name: "work".to_string(),
        email: None,
        is_current: true,
        is_valid: true,
        quota: None,
    }]);
    let snapshot = state.read_profiles();
    assert_eq!(snapshot.len(), 1);
    assert_eq!(snapshot[0].name, "work");
}
