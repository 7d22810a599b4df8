use codex_router::app_state::{
    apply_router_state, close_action, command_for_tray_event, should_fetch_on_profile_change,
    update_router_state_settings, AppCommand, AppEvent, AppState, CloseAction,
};
use codex_router::login_output::LoginOutput;
use codex_router::profile::{ProfileSummary, SaveProfileOutcome};
use codex_router::state::RouterState;
use codex_router::tray::TrayEvent;

fn sample_profile() -> ProfileSummary {
    ProfileSummary {
        name: "work".to_string(),
        email: None,
        is_current: true,
        is_valid: true,
        quota: None,
    }
}

#[test]
fn tray_event_maps_to_app_command() {
    let switch = command_for_tray_event(&TrayEvent::SwitchProfile("alpha".to_string()));
    match switch {
        Some(AppCommand::SwitchProfile(name)) => assert_eq!(name, "alpha"),
        _ => panic!("expected switch profile command"),
    }

    let open = command_for_tray_event(&TrayEvent::OpenWindow);
    assert!(open.is_none());
}

#[test]
fn close_action_hides_unless_allowed() {
    assert!(matches!(close_action(false), CloseAction::Hide));
    assert!(matches!(close_action(true), CloseAction::Close));
}

#[test]
fn profile_change_triggers_refresh() {
    assert!(should_fetch_on_profile_change(None, Some("a")));
    assert!(should_fetch_on_profile_change(Some("a"), Some("b")));
    assert!(!should_fetch_on_profile_change(Some("a"), Some("a")));
    assert!(!should_fetch_on_profile_change(None, None));
}

#[test]
fn applies_profiles_loaded_event() {
    let mut state = AppState::default();
    state.apply_event(AppEvent::ProfilesLoaded(vec![sample_profile()]));
    assert_eq!(state.profiles.len(), 1);
    assert_eq!(state.current_profile.as_deref(), Some("work"));
}

#[test]
fn applies_profile_saved_event() {
    let mut state = AppState::default();
    state.apply_event(AppEvent::ProfileSaved(SaveProfileOutcome::Created {
        name: "work".to_string(),
    }));
    assert_eq!(state.profile_message.as_deref(), Some("Saved profile: work"));
}

#[test]
fn applies_login_output_event() {
    let mut state = AppState::default();
    state.apply_event(AppEvent::LoginOutput {
        output: "hello".to_string(),
        parsed: LoginOutput {
            url: Some("http://localhost".to_string()),
            code: None,
        },
        running: true,
    });
    assert!(state.login_running);
    assert!(state.login_output.contains("hello"));
    assert_eq!(state.login_url.as_deref(), Some("http://localhost"));
}

#[test]
fn applies_save_input_change() {
    let mut state = AppState::default();
    state.profile_name_input = "work".to_string();
    assert_eq!(state.profile_name_input, "work");
}

fn switchable_profiles(profiles: &[ProfileSummary]) -> Vec<ProfileSummary> {
    profiles
        .iter()
        .filter(|profile| !profile.is_current)
        .cloned()
        .collect()
}

#[test]
fn switchable_profiles_excludes_current() {
    let profiles = vec![
        ProfileSummary {
            name: "work".to_string(),
            email: Some("work@example.com".to_string()),
            is_current: true,
            is_valid: true,
            quota: None,
        },
        ProfileSummary {
            name: "personal".to_string(),
            email: Some("personal@example.com".to_string()),
            is_current: false,
            is_valid: true,
            quota: None,
        },
    ];

    let switchable = switchable_profiles(&profiles);
    assert_eq!(switchable.len(), 1);
    assert_eq!(switchable[0].name, "personal");
}

#[test]
fn applies_router_state_to_app_state() {
    let mut app_state = AppState::default();
    let router_state = RouterState {
        refresh_interval_seconds: 300,
        auto_refresh_enabled: false,
        last_selected_profile: Some("work".to_string()),
    };

    apply_router_state(&mut app_state, &router_state);

    assert_eq!(app_state.refresh_interval_seconds, 300);
    assert!(!app_state.auto_refresh_enabled);
}

#[test]
fn update_router_state_settings_returns_change() {
    let mut app_state = AppState::default();
    let mut router_state = RouterState::default();

    let changed = update_router_state_settings(&mut router_state, &mut app_state, 900, false);

    assert!(changed);
    assert_eq!(router_state.refresh_interval_seconds, 900);
    assert!(!router_state.auto_refresh_enabled);
}

#[test]
fn applies_login_finished_event() {
    let mut state = AppState::default();
    state.apply_event(AppEvent::LoginOutput {
        output: "line".to_string(),
        parsed: LoginOutput { url: None, code: None },
        running: true,
    });
    state.apply_event(AppEvent::LoginFinished {
        success: false,
        message: "codex login failed: exit".to_string(),
    });
    assert!(!state.login_running);
    assert_eq!(state.error.as_deref(), Some("codex login failed: exit"));
    assert!(state.login_output.ends_with("codex login failed: exit\n"));

    state.apply_event(AppEvent::LoginFinished {
        success: true,
        message: "codex login finished".to_string(),
    });
    assert!(state.error.is_none());
}

#[test]
fn applies_error_event() {
    let mut state = AppState::default();
    state.apply_event(AppEvent::Error("boom".to_string()));
    assert_eq!(state.error.as_deref(), Some("boom"));
}
