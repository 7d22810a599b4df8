use codex_router::profile::ProfileSummary;
use codex_router::tray::{
    menu_entries, menu_id_for_profile, menu_label_for_profile, tray_event_from_menu_id, MenuEntry,
    TrayEvent,
};

#[test]
fn tray_event_enum_exists() {
    let _ = TrayEvent::OpenWindow;
}

#[test]
fn maps_menu_id_to_tray_event() {
    let open = tray_event_from_menu_id("open-window");
    assert!(matches!(open, Some(TrayEvent::OpenWindow)));

    let quit = tray_event_from_menu_id("quit");
    assert!(matches!(quit, Some(TrayEvent::Quit)));
}

#[test]
fn maps_profile_menu_id_to_switch() {
    match tray_event_from_menu_id("profile:alpha") {
        Some(TrayEvent::SwitchProfile(name)) => assert_eq!(name, "alpha"),
        other => panic!("unexpected event: {:?}", other),
    }
    assert!(tray_event_from_menu_id("profile:").is_none());
    assert!(tray_event_from_menu_id("something-else").is_none());
}

#[test]
fn menu_entries_include_profiles() {
    let profiles = vec![
        ProfileSummary {
            name: "beta".to_string(),
            email: None,
            is_current: false,
            is_valid: true,
            quota: None,
        },
        ProfileSummary {
            name: "alpha".to_string(),
            email: Some("alpha@example.com".to_string()),
            is_current: true,
            is_valid: true,
            quota: None,
        },
    ];

    let entries = menu_entries(&profiles);
    let mut ids = Vec::new();
    let mut labels = Vec::new();

    for entry in entries {
        if let MenuEntry::Item { id, label } = entry {
            if id.starts_with("profile:") {
                ids.push(id);
                labels.push(label);
            }
        }
    }

    assert_eq!(ids.len(), 2);
    assert_eq!(ids.first(), Some(&menu_id_for_profile("alpha")));
    assert!(labels.iter().any(|label| label.starts_with("* alpha")));
    assert!(labels.iter().any(|label| label.contains("beta")));
}

#[test]
fn menu_label_marks_current_and_email() {
    let p = ProfileSummary {
        name: "alpha".to_string(),
        email: Some("alpha@example.com".to_string()),
        is_current: true,
        is_valid: true,
        quota: None,
    };
    assert_eq!(menu_label_for_profile(&p), "* alpha (alpha@example.com)");
    let q = ProfileSummary {
        name: "beta".to_string(),
        email: None,
        is_current: false,
        is_valid: true,
        quota: None,
    };
    assert_eq!(menu_label_for_profile(&q), "beta");
}
