use taskboard::config::{AppState, StoreKind};

#[test]
fn settings_given_are_settings_kept() {
    let state = AppState::new("cfg".to_string(), "boards".to_string(), "My board".to_string());
    assert_eq!(state.config_dir(), "cfg");
    assert_eq!(state.tasks_dir(), "boards");
    assert_eq!(state.get_title(), "My board");
}

#[test]
fn settings_missing_take_their_defaults() {
    let state = AppState::with_defaults(None, None, None);
    assert_eq!(state.config_dir(), "config");
    assert_eq!(state.tasks_dir(), "tasks");
    assert_eq!(state.get_title(), "");
}

#[test]
fn settings_given_beat_the_defaults() {
    let state = AppState::with_defaults(
        Some("/etc/board".to_string()),
        None,
        Some("Work".to_string()),
    );
    assert_eq!(state.config_dir(), "/etc/board");
    assert_eq!(state.tasks_dir(), "tasks");
    assert_eq!(state.get_title(), "Work");
    let empty =
        AppState::with_defaults(Some(String::new()), Some(String::new()), Some(String::new()));
    assert_eq!(empty.config_dir(), "");
    assert_eq!(empty.tasks_dir(), "");
}

#[test]
fn the_default_state_is_empty() {
    let state = AppState::default();
    assert_eq!(state.config_dir(), "");
    assert_eq!(state.tasks_dir(), "");
    assert_eq!(state.get_title(), "");
}

#[test]
fn the_maps_live_in_the_configuration_directory() {
    let state = AppState::with_defaults(None, None, None);
    assert_eq!(state.store_path(StoreKind::Tags), "config/tags.json");
    assert_eq!(state.store_path(StoreKind::Sort), "config/sort.json");
}

#[test]
fn resources_live_below_the_tasks_directory() {
    let state = AppState::with_defaults(None, None, None);
    assert_eq!(state.resource_path("a/b/c.md"), "tasks/a/b/c.md");
    assert_eq!(state.resource_path("board"), "tasks/board");
}

#[test]
fn images_live_in_their_own_directory() {
    let state = AppState::with_defaults(Some("cfg".to_string()), None, None);
    assert_eq!(state.images_dir(), "cfg/images");
    assert_eq!(state.image_path("abc.png"), "cfg/images/abc.png");
}
