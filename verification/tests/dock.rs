use workspace_dock::dock::{
    current_dock_visibility, dock_item_target, dock_items_json, dock_restore_exit_code,
    dock_window_position, open_failure_message, set_macos_dock_orientation,
    should_hide_dock_for_bundle_id, dock_orientation_step, DockItemRequest, OrientationAction,
    OrientationEvent, DEFAULT_DOCK_ITEMS_JSON, FINDER_BUNDLE_ID,
    WORKSPACE_DOCK_BUNDLE_ID,
};

#[test]
fn dock_items_open_their_target() {
    let app = DockItemRequest::App { app_path: "/Applications/Safari.app".to_string() };
    let url = DockItemRequest::Url { url: "http://localhost:3000".to_string() };
    let folder = DockItemRequest::Folder { folder_path: "/Users/me/src".to_string() };
    assert_eq!(dock_item_target(&app), "/Applications/Safari.app");
    assert_eq!(dock_item_target(&url), "http://localhost:3000");
    assert_eq!(dock_item_target(&folder), "/Users/me/src");
    assert_eq!(
        open_failure_message("/x.app", "No such file"),
        "Failed to open /x.app: No such file"
    );
}

#[test]
fn dock_hides_for_other_frontmost_apps() {
    assert_eq!(FINDER_BUNDLE_ID, "com.apple.finder");
    assert_eq!(WORKSPACE_DOCK_BUNDLE_ID, "com.wesleyluu.workspace-dock");
    assert!(!should_hide_dock_for_bundle_id(Some("com.apple.finder")));
    assert!(!should_hide_dock_for_bundle_id(Some("com.wesleyluu.workspace-dock")));
    assert!(!should_hide_dock_for_bundle_id(None));
    assert!(should_hide_dock_for_bundle_id(Some("com.apple.Safari")));
    assert!(should_hide_dock_for_bundle_id(Some("")));
    assert!(current_dock_visibility(Some("com.microsoft.VSCode")).hidden);
    assert!(!current_dock_visibility(None).hidden);
}

#[test]
fn dock_orientation_plan() {
    assert_eq!(
        set_macos_dock_orientation("top").err(),
        Some("Unsupported Dock orientation: top".to_string())
    );
    assert!(set_macos_dock_orientation("Left").is_err());
    for orientation in ["left", "bottom", "right"] {
        let plan = set_macos_dock_orientation(orientation).ok().unwrap();
        assert_eq!(plan.defaults_program, "defaults");
        assert_eq!(
            plan.defaults_args,
            vec!["write", "com.apple.dock", "orientation", "-string", orientation]
        );
        assert_eq!(
            plan.defaults_failure,
            format!("defaults failed while setting Dock orientation to {}", orientation)
        );
        assert_eq!(plan.restart_program, "killall");
        assert_eq!(plan.restart_args, vec!["Dock"]);
        assert_eq!(plan.restart_failure, "killall Dock failed while restarting macOS Dock");
    }
}

#[test]
fn dock_window_is_centred_above_the_bottom() {
    assert_eq!(dock_window_position(0, 0, 1920, 1080, 560, 108), (680, 966));
    assert_eq!(dock_window_position(1920, -200, 2560, 1440, 561, 108), (1920 + 999, -200 + 1440 - 108 - 6));
    assert_eq!(dock_window_position(0, 0, 100, 100, 201, 10), (-50, 84));
    assert_eq!(dock_window_position(0, 0, 100, 100, 200, 10), (-50, 84));
}

#[test]
fn default_dock_items() {
    assert_eq!(dock_items_json(Some("[]".to_string())), "[]");
    let default = dock_items_json(None);
    assert_eq!(default, DEFAULT_DOCK_ITEMS_JSON);
    assert!(default.starts_with("[\n  {\"type\":\"app\",\"label\":\"VS Code\""));
    assert!(default.contains("{\"type\":\"url\",\"label\":\"localhost:3000\",\"url\":\"http://localhost:3000\"}"));
}

#[test]
fn restore_exit_codes() {
    assert_eq!(dock_restore_exit_code(true), 130);
    assert_eq!(dock_restore_exit_code(false), 143);
}

fn finished(action: OrientationAction) -> Option<Result<(), String>> {
    match action {
        OrientationAction::Finish(result) => Some(result),
        _ => None,
    }
}

#[test]
fn dock_orientation_runs_defaults_then_restart() {
    let plan = set_macos_dock_orientation("left").unwrap();
    assert!(matches!(dock_orientation_step(&plan, OrientationEvent::Started), OrientationAction::RunDefaults));
    assert!(matches!(
        dock_orientation_step(&plan, OrientationEvent::DefaultsRan(Ok(true))),
        OrientationAction::RunRestart
    ));
    assert_eq!(finished(dock_orientation_step(&plan, OrientationEvent::RestartRan(Ok(true)))), Some(Ok(())));
    assert_eq!(
        finished(dock_orientation_step(&plan, OrientationEvent::DefaultsRan(Ok(false)))),
        Some(Err("defaults failed while setting Dock orientation to left".to_string()))
    );
    assert_eq!(
        finished(dock_orientation_step(&plan, OrientationEvent::RestartRan(Ok(false)))),
        Some(Err("killall Dock failed while restarting macOS Dock".to_string()))
    );
    assert_eq!(
        finished(dock_orientation_step(&plan, OrientationEvent::DefaultsRan(Err("not found".into())))),
        Some(Err("Failed to update macOS Dock orientation: not found".to_string()))
    );
    assert_eq!(
        finished(dock_orientation_step(&plan, OrientationEvent::RestartRan(Err("denied".into())))),
        Some(Err("Failed to restart macOS Dock: denied".to_string()))
    );
}
