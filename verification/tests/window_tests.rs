use quicknote::error::StoreError;
use quicknote::window::BroadcastTarget;
use quicknote::window::ShortcutPhase;
use quicknote::window::Visibility;
use quicknote::window::WindowAction;
use quicknote::window::broadcast_target;
use quicknote::window::observed_visibility;
use quicknote::window::shortcut_plan;
use quicknote::window::toggle_action;
use quicknote::window::window_result;

#[test]
fn toggle_hides_a_visible_window() {
    assert_eq!(toggle_action(Visibility::Visible), WindowAction::Hide);
}

#[test]
fn toggle_shows_and_focuses_a_hidden_window() {
    assert_eq!(toggle_action(Visibility::Hidden), WindowAction::ShowAndFocus);
}

#[test]
fn visibility_query_defaults_to_hidden() {
    assert_eq!(observed_visibility(Some(true)), Visibility::Visible);
    assert_eq!(observed_visibility(Some(false)), Visibility::Hidden);
    assert_eq!(observed_visibility(None), Visibility::Hidden);
}

#[test]
fn broadcast_targets_main_window_when_present() {
    assert_eq!(broadcast_target(true), BroadcastTarget::MainWindow);
}

#[test]
fn broadcast_falls_back_to_all_windows() {
    assert_eq!(broadcast_target(false), BroadcastTarget::AllWindows);
}

#[test]
fn shortcut_press_emits_and_toggles() {
    let plan = shortcut_plan(ShortcutPhase::Pressed, true, Visibility::Visible);
    assert!(plan.emit_toggle);
    assert_eq!(plan.action, Some(WindowAction::Hide));
    let plan = shortcut_plan(ShortcutPhase::Pressed, true, Visibility::Hidden);
    assert!(plan.emit_toggle);
    assert_eq!(plan.action, Some(WindowAction::ShowAndFocus));
}

#[test]
fn shortcut_release_does_nothing() {
    let plan = shortcut_plan(ShortcutPhase::Released, true, Visibility::Visible);
    assert!(!plan.emit_toggle);
    assert_eq!(plan.action, None);
}

#[test]
fn other_shortcut_does_nothing() {
    let plan = shortcut_plan(ShortcutPhase::Pressed, false, Visibility::Hidden);
    assert!(!plan.emit_toggle);
    assert_eq!(plan.action, None);
}

#[test]
fn window_result_passes_success_through() {
    assert!(window_result(Ok(())).is_ok());
}

#[test]
fn window_result_wraps_host_failure() {
    let r = window_result(Err("window gone".to_string()));
    match r {
        Err(StoreError::WindowOperationFailed(reason)) => assert_eq!(reason, "window gone"),
        other => panic!("expected a window operation failure, got {:?}", other),
    }
}
