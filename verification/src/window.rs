//! Decision logic of the window coordinator.
//!
//! The host windowing layer is external: it reports visibility and
//! performs show/hide/focus and event emission. Everything that can
//! be decided from plain values is decided here — which action a
//! toggle takes, what a shortcut press does, and which windows a
//! broadcast targets — so that the surrounding glue only queries the
//! host, calls these functions, and performs the returned actions.

use vstd::prelude::*;
use crate::error::StoreError;

verus! {

/// The primary window's visibility, as freshly reported by the host.
#[derive(Debug, Clone, Copy, PartialEq, Eq, Structural)]
pub enum Visibility {
    Visible,
    Hidden,
}

/// What the coordinator asks the host to do with the primary window.
#[derive(Debug, Clone, Copy, PartialEq, Eq, Structural)]
pub enum WindowAction {
    Hide,
    ShowAndFocus,
}

/// Which windows a note-update event is delivered to.
#[derive(Debug, Clone, Copy, PartialEq, Eq, Structural)]
pub enum BroadcastTarget {
    MainWindow,
    AllWindows,
}

/// The phase of a global-shortcut event reported by the host.
#[derive(Debug, Clone, Copy, PartialEq, Eq, Structural)]
pub enum ShortcutPhase {
    Pressed,
    Released,
}

/// What the shortcut handler must do for one shortcut event: whether
/// to emit the advisory toggle event, and which visibility action (if
/// any) to request. Failures while carrying the plan out are
/// swallowed by the handler — there is no caller to report to.
#[derive(Debug, Clone, Copy, PartialEq, Eq)]
pub struct ShortcutPlan {
    pub emit_toggle: bool,
    pub action: Option<WindowAction>,
}

/// The action a toggle takes from a given visibility.
pub open spec fn spec_toggle_action(v: Visibility) -> WindowAction {
    match v {
        Visibility::Visible => WindowAction::Hide,
        Visibility::Hidden => WindowAction::ShowAndFocus,
    }
}

/// The visibility the primary window ends in once the host has
/// carried out an action.
pub open spec fn apply_action(a: WindowAction) -> Visibility {
    match a {
        WindowAction::Hide => Visibility::Hidden,
        WindowAction::ShowAndFocus => Visibility::Visible,
    }
}

/// Interprets the host's answer to a visibility query: only a
/// definite "visible" counts as visible; an error or a definite
/// "hidden" both count as hidden.
pub fn observed_visibility(query: Option<bool>) -> (v: Visibility)
    ensures
        v == (if query == Some(true) { Visibility::Visible } else { Visibility::Hidden }),
{
    match query {
        Some(true) => Visibility::Visible,
        _ => Visibility::Hidden,
    }
}

/// Decides the toggle: hide a visible window, show and focus a hidden
/// one. The decision depends only on the freshly queried visibility.
pub fn toggle_action(v: Visibility) -> (a: WindowAction)
    ensures
        a == spec_toggle_action(v),
{
    match v {
        Visibility::Visible => WindowAction::Hide,
        Visibility::Hidden => WindowAction::ShowAndFocus,
    }
}

/// Each toggle flips the visibility: acting on the toggle's decision
/// never leaves the window in the state it was found in.
pub proof fn lemma_toggle_flips(v: Visibility)
    ensures
        apply_action(spec_toggle_action(v)) != v,
        v == Visibility::Visible ==> apply_action(spec_toggle_action(v)) == Visibility::Hidden,
        v == Visibility::Hidden ==> apply_action(spec_toggle_action(v)) == Visibility::Visible,
{
}

/// Decides where a note-update event goes: to the designated main
/// window when one is open, otherwise to every open window.
pub fn broadcast_target(main_window_present: bool) -> (t: BroadcastTarget)
    ensures
        main_window_present ==> t == BroadcastTarget::MainWindow,
        !main_window_present ==> t == BroadcastTarget::AllWindows,
{
    if main_window_present {
        BroadcastTarget::MainWindow
    } else {
        BroadcastTarget::AllWindows
    }
}

/// Decides what one global-shortcut event does: on the pressed phase
/// of the registered shortcut, emit the advisory toggle event and
/// request the toggle action for the queried visibility; on anything
/// else, do nothing.
pub fn shortcut_plan(phase: ShortcutPhase, is_toggle_shortcut: bool, v: Visibility) -> (p:
    ShortcutPlan)
    ensures
        phase == ShortcutPhase::Pressed && is_toggle_shortcut ==> p == (ShortcutPlan {
            emit_toggle: true,
            action: Some(spec_toggle_action(v)),
        }),
        !(phase == ShortcutPhase::Pressed && is_toggle_shortcut) ==> p == (ShortcutPlan {
            emit_toggle: false,
            action: None::<WindowAction>,
        }),
{
    if phase == ShortcutPhase::Pressed && is_toggle_shortcut {
        ShortcutPlan { emit_toggle: true, action: Some(toggle_action(v)) }
    } else {
        ShortcutPlan { emit_toggle: false, action: None }
    }
}

/// Maps the host's report of a window operation into the command
/// result: success passes through, a failure is wrapped as a window
/// operation failure carrying the host's reason.
pub fn window_result(host: Result<(), String>) -> (r: Result<(), StoreError>)
    ensures
        host is Ok <==> r is Ok,
        host matches Err(m) ==> r matches Err(e) && e matches StoreError::WindowOperationFailed(
            reason,
        ) && reason@ == m@,
{
    match host {
        Ok(()) => Ok(()),
        Err(m) => Err(StoreError::WindowOperationFailed(m)),
    }
}

} // verus!
