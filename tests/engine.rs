use pinit::error::PinError;
use pinit::event_hook::{handle_window_event, EventOutcome, WinEvent};
use pinit::pin_manager::{
    get_foreground_window, pin_plan, pin_undo, pin_window, process_file_name, re_enforce_topmost,
    toggle_pin, unpin_plan, unpin_window, PinCommand, Reaction,
};
use pinit::state::PinState;
use pinit::window::{OsAction, Step, WindowFacts};

fn live_window() -> WindowFacts {
    WindowFacts {
        valid: true,
        excluded: false,
        topmost: false,
        layered: false,
        alpha: None,
        marked: false,
    }
}

fn apply(f: WindowFacts, a: OsAction) -> WindowFacts {
    if !f.valid {
        return f;
    }
    let mut g = f;
    match a {
        OsAction::MarkPinned => g.marked = true,
        OsAction::ClearMark => g.marked = false,
        OsAction::SetTopmost => g.topmost = true,
        OsAction::ClearTopmost => g.topmost = false,
        OsAction::AddLayered => g.layered = true,
        OsAction::SetAlpha(v) => g.alpha = Some(v),
        OsAction::RemoveLayered => g.layered = false,
    }
    g
}

fn run(f: WindowFacts, steps: &[Step]) -> WindowFacts {
    steps.iter().fold(f, |g, s| apply(g, s.action))
}

/// Pins `hwnd` as the host would: plan, carry out, commit.
fn pin(state: &mut PinState, hwnd: isize, f: WindowFacts, title: &str) -> (Result<bool, PinError>, WindowFacts) {
    match pin_plan(&f) {
        Err(e) => (Err(e), f),
        Ok(steps) => {
            let g = run(f, &steps);
            let r = pin_window(state, hwnd, title.to_string(), "app.exe".to_string(), Ok(()));
            (r, g)
        }
    }
}

fn unpin(state: &mut PinState, hwnd: isize, f: WindowFacts) -> (Result<bool, PinError>, WindowFacts) {
    let steps = unpin_plan(&f);
    let g = run(f, &steps);
    (unpin_window(state, hwnd, Ok(())), g)
}

#[test]
fn pin_plan_refuses_gone_and_excluded_windows() {
    let mut gone = live_window();
    gone.valid = false;
    assert!(matches!(pin_plan(&gone), Err(PinError::NoSuchWindow)));
    let mut excluded = live_window();
    excluded.excluded = true;
    assert!(matches!(pin_plan(&excluded), Err(PinError::WindowExcluded)));
    let steps = pin_plan(&live_window()).unwrap();
    assert_eq!(steps.len(), 2);
    assert!(matches!(steps[0].action, OsAction::SetTopmost) && steps[0].required);
    assert!(matches!(steps[1].action, OsAction::MarkPinned) && steps[1].required);
}

#[test]
fn pin_then_unpin_membership() {
    let mut s = PinState::new();
    let (r, f) = pin(&mut s, 10, live_window(), "Doc1");
    assert!(matches!(r, Ok(true)));
    assert!(s.is_pinned(10));
    assert!(f.topmost && f.marked);
    let (r, f) = unpin(&mut s, 10, f);
    assert!(matches!(r, Ok(false)));
    assert!(!s.is_pinned(10));
    assert!(!f.topmost && !f.marked);
}

#[test]
fn failed_pin_leaves_registry_untouched() {
    let mut s = PinState::new();
    let err = OsAction::SetTopmost.failure("access denied".to_string());
    let r = pin_window(&mut s, 4, "T".to_string(), "p.exe".to_string(), Err(err));
    match r {
        Err(PinError::SetWindowPosFailed(m)) => assert_eq!(m, "access denied"),
        _ => panic!("expected a z-order failure"),
    }
    assert_eq!(s.len(), 0);
}

#[test]
fn failed_unpin_keeps_window_pinned() {
    let mut s = PinState::new();
    pin(&mut s, 4, live_window(), "T");
    let err = OsAction::ClearTopmost.failure("denied".to_string());
    assert!(matches!(unpin_window(&mut s, 4, Err(err)), Err(PinError::SetWindowPosFailed(_))));
    assert!(s.is_pinned(4));
}

#[test]
fn action_failures_map_to_errors() {
    assert!(matches!(OsAction::MarkPinned.failure("x".to_string()), PinError::SetPropertyFailed(_)));
    assert!(matches!(OsAction::SetAlpha(3).failure("x".to_string()), PinError::TransparencyFailed(_)));
    assert!(matches!(OsAction::ClearMark.failure("x".to_string()), PinError::WindowsApiError(_)));
}

#[test]
fn pin_and_reassert_after_strip() {
    let mut s = PinState::new();
    let (r, f) = pin(&mut s, 1, live_window(), "Doc1");
    assert!(matches!(r, Ok(true)));
    let all = s.get_all();
    assert_eq!(all.len(), 1);
    assert_eq!(all[0].hwnd, 1);
    assert_eq!(all[0].title, "Doc1");
    assert_eq!(all[0].process_name, "app.exe");
    assert_eq!(all[0].opacity, 255);
    // the windowing system strips the attribute
    let mut stripped = f;
    stripped.topmost = false;
    let reaction = re_enforce_topmost(&mut s, 1, &stripped);
    assert!(matches!(reaction, Reaction::Raise));
    let restored = apply(stripped, OsAction::SetTopmost);
    assert!(restored.topmost);
    let w = s.get(1).unwrap();
    assert_eq!(s.len(), 1);
    assert_eq!(w.title, "Doc1");
    assert_eq!(w.opacity, 255);
}

#[test]
fn reassert_twice_is_reassert_once() {
    let mut s = PinState::new();
    let (_, f) = pin(&mut s, 1, live_window(), "Doc1");
    let mut stripped = f;
    stripped.topmost = false;
    assert!(matches!(re_enforce_topmost(&mut s, 1, &stripped), Reaction::Raise));
    let once = apply(stripped, OsAction::SetTopmost);
    assert!(matches!(re_enforce_topmost(&mut s, 1, &once), Reaction::Nothing));
    assert!(once.topmost);
    assert!(s.is_pinned(1));
}

#[test]
fn reassert_ignores_untracked_and_forgets_gone() {
    let mut s = PinState::new();
    assert!(matches!(re_enforce_topmost(&mut s, 2, &live_window()), Reaction::Nothing));
    pin(&mut s, 2, live_window(), "X");
    let mut gone = live_window();
    gone.valid = false;
    assert!(matches!(re_enforce_topmost(&mut s, 2, &gone), Reaction::Forget));
    assert!(!s.is_pinned(2));
}

#[test]
fn toggle_pins_unpins_and_refuses_gone() {
    let mut s = PinState::new();
    let f = live_window();
    assert!(matches!(toggle_pin(&s, 5, &f), Ok(PinCommand::Pin)));
    let (_, f) = pin(&mut s, 5, f, "Doc");
    assert!(s.is_pinned(5));
    assert!(matches!(toggle_pin(&s, 5, &f), Ok(PinCommand::Unpin)));
    let (_, _) = unpin(&mut s, 5, f);
    assert!(!s.is_pinned(5));
    let mut gone = live_window();
    gone.valid = false;
    match toggle_pin(&s, 6, &gone) {
        Err(e) => assert!(e.is_not_found()),
        Ok(_) => panic!("a window that is gone cannot be toggled"),
    }
    assert_eq!(s.len(), 0);
}

#[test]
fn toggle_unpins_half_pinned_window() {
    let s = PinState::new();
    let mut f = live_window();
    f.topmost = true;
    assert!(matches!(toggle_pin(&s, 9, &f), Ok(PinCommand::Unpin)));
}

#[test]
fn foreground_window_must_exist() {
    assert!(matches!(get_foreground_window(0), Err(PinError::NoForegroundWindow)));
    assert!(matches!(get_foreground_window(77), Ok(77)));
}

#[test]
fn destroy_notification_during_unpin() {
    let mut s = PinState::new();
    pin(&mut s, 3, live_window(), "Doc");
    pin(&mut s, 4, live_window(), "Other");
    let f = live_window();
    assert!(matches!(handle_window_event(&mut s, WinEvent::Destroy, 3, 0, &f), EventOutcome::Destroyed));
    assert!(!s.is_pinned(3));
    assert!(s.is_pinned(4));
    // a second notification, and an unpin that was in flight, change nothing
    assert!(matches!(handle_window_event(&mut s, WinEvent::Destroy, 3, 0, &f), EventOutcome::Ignored));
    assert!(matches!(unpin_window(&mut s, 3, Ok(())), Ok(false)));
    assert!(!s.is_pinned(3));
    assert!(s.is_pinned(4));
}

#[test]
fn events_are_filtered_and_dispatched() {
    let mut s = PinState::new();
    let (_, f) = pin(&mut s, 3, live_window(), "Doc");
    assert!(matches!(handle_window_event(&mut s, WinEvent::Destroy, 3, -4, &f), EventOutcome::Ignored));
    assert!(matches!(handle_window_event(&mut s, WinEvent::Focus, 8, 0, &f), EventOutcome::Ignored));
    assert!(matches!(handle_window_event(&mut s, WinEvent::LocationChange, 3, 0, &f), EventOutcome::NoAction));
    assert!(matches!(handle_window_event(&mut s, WinEvent::MinimizeStart, 3, 0, &f), EventOutcome::NoAction));
    let mut stripped = f;
    stripped.topmost = false;
    assert!(matches!(
        handle_window_event(&mut s, WinEvent::MinimizeEnd, 3, 0, &stripped),
        EventOutcome::Reasserted(Reaction::Raise)
    ));
    assert!(matches!(
        handle_window_event(&mut s, WinEvent::Foreground, 3, 0, &f),
        EventOutcome::Reasserted(Reaction::Nothing)
    ));
    assert!(s.is_pinned(3));
}

#[test]
fn process_name_is_last_path_component() {
    assert_eq!(process_file_name("C:\\Windows\\System32\\notepad.exe"), "notepad.exe");
    assert_eq!(process_file_name("app.exe"), "app.exe");
    assert_eq!(process_file_name("C:\\dir\\"), "");
    assert_eq!(process_file_name(""), "");
}

#[test]
fn error_messages() {
    assert_eq!(PinError::NoForegroundWindow.message(), "No foreground window found");
    assert_eq!(
        PinError::SetWindowPosFailed("denied".to_string()).message(),
        "Failed to set window position: denied"
    );
    assert_eq!(PinError::WindowExcluded.message(), "Window is excluded from pinning");
}

#[test]
fn failed_pin_is_taken_back() {
    let f = live_window();
    assert!(pin_undo(&f, 0).is_empty());
    let undo = pin_undo(&f, 1);
    assert_eq!(undo.len(), 1);
    assert!(matches!(undo[0].action, OsAction::ClearTopmost) && !undo[0].required);
    // topmost went through, the marker failed: clearing topmost restores the window
    let steps = pin_plan(&f).unwrap();
    let partial = run(f, &steps[..1]);
    let back = run(partial, &undo);
    assert!(!back.topmost && !back.marked);
    // a window that was already topmost keeps its attribute
    let mut already = live_window();
    already.topmost = true;
    assert!(pin_undo(&already, 1).is_empty());
}
