use pinit::autostart::to_wide;
use pinit::hotkey::{
    changed_shortcuts, check_duplicates, rebind_failure_message, rollback_plan,
    toggle_error_message, tray_tooltip, unavailable_message, ShortcutAction, ShortcutConfig,
};
use pinit::persistence::{
    default_true, get_settings, pin_key, record_restore, restore, save_current, update_settings,
    SavedPin, SavedState, UserSettings, WindowCandidate,
};
use pinit::state::PinState;

fn saved(process: &str, title: &str, opacity: u8) -> (String, SavedPin) {
    (
        format!("{}:0", process),
        SavedPin { process_name: process.to_string(), title: title.to_string(), opacity },
    )
}

fn window(hwnd: isize, process: &str, title: &str) -> WindowCandidate {
    WindowCandidate { hwnd, process_name: process.to_string(), title: title.to_string() }
}

/// Restores every saved pin as the host does; `pins_fail` lists windows
/// whose pin is refused. Returns the windows tried, in order, and their
/// opacity percentages.
fn restore_all(st: &SavedState, windows: &Vec<WindowCandidate>, pins_fail: &[isize]) -> Vec<(isize, Option<u8>)> {
    let mut claimed: Vec<isize> = Vec::new();
    let mut tried = Vec::new();
    for i in 0..st.pins.len() {
        if let Some(pin) = restore(st, windows, i, &claimed) {
            tried.push((pin.hwnd, pin.opacity_percent));
            record_restore(&mut claimed, &pin, !pins_fail.contains(&pin.hwnd));
        }
    }
    tried
}

fn state_of(pins: Vec<(String, SavedPin)>) -> SavedState {
    SavedState { pins, settings: UserSettings::default() }
}

#[test]
fn keys_carry_process_and_handle() {
    assert_eq!(pin_key(&"app.exe".to_string(), 42), "app.exe:42");
    assert_eq!(pin_key(&"app.exe".to_string(), -7), "app.exe:-7");
    assert_eq!(pin_key(&"a:b".to_string(), 0), "a:b:0");
    assert_eq!(pin_key(&String::new(), isize::MIN), format!(":{}", isize::MIN));
}

#[test]
fn defaults() {
    assert!(default_true());
    let s = UserSettings::default();
    assert!(s.enable_sound);
    assert!(!s.has_seen_tray_notice);
    let st = SavedState::default();
    assert!(st.pins.is_empty());
    assert!(st.settings.enable_sound);
}

#[test]
fn settings_round_trip() {
    let mut st = state_of(vec![saved("a.exe", "A", 255)]);
    let s = UserSettings { enable_sound: false, has_seen_tray_notice: true };
    update_settings(&mut st, s);
    let got = get_settings(&st);
    assert!(!got.enable_sound);
    assert!(got.has_seen_tray_notice);
    assert_eq!(st.pins.len(), 1);
}

#[test]
fn snapshot_keeps_settings_and_every_pin() {
    let mut reg = PinState::new();
    reg.add(11, "Doc1".to_string(), "app.exe".to_string());
    reg.add(12, "Doc2".to_string(), "app.exe".to_string());
    reg.set_opacity(12, 128);
    let previous = SavedState {
        pins: vec![saved("old.exe", "Old", 255)],
        settings: UserSettings { enable_sound: false, has_seen_tray_notice: true },
    };
    let st = save_current(&reg, previous);
    assert!(!st.settings.enable_sound);
    assert!(st.settings.has_seen_tray_notice);
    let mut pins: Vec<(String, String, u8)> =
        st.pins.iter().map(|(k, p)| (k.clone(), p.title.clone(), p.opacity)).collect();
    pins.sort();
    assert_eq!(
        pins,
        vec![
            ("app.exe:11".to_string(), "Doc1".to_string(), 255),
            ("app.exe:12".to_string(), "Doc2".to_string(), 128)
        ]
    );
}

#[test]
fn restore_prefers_exact_titles_after_swap() {
    let st = state_of(vec![saved("app.exe", "Doc1", 255), saved("app.exe", "Doc2", 128)]);
    // after the restart the handles are new and come in the other order
    let windows = vec![window(20, "app.exe", "Doc2"), window(10, "app.exe", "Doc1")];
    assert_eq!(restore_all(&st, &windows, &[]), vec![(10, None), (20, Some(50))]);
}

#[test]
fn restore_falls_back_to_first_unclaimed() {
    let st = state_of(vec![
        saved("app.exe", "Gone", 255),
        saved("app.exe", "", 128),
        saved("app.exe", "Also gone", 255),
    ]);
    let windows = vec![window(1, "other.exe", "Gone"), window(2, "app.exe", "X"), window(3, "app.exe", "Y")];
    assert_eq!(restore_all(&st, &windows, &[]), vec![(2, None), (3, Some(50))]);
}

#[test]
fn restore_claims_each_window_once() {
    let st = state_of(vec![saved("app.exe", "Doc", 255), saved("app.exe", "Doc", 255)]);
    let windows = vec![window(5, "app.exe", "Doc")];
    assert_eq!(restore_all(&st, &windows, &[]), vec![(5, None)]);
}

#[test]
fn restore_claims_only_pinned_windows() {
    let st = state_of(vec![saved("app.exe", "Doc", 255), saved("app.exe", "Doc", 255)]);
    let windows = vec![window(5, "app.exe", "Doc")];
    // the first pin is refused, so the window is still free for the second
    assert_eq!(restore_all(&st, &windows, &[5]), vec![(5, None), (5, None)]);
}

#[test]
fn restore_drops_pins_without_windows() {
    let st = state_of(vec![saved("gone.exe", "X", 255)]);
    assert!(restore_all(&st, &vec![window(1, "app.exe", "X")], &[]).is_empty());
    assert!(restore_all(&state_of(vec![]), &vec![window(1, "app.exe", "X")], &[]).is_empty());
}

fn config(p: &str, u: &str, d: &str, w: &str) -> ShortcutConfig {
    ShortcutConfig {
        toggle_pin: p.to_string(),
        opacity_up: u.to_string(),
        opacity_down: d.to_string(),
        toggle_window: w.to_string(),
    }
}

#[test]
fn duplicate_shortcuts_are_reported() {
    assert!(check_duplicates(&config("Ctrl+Alt+T", "Ctrl+Alt+Up", "Ctrl+Alt+Down", "Ctrl+Alt+P")).is_ok());
    assert_eq!(
        check_duplicates(&config("Ctrl+T", "Ctrl+U", "Ctrl+T", "Ctrl+T")).unwrap_err(),
        "'Pin/Unpin' and 'Opacity -' cannot use the same shortcut."
    );
    assert_eq!(
        check_duplicates(&config("A", "B", "C", "B")).unwrap_err(),
        "'Opacity +' and 'Show/Hide' cannot use the same shortcut."
    );
}

#[test]
fn only_changed_shortcuts_are_rebound() {
    let old = config("A", "B", "C", "D");
    let new = config("A", "X", "C", "Y");
    let changed = changed_shortcuts(&old, &new);
    assert_eq!(changed.len(), 2);
    assert!(matches!(changed[0], ShortcutAction::OpacityUp));
    assert!(matches!(changed[1], ShortcutAction::ToggleWindow));
    assert!(changed_shortcuts(&old, &old.clone()).is_empty());
    assert_eq!(new.shortcut(ShortcutAction::ToggleWindow), "Y");
    assert_eq!(ShortcutAction::OpacityDown.label(), "Opacity -");
    assert_eq!(ShortcutAction::OpacityUp.opacity_delta(), Some(5));
    assert_eq!(ShortcutAction::OpacityDown.opacity_delta(), Some(-5));
    assert_eq!(ShortcutAction::TogglePin.opacity_delta(), None);
}

#[test]
fn tooltip_counts_windows() {
    assert_eq!(tray_tooltip(0), "PinIt - No windows pinned");
    assert_eq!(tray_tooltip(1), "PinIt - 1 window pinned");
    assert_eq!(tray_tooltip(12), "PinIt - 12 windows pinned");
}

#[test]
fn toggle_error_names_process() {
    assert_eq!(
        toggle_error_message(&"app.exe".to_string()),
        "Cannot pin app.exe \u{2014} it may be running as administrator"
    );
}

#[test]
fn wide_strings_are_nul_terminated_utf16() {
    assert_eq!(to_wide("ab"), vec![97u16, 98, 0]);
    assert_eq!(to_wide(""), vec![0u16]);
    assert_eq!(to_wide("\u{e9}\u{1d11e}"), vec![0xe9u16, 0xd834, 0xdd1e, 0]);
}

#[test]
fn unavailable_shortcuts_are_named() {
    assert_eq!(
        unavailable_message(&vec![ShortcutAction::TogglePin, ShortcutAction::ToggleWindow]),
        "Some shortcuts unavailable: Pin/Unpin, Show/Hide. Another app or PinIt instance may be using them."
    );
    assert_eq!(
        unavailable_message(&vec![ShortcutAction::OpacityUp]),
        "Some shortcuts unavailable: Opacity +. Another app or PinIt instance may be using them."
    );
}

#[test]
fn failed_rebinding_is_undone() {
    let changed = vec![ShortcutAction::TogglePin, ShortcutAction::OpacityUp, ShortcutAction::ToggleWindow];
    let (unregister_new, register_old) = rollback_plan(&changed, 1);
    assert_eq!(unregister_new.len(), 1);
    assert!(matches!(unregister_new[0], ShortcutAction::TogglePin));
    assert_eq!(register_old.len(), 3);
    assert!(matches!(register_old[2], ShortcutAction::ToggleWindow));
    let (none, all) = rollback_plan(&changed, 0);
    assert!(none.is_empty());
    assert_eq!(all.len(), 3);
    assert_eq!(
        rebind_failure_message(ShortcutAction::OpacityDown),
        "Shortcut unavailable for Opacity - \u{2014} another app may be using it."
    );
}
