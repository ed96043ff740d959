use pinit::error::PinError;
use pinit::pin_manager::{pin_window, unpin_plan, unpin_window};
use pinit::state::PinState;
use pinit::transparency::{
    adjust_opacity, alpha_for_percent, get_opacity_percent, opacity_target, percent_for_alpha,
    restore_opacity, set_opacity, set_opacity_plan,
};
use pinit::window::{OsAction, Step, WindowFacts};

fn opaque_window() -> WindowFacts {
    WindowFacts {
        valid: true,
        excluded: false,
        topmost: true,
        layered: false,
        alpha: None,
        marked: true,
    }
}

fn run(f: WindowFacts, steps: &[Step]) -> WindowFacts {
    let mut g = f;
    for s in steps {
        match s.action {
            OsAction::MarkPinned => g.marked = true,
            OsAction::ClearMark => g.marked = false,
            OsAction::SetTopmost => g.topmost = true,
            OsAction::ClearTopmost => g.topmost = false,
            OsAction::AddLayered => g.layered = true,
            OsAction::SetAlpha(v) => g.alpha = Some(v),
            OsAction::RemoveLayered => g.layered = false,
        }
    }
    g
}

fn percent_after_set(f: WindowFacts, percent: u8) -> u8 {
    get_opacity_percent(&run(f, &set_opacity_plan(&f, percent)))
}

#[test]
fn alpha_conversion_values() {
    assert_eq!(alpha_for_percent(50), 128);
    assert_eq!(alpha_for_percent(100), 255);
    assert_eq!(alpha_for_percent(20), 51);
    assert_eq!(alpha_for_percent(0), 51);
    assert_eq!(alpha_for_percent(255), 255);
    assert_eq!(percent_for_alpha(128), 50);
    assert_eq!(percent_for_alpha(130), 50);
    assert_eq!(percent_for_alpha(94), 36);
    assert_eq!(percent_for_alpha(255), 100);
    assert_eq!(percent_for_alpha(0), 0);
}

#[test]
fn untouched_window_is_fully_opaque() {
    assert_eq!(get_opacity_percent(&opaque_window()), 100);
    let mut unreadable = opaque_window();
    unreadable.layered = true;
    assert_eq!(get_opacity_percent(&unreadable), 100);
}

#[test]
fn set_opacity_clamps_to_bounds() {
    assert_eq!(percent_after_set(opaque_window(), 0), 20);
    assert_eq!(percent_after_set(opaque_window(), 255), 100);
    assert_eq!(percent_after_set(opaque_window(), 37), 36);
    assert_eq!(percent_after_set(opaque_window(), 50), 50);
}

#[test]
fn set_opacity_plan_adds_flag_only_when_missing() {
    let steps = set_opacity_plan(&opaque_window(), 50);
    assert_eq!(steps.len(), 2);
    assert!(matches!(steps[0].action, OsAction::AddLayered) && !steps[0].required);
    assert!(matches!(steps[1].action, OsAction::SetAlpha(128)) && steps[1].required);
    let layered = run(opaque_window(), &steps);
    let again = set_opacity_plan(&layered, 60);
    assert_eq!(again.len(), 1);
    assert!(matches!(again[0].action, OsAction::SetAlpha(153)));
}

#[test]
fn adjust_up_then_down_round_trips() {
    for start in 20u8..=95 {
        let f = run(opaque_window(), &set_opacity_plan(&opaque_window(), start));
        let before = get_opacity_percent(&f);
        assert!(before + 1 >= start && before <= start);
        if before > 95 {
            continue;
        }
        let up = adjust_opacity(&f, 5);
        assert_eq!(up, before + 5);
        let raised = run(f, &set_opacity_plan(&f, up));
        let down = adjust_opacity(&raised, -5);
        assert!(down + 1 >= before && down <= before, "start {} gave {} then {}", before, up, down);
    }
}

#[test]
fn adjust_clamps_at_the_edges() {
    let f = opaque_window();
    assert_eq!(adjust_opacity(&f, 5), 100);
    assert_eq!(adjust_opacity(&f, -90), 20);
    assert_eq!(adjust_opacity(&f, i32::MIN), 20);
    assert_eq!(adjust_opacity(&f, i32::MAX), 100);
}

#[test]
fn opacity_target_needs_a_pinned_window() {
    let mut s = PinState::new();
    assert!(matches!(opacity_target(&s, 1, &opaque_window(), -5), Err(PinError::WindowExcluded)));
    s.add(1, "T".to_string(), "p.exe".to_string());
    assert!(matches!(opacity_target(&s, 1, &opaque_window(), -5), Ok(95)));
}

#[test]
fn dim_then_unpin() {
    let mut s = PinState::new();
    let f = opaque_window();
    pin_window(&mut s, 1, "Doc1".to_string(), "app.exe".to_string(), Ok(())).unwrap();
    let f = run(f, &set_opacity_plan(&f, 50));
    set_opacity(&mut s, 1, 50, Ok(())).unwrap();
    let w = s.get(1).unwrap();
    assert_eq!(w.opacity, 128);
    assert_eq!(w.original_opacity, Some(255));
    let g = run(f, &unpin_plan(&f));
    unpin_window(&mut s, 1, Ok(())).unwrap();
    assert_eq!(s.len(), 0);
    assert!(!g.layered);
    assert_eq!(g.alpha, Some(255));
    assert!(!g.topmost);
}

#[test]
fn failed_alpha_leaves_record() {
    let mut s = PinState::new();
    s.add(1, "T".to_string(), "p.exe".to_string());
    let r = set_opacity(&mut s, 1, 50, Err(OsAction::SetAlpha(128).failure("no".to_string())));
    assert!(matches!(r, Err(PinError::TransparencyFailed(_))));
    assert_eq!(s.get(1).unwrap().opacity, 255);
}

#[test]
fn restore_plan_drops_flag_when_set() {
    let plain = restore_opacity(&opaque_window());
    assert_eq!(plain.len(), 1);
    assert!(matches!(plain[0].action, OsAction::SetAlpha(255)));
    let mut layered = opaque_window();
    layered.layered = true;
    layered.alpha = Some(100);
    let steps = restore_opacity(&layered);
    assert_eq!(steps.len(), 2);
    let g = run(layered, &steps);
    assert!(!g.layered);
    assert_eq!(g.alpha, Some(255));
    assert_eq!(get_opacity_percent(&g), 100);
}
