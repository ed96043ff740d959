use crate::text::{decimal, push_decimal};
use vstd::prelude::*;

verus! {

/// The user's keyboard shortcuts, one per action, as accelerator strings
/// such as `Ctrl+Alt+T`.
#[derive(Debug)]
pub struct ShortcutConfig {
    pub toggle_pin: String,
    pub opacity_up: String,
    pub opacity_down: String,
    pub toggle_window: String,
}

impl Clone for ShortcutConfig {
    fn clone(&self) -> (r: Self)
        ensures
            r == *self,
    {
        ShortcutConfig {
            toggle_pin: self.toggle_pin.clone(),
            opacity_up: self.opacity_up.clone(),
            opacity_down: self.opacity_down.clone(),
            toggle_window: self.toggle_window.clone(),
        }
    }
}

/// What a shortcut does.
#[derive(Clone, Copy, Debug)]
pub enum ShortcutAction {
    /// Pin or unpin the foreground window.
    TogglePin,
    /// Make the foreground window more opaque.
    OpacityUp,
    /// Make the foreground window more transparent.
    OpacityDown,
    /// Show or hide the application's own window.
    ToggleWindow,
}

/// Event payload announcing that a window was pinned or unpinned.
#[derive(Debug)]
pub struct PinToggledPayload {
    pub is_pinned: bool,
    pub title: String,
    pub process_name: String,
}

/// The name of an action as the user sees it.
pub open spec fn spec_label(a: ShortcutAction) -> Seq<char> {
    match a {
        ShortcutAction::TogglePin => "Pin/Unpin"@,
        ShortcutAction::OpacityUp => "Opacity +"@,
        ShortcutAction::OpacityDown => "Opacity -"@,
        ShortcutAction::ToggleWindow => "Show/Hide"@,
    }
}

/// The shortcut of an action in a configuration.
pub open spec fn spec_shortcut(c: ShortcutConfig, a: ShortcutAction) -> Seq<char> {
    match a {
        ShortcutAction::TogglePin => c.toggle_pin@,
        ShortcutAction::OpacityUp => c.opacity_up@,
        ShortcutAction::OpacityDown => c.opacity_down@,
        ShortcutAction::ToggleWindow => c.toggle_window@,
    }
}

/// The message that reports two actions sharing one shortcut.
pub open spec fn duplicate_text(a: ShortcutAction, b: ShortcutAction) -> Seq<char> {
    "'"@ + spec_label(a) + "' and '"@ + spec_label(b) + "' cannot use the same shortcut."@
}

/// The first two actions, in the order pin, opacity up, opacity down,
/// show, that share a shortcut, reported; or success when all differ.
pub open spec fn spec_check_duplicates(c: ShortcutConfig) -> Result<(), Seq<char>> {
    let (p, u, d, w) = (c.toggle_pin@, c.opacity_up@, c.opacity_down@, c.toggle_window@);
    if p == u {
        Err(duplicate_text(ShortcutAction::TogglePin, ShortcutAction::OpacityUp))
    } else if p == d {
        Err(duplicate_text(ShortcutAction::TogglePin, ShortcutAction::OpacityDown))
    } else if p == w {
        Err(duplicate_text(ShortcutAction::TogglePin, ShortcutAction::ToggleWindow))
    } else if u == d {
        Err(duplicate_text(ShortcutAction::OpacityUp, ShortcutAction::OpacityDown))
    } else if u == w {
        Err(duplicate_text(ShortcutAction::OpacityUp, ShortcutAction::ToggleWindow))
    } else if d == w {
        Err(duplicate_text(ShortcutAction::OpacityDown, ShortcutAction::ToggleWindow))
    } else {
        Ok(())
    }
}

/// The actions whose shortcut differs between two configurations, in order.
pub open spec fn spec_changed(old_config: ShortcutConfig, new_config: ShortcutConfig) -> Seq<ShortcutAction> {
    let one = |a: ShortcutAction|
        if spec_shortcut(old_config, a) != spec_shortcut(new_config, a) {
            seq![a]
        } else {
            Seq::empty()
        };
    one(ShortcutAction::TogglePin) + one(ShortcutAction::OpacityUp) + one(
        ShortcutAction::OpacityDown,
    ) + one(ShortcutAction::ToggleWindow)
}

/// The text of the tray icon's tooltip for `count` pinned windows.
pub open spec fn tooltip_text(count: nat) -> Seq<char> {
    if count == 0 {
        "PinIt - No windows pinned"@
    } else {
        "PinIt - "@ + decimal(count) + " window"@ + (if count == 1 {
            ""@
        } else {
            "s"@
        }) + " pinned"@
    }
}

/// The message shown when a window could not be pinned.
pub open spec fn toggle_error_text(process_name: Seq<char>) -> Seq<char> {
    "Cannot pin "@ + process_name + " \u{2014} it may be running as administrator"@
}

impl ShortcutAction {
    /// The name of the action as the user sees it.
    pub fn label(self) -> (r: &'static str)
        ensures
            r@ == spec_label(self),
    {
        match self {
            ShortcutAction::TogglePin => "Pin/Unpin",
            ShortcutAction::OpacityUp => "Opacity +",
            ShortcutAction::OpacityDown => "Opacity -",
            ShortcutAction::ToggleWindow => "Show/Hide",
        }
    }

    /// The change of opacity, in percentage points, that the action makes.
    pub fn opacity_delta(self) -> (r: Option<i32>)
        ensures
            self is OpacityUp ==> r == Some(5i32),
            self is OpacityDown ==> r == Some(-5i32),
            self is TogglePin || self is ToggleWindow ==> r is None,
    {
        match self {
            ShortcutAction::OpacityUp => Some(5),
            ShortcutAction::OpacityDown => Some(-5),
            _ => None,
        }
    }
}

impl ShortcutConfig {
    /// The shortcut of `action`.
    pub fn shortcut(&self, action: ShortcutAction) -> (r: &String)
        ensures
            r@ == spec_shortcut(*self, action),
    {
        match action {
            ShortcutAction::TogglePin => &self.toggle_pin,
            ShortcutAction::OpacityUp => &self.opacity_up,
            ShortcutAction::OpacityDown => &self.opacity_down,
            ShortcutAction::ToggleWindow => &self.toggle_window,
        }
    }
}

/// The message that reports `a` and `b` sharing one shortcut.
fn duplicate_message(a: ShortcutAction, b: ShortcutAction) -> (r: String)
    ensures
        r@ == duplicate_text(a, b),
{
    let r = String::from_str("'").concat(a.label()).concat("' and '").concat(b.label()).concat(
        "' cannot use the same shortcut.",
    );
    assert(r@ =~= duplicate_text(a, b));
    r
}

/// Checks that no two actions share a shortcut.
pub fn check_duplicates(config: &ShortcutConfig) -> (r: Result<(), String>)
    ensures
        match r {
            Ok(()) => spec_check_duplicates(*config) is Ok,
            Err(m) => spec_check_duplicates(*config) == Err::<(), Seq<char>>(m@),
        },
{
    if config.toggle_pin == config.opacity_up {
        Err(duplicate_message(ShortcutAction::TogglePin, ShortcutAction::OpacityUp))
    } else if config.toggle_pin == config.opacity_down {
        Err(duplicate_message(ShortcutAction::TogglePin, ShortcutAction::OpacityDown))
    } else if config.toggle_pin == config.toggle_window {
        Err(duplicate_message(ShortcutAction::TogglePin, ShortcutAction::ToggleWindow))
    } else if config.opacity_up == config.opacity_down {
        Err(duplicate_message(ShortcutAction::OpacityUp, ShortcutAction::OpacityDown))
    } else if config.opacity_up == config.toggle_window {
        Err(duplicate_message(ShortcutAction::OpacityUp, ShortcutAction::ToggleWindow))
    } else if config.opacity_down == config.toggle_window {
        Err(duplicate_message(ShortcutAction::OpacityDown, ShortcutAction::ToggleWindow))
    } else {
        Ok(())
    }
}

/// The actions whose shortcut changes from `old_config` to `new_config`,
/// in order: only those are to be unregistered and registered again.
pub fn changed_shortcuts(old_config: &ShortcutConfig, new_config: &ShortcutConfig) -> (r: Vec<
    ShortcutAction,
>)
    ensures
        r@ == spec_changed(*old_config, *new_config),
{
    let mut r = Vec::new();
    if !(old_config.toggle_pin == new_config.toggle_pin) {
        r.push(ShortcutAction::TogglePin);
    }
    if !(old_config.opacity_up == new_config.opacity_up) {
        r.push(ShortcutAction::OpacityUp);
    }
    if !(old_config.opacity_down == new_config.opacity_down) {
        r.push(ShortcutAction::OpacityDown);
    }
    if !(old_config.toggle_window == new_config.toggle_window) {
        r.push(ShortcutAction::ToggleWindow);
    }
    assert(r@ =~= spec_changed(*old_config, *new_config));
    r
}

/// The labels of `actions` joined by commas.
pub open spec fn joined_labels(actions: Seq<ShortcutAction>) -> Seq<char>
    decreases actions.len(),
{
    if actions.len() == 0 {
        Seq::empty()
    } else if actions.len() == 1 {
        spec_label(actions[0])
    } else {
        joined_labels(actions.drop_last()) + ", "@ + spec_label(actions.last())
    }
}

/// The warning given when some shortcuts could not be registered.
pub open spec fn unavailable_text(failed: Seq<ShortcutAction>) -> Seq<char> {
    "Some shortcuts unavailable: "@ + joined_labels(failed)
        + ". Another app or PinIt instance may be using them."@
}

/// The warning given when some of the shortcuts could not be registered,
/// naming them in order.
pub fn unavailable_message(failed: &Vec<ShortcutAction>) -> (r: String)
    ensures
        r@ == unavailable_text(failed@),
{
    let mut names = String::new();
    let mut i: usize = 0;
    while i < failed.len()
        invariant
            i <= failed@.len(),
            names@ == joined_labels(failed@.subrange(0, i as int)),
        decreases failed@.len() - i,
    {
        if i > 0 {
            names.append(", ");
        }
        names.append(failed[i].label());
        proof {
            let prefix = failed@.subrange(0, i + 1);
            assert(prefix.drop_last() =~= failed@.subrange(0, i as int));
            if i == 0 {
                assert(names@ =~= joined_labels(prefix));
            } else {
                assert(names@ =~= joined_labels(prefix));
            }
        }
        i = i + 1;
    }
    assert(failed@.subrange(0, failed@.len() as int) =~= failed@);
    let r = String::from_str("Some shortcuts unavailable: ").concat(names.as_str()).concat(
        ". Another app or PinIt instance may be using them.",
    );
    assert(r@ =~= unavailable_text(failed@));
    r
}

/// What undoes a rebinding that failed at the `failed_at`-th changed
/// action, once the old shortcuts of all changed actions were unregistered:
/// the new shortcuts registered before it are unregistered, and the old
/// shortcuts of every changed action are registered again, so that the
/// previous bindings are all back.
pub fn rollback_plan(changed: &Vec<ShortcutAction>, failed_at: usize) -> (r: (
    Vec<ShortcutAction>,
    Vec<ShortcutAction>,
))
    requires
        failed_at < changed@.len(),
    ensures
        r.0@ == changed@.subrange(0, failed_at as int),
        r.1@ == changed@,
{
    let mut unregister_new: Vec<ShortcutAction> = Vec::new();
    let mut register_old: Vec<ShortcutAction> = Vec::new();
    let mut i: usize = 0;
    while i < changed.len()
        invariant
            failed_at < changed@.len(),
            i <= changed@.len(),
            unregister_new@ == changed@.subrange(0, if i <= failed_at { i as int } else { failed_at as int }),
            register_old@ == changed@.subrange(0, i as int),
        decreases changed@.len() - i,
    {
        if i < failed_at {
            unregister_new.push(changed[i]);
        }
        register_old.push(changed[i]);
        proof {
            assert(register_old@ =~= changed@.subrange(0, i + 1));
            if i < failed_at {
                assert(unregister_new@ =~= changed@.subrange(0, i + 1));
            }
        }
        i = i + 1;
    }
    assert(register_old@ =~= changed@);
    (unregister_new, register_old)
}

/// The error given when the new shortcut of `action` could not be
/// registered.
pub fn rebind_failure_message(action: ShortcutAction) -> (r: String)
    ensures
        r@ == "Shortcut unavailable for "@ + spec_label(action)
            + " \u{2014} another app may be using it."@,
{
    String::from_str("Shortcut unavailable for ").concat(action.label()).concat(
        " \u{2014} another app may be using it.",
    )
}

/// The tooltip of the tray icon for `count` pinned windows.
pub fn tray_tooltip(count: usize) -> (r: String)
    ensures
        r@ == tooltip_text(count as nat),
{
    if count == 0 {
        return String::from_str("PinIt - No windows pinned");
    }
    let mut r = String::from_str("PinIt - ");
    push_decimal(&mut r, count as u64);
    r.append(" window");
    if count != 1 {
        r.append("s");
    } else {
        r.append("");
    }
    r.append(" pinned");
    assert(r@ =~= tooltip_text(count as nat));
    r
}

/// The message shown when the window of `process_name` could not be pinned.
pub fn toggle_error_message(process_name: &String) -> (r: String)
    ensures
        r@ == toggle_error_text(process_name@),
{
    let r = String::from_str("Cannot pin ").concat(process_name.as_str()).concat(
        " \u{2014} it may be running as administrator",
    );
    assert(r@ =~= toggle_error_text(process_name@));
    r
}

} // verus!
