use crate::error::PinError;
use vstd::prelude::*;

verus! {

/// What the host observed of one window just before a decision: the
/// attributes that the engine reads and changes.
#[derive(Clone, Copy, Debug)]
pub struct WindowFacts {
    /// The handle names a live window.
    pub valid: bool,
    /// The window carries a marker that excludes it from pinning.
    pub excluded: bool,
    /// The window's always-on-top attribute is set.
    pub topmost: bool,
    /// The window's transparency capability flag is set.
    pub layered: bool,
    /// The alpha read back from the window, when it could be read.
    pub alpha: Option<u8>,
    /// The window carries this engine's pin marker.
    pub marked: bool,
}

/// One operation on a window's attributes, performed by the host.
#[derive(Clone, Copy, Debug)]
pub enum OsAction {
    /// Attach the pin marker.
    MarkPinned,
    /// Detach the pin marker.
    ClearMark,
    /// Set the always-on-top attribute.
    SetTopmost,
    /// Clear the always-on-top attribute.
    ClearTopmost,
    /// Set the transparency capability flag.
    AddLayered,
    /// Apply an alpha value.
    SetAlpha(u8),
    /// Clear the transparency capability flag and redraw the frame.
    RemoveLayered,
}

/// An operation of a plan. When a `required` one fails, the host stops and
/// reports the failure; the failure of any other one is ignored.
#[derive(Clone, Copy, Debug)]
pub struct Step {
    pub action: OsAction,
    pub required: bool,
}

/// The attributes of a window after `a` succeeded on it. Nothing changes on
/// a window that no longer exists.
pub open spec fn apply_action(f: WindowFacts, a: OsAction) -> WindowFacts {
    if !f.valid {
        f
    } else {
        match a {
            OsAction::MarkPinned => WindowFacts { marked: true, ..f },
            OsAction::ClearMark => WindowFacts { marked: false, ..f },
            OsAction::SetTopmost => WindowFacts { topmost: true, ..f },
            OsAction::ClearTopmost => WindowFacts { topmost: false, ..f },
            OsAction::AddLayered => WindowFacts { layered: true, ..f },
            OsAction::SetAlpha(v) => WindowFacts { alpha: Some(v), ..f },
            OsAction::RemoveLayered => WindowFacts { layered: false, ..f },
        }
    }
}

/// The attributes of a window after every step of `steps` succeeded, in order.
pub open spec fn run_steps(f: WindowFacts, steps: Seq<Step>) -> WindowFacts
    decreases steps.len(),
{
    if steps.len() == 0 {
        f
    } else {
        apply_action(run_steps(f, steps.drop_last()), steps.last().action)
    }
}

/// A step whose failure stops the plan.
pub open spec fn required(action: OsAction) -> Step {
    Step { action, required: true }
}

/// A step whose failure is ignored.
pub open spec fn best_effort(action: OsAction) -> Step {
    Step { action, required: false }
}

/// The error that reports the failure of `a`, with the host's `detail`.
pub open spec fn spec_failure(a: OsAction, detail: String) -> PinError {
    match a {
        OsAction::MarkPinned => PinError::SetPropertyFailed(detail),
        OsAction::SetTopmost => PinError::SetWindowPosFailed(detail),
        OsAction::ClearTopmost => PinError::SetWindowPosFailed(detail),
        OsAction::SetAlpha(_) => PinError::TransparencyFailed(detail),
        _ => PinError::WindowsApiError(detail),
    }
}

impl OsAction {
    /// The error that reports the failure of this action.
    pub fn failure(self, detail: String) -> (r: PinError)
        ensures
            r == spec_failure(self, detail),
    {
        match self {
            OsAction::MarkPinned => PinError::SetPropertyFailed(detail),
            OsAction::SetTopmost => PinError::SetWindowPosFailed(detail),
            OsAction::ClearTopmost => PinError::SetWindowPosFailed(detail),
            OsAction::SetAlpha(_) => PinError::TransparencyFailed(detail),
            _ => PinError::WindowsApiError(detail),
        }
    }
}

} // verus!
