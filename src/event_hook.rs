use crate::pin_manager::{reaction_registry, re_enforce_topmost, spec_reassert, unpinned_after, Reaction};
use crate::state::{PinState, PinnedWindow};
use crate::error::PinError;
use crate::window::WindowFacts;
use vstd::prelude::*;

verus! {

/// The window notifications that the engine subscribes to.
#[derive(Clone, Copy, Debug)]
pub enum WinEvent {
    /// The window moved or was resized.
    LocationChange,
    /// The window is being minimized.
    MinimizeStart,
    /// The window was restored from minimized.
    MinimizeEnd,
    /// A move or resize of the window ended.
    MoveSizeEnd,
    /// The window came to the foreground.
    Foreground,
    /// The window gained the focus.
    Focus,
    /// The window was destroyed.
    Destroy,
    /// Any other notification.
    Other,
}

/// What the engine did with a notification.
#[derive(Clone, Copy, Debug)]
pub enum EventOutcome {
    /// The notification is not about a pinned window as a whole.
    Ignored,
    /// The notification needs no work.
    NoAction,
    /// The attribute was re-asserted, with this reaction.
    Reasserted(Reaction),
    /// The window was dropped from the registry; the host is to sweep the
    /// registry for other windows that are gone and tell observers.
    Destroyed,
}

/// Whether a notification kind calls for re-asserting the attribute.
pub open spec fn reasserts(e: WinEvent) -> bool {
    e is MinimizeEnd || e is MoveSizeEnd || e is Foreground || e is Focus
}

/// What the engine does with notification `e` about object `id_object` of
/// a window.
pub open spec fn spec_event_outcome(pinned: bool, e: WinEvent, id_object: i32, f: WindowFacts) -> EventOutcome {
    if id_object != 0 || !pinned {
        EventOutcome::Ignored
    } else if e is Destroy {
        EventOutcome::Destroyed
    } else if reasserts(e) {
        EventOutcome::Reasserted(spec_reassert(pinned, f))
    } else {
        EventOutcome::NoAction
    }
}

/// The registry after the engine handled a notification with `outcome`.
pub open spec fn event_registry(
    reg: Map<isize, PinnedWindow>,
    hwnd: isize,
    outcome: EventOutcome,
) -> Map<isize, PinnedWindow> {
    match outcome {
        EventOutcome::Destroyed => reg.remove(hwnd),
        EventOutcome::Reasserted(r) => reaction_registry(reg, hwnd, r),
        _ => reg,
    }
}

/// Handles one window notification. Only notifications about a pinned
/// window as a whole (object 0) are acted on: a destroyed window is
/// dropped; a restore, the end of a move, or a gain of focus re-asserts the
/// attribute.
pub fn handle_window_event(
    state: &mut PinState,
    event: WinEvent,
    hwnd: isize,
    id_object: i32,
    facts: &WindowFacts,
) -> (r: EventOutcome)
    ensures
        r == spec_event_outcome(old(state)@.contains_key(hwnd), event, id_object, *facts),
        final(state)@ == event_registry(old(state)@, hwnd, r),
{
    if id_object != 0 {
        return EventOutcome::Ignored;
    }
    if !state.is_pinned(hwnd) {
        return EventOutcome::Ignored;
    }
    match event {
        WinEvent::Destroy => {
            state.cleanup(hwnd);
            EventOutcome::Destroyed
        },
        WinEvent::MinimizeEnd | WinEvent::MoveSizeEnd | WinEvent::Foreground | WinEvent::Focus => {
            EventOutcome::Reasserted(re_enforce_topmost(state, hwnd, facts))
        },
        _ => EventOutcome::NoAction,
    }
}

/// A destroyed pinned window leaves the registry, and nothing that comes
/// after it fails or changes the registry again: a second notification is
/// ignored, and an unpin that was in flight completes as an unpin.
pub proof fn lemma_destroy_then_unpin(
    reg: Map<isize, PinnedWindow>,
    hwnd: isize,
    f: WindowFacts,
    e: WinEvent,
)
    requires
        reg.contains_key(hwnd),
    ensures
        ({
            let o1 = spec_event_outcome(true, WinEvent::Destroy, 0, f);
            let reg1 = event_registry(reg, hwnd, o1);
            &&& o1 == EventOutcome::Destroyed
            &&& !reg1.contains_key(hwnd)
            &&& spec_event_outcome(reg1.contains_key(hwnd), e, 0, f) == EventOutcome::Ignored
            &&& unpinned_after(reg1, hwnd, Ok::<(), PinError>(())) == reg1
        }),
{
    let reg1 = reg.remove(hwnd);
    assert(reg1.remove(hwnd) =~= reg1);
}

} // verus!
