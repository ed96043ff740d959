use crate::error::PinError;
use crate::state::{fresh_record, PinState, PinnedWindow, OPAQUE_ALPHA};
use crate::transparency::{restore_opacity, spec_restore_steps};
use crate::window::{apply_action, best_effort, required, run_steps, OsAction, Step, WindowFacts};
use vstd::prelude::*;

verus! {

/// What a toggle request turns into.
#[derive(Clone, Copy, Debug)]
pub enum PinCommand {
    Pin,
    Unpin,
}

/// What re-asserting the always-on-top attribute of a window calls for.
#[derive(Clone, Copy, Debug)]
pub enum Reaction {
    /// The attribute is in place, or the window is not pinned.
    Nothing,
    /// Set the attribute again.
    Raise,
    /// The window is gone: it was dropped from the registry, and observers
    /// are to be told.
    Forget,
}

/// Whether a window may be pinned.
pub open spec fn spec_pin_admission(f: WindowFacts) -> Result<(), PinError> {
    if !f.valid {
        Err(PinError::NoSuchWindow)
    } else if f.excluded {
        Err(PinError::WindowExcluded)
    } else {
        Ok(())
    }
}

/// The plan that pins a window: the always-on-top attribute, then the pin
/// marker.
pub open spec fn spec_pin_steps() -> Seq<Step> {
    seq![required(OsAction::SetTopmost), required(OsAction::MarkPinned)]
}

/// What takes back a pin plan whose first `done` steps succeeded before a
/// step failed: the attribute is cleared again, unless the window had it
/// before.
pub open spec fn spec_pin_undo(f: WindowFacts, done: nat) -> Seq<Step> {
    if done >= 1 && !f.topmost {
        seq![best_effort(OsAction::ClearTopmost)]
    } else {
        Seq::empty()
    }
}

/// The plan that unpins a window: full opacity restored and the
/// transparency flag dropped (best effort), the marker dropped (best
/// effort), then the always-on-top attribute cleared.
pub open spec fn spec_unpin_steps(f: WindowFacts) -> Seq<Step> {
    spec_restore_steps(f) + seq![best_effort(OsAction::ClearMark), required(OsAction::ClearTopmost)]
}

/// The registry after the pin operations on `hwnd` ended with `applied`.
pub open spec fn pinned_after(
    reg: Map<isize, PinnedWindow>,
    hwnd: isize,
    title: String,
    process_name: String,
    applied: Result<(), PinError>,
) -> Map<isize, PinnedWindow> {
    if applied is Ok {
        reg.insert(hwnd, fresh_record(hwnd, title, process_name))
    } else {
        reg
    }
}

/// The registry after the unpin operations on `hwnd` ended with `cleared`.
pub open spec fn unpinned_after(
    reg: Map<isize, PinnedWindow>,
    hwnd: isize,
    cleared: Result<(), PinError>,
) -> Map<isize, PinnedWindow> {
    if cleared is Ok {
        reg.remove(hwnd)
    } else {
        reg
    }
}

/// What a toggle turns into: an unpin when the window is pinned or its
/// attribute is set, a pin otherwise; nothing for a window that is gone.
pub open spec fn spec_toggle(pinned: bool, f: WindowFacts) -> Result<PinCommand, PinError> {
    if !f.valid {
        Err(PinError::NoSuchWindow)
    } else if pinned || f.topmost {
        Ok(PinCommand::Unpin)
    } else {
        Ok(PinCommand::Pin)
    }
}

/// What re-asserting the attribute of a window calls for.
pub open spec fn spec_reassert(pinned: bool, f: WindowFacts) -> Reaction {
    if f.topmost || !pinned {
        Reaction::Nothing
    } else if f.valid {
        Reaction::Raise
    } else {
        Reaction::Forget
    }
}

/// The registry after a reaction on `hwnd`.
pub open spec fn reaction_registry(
    reg: Map<isize, PinnedWindow>,
    hwnd: isize,
    r: Reaction,
) -> Map<isize, PinnedWindow> {
    if r is Forget {
        reg.remove(hwnd)
    } else {
        reg
    }
}

/// The window's attributes after the host carried out a reaction.
pub open spec fn reaction_effect(f: WindowFacts, r: Reaction) -> WindowFacts {
    if r is Raise {
        apply_action(f, OsAction::SetTopmost)
    } else {
        f
    }
}

/// The window to act on, from the handle of the foreground window (0 when
/// no window has the focus).
pub fn get_foreground_window(raw: isize) -> (r: Result<isize, PinError>)
    ensures
        raw == 0 ==> r == Err::<isize, PinError>(PinError::NoForegroundWindow),
        raw != 0 ==> r == Ok::<isize, PinError>(raw),
{
    if raw == 0 {
        Err(PinError::NoForegroundWindow)
    } else {
        Ok(raw)
    }
}

/// Decides whether a window may be pinned, and if so the operations that
/// pin it. Neither refusal touches the window.
pub fn pin_plan(facts: &WindowFacts) -> (r: Result<Vec<Step>, PinError>)
    ensures
        match r {
            Ok(p) => spec_pin_admission(*facts) is Ok && p@ == spec_pin_steps(),
            Err(e) => spec_pin_admission(*facts) == Err::<(), PinError>(e),
        },
{
    if !facts.valid {
        return Err(PinError::NoSuchWindow);
    }
    if facts.excluded {
        return Err(PinError::WindowExcluded);
    }
    let mut p = Vec::new();
    p.push(Step { action: OsAction::SetTopmost, required: true });
    p.push(Step { action: OsAction::MarkPinned, required: true });
    assert(p@ =~= spec_pin_steps());
    Ok(p)
}

/// The operations that take back a pin plan that failed after its first
/// `done` steps succeeded, so that no half-pinned window is left behind.
pub fn pin_undo(facts: &WindowFacts, done: usize) -> (r: Vec<Step>)
    ensures
        r@ == spec_pin_undo(*facts, done as nat),
{
    let mut p = Vec::new();
    if done >= 1 && !facts.topmost {
        p.push(Step { action: OsAction::ClearTopmost, required: false });
    }
    assert(p@ =~= spec_pin_undo(*facts, done as nat));
    p
}

/// Records the outcome of pinning `hwnd`: on success the window is pinned,
/// fully opaque, with the title and process name it had; on failure the
/// registry is untouched and the failure is returned.
pub fn pin_window(
    state: &mut PinState,
    hwnd: isize,
    title: String,
    process_name: String,
    applied: Result<(), PinError>,
) -> (r: Result<bool, PinError>)
    ensures
        final(state)@ == pinned_after(old(state)@, hwnd, title, process_name, applied),
        applied is Ok ==> r == Ok::<bool, PinError>(true),
        applied matches Err(e) ==> r == Err::<bool, PinError>(e),
{
    match applied {
        Ok(()) => {
            state.add(hwnd, title, process_name);
            Ok(true)
        },
        Err(e) => Err(e),
    }
}

/// The operations that unpin a window.
pub fn unpin_plan(facts: &WindowFacts) -> (r: Vec<Step>)
    ensures
        r@ == spec_unpin_steps(*facts),
{
    let mut p = restore_opacity(facts);
    p.push(Step { action: OsAction::ClearMark, required: false });
    p.push(Step { action: OsAction::ClearTopmost, required: true });
    assert(p@ =~= spec_unpin_steps(*facts));
    p
}

/// Records the outcome of unpinning `hwnd`: once its attribute is cleared
/// the window is no longer pinned; on failure the registry is untouched.
pub fn unpin_window(state: &mut PinState, hwnd: isize, cleared: Result<(), PinError>) -> (r: Result<
    bool,
    PinError,
>)
    ensures
        final(state)@ == unpinned_after(old(state)@, hwnd, cleared),
        cleared is Ok ==> r == Ok::<bool, PinError>(false),
        cleared matches Err(e) ==> r == Err::<bool, PinError>(e),
{
    match cleared {
        Ok(()) => {
            state.remove(hwnd);
            Ok(false)
        },
        Err(e) => Err(e),
    }
}

/// Decides what a toggle request on `hwnd` does. A window counts as pinned
/// when the registry tracks it or its attribute is set, so that a window
/// pinned by half is unpinned.
pub fn toggle_pin(state: &PinState, hwnd: isize, facts: &WindowFacts) -> (r: Result<
    PinCommand,
    PinError,
>)
    ensures
        r == spec_toggle(state@.contains_key(hwnd), *facts),
{
    if !facts.valid {
        return Err(PinError::NoSuchWindow);
    }
    if state.is_pinned(hwnd) || facts.topmost {
        Ok(PinCommand::Unpin)
    } else {
        Ok(PinCommand::Pin)
    }
}

/// Re-asserts the always-on-top attribute of a pinned window that lost it.
/// A pinned window that no longer exists is dropped from the registry.
pub fn re_enforce_topmost(state: &mut PinState, hwnd: isize, facts: &WindowFacts) -> (r: Reaction)
    ensures
        r == spec_reassert(old(state)@.contains_key(hwnd), *facts),
        final(state)@ == reaction_registry(old(state)@, hwnd, r),
{
    if facts.topmost || !state.is_pinned(hwnd) {
        Reaction::Nothing
    } else if facts.valid {
        Reaction::Raise
    } else {
        state.cleanup(hwnd);
        Reaction::Forget
    }
}

/// The last component of a backslash-separated path: what follows its last
/// backslash, or all of it when it has none.
pub open spec fn file_name_of(path: Seq<char>) -> Seq<char>
    decreases path.len(),
{
    if path.len() == 0 {
        path
    } else if path.last() == '\\' {
        Seq::empty()
    } else {
        file_name_of(path.drop_last()).push(path.last())
    }
}

proof fn lemma_file_name_suffix(path: Seq<char>, i: int)
    requires
        0 <= i <= path.len(),
        i == 0 || path[i - 1] == '\\',
        forall|j: int| i <= j < path.len() ==> path[j] != '\\',
    ensures
        file_name_of(path) == path.subrange(i, path.len() as int),
    decreases path.len(),
{
    if path.len() == i {
        if i == 0 {
            assert(path =~= path.subrange(0, 0));
        } else {
            assert(path.subrange(i, i) =~= Seq::<char>::empty());
        }
    } else {
        let d = path.drop_last();
        assert(i == 0 || d[i - 1] == '\\');
        lemma_file_name_suffix(d, i);
        assert(d.subrange(i, d.len() as int).push(path.last()) =~= path.subrange(
            i,
            path.len() as int,
        ));
    }
}

/// The name of an executable from the full path of its image, as the
/// windowing system reports it.
pub fn process_file_name(path: &str) -> (r: String)
    ensures
        r@ == file_name_of(path@),
{
    let n = path.unicode_len();
    let mut i: usize = n;
    while i > 0
        invariant
            i <= n,
            n == path@.len(),
            forall|j: int| i <= j < n ==> path@[j] != '\\',
        ensures
            i <= n,
            forall|j: int| i <= j < n ==> path@[j] != '\\',
            i == 0 || path@[i - 1] == '\\',
        decreases i,
    {
        if path.get_char(i - 1) == '\\' {
            break;
        }
        i = i - 1;
    }
    proof {
        lemma_file_name_suffix(path@, i as int);
    }
    String::from_str(path.substring_char(i, n))
}

/// A window is in the registry after it was pinned, and no longer in it
/// after it was unpinned; a pinned window carries the attribute and the
/// marker.
pub proof fn lemma_pin_unpin_membership(
    reg: Map<isize, PinnedWindow>,
    hwnd: isize,
    title: String,
    process_name: String,
    f: WindowFacts,
)
    requires
        f.valid,
    ensures
        pinned_after(reg, hwnd, title, process_name, Ok(())).contains_key(hwnd),
        !unpinned_after(reg, hwnd, Ok(())).contains_key(hwnd),
        run_steps(f, spec_pin_steps()).topmost,
        run_steps(f, spec_pin_steps()).marked,
{
    reveal_with_fuel(run_steps, 3);
    assert(spec_pin_steps().drop_last().drop_last() =~= Seq::<Step>::empty());
}

/// A pin plan that stopped at a failed step (which changed nothing) and was
/// then taken back leaves the window's attribute and marker as they were:
/// no half-pinned window remains.
pub proof fn lemma_failed_pin_undone(f: WindowFacts, done: nat)
    requires
        f.valid,
        done < spec_pin_steps().len(),
    ensures
        ({
            let partial = run_steps(f, spec_pin_steps().take(done as int));
            let undone = run_steps(partial, spec_pin_undo(f, done));
            &&& undone.topmost == f.topmost
            &&& undone.marked == f.marked
        }),
{
    reveal_with_fuel(run_steps, 3);
    let steps = spec_pin_steps();
    if done == 0 {
        assert(steps.take(0) =~= Seq::<Step>::empty());
    } else {
        assert(steps.take(1).drop_last() =~= Seq::<Step>::empty());
        assert(spec_pin_undo(f, done).len() == 0 || spec_pin_undo(f, done).drop_last() =~= Seq::<
            Step,
        >::empty());
    }
}

/// An unpinned window has lost the attribute, the marker and the
/// transparency flag, and is fully opaque.
pub proof fn lemma_unpin_effect(f: WindowFacts)
    requires
        f.valid,
    ensures
        !run_steps(f, spec_unpin_steps(f)).topmost,
        !run_steps(f, spec_unpin_steps(f)).marked,
        !run_steps(f, spec_unpin_steps(f)).layered,
        run_steps(f, spec_unpin_steps(f)).alpha == Some(OPAQUE_ALPHA),
{
    reveal_with_fuel(run_steps, 5);
    let s = spec_unpin_steps(f);
    if f.layered {
        assert(s.drop_last().drop_last().drop_last().drop_last() =~= Seq::<Step>::empty());
    } else {
        assert(s.drop_last().drop_last().drop_last() =~= Seq::<Step>::empty());
    }
}

/// Re-asserting twice with no change in between leaves the window and the
/// registry as re-asserting once did.
pub proof fn lemma_reassert_idempotent(reg: Map<isize, PinnedWindow>, hwnd: isize, f: WindowFacts)
    ensures
        ({
            let r1 = spec_reassert(reg.contains_key(hwnd), f);
            let reg1 = reaction_registry(reg, hwnd, r1);
            let f1 = reaction_effect(f, r1);
            let r2 = spec_reassert(reg1.contains_key(hwnd), f1);
            &&& reaction_effect(f1, r2) == f1
            &&& reaction_registry(reg1, hwnd, r2) == reg1
        }),
{
}

/// Toggling a live, untracked window without the attribute pins it;
/// toggling it again unpins it, back to the registry it started from.
/// Toggling a window that is gone fails as not found.
pub proof fn lemma_toggle_twice(
    reg: Map<isize, PinnedWindow>,
    hwnd: isize,
    title: String,
    process_name: String,
    f: WindowFacts,
    gone: WindowFacts,
)
    requires
        !reg.contains_key(hwnd),
        f.valid,
        !f.topmost,
        !f.excluded,
        !gone.valid,
    ensures
        spec_toggle(reg.contains_key(hwnd), f) == Ok::<PinCommand, PinError>(PinCommand::Pin),
        spec_pin_admission(f) is Ok,
        ({
            let reg1 = pinned_after(reg, hwnd, title, process_name, Ok(()));
            let f1 = run_steps(f, spec_pin_steps());
            &&& reg1.contains_key(hwnd)
            &&& spec_toggle(reg1.contains_key(hwnd), f1) == Ok::<PinCommand, PinError>(
                PinCommand::Unpin,
            )
            &&& unpinned_after(reg1, hwnd, Ok(())) == reg
        }),
        spec_toggle(reg.contains_key(hwnd), gone) matches Err(e) && e.spec_is_not_found(),
{
    reveal_with_fuel(run_steps, 3);
    assert(spec_pin_steps().drop_last().drop_last() =~= Seq::<Step>::empty());
    let reg1 = pinned_after(reg, hwnd, title, process_name, Ok(()));
    assert(reg1.remove(hwnd) =~= reg);
}

} // verus!
