use crate::error::PinError;
use crate::state::{with_opacity, PinState, OPAQUE_ALPHA};
use crate::window::{best_effort, required, run_steps, OsAction, Step, WindowFacts};
use vstd::prelude::*;

verus! {

/// The lowest opacity a window may be given, in percent: below it a window
/// is too hard to see to interact with.
pub const MIN_OPACITY_PERCENT: u8 = 20;

/// The highest opacity, in percent.
pub const MAX_OPACITY_PERCENT: u8 = 100;

/// `p` brought into the allowed range of percentages.
pub open spec fn clamp_percent(p: int) -> int {
    if p < MIN_OPACITY_PERCENT as int {
        MIN_OPACITY_PERCENT as int
    } else if p > MAX_OPACITY_PERCENT as int {
        MAX_OPACITY_PERCENT as int
    } else {
        p
    }
}

/// The alpha for a percentage: `255 * p / 100`, rounded to the nearest.
pub open spec fn alpha_of_percent(p: int) -> int {
    (255 * p + 50) / 100
}

/// The percentage for an alpha: `100 * a / 255`, rounded down.
pub open spec fn percent_of_alpha(a: int) -> int {
    (100 * a) / 255
}

/// The opacity of a window in percent: full unless it carries the
/// transparency flag and its alpha can be read.
pub open spec fn effective_percent(f: WindowFacts) -> int {
    if !f.layered {
        100
    } else {
        match f.alpha {
            Some(a) => percent_of_alpha(a as int),
            None => 100,
        }
    }
}

/// The plan that gives a window `percent` opacity.
pub open spec fn spec_set_opacity_steps(f: WindowFacts, percent: u8) -> Seq<Step> {
    let set_alpha = required(OsAction::SetAlpha(alpha_of_percent(clamp_percent(percent as int)) as u8));
    if f.layered {
        seq![set_alpha]
    } else {
        seq![best_effort(OsAction::AddLayered), set_alpha]
    }
}

/// The plan that makes a window fully opaque and drops its transparency
/// flag. Both steps are best effort: a window left translucent is a lesser
/// harm than a failed unpin.
pub open spec fn spec_restore_steps(f: WindowFacts) -> Seq<Step> {
    let set_alpha = best_effort(OsAction::SetAlpha(OPAQUE_ALPHA));
    if f.layered {
        seq![set_alpha, best_effort(OsAction::RemoveLayered)]
    } else {
        seq![set_alpha]
    }
}

/// A percentage taken to an alpha and back loses at most one point, and
/// none at the ends of the allowed range.
pub proof fn lemma_percent_round_trip(p: int)
    requires
        0 <= p <= 100,
    ensures
        0 <= alpha_of_percent(p) <= 255,
        p - 1 <= percent_of_alpha(alpha_of_percent(p)) <= p,
        p == MIN_OPACITY_PERCENT as int ==> percent_of_alpha(alpha_of_percent(p)) == p,
        p == MAX_OPACITY_PERCENT as int ==> percent_of_alpha(alpha_of_percent(p)) == p,
{
    let a = alpha_of_percent(p);
    assert(100 * a <= 255 * p + 50 && 255 * p + 50 < 100 * a + 100) by (nonlinear_arith)
        requires
            a == (255 * p + 50) / 100,
            0 <= p,
    ;
    assert(0 <= a <= 255) by (nonlinear_arith)
        requires
            100 * a <= 255 * p + 50,
            255 * p + 50 < 100 * a + 100,
            0 <= p <= 100,
    ;
    assert(p - 1 <= (100 * a) / 255 <= p) by (nonlinear_arith)
        requires
            100 * a <= 255 * p + 50,
            255 * p + 50 < 100 * a + 100,
            0 <= a,
    ;
    if p == 20 {
        assert(a == 51);
    }
    if p == 100 {
        assert(a == 255);
    }
}

/// The alpha that a request for `percent` opacity applies, after clamping.
pub fn alpha_for_percent(percent: u8) -> (r: u8)
    ensures
        r as int == alpha_of_percent(clamp_percent(percent as int)),
{
    let p: u8 = if percent < MIN_OPACITY_PERCENT {
        MIN_OPACITY_PERCENT
    } else if percent > MAX_OPACITY_PERCENT {
        MAX_OPACITY_PERCENT
    } else {
        percent
    };
    proof {
        lemma_percent_round_trip(p as int);
    }
    ((255u32 * p as u32 + 50) / 100) as u8
}

/// The percentage that `alpha` stands for.
pub fn percent_for_alpha(alpha: u8) -> (r: u8)
    ensures
        r as int == percent_of_alpha(alpha as int),
        r <= 100,
{
    ((100u32 * alpha as u32) / 255) as u8
}

/// The current opacity of a window in percent.
pub fn get_opacity_percent(facts: &WindowFacts) -> (r: u8)
    ensures
        r as int == effective_percent(*facts),
        r <= 100,
{
    if !facts.layered {
        return 100;
    }
    match facts.alpha {
        Some(a) => percent_for_alpha(a),
        None => 100,
    }
}

/// The opacity, in percent, that a change by `delta` percentage points
/// leads to, within the allowed range.
pub fn adjust_opacity(facts: &WindowFacts, delta: i32) -> (r: u8)
    ensures
        r as int == clamp_percent(effective_percent(*facts) + delta as int),
{
    let current = get_opacity_percent(facts) as i64;
    let target = current + delta as i64;
    if target < MIN_OPACITY_PERCENT as i64 {
        MIN_OPACITY_PERCENT
    } else if target > MAX_OPACITY_PERCENT as i64 {
        MAX_OPACITY_PERCENT
    } else {
        target as u8
    }
}

/// The opacity that a change by `delta` gives a pinned window; windows
/// that are not pinned are refused.
pub fn opacity_target(state: &PinState, hwnd: isize, facts: &WindowFacts, delta: i32) -> (r: Result<
    u8,
    PinError,
>)
    ensures
        !state@.contains_key(hwnd) ==> r == Err::<u8, PinError>(PinError::WindowExcluded),
        state@.contains_key(hwnd) ==> (r matches Ok(p) && p as int == clamp_percent(
            effective_percent(*facts) + delta as int,
        )),
{
    if !state.is_pinned(hwnd) {
        return Err(PinError::WindowExcluded);
    }
    Ok(adjust_opacity(facts, delta))
}

/// The operations that give a window `percent` opacity: the transparency
/// flag where it is missing, then the alpha.
pub fn set_opacity_plan(facts: &WindowFacts, percent: u8) -> (r: Vec<Step>)
    ensures
        r@ == spec_set_opacity_steps(*facts, percent),
{
    let set_alpha = Step { action: OsAction::SetAlpha(alpha_for_percent(percent)), required: true };
    let mut r = Vec::new();
    if !facts.layered {
        r.push(Step { action: OsAction::AddLayered, required: false });
    }
    r.push(set_alpha);
    assert(r@ =~= spec_set_opacity_steps(*facts, percent));
    r
}

/// Records the outcome of giving `hwnd` `percent` opacity: on success the
/// registry holds the applied alpha; on failure nothing changes.
pub fn set_opacity(
    state: &mut PinState,
    hwnd: isize,
    percent: u8,
    applied: Result<(), PinError>,
) -> (r: Result<(), PinError>)
    ensures
        r == applied,
        final(state)@ == (if applied is Ok && old(state)@.contains_key(hwnd) {
            old(state)@.insert(
                hwnd,
                with_opacity(old(state)@[hwnd], alpha_of_percent(clamp_percent(percent as int)) as u8),
            )
        } else {
            old(state)@
        }),
{
    if applied.is_ok() {
        let alpha = alpha_for_percent(percent);
        state.set_opacity(hwnd, alpha);
    }
    applied
}

/// The operations that make a window fully opaque again: full alpha, then
/// the transparency flag removed where it is set.
pub fn restore_opacity(facts: &WindowFacts) -> (r: Vec<Step>)
    ensures
        r@ == spec_restore_steps(*facts),
{
    let mut r = Vec::new();
    r.push(Step { action: OsAction::SetAlpha(OPAQUE_ALPHA), required: false });
    if facts.layered {
        r.push(Step { action: OsAction::RemoveLayered, required: false });
    }
    assert(r@ =~= spec_restore_steps(*facts));
    r
}

/// Whatever was asked for, a window given an opacity ends in the allowed
/// range, at most one point below the clamped request: a request for 0
/// gives the floor of 20 percent exactly, one for 255 the ceiling of 100.
pub proof fn lemma_set_opacity_clamps(f: WindowFacts, percent: u8)
    requires
        f.valid,
    ensures
        ({
            let after = effective_percent(run_steps(f, spec_set_opacity_steps(f, percent)));
            &&& clamp_percent(percent as int) - 1 <= after <= clamp_percent(percent as int)
            &&& MIN_OPACITY_PERCENT as int <= after <= MAX_OPACITY_PERCENT as int
            &&& percent <= MIN_OPACITY_PERCENT ==> after == MIN_OPACITY_PERCENT as int
            &&& percent >= MAX_OPACITY_PERCENT ==> after == MAX_OPACITY_PERCENT as int
        }),
{
    let steps = spec_set_opacity_steps(f, percent);
    reveal_with_fuel(run_steps, 3);
    lemma_percent_round_trip(clamp_percent(percent as int));
    if !f.layered {
        assert(steps.drop_last().drop_last() =~= Seq::<Step>::empty());
    } else {
        assert(steps.drop_last() =~= Seq::<Step>::empty());
    }
}

/// Raising the opacity by five points and lowering it by five again gives
/// back the opacity the window had, within the one point that the trip
/// through an alpha may lose, for any start between 20 and 95.
pub proof fn lemma_adjust_round_trip(f: WindowFacts)
    requires
        f.valid,
        MIN_OPACITY_PERCENT as int <= effective_percent(f) <= MAX_OPACITY_PERCENT as int - 5,
    ensures
        ({
            let up = clamp_percent(effective_percent(f) + 5) as u8;
            let raised = run_steps(f, spec_set_opacity_steps(f, up));
            let back = clamp_percent(effective_percent(raised) - 5);
            effective_percent(f) - 1 <= back <= effective_percent(f)
        }),
{
    let up = clamp_percent(effective_percent(f) + 5) as u8;
    lemma_set_opacity_clamps(f, up);
}

/// A window that was made opaque again is fully opaque and carries no
/// transparency flag.
pub proof fn lemma_restore_opaque(f: WindowFacts)
    requires
        f.valid,
    ensures
        !run_steps(f, spec_restore_steps(f)).layered,
        run_steps(f, spec_restore_steps(f)).alpha == Some(OPAQUE_ALPHA),
        effective_percent(run_steps(f, spec_restore_steps(f))) == 100,
{
    let steps = spec_restore_steps(f);
    reveal_with_fuel(run_steps, 3);
    if f.layered {
        assert(steps.drop_last().drop_last() =~= Seq::<Step>::empty());
    } else {
        assert(steps.drop_last() =~= Seq::<Step>::empty());
    }
}

} // verus!
