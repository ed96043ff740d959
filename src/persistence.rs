use crate::state::{handle_listed, lists_records, PinState, PinnedWindow, OPAQUE_ALPHA};
use crate::text::{lemma_signed_decimal, push_signed_decimal, signed_decimal};
use crate::transparency::{percent_for_alpha, percent_of_alpha};
use vstd::prelude::*;

verus! {

/// What is kept of a pinned window across restarts.
#[derive(Debug)]
pub struct SavedPin {
    /// The name of the executable that owned the window.
    pub process_name: String,
    /// The window's title, used to tell windows of one process apart.
    pub title: String,
    /// The window's alpha (0-255).
    pub opacity: u8,
}

impl Clone for SavedPin {
    fn clone(&self) -> (r: Self)
        ensures
            r == *self,
    {
        SavedPin {
            process_name: self.process_name.clone(),
            title: self.title.clone(),
            opacity: self.opacity,
        }
    }
}

/// The user's preferences.
#[derive(Clone, Copy, Debug)]
pub struct UserSettings {
    /// Play a sound when a window is pinned or unpinned.
    pub enable_sound: bool,
    /// The user was told that the application keeps running in the tray.
    pub has_seen_tray_notice: bool,
}

/// The preferences of a user who never changed any.
pub open spec fn default_settings() -> UserSettings {
    UserSettings { enable_sound: true, has_seen_tray_notice: false }
}

/// The value of a preference that is on unless the user turned it off.
pub fn default_true() -> (r: bool)
    ensures
        r,
{
    true
}

impl Default for UserSettings {
    fn default() -> (r: Self)
        ensures
            r == default_settings(),
    {
        UserSettings { enable_sound: default_true(), has_seen_tray_notice: false }
    }
}

/// Everything that is kept across restarts: the pins, each under a key made
/// of its process name and its handle (`save_current` makes the keys
/// distinct), and the preferences.
#[derive(Debug)]
pub struct SavedState {
    pub pins: Vec<(String, SavedPin)>,
    pub settings: UserSettings,
}

impl Default for SavedState {
    fn default() -> (r: Self)
        ensures
            r.pins@.len() == 0,
            r.settings == default_settings(),
    {
        SavedState { pins: Vec::new(), settings: UserSettings::default() }
    }
}

/// The key of a saved pin: process name, a colon, the handle in decimal.
pub open spec fn spec_pin_key(process_name: Seq<char>, hwnd: int) -> Seq<char> {
    process_name + seq![':'] + signed_decimal(hwnd)
}

/// What is kept of a pinned record.
pub open spec fn saved_pin_of(w: PinnedWindow) -> SavedPin {
    SavedPin { process_name: w.process_name, title: w.title, opacity: w.opacity }
}

/// `e` is the saved entry of record `w`.
pub open spec fn is_entry_of(e: (String, SavedPin), w: PinnedWindow) -> bool {
    e.0@ == spec_pin_key(w.process_name@, w.hwnd as int) && e.1 == saved_pin_of(w)
}

/// Keys of different handles differ, whatever the process names.
pub proof fn lemma_pin_key_injective(p1: Seq<char>, h1: int, p2: Seq<char>, h2: int)
    requires
        spec_pin_key(p1, h1) == spec_pin_key(p2, h2),
    ensures
        h1 == h2,
{
    let k = spec_pin_key(p1, h1);
    let d1 = signed_decimal(h1);
    let d2 = signed_decimal(h2);
    lemma_signed_decimal(h1, h2);
    lemma_signed_decimal(h2, h1);
    let n = k.len();
    assert(n == p1.len() + 1 + d1.len());
    assert(n == p2.len() + 1 + d2.len());
    if d1.len() < d2.len() {
        let idx = p1.len() as int;
        assert(k[idx] == ':');
        assert(spec_pin_key(p2, h2)[idx] == d2[idx - p2.len() - 1]);
    } else if d2.len() < d1.len() {
        let idx = p2.len() as int;
        assert(spec_pin_key(p2, h2)[idx] == ':');
        assert(k[idx] == d1[idx - p1.len() - 1]);
    } else {
        assert(d1 =~= k.subrange(n - d1.len(), n as int));
        assert(d2 =~= spec_pin_key(p2, h2).subrange(n - d2.len(), n as int));
    }
}

/// The key under which a pinned window is saved, so that several windows
/// of one process can be saved at once.
pub fn pin_key(process_name: &String, hwnd: isize) -> (r: String)
    ensures
        r@ == spec_pin_key(process_name@, hwnd as int),
{
    proof {
        reveal_strlit(":");
    }
    let mut key = process_name.clone();
    key.append(":");
    push_signed_decimal(&mut key, hwnd);
    assert(key@ =~= spec_pin_key(process_name@, hwnd as int));
    key
}

/// The state to save: the pins of the registry, each once, and the
/// preferences of `previous`.
pub fn save_current(registry: &PinState, previous: SavedState) -> (r: SavedState)
    ensures
        r.settings == previous.settings,
        exists|s: Seq<PinnedWindow>|
            #[trigger] lists_records(s, registry@) && r.pins@.len() == s.len() && forall|i: int|
                0 <= i < s.len() ==> is_entry_of(#[trigger] r.pins@[i], s[i]),
        forall|i: int, j: int|
            0 <= i < r.pins@.len() && 0 <= j < r.pins@.len() && i != j ==> #[trigger] r.pins@[i].0@
                != #[trigger] r.pins@[j].0@,
{
    let pinned = registry.get_all();
    let mut pins: Vec<(String, SavedPin)> = Vec::new();
    let mut i: usize = 0;
    while i < pinned.len()
        invariant
            i <= pinned@.len(),
            pins@.len() == i,
            forall|j: int| 0 <= j < i ==> is_entry_of(#[trigger] pins@[j], pinned@[j]),
        decreases pinned@.len() - i,
    {
        let w = &pinned[i];
        let key = pin_key(&w.process_name, w.hwnd);
        let saved = SavedPin {
            process_name: w.process_name.clone(),
            title: w.title.clone(),
            opacity: w.opacity,
        };
        pins.push((key, saved));
        i = i + 1;
    }
    assert(lists_records(pinned@, registry@));
    assert forall|i: int, j: int|
        0 <= i < pins@.len() && 0 <= j < pins@.len() && i != j implies #[trigger] pins@[i].0@
        != #[trigger] pins@[j].0@ by {
        if pins@[i].0@ == pins@[j].0@ {
            assert(is_entry_of(pins@[i], pinned@[i]));
            assert(is_entry_of(pins@[j], pinned@[j]));
            lemma_pin_key_injective(
                pinned@[i].process_name@,
                pinned@[i].hwnd as int,
                pinned@[j].process_name@,
                pinned@[j].hwnd as int,
            );
            assert(pinned@[i].hwnd == pinned@[j].hwnd);
        }
    }
    SavedState { pins, settings: previous.settings }
}

/// The saved preferences.
pub fn get_settings(state: &SavedState) -> (r: UserSettings)
    ensures
        r == state.settings,
{
    state.settings
}

/// Replaces the saved preferences, keeping the pins.
pub fn update_settings(state: &mut SavedState, settings: UserSettings)
    ensures
        final(state).settings == settings,
        final(state).pins == old(state).pins,
{
    state.settings = settings;
}

/// A top-level window that is on screen when pins are restored.
#[derive(Debug)]
pub struct WindowCandidate {
    pub hwnd: isize,
    pub process_name: String,
    pub title: String,
}

/// A window to pin again, with the opacity to give it afterwards, if any.
#[derive(Clone, Copy, Debug)]
pub struct RestorePin {
    pub hwnd: isize,
    pub opacity_percent: Option<u8>,
}

/// `c` is an unclaimed window of the saved pin's process with its exact
/// (non-empty) title.
pub open spec fn title_fits(c: WindowCandidate, p: SavedPin, claimed: Set<isize>) -> bool {
    &&& c.process_name@ == p.process_name@
    &&& !claimed.contains(c.hwnd)
    &&& p.title@.len() > 0
    &&& c.title@ == p.title@
}

/// `c` is an unclaimed window of the saved pin's process.
pub open spec fn process_fits(c: WindowCandidate, p: SavedPin, claimed: Set<isize>) -> bool {
    c.process_name@ == p.process_name@ && !claimed.contains(c.hwnd)
}

/// `k` is the first candidate whose title fits.
pub open spec fn first_title_fit(
    cs: Seq<WindowCandidate>,
    p: SavedPin,
    claimed: Set<isize>,
    k: int,
) -> bool {
    &&& 0 <= k < cs.len()
    &&& title_fits(cs[k], p, claimed)
    &&& forall|j: int| 0 <= j < k ==> !title_fits(#[trigger] cs[j], p, claimed)
}

/// `k` is the first candidate whose process fits.
pub open spec fn first_process_fit(
    cs: Seq<WindowCandidate>,
    p: SavedPin,
    claimed: Set<isize>,
    k: int,
) -> bool {
    &&& 0 <= k < cs.len()
    &&& process_fits(cs[k], p, claimed)
    &&& forall|j: int| 0 <= j < k ==> !process_fits(#[trigger] cs[j], p, claimed)
}

/// The candidate that a saved pin binds to: the first unclaimed window of
/// its process with its title, else the first unclaimed window of its
/// process, else none.
pub open spec fn spec_pick(cs: Seq<WindowCandidate>, p: SavedPin, claimed: Set<isize>) -> Option<int> {
    if exists|k: int| first_title_fit(cs, p, claimed, k) {
        Some(choose|k: int| first_title_fit(cs, p, claimed, k))
    } else if exists|k: int| first_process_fit(cs, p, claimed, k) {
        Some(choose|k: int| first_process_fit(cs, p, claimed, k))
    } else {
        None
    }
}

/// The opacity to give a restored window: none when it was fully opaque.
pub open spec fn reapplied_percent(opacity: u8) -> Option<u8> {
    if opacity < OPAQUE_ALPHA {
        Some(percent_of_alpha(opacity as int) as u8)
    } else {
        None
    }
}

/// The window that saved pin `p` is restored on, given the windows already
/// claimed by earlier pins, with the opacity to give it afterwards.
pub open spec fn spec_restore(cs: Seq<WindowCandidate>, p: SavedPin, claimed: Set<isize>) -> Option<RestorePin> {
    match spec_pick(cs, p, claimed) {
        Some(k) => Some(RestorePin { hwnd: cs[k].hwnd, opacity_percent: reapplied_percent(p.opacity) }),
        None => None,
    }
}

/// Whether `c` is a window of `p`'s process, unclaimed, and (when asked)
/// with `p`'s title.
fn fits(c: &WindowCandidate, p: &SavedPin, claimed: &Vec<isize>, by_title: bool) -> (r: bool)
    ensures
        by_title ==> r == title_fits(*c, *p, claimed@.to_set()),
        !by_title ==> r == process_fits(*c, *p, claimed@.to_set()),
{
    if !(c.process_name == p.process_name) || handle_listed(claimed, c.hwnd) {
        return false;
    }
    if by_title {
        p.title.as_str().unicode_len() > 0 && c.title == p.title
    } else {
        true
    }
}

/// The candidate that `p` binds to.
fn pick(cs: &Vec<WindowCandidate>, p: &SavedPin, claimed: &Vec<isize>) -> (r: Option<usize>)
    ensures
        match r {
            Some(k) => spec_pick(cs@, *p, claimed@.to_set()) == Some(k as int),
            None => spec_pick(cs@, *p, claimed@.to_set()) is None,
        },
{
    let ghost set = claimed@.to_set();
    let mut k: usize = 0;
    while k < cs.len()
        invariant
            k <= cs@.len(),
            set == claimed@.to_set(),
            forall|j: int| 0 <= j < k ==> !title_fits(#[trigger] cs@[j], *p, set),
        decreases cs@.len() - k,
    {
        if fits(&cs[k], p, claimed, true) {
            proof {
                assert(first_title_fit(cs@, *p, set, k as int));
                let c = choose|c: int| first_title_fit(cs@, *p, set, c);
                if c < k {
                    assert(!title_fits(cs@[c], *p, set));
                } else if c > k {
                    assert(!title_fits(cs@[k as int], *p, set));
                }
            }
            return Some(k);
        }
        k = k + 1;
    }
    assert(!exists|c: int| first_title_fit(cs@, *p, set, c));
    let mut k: usize = 0;
    while k < cs.len()
        invariant
            k <= cs@.len(),
            set == claimed@.to_set(),
            !exists|c: int| first_title_fit(cs@, *p, set, c),
            forall|j: int| 0 <= j < k ==> !process_fits(#[trigger] cs@[j], *p, set),
        decreases cs@.len() - k,
    {
        if fits(&cs[k], p, claimed, false) {
            proof {
                assert(first_process_fit(cs@, *p, set, k as int));
                let c = choose|c: int| first_process_fit(cs@, *p, set, c);
                if c < k {
                    assert(!process_fits(cs@[c], *p, set));
                } else if c > k {
                    assert(!process_fits(cs@[k as int], *p, set));
                }
            }
            return Some(k);
        }
        k = k + 1;
    }
    assert(!exists|c: int| first_process_fit(cs@, *p, set, c));
    None
}

/// Chooses the window that the `index`-th saved pin is restored on: a
/// window of the pin's process with the pin's exact title first, else the
/// first window of that process; windows in `claimed`, which earlier pins
/// were restored on, are passed over. None when the process has no window
/// left: the pin is dropped.
pub fn restore(saved: &SavedState, windows: &Vec<WindowCandidate>, index: usize, claimed: &Vec<isize>) -> (r: Option<RestorePin>)
    requires
        index < saved.pins@.len(),
    ensures
        r == spec_restore(windows@, saved.pins@[index as int].1, claimed@.to_set()),
{
    let p = &saved.pins[index].1;
    match pick(windows, p, claimed) {
        Some(k) => {
            let opacity_percent = if p.opacity < OPAQUE_ALPHA {
                Some(percent_for_alpha(p.opacity))
            } else {
                None
            };
            Some(RestorePin { hwnd: windows[k].hwnd, opacity_percent })
        },
        None => None,
    }
}

/// Records the outcome of pinning a window for a saved pin: the window is
/// claimed only once it was pinned.
pub fn record_restore(claimed: &mut Vec<isize>, pin: &RestorePin, pinned: bool)
    ensures
        final(claimed)@ == (if pinned {
            old(claimed)@.push(pin.hwnd)
        } else {
            old(claimed)@
        }),
{
    if pinned {
        claimed.push(pin.hwnd);
    }
}

/// A candidate whose title fits has a first such candidate.
proof fn lemma_first_title_exists(cs: Seq<WindowCandidate>, p: SavedPin, claimed: Set<isize>, j: int)
    requires
        0 <= j < cs.len(),
        title_fits(cs[j], p, claimed),
    ensures
        exists|k: int| first_title_fit(cs, p, claimed, k),
    decreases j,
{
    if exists|i: int| 0 <= i < j && title_fits(cs[i], p, claimed) {
        let i = choose|i: int| 0 <= i < j && title_fits(cs[i], p, claimed);
        lemma_first_title_exists(cs, p, claimed, i);
    } else {
        assert(first_title_fit(cs, p, claimed, j));
    }
}

/// A candidate whose process fits has a first such candidate.
proof fn lemma_first_process_exists(cs: Seq<WindowCandidate>, p: SavedPin, claimed: Set<isize>, j: int)
    requires
        0 <= j < cs.len(),
        process_fits(cs[j], p, claimed),
    ensures
        exists|k: int| first_process_fit(cs, p, claimed, k),
    decreases j,
{
    if exists|i: int| 0 <= i < j && process_fits(cs[i], p, claimed) {
        let i = choose|i: int| 0 <= i < j && process_fits(cs[i], p, claimed);
        lemma_first_process_exists(cs, p, claimed, i);
    } else {
        assert(first_process_fit(cs, p, claimed, j));
    }
}

/// A saved pin is restored on an unclaimed window of its process, so no
/// window is claimed twice. When an unclaimed window of the process carries
/// the pin's exact title, the first such window is chosen; otherwise the
/// first unclaimed window of the process. Only when the process has no
/// unclaimed window is the pin dropped.
pub proof fn lemma_restore_choice(cs: Seq<WindowCandidate>, p: SavedPin, claimed: Set<isize>)
    ensures
        match spec_pick(cs, p, claimed) {
            Some(k) => {
                &&& 0 <= k < cs.len()
                &&& !claimed.contains(cs[k].hwnd)
                &&& cs[k].process_name@ == p.process_name@
                &&& (exists|j: int| 0 <= j < cs.len() && title_fits(cs[j], p, claimed)) ==> first_title_fit(
                    cs,
                    p,
                    claimed,
                    k,
                )
                &&& !(exists|j: int| 0 <= j < cs.len() && title_fits(cs[j], p, claimed))
                    ==> first_process_fit(cs, p, claimed, k)
            },
            None => forall|j: int| 0 <= j < cs.len() ==> !process_fits(#[trigger] cs[j], p, claimed),
        },
{
    if exists|j: int| 0 <= j < cs.len() && title_fits(cs[j], p, claimed) {
        let j = choose|j: int| 0 <= j < cs.len() && title_fits(cs[j], p, claimed);
        lemma_first_title_exists(cs, p, claimed, j);
    } else {
        if exists|k: int| first_title_fit(cs, p, claimed, k) {
            let k = choose|k: int| first_title_fit(cs, p, claimed, k);
            assert(0 <= k < cs.len() && title_fits(cs[k], p, claimed));
        }
        if exists|j: int| 0 <= j < cs.len() && process_fits(cs[j], p, claimed) {
            let j = choose|j: int| 0 <= j < cs.len() && process_fits(cs[j], p, claimed);
            lemma_first_process_exists(cs, p, claimed, j);
        } else {
            if exists|k: int| first_process_fit(cs, p, claimed, k) {
                let k = choose|k: int| first_process_fit(cs, p, claimed, k);
                assert(0 <= k < cs.len() && process_fits(cs[k], p, claimed));
            }
        }
    }
}

} // verus!
