use vstd::prelude::*;

verus! {

/// Full opacity of a window, as an alpha value.
pub const OPAQUE_ALPHA: u8 = 255;

/// A window that is currently pinned, as the registry records it.
#[derive(Debug)]
pub struct PinnedWindow {
    /// The window's handle.
    pub hwnd: isize,
    /// The window's title when it was pinned.
    pub title: String,
    /// The name of the executable that owns the window.
    pub process_name: String,
    /// The alpha currently applied to the window (0-255).
    pub opacity: u8,
    /// The alpha the window had before its first opacity change.
    pub original_opacity: Option<u8>,
}

impl Clone for PinnedWindow {
    fn clone(&self) -> (r: Self)
        ensures
            r == *self,
    {
        PinnedWindow {
            hwnd: self.hwnd,
            title: self.title.clone(),
            process_name: self.process_name.clone(),
            opacity: self.opacity,
            original_opacity: self.original_opacity,
        }
    }
}

/// The record that pinning `hwnd` creates: fully opaque, no earlier opacity.
pub open spec fn fresh_record(hwnd: isize, title: String, process_name: String) -> PinnedWindow {
    PinnedWindow { hwnd, title, process_name, opacity: OPAQUE_ALPHA, original_opacity: None }
}

/// A record after its alpha was set to `alpha`: the first change keeps the
/// alpha it replaced.
pub open spec fn with_opacity(w: PinnedWindow, alpha: u8) -> PinnedWindow {
    PinnedWindow {
        opacity: alpha,
        original_opacity: if w.original_opacity is None {
            Some(w.opacity)
        } else {
            w.original_opacity
        },
        ..w
    }
}

/// No two records of `s` share a handle.
pub open spec fn handles_unique(s: Seq<PinnedWindow>) -> bool {
    forall|i: int, j: int|
        0 <= i < s.len() && 0 <= j < s.len() && #[trigger] s[i].hwnd == #[trigger] s[j].hwnd
            ==> i == j
}

/// `s` lists exactly the records of `m`, each once, under its own key.
pub open spec fn lists_records(s: Seq<PinnedWindow>, m: Map<isize, PinnedWindow>) -> bool {
    &&& handles_unique(s)
    &&& forall|i: int|
        0 <= i < s.len() ==> #[trigger] m.contains_key(s[i].hwnd) && m[s[i].hwnd] == s[i]
    &&& forall|h: isize| #[trigger]
        m.contains_key(h) ==> exists|i: int| 0 <= i < s.len() && s[i].hwnd == h
}

/// The map from handle to record that a sequence of records with unique
/// handles stands for.
spec fn records_map(s: Seq<PinnedWindow>) -> Map<isize, PinnedWindow> {
    Map::new(
        |h: isize| exists|i: int| 0 <= i < s.len() && s[i].hwnd == h,
        |h: isize| s[choose|i: int| 0 <= i < s.len() && s[i].hwnd == h],
    )
}

/// A sequence with unique handles lists the records of its own map.
proof fn lemma_records_map(s: Seq<PinnedWindow>)
    requires
        handles_unique(s),
    ensures
        lists_records(s, records_map(s)),
{
    let m = records_map(s);
    assert forall|i: int| 0 <= i < s.len() implies #[trigger] m.contains_key(s[i].hwnd) && m[s[i].hwnd]
        == s[i] by {
        let h = s[i].hwnd;
        assert(0 <= i < s.len() && s[i].hwnd == h);
        let j = choose|j: int| 0 <= j < s.len() && s[j].hwnd == h;
        assert(s[j].hwnd == s[i].hwnd);
    }
}

/// A map is determined by a sequence that lists its records.
proof fn lemma_lists_records_unique(s: Seq<PinnedWindow>, m: Map<isize, PinnedWindow>)
    requires
        lists_records(s, m),
    ensures
        records_map(s) == m,
{
    lemma_records_map(s);
    let r = records_map(s);
    assert forall|h: isize| r.contains_key(h) <==> m.contains_key(h) by {
        if r.contains_key(h) {
            let i = choose|i: int| 0 <= i < s.len() && s[i].hwnd == h;
            assert(m.contains_key(s[i].hwnd));
        }
        if m.contains_key(h) {
            let i = choose|i: int| 0 <= i < s.len() && s[i].hwnd == h;
            assert(r.contains_key(s[i].hwnd));
        }
    }
    assert forall|h: isize| #[trigger] r.contains_key(h) implies r[h] == m[h] by {
        let i = choose|i: int| 0 <= i < s.len() && s[i].hwnd == h;
        assert(r.contains_key(s[i].hwnd) && m.contains_key(s[i].hwnd));
    }
    assert(r =~= m);
}

/// Replacing the record that holds a handle by a new record for it.
proof fn lemma_lists_replace(
    s: Seq<PinnedWindow>,
    m: Map<isize, PinnedWindow>,
    i: int,
    w: PinnedWindow,
)
    requires
        lists_records(s, m),
        0 <= i < s.len(),
        s[i].hwnd == w.hwnd,
    ensures
        lists_records(s.update(i, w), m.insert(w.hwnd, w)),
{
    let t = s.update(i, w);
    let n = m.insert(w.hwnd, w);
    assert forall|j: int| 0 <= j < t.len() implies #[trigger] n.contains_key(t[j].hwnd) && n[t[j].hwnd]
        == t[j] by {
        if j != i {
            assert(s[j].hwnd != s[i].hwnd);
            assert(m.contains_key(s[j].hwnd));
        }
    }
    assert forall|h: isize| #[trigger] n.contains_key(h) implies exists|j: int|
        0 <= j < t.len() && t[j].hwnd == h by {
        if h == w.hwnd {
            assert(t[i].hwnd == h);
        } else {
            let j = choose|j: int| 0 <= j < s.len() && s[j].hwnd == h;
            assert(t[j].hwnd == h);
        }
    }
}

/// Appending a record for a handle that no record holds.
proof fn lemma_lists_push(s: Seq<PinnedWindow>, m: Map<isize, PinnedWindow>, w: PinnedWindow)
    requires
        lists_records(s, m),
        forall|j: int| 0 <= j < s.len() ==> #[trigger] s[j].hwnd != w.hwnd,
    ensures
        lists_records(s.push(w), m.insert(w.hwnd, w)),
{
    let t = s.push(w);
    let n = m.insert(w.hwnd, w);
    assert forall|j: int, k: int|
        0 <= j < t.len() && 0 <= k < t.len() && #[trigger] t[j].hwnd == #[trigger] t[k].hwnd
        implies j == k by {
        if j < s.len() && k < s.len() {
            assert(s[j].hwnd == s[k].hwnd);
        }
    }
    assert forall|j: int| 0 <= j < t.len() implies #[trigger] n.contains_key(t[j].hwnd) && n[t[j].hwnd]
        == t[j] by {
        if j < s.len() {
            assert(m.contains_key(s[j].hwnd));
        }
    }
    assert forall|h: isize| #[trigger] n.contains_key(h) implies exists|j: int|
        0 <= j < t.len() && t[j].hwnd == h by {
        if h == w.hwnd {
            assert(t[s.len() as int].hwnd == h);
        } else {
            let j = choose|j: int| 0 <= j < s.len() && s[j].hwnd == h;
            assert(t[j].hwnd == h);
        }
    }
}

/// Dropping the record at position `i`.
proof fn lemma_lists_remove(s: Seq<PinnedWindow>, m: Map<isize, PinnedWindow>, i: int)
    requires
        lists_records(s, m),
        0 <= i < s.len(),
    ensures
        lists_records(s.remove(i), m.remove(s[i].hwnd)),
{
    let t = s.remove(i);
    let n = m.remove(s[i].hwnd);
    assert forall|j: int, k: int|
        0 <= j < t.len() && 0 <= k < t.len() && #[trigger] t[j].hwnd == #[trigger] t[k].hwnd
        implies j == k by {
        let j2 = if j < i { j } else { j + 1 };
        let k2 = if k < i { k } else { k + 1 };
        assert(s[j2].hwnd == s[k2].hwnd);
    }
    assert forall|j: int| 0 <= j < t.len() implies #[trigger] n.contains_key(t[j].hwnd) && n[t[j].hwnd]
        == t[j] by {
        let j2 = if j < i { j } else { j + 1 };
        assert(t[j] == s[j2]);
        assert(s[j2].hwnd != s[i].hwnd);
        assert(m.contains_key(s[j2].hwnd));
    }
    assert forall|h: isize| #[trigger] n.contains_key(h) implies exists|j: int|
        0 <= j < t.len() && t[j].hwnd == h by {
        let k = choose|k: int| 0 <= k < s.len() && s[k].hwnd == h;
        assert(k != i);
        if k < i {
            assert(t[k].hwnd == h);
        } else {
            assert(t[k - 1].hwnd == h);
        }
    }
}

/// A sequence that lists the records of a map is as long as the map.
proof fn lemma_lists_len(s: Seq<PinnedWindow>, m: Map<isize, PinnedWindow>)
    requires
        lists_records(s, m),
    ensures
        m.dom().finite(),
        m.len() == s.len(),
    decreases s.len(),
{
    if s.len() == 0 {
        assert(m.dom() =~= Set::<isize>::empty());
    } else {
        let i = s.len() - 1;
        lemma_lists_remove(s, m, i);
        lemma_lists_len(s.remove(i), m.remove(s[i].hwnd));
        assert(m.contains_key(s[i].hwnd));
        assert(m.dom() =~= m.remove(s[i].hwnd).dom().insert(s[i].hwnd));
    }
}

/// `kept` holds, in order, the records of `s[..i]` whose handle is listed in
/// `alive`.
spec fn kept_prefix(s: Seq<PinnedWindow>, kept: Seq<PinnedWindow>, i: int, alive: Seq<isize>) -> bool {
    kept == s.subrange(0, i).filter(|w: PinnedWindow| alive.contains(w.hwnd))
}

proof fn lemma_kept_step(s: Seq<PinnedWindow>, kept: Seq<PinnedWindow>, i: int, alive: Seq<isize>)
    requires
        kept_prefix(s, kept, i, alive),
        0 <= i < s.len(),
    ensures
        kept_prefix(
            s,
            if alive.contains(s[i].hwnd) {
                kept.push(s[i])
            } else {
                kept
            },
            i + 1,
            alive,
        ),
{
    let p = |w: PinnedWindow| alive.contains(w.hwnd);
    assert(s.subrange(0, i + 1).drop_last() =~= s.subrange(0, i));
    reveal(Seq::filter);
}

proof fn lemma_kept_all(
    s: Seq<PinnedWindow>,
    m: Map<isize, PinnedWindow>,
    kept: Seq<PinnedWindow>,
    alive: Seq<isize>,
)
    requires
        lists_records(s, m),
        kept_prefix(s, kept, s.len() as int, alive),
    ensures
        lists_records(kept, m.restrict(alive.to_set())),
    decreases s.len(),
{
    let p = |w: PinnedWindow| alive.contains(w.hwnd);
    assert(s.subrange(0, s.len() as int) =~= s);
    assert(kept == s.filter(p));
    let n = m.restrict(alive.to_set());
    assert forall|j: int| 0 <= j < kept.len() implies #[trigger] n.contains_key(kept[j].hwnd)
        && n[kept[j].hwnd] == kept[j] by {
        assert(kept.contains(kept[j]));
        s.lemma_filter_contains_rev(p, kept[j]);
        let k = choose|k: int| 0 <= k < s.len() && s[k] == kept[j];
        assert(m.contains_key(s[k].hwnd));
    }
    assert forall|h: isize| #[trigger] n.contains_key(h) implies exists|j: int|
        0 <= j < kept.len() && kept[j].hwnd == h by {
        let k = choose|k: int| 0 <= k < s.len() && s[k].hwnd == h;
        assert(p(s[k]));
        s.lemma_filter_contains(p, k);
    }
    lemma_filter_unique(s, p);
}

/// Filtering keeps handles unique.
proof fn lemma_filter_unique(s: Seq<PinnedWindow>, p: spec_fn(PinnedWindow) -> bool)
    requires
        handles_unique(s),
    ensures
        handles_unique(s.filter(p)),
    decreases s.len(),
{
    reveal(Seq::filter);
    if s.len() > 0 {
        let d = s.drop_last();
        assert(handles_unique(d));
        lemma_filter_unique(d, p);
        let f = d.filter(p);
        if p(s.last()) {
            assert forall|j: int| 0 <= j < f.len() implies #[trigger] f[j].hwnd != s.last().hwnd by {
                assert(f.contains(f[j]));
                d.lemma_filter_contains_rev(p, f[j]);
                let k = choose|k: int| 0 <= k < d.len() && d[k] == f[j];
                assert(s[k].hwnd != s[s.len() - 1].hwnd);
            }
            let t = f.push(s.last());
            assert forall|j: int, k: int|
                0 <= j < t.len() && 0 <= k < t.len() && #[trigger] t[j].hwnd == #[trigger] t[k].hwnd
                implies j == k by {
                if j < f.len() && k < f.len() {
                    assert(f[j].hwnd == f[k].hwnd);
                }
            }
        }
    }
}

/// The registry of pinned windows: a handle is present exactly while the
/// window is pinned, and each record is filed under its own handle.
pub struct PinState {
    windows: Vec<PinnedWindow>,
}

impl View for PinState {
    type V = Map<isize, PinnedWindow>;

    closed spec fn view(&self) -> Map<isize, PinnedWindow> {
        records_map(self.windows@)
    }
}

impl PinState {
    #[verifier::type_invariant]
    spec fn well_formed(&self) -> bool {
        handles_unique(self.windows@)
    }

    /// An empty registry.
    pub fn new() -> (r: PinState)
        ensures
            r@ == Map::<isize, PinnedWindow>::empty(),
    {
        let r = PinState { windows: Vec::new() };
        assert(records_map(r.windows@) =~= Map::<isize, PinnedWindow>::empty());
        r
    }

    /// Records `hwnd` as pinned, fully opaque, replacing any record it had.
    pub fn add(&mut self, hwnd: isize, title: String, process_name: String)
        ensures
            final(self)@ == old(self)@.insert(hwnd, fresh_record(hwnd, title, process_name)),
    {
        proof {
            use_type_invariant(&*self);
            lemma_records_map(self.windows@);
        }
        let record = PinnedWindow {
            hwnd,
            title,
            process_name,
            opacity: OPAQUE_ALPHA,
            original_opacity: None,
        };
        let ghost expected = self@.insert(hwnd, record);
        let mut windows = Vec::new();
        std::mem::swap(&mut windows, &mut self.windows);
        let ghost before = windows@;
        match find_handle(&windows, hwnd) {
            Some(i) => {
                windows.set(i, record);
                proof {
                    lemma_lists_replace(before, records_map(before), i as int, record);
                }
            },
            None => {
                windows.push(record);
                proof {
                    lemma_lists_push(before, records_map(before), record);
                }
            },
        }
        proof {
            lemma_lists_records_unique(windows@, expected);
        }
        self.windows = windows;
    }

    /// Forgets `hwnd` and returns the record it had, if any.
    pub fn remove(&mut self, hwnd: isize) -> (r: Option<PinnedWindow>)
        ensures
            final(self)@ == old(self)@.remove(hwnd),
            r == (if old(self)@.contains_key(hwnd) {
                Some(old(self)@[hwnd])
            } else {
                None
            }),
    {
        proof {
            use_type_invariant(&*self);
            lemma_records_map(self.windows@);
        }
        let ghost m = self@;
        let mut windows = Vec::new();
        std::mem::swap(&mut windows, &mut self.windows);
        let ghost before = windows@;
        match find_handle(&windows, hwnd) {
            Some(i) => {
                let w = windows.remove(i);
                proof {
                    lemma_lists_remove(before, m, i as int);
                    lemma_lists_records_unique(windows@, m.remove(hwnd));
                }
                self.windows = windows;
                Some(w)
            },
            None => {
                proof {
                    assert(!m.contains_key(hwnd));
                    assert(m.remove(hwnd) =~= m);
                }
                self.windows = windows;
                None
            },
        }
    }

    /// Whether `hwnd` is pinned.
    pub fn is_pinned(&self, hwnd: isize) -> (r: bool)
        ensures
            r == self@.contains_key(hwnd),
    {
        proof {
            use_type_invariant(self);
            lemma_records_map(self.windows@);
        }
        find_handle(&self.windows, hwnd).is_some()
    }

    /// The record of `hwnd`, if it is pinned.
    pub fn get(&self, hwnd: isize) -> (r: Option<PinnedWindow>)
        ensures
            r == (if self@.contains_key(hwnd) {
                Some(self@[hwnd])
            } else {
                None
            }),
            r matches Some(w) ==> w.hwnd == hwnd,
    {
        proof {
            use_type_invariant(self);
            lemma_records_map(self.windows@);
        }
        match find_handle(&self.windows, hwnd) {
            Some(i) => Some(self.windows[i].clone()),
            None => None,
        }
    }

    /// Records that `hwnd` now has alpha `alpha`; the first change keeps the
    /// alpha it replaced. Does nothing when `hwnd` is not pinned.
    pub fn set_opacity(&mut self, hwnd: isize, alpha: u8)
        ensures
            final(self)@ == (if old(self)@.contains_key(hwnd) {
                old(self)@.insert(hwnd, with_opacity(old(self)@[hwnd], alpha))
            } else {
                old(self)@
            }),
    {
        proof {
            use_type_invariant(&*self);
            lemma_records_map(self.windows@);
        }
        let ghost m = self@;
        let mut windows = Vec::new();
        std::mem::swap(&mut windows, &mut self.windows);
        let ghost before = windows@;
        if let Some(i) = find_handle(&windows, hwnd) {
            let old_record = windows[i].clone();
            let original = match old_record.original_opacity {
                Some(o) => Some(o),
                None => Some(old_record.opacity),
            };
            let record = PinnedWindow { opacity: alpha, original_opacity: original, ..old_record };
            windows.set(i, record);
            proof {
                assert(m[hwnd] == before[i as int]);
                lemma_lists_replace(before, m, i as int, record);
                lemma_lists_records_unique(windows@, m.insert(hwnd, with_opacity(m[hwnd], alpha)));
            }
        }
        self.windows = windows;
    }

    /// Every pinned record, each once, in no particular order.
    pub fn get_all(&self) -> (r: Vec<PinnedWindow>)
        ensures
            lists_records(r@, self@),
    {
        proof {
            use_type_invariant(self);
            lemma_records_map(self.windows@);
        }
        let mut r: Vec<PinnedWindow> = Vec::new();
        let mut i: usize = 0;
        while i < self.windows.len()
            invariant
                i <= self.windows@.len(),
                r@ == self.windows@.subrange(0, i as int),
            decreases self.windows@.len() - i,
        {
            r.push(self.windows[i].clone());
            i = i + 1;
        }
        assert(r@ =~= self.windows@);
        r
    }

    /// The number of pinned windows.
    pub fn len(&self) -> (r: usize)
        ensures
            r == self@.len(),
    {
        proof {
            use_type_invariant(self);
            lemma_records_map(self.windows@);
            lemma_lists_len(self.windows@, self@);
        }
        self.windows.len()
    }

    /// Keeps only the records whose handle is listed in `alive`, the windows
    /// that still exist.
    pub fn cleanup_stale(&mut self, alive: &Vec<isize>)
        ensures
            final(self)@ == old(self)@.restrict(alive@.to_set()),
    {
        proof {
            use_type_invariant(&*self);
            lemma_records_map(self.windows@);
        }
        let ghost m = self@;
        let mut windows = Vec::new();
        std::mem::swap(&mut windows, &mut self.windows);
        let ghost s = windows@;
        let mut kept: Vec<PinnedWindow> = Vec::new();
        let mut i: usize = 0;
        proof {
            reveal(Seq::filter);
            assert(s.subrange(0, 0) =~= Seq::<PinnedWindow>::empty());
            assert(kept_prefix(s, kept@, 0, alive@));
        }
        while i < windows.len()
            invariant
                windows@ == s,
                lists_records(s, m),
                i <= s.len(),
                kept_prefix(s, kept@, i as int, alive@),
            decreases s.len() - i,
        {
            let w = windows[i].clone();
            let ghost before = kept@;
            let listed = handle_listed(alive, w.hwnd);
            if listed {
                kept.push(w);
            }
            proof {
                lemma_kept_step(s, before, i as int, alive@);
            }
            i = i + 1;
        }
        proof {
            lemma_kept_all(s, m, kept@, alive@);
        }
        self.windows = kept;
    }

    /// Forgets a window that was destroyed.
    pub fn cleanup(&mut self, hwnd: isize)
        ensures
            final(self)@ == old(self)@.remove(hwnd),
    {
        self.remove(hwnd);
    }
}

/// Whether `hwnd` is listed in `handles`.
pub(crate) fn handle_listed(handles: &Vec<isize>, hwnd: isize) -> (r: bool)
    ensures
        r == handles@.contains(hwnd),
{
    let mut i: usize = 0;
    while i < handles.len()
        invariant
            i <= handles@.len(),
            forall|j: int| 0 <= j < i ==> handles@[j] != hwnd,
        decreases handles@.len() - i,
    {
        if handles[i] == hwnd {
            return true;
        }
        i = i + 1;
    }
    false
}

/// Position of the record for `hwnd` in `windows`, if any.
fn find_handle(windows: &Vec<PinnedWindow>, hwnd: isize) -> (r: Option<usize>)
    ensures
        match r {
            Some(i) => i < windows@.len() && windows@[i as int].hwnd == hwnd,
            None => forall|i: int| 0 <= i < windows@.len() ==> #[trigger] windows@[i].hwnd != hwnd,
        },
{
    let mut i: usize = 0;
    while i < windows.len()
        invariant
            i <= windows@.len(),
            forall|j: int| 0 <= j < i ==> #[trigger] windows@[j].hwnd != hwnd,
        decreases windows@.len() - i,
    {
        if windows[i].hwnd == hwnd {
            return Some(i);
        }
        i = i + 1;
    }
    None
}

} // verus!
