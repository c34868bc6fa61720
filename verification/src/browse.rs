//! Browsing the library with keys or a pad: the highlight, the pages, the
//! platform sidebar, and what confirming a game does.
//!
//! The window, the requests and the downloads belong to the application; it
//! hands each navigation action to [`Library::apply`] and carries out the
//! effect that comes back.

use vstd::prelude::*;

use crate::api::PAGE_SIZE;
use crate::input::NavAction;
use crate::text::{append_chars, append_str, decimal, decimal_string, join, string_of};

verus! {

/// What the sidebar and the list currently show.
#[derive(Debug, Clone)]
pub struct Library {
    /// Games on the page being shown.
    pub page_len: usize,
    /// Highlighted row on that page; `None` until a key or pad moves it.
    pub selected: Option<usize>,
    /// Offset of the page within the whole (filtered) library.
    pub offset: i64,
    /// Games in the whole (filtered) library.
    pub total: i64,
    /// Platform ids in sidebar order; "All games" comes before them.
    pub platforms: Vec<i64>,
    /// The platform shown, `None` for every platform.
    pub selected_platform: Option<i64>,
    /// Where the highlight was, per platform: coming back to a console
    /// returns to the game you were on rather than the top of the list.
    pub remembered: Vec<(Option<i64>, usize)>,
}

/// What the application should do after an action.
#[derive(Debug, Clone, Copy, PartialEq, Eq, Structural)]
pub enum NavEffect {
    Nothing,
    /// Fetch the page at this offset (for the current platform and search).
    Fetch(i64),
    /// Clear the search box, then fetch the first page.
    ClearSearch,
    /// Confirm the game at this index of the page.
    Confirm(usize),
}

/// The remembered highlight for a platform: the first entry with that key.
pub open spec fn lookup(t: Seq<(Option<i64>, usize)>, k: Option<i64>) -> Option<usize>
    decreases t.len(),
{
    if t.len() == 0 {
        None
    } else if t[0].0 == k {
        Some(t[0].1)
    } else {
        lookup(t.drop_first(), k)
    }
}

/// An index seen as an integer.
pub open spec fn widened(o: Option<usize>) -> Option<int> {
    match o {
        Some(i) => Some(i as int),
        None => None,
    }
}

pub open spec fn clamp(v: int, lo: int, hi: int) -> int {
    if v < lo {
        lo
    } else if v > hi {
        hi
    } else {
        v
    }
}

/// Moving the highlight by `delta` rows on a page of `len`: nothing on an
/// empty page; from nothing, the first press lands on an end of the list
/// (the top going down, the bottom going up); otherwise it moves and stops at
/// the ends rather than wrapping.
pub open spec fn moved(sel: Option<usize>, len: nat, delta: int) -> Option<int> {
    if len == 0 {
        None
    } else {
        match sel {
            None => if delta > 0 {
                Some(0)
            } else {
                Some(len - 1)
            },
            Some(c) => Some(clamp(c + delta, 0, len - 1)),
        }
    }
}

/// The highlight restored when a page arrives: what was remembered for the
/// platform, clamped to the page, which may be shorter than the one
/// remembered.
pub open spec fn restored(t: Seq<(Option<i64>, usize)>, platform: Option<i64>, len: nat) -> Option<
    int,
> {
    match lookup(t, platform) {
        Some(i) => if len > 0 {
            Some(if i < len {
                i as int
            } else {
                len - 1
            })
        } else {
            None
        },
        None => None,
    }
}

/// The sidebar's entries: "All games", then each platform.
pub open spec fn sidebar_ids(platforms: Seq<i64>) -> Seq<Option<i64>> {
    seq![None::<i64>] + platforms.map_values(|p: i64| Some(p))
}

/// Position of `x` in `ids`, or the top when it is not there.
#[verifier::opaque]
pub open spec fn position(ids: Seq<Option<i64>>, x: Option<i64>) -> int {
    if exists|i: int| 0 <= i < ids.len() && ids[i] == x {
        choose|i: int|
            0 <= i < ids.len() && ids[i] == x && forall|k: int| 0 <= k < i ==> ids[k] != x
    } else {
        0
    }
}

/// The sidebar entry `delta` steps from the current one, stopping at the ends.
pub open spec fn cycled(platforms: Seq<i64>, current: Option<i64>, delta: int) -> Option<i64> {
    let ids = sidebar_ids(platforms);
    ids[clamp(position(ids, current) + delta, 0, ids.len() - 1)]
}

pub open spec fn prev_page(offset: i64) -> Option<i64> {
    if offset > 0 {
        Some(if offset - PAGE_SIZE > 0 {
            (offset - PAGE_SIZE) as i64
        } else {
            0
        })
    } else {
        None
    }
}

pub open spec fn next_page(offset: i64, total: i64) -> Option<i64> {
    if offset + PAGE_SIZE < total {
        Some((offset + PAGE_SIZE) as i64)
    } else {
        None
    }
}

/// Remember `index` for `platform`, replacing what was there.
pub open spec fn remembered_after(
    t: Seq<(Option<i64>, usize)>,
    platform: Option<i64>,
    index: usize,
    t2: Seq<(Option<i64>, usize)>,
) -> bool {
    &&& lookup(t2, platform) == Some(index)
    &&& forall|other: Option<i64>| other != platform ==> lookup(t2, other) == lookup(t, other)
}

proof fn lemma_lookup_first(t: Seq<(Option<i64>, usize)>, k: Option<i64>, i: int)
    requires
        0 <= i < t.len(),
        t[i].0 == k,
        forall|j: int| 0 <= j < i ==> (#[trigger] t[j]).0 != k,
    ensures
        lookup(t, k) == Some(t[i].1),
    decreases i,
{
    if i > 0 {
        assert forall|j: int| 0 <= j < i - 1 implies (#[trigger] t.drop_first()[j]).0 != k by {
            assert(t.drop_first()[j] == t[j + 1]);
        }
        assert(t[0].0 != k);
        lemma_lookup_first(t.drop_first(), k, i - 1);
    }
}

proof fn lemma_lookup_same(t1: Seq<(Option<i64>, usize)>, t2: Seq<(Option<i64>, usize)>, other: Option<i64>)
    requires
        t1.len() == t2.len(),
        forall|j: int| 0 <= j < t1.len() ==> (#[trigger] t1[j]).0 == t2[j].0,
        forall|j: int| 0 <= j < t1.len() && (#[trigger] t1[j]).0 == other ==> t1[j].1 == t2[j].1,
    ensures
        lookup(t1, other) == lookup(t2, other),
    decreases t1.len(),
{
    if t1.len() > 0 {
        let a = t1.drop_first();
        let b = t2.drop_first();
        assert forall|j: int| 0 <= j < a.len() implies (#[trigger] a[j]).0 == b[j].0 by {
            assert(a[j] == t1[j + 1]);
            assert(b[j] == t2[j + 1]);
        }
        assert forall|j: int| 0 <= j < a.len() && (#[trigger] a[j]).0 == other implies a[j].1
            == b[j].1 by {
            assert(a[j] == t1[j + 1]);
            assert(b[j] == t2[j + 1]);
        }
        assert(t1[0].0 == t2[0].0);
        lemma_lookup_same(a, b, other);
    }
}

proof fn lemma_lookup_push_other(t: Seq<(Option<i64>, usize)>, p: (Option<i64>, usize), other: Option<i64>)
    requires
        p.0 != other,
    ensures
        lookup(t.push(p), other) == lookup(t, other),
    decreases t.len(),
{
    let tp = t.push(p);
    if t.len() > 0 {
        assert(tp.drop_first() =~= t.drop_first().push(p));
        assert(tp[0] == t[0]);
        lemma_lookup_push_other(t.drop_first(), p, other);
        if t[0].0 == other {
            assert(lookup(tp, other) == Some(t[0].1));
        } else {
            assert(lookup(tp, other) == lookup(tp.drop_first(), other));
        }
    } else {
        assert(tp.drop_first() =~= Seq::<(Option<i64>, usize)>::empty());
        assert(tp[0] == p);
        assert(lookup(tp, other) == lookup(tp.drop_first(), other));
    }
}

/// Index of the first entry for `k`.
fn find_key(t: &Vec<(Option<i64>, usize)>, k: Option<i64>) -> (r: Option<usize>)
    ensures
        match r {
            Some(i) => i < t@.len() && t@[i as int].0 == k && forall|j: int|
                0 <= j < i ==> (#[trigger] t@[j]).0 != k,
            None => forall|j: int| 0 <= j < t@.len() ==> (#[trigger] t@[j]).0 != k,
        },
{
    let mut i: usize = 0;
    while i < t.len()
        invariant
            i <= t@.len(),
            forall|j: int| 0 <= j < i ==> (#[trigger] t@[j]).0 != k,
        decreases t@.len() - i,
    {
        if t[i].0 == k {
            return Some(i);
        }
        i += 1;
    }
    None
}

/// Record the highlight for a platform.
fn remember(t: &mut Vec<(Option<i64>, usize)>, platform: Option<i64>, index: usize)
    ensures
        remembered_after(old(t)@, platform, index, final(t)@),
{
    let ghost before = t@;
    if let Some(i) = find_key(t, platform) {
        t.set(i, (platform, index));
        proof {
            let t2 = t@;
            assert(t2 =~= before.update(i as int, (platform, index)));
            assert forall|j: int| 0 <= j < i implies (#[trigger] t2[j]).0 != platform by {
                assert(t2[j] == before[j]);
            }
            assert forall|j: int| 0 <= j < t2.len() implies (#[trigger] t2[j]).0 == before[j].0 by {
                if j != i {
                    assert(t2[j] == before[j]);
                }
            }
            lemma_lookup_first(t2, platform, i as int);
            assert forall|other: Option<i64>| other != platform implies lookup(t2, other)
                == lookup(before, other) by {
                assert forall|j: int| 0 <= j < t2.len() && (#[trigger] t2[j]).0 == other implies t2[j].1
                    == before[j].1 by {
                    if j != i {
                        assert(t2[j] == before[j]);
                    }
                }
                lemma_lookup_same(t2, before, other);
            }
        }
        return;
    }
    t.push((platform, index));
    proof {
        let t2 = t@;
        assert(t2 =~= before.push((platform, index)));
        assert forall|j: int| 0 <= j < before.len() implies (#[trigger] t2[j]).0 != platform by {
            assert(t2[j] == before[j]);
        }
        lemma_lookup_first(t2, platform, before.len() as int);
        assert forall|other: Option<i64>| other != platform implies lookup(t2, other) == lookup(
            before,
            other,
        ) by {
            lemma_lookup_push_other(before, (platform, index), other);
        }
    }
}

fn lookup_exec(t: &Vec<(Option<i64>, usize)>, k: Option<i64>) -> (r: Option<usize>)
    ensures
        r == lookup(t@, k),
{
    let mut i: usize = 0;
    while i < t.len()
        invariant
            i <= t@.len(),
            forall|j: int| 0 <= j < i ==> (#[trigger] t@[j]).0 != k,
        decreases t@.len() - i,
    {
        if t[i].0 == k {
            proof {
                lemma_lookup_first(t@, k, i as int);
            }
            return Some(t[i].1);
        }
        i += 1;
    }
    proof {
        lemma_lookup_none(t@, k);
    }
    None
}

proof fn lemma_lookup_none(t: Seq<(Option<i64>, usize)>, k: Option<i64>)
    requires
        forall|j: int| 0 <= j < t.len() ==> (#[trigger] t[j]).0 != k,
    ensures
        lookup(t, k) is None,
    decreases t.len(),
{
    if t.len() > 0 {
        assert forall|j: int| 0 <= j < t.drop_first().len() implies (#[trigger] t.drop_first()[j]).0
            != k by {
            assert(t.drop_first()[j] == t[j + 1]);
        }
        assert(t[0].0 != k);
        lemma_lookup_none(t.drop_first(), k);
    }
}

/// Where `current` sits in the sidebar: 0 is "All games", and a platform
/// that is not listed counts as the top.
fn sidebar_position(platforms: &Vec<i64>, current: Option<i64>) -> (r: usize)
    ensures
        r == position(sidebar_ids(platforms@), current),
        r <= platforms@.len(),
{
    let ghost ids = sidebar_ids(platforms@);
    reveal(position);
    assert(ids.len() == platforms@.len() + 1);
    assert(ids[0] == None::<i64>);
    match current {
        None => {
            assert(ids[0] == current);
            0
        },
        Some(id) => {
            let mut i: usize = 0;
            while i < platforms.len()
                invariant
                    i <= platforms@.len(),
                    ids == sidebar_ids(platforms@),
                    current == Some(id),
                    forall|k: int| 0 <= k <= i ==> ids[k] != current,
                decreases platforms@.len() - i,
            {
                assert(ids[i + 1] == Some(platforms@[i as int]));
                if platforms[i] == id {
                    assert(ids[i + 1] == current);
                    proof {
                        reveal(position);
                        let p = position(ids, current);
                        assert(ids[p] == current && forall|k: int| 0 <= k < p ==> ids[k] != current);
                        assert(p == i + 1);
                    }
                    return i + 1;
                }
                i += 1;
            }
            assert(forall|k: int| 0 <= k < ids.len() ==> ids[k] != current);
            proof {
                reveal(position);
            }
            0
        },
    }
}

impl Library {
    /// Nothing loaded and nothing highlighted.
    pub fn new() -> (l: Library)
        ensures
            l.wf(),
            l.page_len == 0,
            l.selected is None,
            l.offset == 0,
            l.total == 0,
            l.platforms@.len() == 0,
            l.selected_platform is None,
            l.remembered@.len() == 0,
    {
        Library {
            page_len: 0,
            selected: None,
            offset: 0,
            total: 0,
            platforms: Vec::new(),
            selected_platform: None,
            remembered: Vec::new(),
        }
    }

    /// The highlight is always on the page, and pages start at or after zero.
    pub open spec fn wf(&self) -> bool {
        &&& (self.selected matches Some(i) ==> i < self.page_len)
        &&& self.offset >= 0
    }

    /// Move the highlight, clamped to the current page, and remember it for
    /// this platform.
    pub fn move_selection(&mut self, delta: i64)
        requires
            old(self).wf(),
        ensures
            final(self).wf(),
            final(self).selected matches Some(i) ==> moved(
                old(self).selected,
                old(self).page_len as nat,
                delta as int,
            ) == Some(i as int),
            final(self).selected is None ==> moved(
                old(self).selected,
                old(self).page_len as nat,
                delta as int,
            ) is None,
            final(self).selected matches Some(i) ==> remembered_after(
                old(self).remembered@,
                old(self).selected_platform,
                i,
                final(self).remembered@,
            ),
            final(self).selected is None ==> final(self).remembered == old(self).remembered,
            final(self).page_len == old(self).page_len,
            final(self).offset == old(self).offset,
            final(self).total == old(self).total,
            final(self).platforms == old(self).platforms,
            final(self).selected_platform == old(self).selected_platform,
    {
        if self.page_len == 0 {
            self.selected = None;
            return;
        }
        let last: usize = self.page_len - 1;
        let next: usize = match self.selected {
            None => if delta > 0 {
                0
            } else {
                last
            },
            Some(current) => {
                let target: i128 = current as i128 + delta as i128;
                if target < 0 {
                    0
                } else if target > last as i128 {
                    last
                } else {
                    target as usize
                }
            },
        };
        self.selected = Some(next);
        remember(&mut self.remembered, self.selected_platform, next);
    }

    /// Step through the sidebar; true when the platform actually changed.
    pub fn cycle_platform(&mut self, delta: i64) -> (changed: bool)
        requires
            old(self).wf(),
        ensures
            final(self).wf(),
            changed == (cycled(old(self).platforms@, old(self).selected_platform, delta as int)
                != old(self).selected_platform),
            final(self).selected_platform == cycled(
                old(self).platforms@,
                old(self).selected_platform,
                delta as int,
            ),
            final(self).page_len == old(self).page_len,
            final(self).selected == old(self).selected,
            final(self).offset == old(self).offset,
            final(self).total == old(self).total,
            final(self).platforms == old(self).platforms,
            final(self).remembered == old(self).remembered,
    {
        let ghost ids = sidebar_ids(self.platforms@);
        let current = sidebar_position(&self.platforms, self.selected_platform);
        let count: usize = self.platforms.len();
        let target: i128 = current as i128 + delta as i128;
        let next: usize = if target < 0 {
            0
        } else if target > count as i128 {
            count
        } else {
            target as usize
        };
        let chosen: Option<i64> = if next == 0 {
            None
        } else {
            Some(self.platforms[next - 1])
        };
        assert(chosen == ids[next as int]) by {
            if next > 0 {
                assert(ids[next as int] == Some(self.platforms@[next - 1]));
            }
        }
        if chosen == self.selected_platform {
            return false;
        }
        self.selected_platform = chosen;
        true
    }

    /// Apply one navigation action. Typing in a text field never reaches
    /// here: the application filters those keys out first.
    pub fn apply(&mut self, action: NavAction, search_empty: bool) -> (e: NavEffect)
        requires
            old(self).wf(),
        ensures
            final(self).wf(),
            final(self).page_len == old(self).page_len,
            final(self).offset == old(self).offset,
            final(self).total == old(self).total,
            final(self).platforms == old(self).platforms,
            action == NavAction::Up ==> e == NavEffect::Nothing && widened(final(self).selected) == moved(old(self).selected, old(self).page_len as nat, -1),
            action == NavAction::Down ==> e == NavEffect::Nothing && widened(final(self).selected) == moved(old(self).selected, old(self).page_len as nat, 1),
            action == NavAction::PagePrev ==> e == (match prev_page(old(self).offset) {
                Some(o) => NavEffect::Fetch(o),
                None => NavEffect::Nothing,
            }) && final(self).selected == old(self).selected,
            action == NavAction::PageNext ==> e == (match next_page(
                old(self).offset,
                old(self).total,
            ) {
                Some(o) => NavEffect::Fetch(o),
                None => NavEffect::Nothing,
            }) && final(self).selected == old(self).selected,
            action == NavAction::PlatformPrev ==> final(self).selected_platform == cycled(
                old(self).platforms@,
                old(self).selected_platform,
                -1,
            ) && e == (if final(self).selected_platform != old(self).selected_platform {
                NavEffect::Fetch(0)
            } else {
                NavEffect::Nothing
            }),
            action == NavAction::PlatformNext ==> final(self).selected_platform == cycled(
                old(self).platforms@,
                old(self).selected_platform,
                1,
            ) && e == (if final(self).selected_platform != old(self).selected_platform {
                NavEffect::Fetch(0)
            } else {
                NavEffect::Nothing
            }),
            action == NavAction::Confirm ==> e == (match old(self).selected {
                Some(i) => NavEffect::Confirm(i),
                None => NavEffect::Nothing,
            }) && final(self).selected == old(self).selected,
            action == NavAction::Back && !search_empty ==> e == NavEffect::ClearSearch
                && final(self).selected == old(self).selected,
            action == NavAction::Back && search_empty ==> e == NavEffect::Nothing
                && final(self).selected is None,
    {
        match action {
            NavAction::Up => {
                self.move_selection(-1);
                NavEffect::Nothing
            },
            NavAction::Down => {
                self.move_selection(1);
                NavEffect::Nothing
            },
            NavAction::PagePrev => {
                if self.offset > 0 {
                    NavEffect::Fetch(
                        if self.offset - PAGE_SIZE > 0 {
                            self.offset - PAGE_SIZE
                        } else {
                            0
                        },
                    )
                } else {
                    NavEffect::Nothing
                }
            },
            NavAction::PageNext => {
                if self.offset < self.total && self.total - self.offset > PAGE_SIZE {
                    NavEffect::Fetch(self.offset + PAGE_SIZE)
                } else {
                    NavEffect::Nothing
                }
            },
            NavAction::PlatformPrev => {
                if self.cycle_platform(-1) {
                    NavEffect::Fetch(0)
                } else {
                    NavEffect::Nothing
                }
            },
            NavAction::PlatformNext => {
                if self.cycle_platform(1) {
                    NavEffect::Fetch(0)
                } else {
                    NavEffect::Nothing
                }
            },
            NavAction::Confirm => match self.selected {
                Some(i) => NavEffect::Confirm(i),
                None => NavEffect::Nothing,
            },
            NavAction::Back => {
                // Back steps out one layer at a time: the search first, then
                // the highlight.
                if !search_empty {
                    NavEffect::ClearSearch
                } else {
                    self.selected = None;
                    NavEffect::Nothing
                }
            },
        }
    }

    /// Choose a platform from the sidebar; true when it changed, and the
    /// first page should be fetched.
    pub fn select_platform(&mut self, platform: Option<i64>) -> (changed: bool)
        ensures
            changed == (platform != old(self).selected_platform),
            final(self).selected_platform == platform,
            final(self).page_len == old(self).page_len,
            final(self).selected == old(self).selected,
            final(self).offset == old(self).offset,
            final(self).total == old(self).total,
            final(self).platforms == old(self).platforms,
            final(self).remembered == old(self).remembered,
    {
        if platform == self.selected_platform {
            false
        } else {
            self.selected_platform = platform;
            true
        }
    }

    /// A page arrived: show it, and put the highlight back where it was on
    /// this platform, clamped to the page.
    pub fn page_loaded(&mut self, page_len: usize, total: i64, offset: i64)
        requires
            offset >= 0,
        ensures
            final(self).wf(),
            final(self).page_len == page_len,
            final(self).total == total,
            final(self).offset == offset,
            widened(final(self).selected) == restored(
                old(self).remembered@,
                old(self).selected_platform,
                page_len as nat,
            ),
            final(self).platforms == old(self).platforms,
            final(self).selected_platform == old(self).selected_platform,
            final(self).remembered == old(self).remembered,
    {
        self.page_len = page_len;
        self.total = total;
        self.offset = offset;
        self.selected = match lookup_exec(&self.remembered, self.selected_platform) {
            Some(i) => if page_len > 0 {
                Some(
                    if i < page_len {
                        i
                    } else {
                        page_len - 1
                    },
                )
            } else {
                None
            },
            None => None,
        };
    }
}

/// The highlight stays on the page and never wraps: moving down never goes
/// up, moving up never goes down, and at an end it stays put.
pub proof fn lemma_the_highlight_never_wraps(c: usize, len: nat, delta: int)
    requires
        c < len,
    ensures
        moved(Some(c), len, delta) matches Some(n) && 0 <= n < len,
        delta >= 0 ==> moved(Some(c), len, delta).unwrap() >= c,
        delta <= 0 ==> moved(Some(c), len, delta).unwrap() <= c,
        c == len - 1 && delta >= 0 ==> moved(Some(c), len, delta) == Some(c as int),
        c == 0 && delta <= 0 ==> moved(Some(c), len, delta) == Some(0int),
{
}

/// Coming back to a platform returns the highlight to where it was left,
/// clamped to the page that arrives.
pub proof fn lemma_coming_back_restores_the_highlight(
    t: Seq<(Option<i64>, usize)>,
    t2: Seq<(Option<i64>, usize)>,
    platform: Option<i64>,
    index: usize,
    len: nat,
)
    requires
        remembered_after(t, platform, index, t2),
        len > 0,
    ensures
        restored(t2, platform, len) == Some(if index < len {
            index as int
        } else {
            len - 1
        }),
{
}

/// Paging stays inside the library: the previous page starts at or after
/// zero and before this one, the next page starts before the end.
pub proof fn lemma_paging_stays_inside_the_library(offset: i64, total: i64)
    requires
        offset >= 0,
    ensures
        prev_page(offset) matches Some(o) ==> 0 <= o < offset,
        next_page(offset, total) matches Some(o) ==> offset < o < total,
        offset == 0 ==> prev_page(offset) is None,
{
}

// ─── Confirming a game ───────────────────────────────────────────────────────

/// Where a game's download stands.
#[derive(Debug, Clone, Copy, PartialEq, Eq, Structural)]
pub enum DownloadState {
    NotStarted,
    InProgress,
    Finished,
    Failed,
}

/// What confirming a highlighted game does.
#[derive(Debug, Clone, Copy, PartialEq, Eq, Structural)]
pub enum ConfirmChoice {
    /// Already downloaded: confirm means play.
    Play,
    /// Mid-download: ignored rather than starting a second one.
    Ignore,
    /// The file is gone from the server: say so instead of failing silently.
    ReportMissing,
    Download,
}

pub open spec fn confirm_spec(state: DownloadState, missing_from_fs: bool) -> ConfirmChoice {
    match state {
        DownloadState::Finished => ConfirmChoice::Play,
        DownloadState::InProgress => ConfirmChoice::Ignore,
        _ => if missing_from_fs {
            ConfirmChoice::ReportMissing
        } else {
            ConfirmChoice::Download
        },
    }
}

pub fn confirm_choice(state: DownloadState, missing_from_fs: bool) -> (c: ConfirmChoice)
    ensures
        c == confirm_spec(state, missing_from_fs),
{
    match state {
        DownloadState::Finished => ConfirmChoice::Play,
        DownloadState::InProgress => ConfirmChoice::Ignore,
        _ => if missing_from_fs {
            ConfirmChoice::ReportMissing
        } else {
            ConfirmChoice::Download
        },
    }
}

/// The status line for a game that cannot be downloaded.
pub fn missing_notice(title: &str) -> (m: String)
    ensures
        m@ == title@ + " is missing on the server"@,
{
    let mut out: Vec<char> = Vec::new();
    append_str(&mut out, title);
    append_str(&mut out, " is missing on the server");
    string_of(out.as_slice())
}

// ─── What the list says ──────────────────────────────────────────────────────

/// The page being shown and how many there are, counting from one.
pub open spec fn page_numbers(offset: int, total: int) -> (int, int) {
    (offset / PAGE_SIZE as int + 1, (total + PAGE_SIZE - 1) / PAGE_SIZE as int)
}

/// "Page 2 of 5", shown only when the library spans more than one page.
pub fn page_label(offset: i64, total: i64) -> (label: Option<String>)
    requires
        offset >= 0,
    ensures
        total <= PAGE_SIZE ==> label is None,
        total > PAGE_SIZE ==> (label matches Some(l) && l@ == "Page "@ + decimal(
            page_numbers(offset as int, total as int).0 as nat,
        ) + " of "@ + decimal(page_numbers(offset as int, total as int).1 as nat)),
{
    if total <= PAGE_SIZE {
        return None;
    }
    let page: i64 = offset / PAGE_SIZE + 1;
    let pages: i64 = total / PAGE_SIZE + if total % PAGE_SIZE != 0 {
        1
    } else {
        0
    };
    assert(pages == (total + PAGE_SIZE - 1) / PAGE_SIZE as int);
    let mut out: Vec<char> = Vec::new();
    append_str(&mut out, "Page ");
    append_chars(&mut out, decimal_string(page as u64).as_slice());
    append_str(&mut out, " of ");
    append_chars(&mut out, decimal_string(pages as u64).as_slice());
    Some(string_of(out.as_slice()))
}

/// Why a game will not start until the player adds BIOS files, naming the
/// files and where they go. Checked before the core is ever called, because
/// some cores crash rather than report a missing BIOS.
pub fn bios_notice(platform: &str, missing: &[&str], system_dir: &str) -> (m: String)
    ensures
        m@ == platform@ + " needs "@ + join(missing@.map_values(|f: &str| f@), " and "@) + " in "@
            + system_dir@ + " before it can run. Put the file there and try again."@,
{
    let mut out: Vec<char> = Vec::new();
    append_str(&mut out, platform);
    append_str(&mut out, " needs ");
    let ghost start = out@;
    let ghost names = missing@.map_values(|f: &str| f@);
    let mut i: usize = 0;
    while i < missing.len()
        invariant
            i <= missing@.len(),
            names == missing@.map_values(|f: &str| f@),
            out@ == start + join(names.take(i as int), " and "@),
        decreases missing@.len() - i,
    {
        if i != 0 {
            append_str(&mut out, " and ");
        }
        append_str(&mut out, missing[i]);
        proof {
            let t = names.take(i + 1);
            assert(t.drop_last() =~= names.take(i as int));
            assert(t.last() == missing@[i as int]@);
            if i == 0 {
                assert(t.len() == 1);
                assert(names.take(0) =~= Seq::<Seq<char>>::empty());
            }
            assert(out@ =~= start + join(t, " and "@));
        }
        i += 1;
    }
    assert(names.take(i as int) =~= names);
    append_str(&mut out, " in ");
    append_str(&mut out, system_dir);
    append_str(&mut out, " before it can run. Put the file there and try again.");
    string_of(out.as_slice())
}

} // verus!
