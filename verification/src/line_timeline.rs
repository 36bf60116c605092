//! When each terminal line arrived, for the timestamp and line-number gutter.
//!
//! A line id is the absolute grid row: the screen row `r` has id
//! `history_size + r - display_offset`, so ids only grow during a session and
//! serve both as the key of a timestamp and as the shown line number (id + 1).
//! Sampling reads grid state only; lines that arrive within one sampling
//! period share a timestamp, and the alternate screen is not recorded.
use vstd::prelude::*;
use std::collections::VecDeque;
use crate::text::owned;

verus! {

/// The grid state seen by one sample.
#[derive(Clone, Copy, Debug, PartialEq, Eq)]
pub struct LineTimelineSample {
    pub history_size: usize,
    pub screen_lines: usize,
    /// The grid row of the cursor: 0 is the first screen row, negative rows
    /// are scrollback.
    pub cursor_line: i32,
    /// The alternate screen has no scrollback; such samples are skipped.
    pub alternate_screen: bool,
    /// The scrollback limit, used to drop stale timestamps.
    pub scrollback_lines: usize,
}

/// Grid sizes stay far below the range of line ids.
pub open spec fn sample_in_range(s: LineTimelineSample) -> bool {
    &&& s.history_size + s.screen_lines + s.scrollback_lines < 0x4000_0000_0000_0000
    &&& s.history_size + s.screen_lines + s.scrollback_lines + 1 <= usize::MAX
}

/// The id of the cursor's line.
pub open spec fn cursor_id(s: LineTimelineSample) -> int {
    s.history_size + s.cursor_line
}

/// The oldest id worth a timestamp: the bottom line of the buffer minus the
/// scrollback limit, the screen and one more line.
pub open spec fn keep_from(s: LineTimelineSample) -> int {
    (s.history_size + s.screen_lines - 1) - (s.scrollback_lines + s.screen_lines + 1)
}

/// The mathematical value of a timeline.
pub struct TimelineView {
    /// `(line id, label)` in increasing id order.
    pub stamps: Seq<(int, Seq<char>)>,
    /// The next line id to stamp; 0 before any stamp.
    pub next_id: int,
    /// The screen height of the previous sample, to notice a resize.
    pub screen_lines: int,
    /// Whether a sample was seen: the first one is no resize.
    pub initialized: bool,
}

/// Stamps for the ids `from..=to`, all with one label.
pub open spec fn fresh_stamps(from: int, to: int, label: Seq<char>) -> Seq<(int, Seq<char>)> {
    Seq::new((to + 1 - from) as nat, |i: int| (from + i, label))
}

/// The stamps without the leading ones older than `keep`.
pub open spec fn drop_older(stamps: Seq<(int, Seq<char>)>, keep: int) -> Seq<(int, Seq<char>)>
    decreases stamps.len(),
{
    if stamps.len() > 0 && stamps[0].0 < keep {
        drop_older(stamps.drop_first(), keep)
    } else {
        stamps
    }
}

/// Whether an observation clears the stamps: the cursor fell more than a
/// screen below the next id, so the scrollback was cleared.
pub open spec fn clears(t: TimelineView, s: LineTimelineSample) -> bool {
    !s.alternate_screen && cursor_id(s) + s.screen_lines + 1 < t.next_id
}

/// Whether the screen height changed since the previous sample.
pub open spec fn resized(t: TimelineView, s: LineTimelineSample) -> bool {
    t.initialized && s.screen_lines != t.screen_lines
}

/// The stamps an observation starts from: none after a clear.
pub open spec fn base_stamps(t: TimelineView, s: LineTimelineSample) -> Seq<(int, Seq<char>)> {
    if clears(t, s) {
        Seq::empty()
    } else {
        t.stamps
    }
}

/// The next id an observation starts from: 0 after a clear.
pub open spec fn base_next(t: TimelineView, s: LineTimelineSample) -> int {
    if clears(t, s) {
        0
    } else {
        t.next_id
    }
}

/// The stamps before trimming: when the screen kept its height, every id
/// from the next one up to the cursor gets the label; after a resize the
/// lines that reflowed get none.
pub open spec fn grown_stamps(t: TimelineView, s: LineTimelineSample, label: Seq<char>) -> Seq<
    (int, Seq<char>),
> {
    if !resized(t, s) && cursor_id(s) >= base_next(t, s) {
        base_stamps(t, s) + fresh_stamps(base_next(t, s), cursor_id(s), label)
    } else {
        base_stamps(t, s)
    }
}

/// The next id after an observation: past the cursor.
pub open spec fn next_after(t: TimelineView, s: LineTimelineSample) -> int {
    if cursor_id(s) + 1 > base_next(t, s) {
        cursor_id(s) + 1
    } else {
        base_next(t, s)
    }
}

/// The timeline after a sample whose new lines are labelled `label`.  An
/// alternate-screen sample only records the screen height; otherwise the
/// stamps grow and those that scrolled out of the retained window go.
pub open spec fn observed(t: TimelineView, s: LineTimelineSample, label: Seq<char>) -> TimelineView {
    if s.alternate_screen {
        TimelineView {
            stamps: t.stamps,
            next_id: t.next_id,
            screen_lines: s.screen_lines as int,
            initialized: t.initialized,
        }
    } else {
        TimelineView {
            stamps: drop_older(grown_stamps(t, s, label), keep_from(s)),
            next_id: next_after(t, s),
            screen_lines: s.screen_lines as int,
            initialized: true,
        }
    }
}

/// The label of a line id, if it has one.
pub open spec fn label_of(stamps: Seq<(int, Seq<char>)>, id: int) -> Option<Seq<char>> {
    if exists|i: int| 0 <= i < stamps.len() && stamps[i].0 == id {
        Some(stamps[choose|i: int| 0 <= i < stamps.len() && stamps[i].0 == id].1)
    } else {
        None
    }
}

/// Stamps in strictly increasing id order.
pub open spec fn ordered(stamps: Seq<(int, Seq<char>)>) -> bool {
    forall|i: int, j: int| 0 <= i < j < stamps.len() ==> stamps[i].0 < stamps[j].0
}

/// A well-formed timeline: ordered stamps, all below the next id, which is
/// not negative and stays in the range of ids.
pub open spec fn timeline_wf(t: TimelineView) -> bool {
    &&& ordered(t.stamps)
    &&& 0 <= t.next_id <= 0x4000_0000_8000_0000
    &&& forall|i: int| 0 <= i < t.stamps.len() ==> 0 <= #[trigger] t.stamps[i].0 < t.next_id
}

/// The stamps of a queue, ids as integers and labels as text.
pub open spec fn stamp_views(s: Seq<(i64, String)>) -> Seq<(int, Seq<char>)> {
    Seq::new(s.len(), |i: int| (s[i].0 as int, s[i].1@))
}

/// What dropping the older stamps keeps: a suffix, whose first stamp is not
/// older than `keep`, while every dropped stamp was.
pub proof fn lemma_drop_older(stamps: Seq<(int, Seq<char>)>, keep: int)
    ensures
        drop_older(stamps, keep).len() <= stamps.len(),
        drop_older(stamps, keep) == stamps.subrange(
            stamps.len() - drop_older(stamps, keep).len(),
            stamps.len() as int,
        ),
        forall|j: int|
            0 <= j < stamps.len() - drop_older(stamps, keep).len() ==> #[trigger] stamps[j].0 < keep,
        drop_older(stamps, keep).len() > 0 ==> drop_older(stamps, keep)[0].0 >= keep,
    decreases stamps.len(),
{
    if stamps.len() > 0 && stamps[0].0 < keep {
        let rest = stamps.drop_first();
        lemma_drop_older(rest, keep);
        let r = drop_older(rest, keep);
        assert(rest.subrange(rest.len() - r.len(), rest.len() as int) =~= stamps.subrange(
            stamps.len() - r.len(),
            stamps.len() as int,
        ));
        assert forall|j: int| 0 <= j < stamps.len() - r.len() implies #[trigger] stamps[j].0 < keep by {
            if j > 0 {
                assert(stamps[j] == rest[j - 1]);
            }
        }
    } else {
        assert(stamps.subrange(0, stamps.len() as int) =~= stamps);
    }
}

/// In ordered stamps, each stamp gives the label of its id.
pub proof fn lemma_label_at(stamps: Seq<(int, Seq<char>)>, i: int)
    requires
        ordered(stamps),
        0 <= i < stamps.len(),
    ensures
        label_of(stamps, stamps[i].0) == Some(stamps[i].1),
{
    let id = stamps[i].0;
    assert(exists|j: int| 0 <= j < stamps.len() && stamps[j].0 == id);
    let k = choose|j: int| 0 <= j < stamps.len() && stamps[j].0 == id;
    if k < i {
        assert(stamps[k].0 < stamps[i].0);
    } else if k > i {
        assert(stamps[i].0 < stamps[k].0);
    }
}

/// A suffix of ordered stamps is ordered.
pub proof fn lemma_suffix_ordered(stamps: Seq<(int, Seq<char>)>, k: int)
    requires
        ordered(stamps),
        0 <= k <= stamps.len(),
    ensures
        ordered(stamps.subrange(k, stamps.len() as int)),
{
    let r = stamps.subrange(k, stamps.len() as int);
    assert forall|i: int, j: int| 0 <= i < j < r.len() implies r[i].0 < r[j].0 by {
        assert(r[i] == stamps[k + i] && r[j] == stamps[k + j]);
    }
}

/// Before trimming, the stamps are ordered and below the next id.
pub proof fn lemma_grown(t: TimelineView, s: LineTimelineSample, label: Seq<char>)
    requires
        timeline_wf(t),
        sample_in_range(s),
        !s.alternate_screen,
    ensures
        ordered(grown_stamps(t, s, label)),
        forall|i: int|
            0 <= i < grown_stamps(t, s, label).len() ==> 0 <= #[trigger] grown_stamps(t, s, label)[i].0
                < next_after(t, s),
        0 <= next_after(t, s) <= 0x4000_0000_8000_0000,
{
    let b = base_stamps(t, s);
    let g = grown_stamps(t, s, label);
    let n0 = base_next(t, s);
    assert forall|i: int| 0 <= i < b.len() implies 0 <= #[trigger] b[i].0 < n0 by {
        assert(b[i] == t.stamps[i]);
    }
    assert forall|i: int, j: int| 0 <= i < j < g.len() implies g[i].0 < g[j].0 by {
        if j >= b.len() {
            assert(g[j].0 >= n0);
            if i < b.len() {
                assert(g[i] == b[i]);
            }
        } else {
            assert(g[i] == t.stamps[i] && g[j] == t.stamps[j]);
        }
    }
    assert forall|i: int| 0 <= i < g.len() implies 0 <= #[trigger] g[i].0 < next_after(t, s) by {
        if i < b.len() {
            assert(g[i] == b[i]);
        }
    }
}

/// Observing keeps a timeline well formed.
pub proof fn lemma_observed_wf(t: TimelineView, s: LineTimelineSample, label: Seq<char>)
    requires
        timeline_wf(t),
        sample_in_range(s),
    ensures
        timeline_wf(observed(t, s, label)),
{
    if !s.alternate_screen {
        let g = grown_stamps(t, s, label);
        lemma_grown(t, s, label);
        lemma_drop_older(g, keep_from(s));
        let r = drop_older(g, keep_from(s));
        let k = g.len() - r.len();
        lemma_suffix_ordered(g, k);
        assert forall|i: int| 0 <= i < r.len() implies 0 <= #[trigger] r[i].0 < next_after(t, s) by {
            assert(r[i] == g[k + i]);
        }
    }
}

/// A line keeps its timestamp: unless the scrollback was cleared or the
/// line scrolled out of the retained window, an observation never changes
/// the label of a line that has one, so earlier lines are neither
/// renumbered nor restamped.
pub proof fn law_stamped_lines_keep_their_label(
    t: TimelineView,
    s: LineTimelineSample,
    label: Seq<char>,
    id: int,
)
    requires
        timeline_wf(t),
        sample_in_range(s),
        !clears(t, s),
        s.alternate_screen || id >= keep_from(s),
        label_of(t.stamps, id) is Some,
    ensures
        label_of(observed(t, s, label).stamps, id) == label_of(t.stamps, id),
{
    if !s.alternate_screen {
        let i = choose|i: int| 0 <= i < t.stamps.len() && t.stamps[i].0 == id;
        lemma_label_at(t.stamps, i);
        let g = grown_stamps(t, s, label);
        assert(g[i] == t.stamps[i]);
        lemma_grown(t, s, label);
        lemma_drop_older(g, keep_from(s));
        let r = drop_older(g, keep_from(s));
        let k = g.len() - r.len();
        assert(i >= k);
        assert(r[i - k] == g[i]);
        lemma_suffix_ordered(g, k);
        lemma_label_at(r, i - k);
    }
}

/// New lines get the sample's label: when the screen kept its height, each
/// line from the next id up to the cursor that lies in the retained window
/// is labelled with the sample's time.
pub proof fn law_new_lines_get_the_label(t: TimelineView, s: LineTimelineSample, label: Seq<char>, id: int)
    requires
        timeline_wf(t),
        sample_in_range(s),
        !s.alternate_screen,
        !resized(t, s),
        base_next(t, s) <= id <= cursor_id(s),
        id >= keep_from(s),
    ensures
        label_of(observed(t, s, label).stamps, id) == Some(label),
{
    let b = base_stamps(t, s);
    let g = grown_stamps(t, s, label);
    let m = b.len() + (id - base_next(t, s));
    assert(g[m] == (id, label));
    lemma_grown(t, s, label);
    lemma_drop_older(g, keep_from(s));
    let r = drop_older(g, keep_from(s));
    let k = g.len() - r.len();
    assert(m >= k);
    assert(r[m - k] == g[m]);
    lemma_suffix_ordered(g, k);
    lemma_label_at(r, m - k);
}

/// Every label after an observation lies in the retained window, and is
/// either an earlier label kept as it was, or the sample's label on a line
/// from the previous next id up to the cursor of an unresized screen.
pub proof fn law_labels_come_from_before_or_from_the_sample(
    t: TimelineView,
    s: LineTimelineSample,
    label: Seq<char>,
    id: int,
)
    requires
        timeline_wf(t),
        sample_in_range(s),
        label_of(observed(t, s, label).stamps, id) is Some,
    ensures
        s.alternate_screen || id >= keep_from(s),
        (!clears(t, s) && label_of(observed(t, s, label).stamps, id) == label_of(t.stamps, id)) || (
        label_of(observed(t, s, label).stamps, id) == Some(label) && !s.alternate_screen && !resized(
            t,
            s,
        ) && base_next(t, s) <= id <= cursor_id(s)),
{
    if !s.alternate_screen {
        let b = base_stamps(t, s);
        let g = grown_stamps(t, s, label);
        lemma_grown(t, s, label);
        lemma_drop_older(g, keep_from(s));
        let r = drop_older(g, keep_from(s));
        let k = g.len() - r.len();
        lemma_suffix_ordered(g, k);
        let i = choose|i: int| 0 <= i < r.len() && r[i].0 == id;
        lemma_label_at(r, i);
        if i > 0 {
            assert(r[0].0 < r[i].0);
        }
        assert(r[i] == g[k + i]);
        if k + i < b.len() {
            assert(g[k + i] == t.stamps[k + i]);
            lemma_label_at(t.stamps, k + i);
        } else {
            assert(g[k + i] == fresh_stamps(base_next(t, s), cursor_id(s), label)[k + i - b.len()]);
        }
    }
}

/// Trimming forgets exactly the older lines: after the stamps older than
/// the keep point are dropped, a line below it has no label and every
/// other line keeps the label it had.
pub proof fn law_trim_forgets_exactly_the_older_lines(stamps: Seq<(int, Seq<char>)>, keep: int, id: int)
    requires
        ordered(stamps),
    ensures
        label_of(drop_older(stamps, keep), id) == if id < keep {
            None
        } else {
            label_of(stamps, id)
        },
{
    lemma_drop_older(stamps, keep);
    let d = drop_older(stamps, keep);
    let off = stamps.len() - d.len();
    assert forall|k: int| 0 <= k < d.len() implies #[trigger] d[k] == stamps[off + k] by {}
    assert forall|k: int| 0 <= k < d.len() implies #[trigger] d[k].0 >= keep by {
        if k > 0 {
            assert(stamps[off].0 < stamps[off + k].0);
        }
    }
    if id < keep {
        assert(!(exists|k: int| 0 <= k < d.len() && d[k].0 == id));
    } else {
        if exists|i: int| 0 <= i < stamps.len() && stamps[i].0 == id {
            let i = choose|i: int| 0 <= i < stamps.len() && stamps[i].0 == id;
            assert(i >= off);
            assert(d[i - off].0 == id);
            let k = choose|k: int| 0 <= k < d.len() && d[k].0 == id;
            assert(d[k] == stamps[off + k]);
            if off + k != i {
                if off + k < i {
                    assert(stamps[off + k].0 < stamps[i].0);
                } else {
                    assert(stamps[i].0 < stamps[off + k].0);
                }
            }
        } else {
            assert forall|k: int| 0 <= k < d.len() implies d[k].0 != id by {
                assert(d[k] == stamps[off + k]);
            }
        }
    }
}

/// Line ids only grow: unless the scrollback was cleared, the next id to
/// stamp never decreases.
pub proof fn law_next_id_never_decreases(t: TimelineView, s: LineTimelineSample, label: Seq<char>)
    requires
        !clears(t, s),
    ensures
        observed(t, s, label).next_id >= t.next_id,
{
}

/// Per-line arrival times.
pub struct LineTimeline {
    stamps: VecDeque<(i64, String)>,
    next_id: i64,
    screen_lines: usize,
    initialized: bool,
}

impl View for LineTimeline {
    type V = TimelineView;

    closed spec fn view(&self) -> TimelineView {
        TimelineView {
            stamps: stamp_views(self.stamps@),
            next_id: self.next_id as int,
            screen_lines: self.screen_lines as int,
            initialized: self.initialized,
        }
    }
}

impl LineTimeline {
    /// An empty timeline.
    pub fn new() -> (t: Self)
        ensures
            t@.stamps == Seq::<(int, Seq<char>)>::empty(),
            t@.next_id == 0,
            t@.screen_lines == 0,
            !t@.initialized,
            timeline_wf(t@),
    {
        let t = LineTimeline { stamps: VecDeque::new(), next_id: 0, screen_lines: 0, initialized: false };
        assert(t@.stamps =~= Seq::<(int, Seq<char>)>::empty());
        t
    }

    /// Records one sample; the lines reached since the last one are
    /// labelled `label`.
    pub fn observe_labelled(&mut self, sample: LineTimelineSample, label: &str)
        requires
            timeline_wf(old(self)@),
            sample_in_range(sample),
        ensures
            final(self)@ == observed(old(self)@, sample, label@),
            timeline_wf(final(self)@),
    {
        let ghost start = self@;
        if sample.alternate_screen {
            self.screen_lines = sample.screen_lines;
            return;
        }
        let resized = self.initialized && sample.screen_lines != self.screen_lines;
        self.initialized = true;
        self.screen_lines = sample.screen_lines;
        let cursor: i64 = sample.history_size as i64 + sample.cursor_line as i64;
        assert(cursor == cursor_id(sample));
        if cursor + sample.screen_lines as i64 + 1 < self.next_id {
            self.stamps.clear();
            self.next_id = 0;
            assert(stamp_views(self.stamps@) =~= Seq::<(int, Seq<char>)>::empty());
        }
        let ghost stamps0 = stamp_views(self.stamps@);
        let ghost next0 = self.next_id as int;
        if resized {
            if cursor + 1 > self.next_id {
                self.next_id = cursor + 1;
            }
        } else if cursor >= self.next_id {
            let mut id: i64 = self.next_id;
            assert(stamps0 + fresh_stamps(next0, id - 1, label@) =~= stamps0);
            while id <= cursor
                invariant
                    next0 <= id <= cursor + 1,
                    cursor == cursor_id(sample),
                    cursor + 1 <= 0x4000_0000_8000_0000,
                    stamp_views(self.stamps@) == stamps0 + fresh_stamps(next0, id - 1, label@),
                    self.next_id == next0,
                    self.screen_lines == sample.screen_lines,
                    self.initialized,
                decreases cursor + 1 - id,
            {
                let ghost before = stamp_views(self.stamps@);
                let text = owned(label);
                self.stamps.push_back((id, text));
                assert(stamp_views(self.stamps@) =~= before.push((id as int, label@)));
                assert(fresh_stamps(next0, id as int, label@) =~= fresh_stamps(next0, id - 1, label@).push(
                    (id as int, label@),
                ));
                id = id + 1;
            }
            self.next_id = cursor + 1;
        }
        self.trim(sample);
        proof {
            lemma_observed_wf(start, sample, label@);
        }
    }

    /// Drops the stamps that scrolled out of the retained window.
    pub fn trim(&mut self, sample: LineTimelineSample)
        requires
            sample_in_range(sample),
        ensures
            final(self)@ == (TimelineView {
                stamps: drop_older(old(self)@.stamps, keep_from(sample)),
                ..old(self)@
            }),
    {
        let capacity: usize = sample.scrollback_lines + sample.screen_lines + 1;
        let newest: i64 = (sample.history_size + sample.screen_lines) as i64 - 1;
        let keep: i64 = newest - capacity as i64;
        assert(keep == keep_from(sample));
        let ghost target = drop_older(stamp_views(self.stamps@), keep as int);
        while self.stamps.len() > 0 && self.stamps[0].0 < keep
            invariant
                drop_older(stamp_views(self.stamps@), keep as int) == target,
                self.next_id == old(self).next_id,
                self.screen_lines == old(self).screen_lines,
                self.initialized == old(self).initialized,
            decreases self.stamps@.len(),
        {
            let ghost before = stamp_views(self.stamps@);
            self.stamps.pop_front();
            assert(stamp_views(self.stamps@) =~= before.drop_first());
        }
    }

    /// The label of a line id, found by binary search.
    pub fn label(&self, id: i64) -> (r: Option<&str>)
        requires
            timeline_wf(self@),
        ensures
            match label_of(self@.stamps, id as int) {
                Some(l) => r matches Some(x) && x@ == l,
                None => r is None,
            },
    {
        let ghost views = self@.stamps;
        let mut lo: usize = 0;
        let mut hi: usize = self.stamps.len();
        while lo < hi
            invariant
                views == self@.stamps,
                timeline_wf(self@),
                lo <= hi <= views.len(),
                forall|i: int| 0 <= i < lo ==> #[trigger] views[i].0 < id,
                forall|i: int| hi <= i < views.len() ==> #[trigger] views[i].0 > id,
            decreases hi - lo,
        {
            let mid: usize = lo + (hi - lo) / 2;
            let mid_id = self.stamps[mid].0;
            assert(views[mid as int].0 == mid_id);
            if mid_id < id {
                assert forall|i: int| 0 <= i < mid + 1 implies #[trigger] views[i].0 < id by {
                    if i < mid {
                        assert(views[i].0 < views[mid as int].0);
                    }
                }
                lo = mid + 1;
            } else if mid_id > id {
                assert forall|i: int| mid <= i < views.len() implies #[trigger] views[i].0 > id by {
                    if i > mid {
                        assert(views[mid as int].0 < views[i].0);
                    }
                }
                hi = mid;
            } else {
                proof {
                    assert(exists|i: int| 0 <= i < views.len() && views[i].0 == id as int) by {
                        assert(views[mid as int].0 == id);
                    }
                    let k = choose|i: int| 0 <= i < views.len() && views[i].0 == id as int;
                    if k < mid {
                        assert(views[k].0 < views[mid as int].0);
                    } else if k > mid {
                        assert(views[mid as int].0 < views[k].0);
                    }
                }
                return Some(self.stamps[mid].1.as_str());
            }
        }
        proof {
            assert forall|i: int| 0 <= i < views.len() implies views[i].0 != id as int by {
                if i < lo {
                    assert(views[i].0 < id);
                } else {
                    assert(views[i].0 > id);
                }
            }
        }
        None
    }
}

impl Default for LineTimeline {
    fn default() -> (t: Self)
        ensures
            t@.stamps == Seq::<(int, Seq<char>)>::empty(),
            t@.next_id == 0,
            t@.screen_lines == 0,
            !t@.initialized,
            timeline_wf(t@),
    {
        LineTimeline::new()
    }
}

/// A clock reading as shown in the gutter: `HH:MM:SS`, each field two
/// decimal digits.
pub open spec fn clock_text(t: Seq<char>) -> bool {
    &&& t.len() == 8
    &&& t[2] == ':'
    &&& t[5] == ':'
    &&& forall|i: int| 0 <= i < 8 && i != 2 && i != 5 ==> '0' <= #[trigger] t[i] <= '9'
}

/// The local time of day from chrono's `Local::now()`, formatted with
/// `%H:%M:%S`.  chrono documents `%H`, `%M` and `%S` as zero-padded
/// two-digit numbers, which is all that is stated here: which time the
/// clock reads is not.
#[verifier::external_body]
fn clock_label() -> (r: String)
    ensures
        clock_text(r@),
{
    chrono::Local::now().format("%H:%M:%S").to_string()
}

/// The timeline handle shared by the terminal and its view.
pub struct SharedLineTimeline {
    timeline: LineTimeline,
}

impl View for SharedLineTimeline {
    type V = TimelineView;

    closed spec fn view(&self) -> TimelineView {
        self.timeline@
    }
}

impl SharedLineTimeline {
    /// The well-formedness of the handle's timeline.
    pub closed spec fn wf(&self) -> bool {
        timeline_wf(self.timeline@)
    }

    /// An empty timeline.
    pub fn new() -> (t: Self)
        ensures
            t.wf(),
            t@.stamps == Seq::<(int, Seq<char>)>::empty(),
            t@.next_id == 0,
            t@.screen_lines == 0,
            !t@.initialized,
    {
        SharedLineTimeline { timeline: LineTimeline::new() }
    }

    /// Samples the grid once, labelling new lines with the current time of
    /// day; idle lines get no stamp.
    pub fn observe(&mut self, sample: LineTimelineSample)
        requires
            old(self).wf(),
            sample_in_range(sample),
        ensures
            final(self).wf(),
            exists|l: Seq<char>| clock_text(l) && final(self)@ == observed(old(self)@, sample, l),
    {
        let now = clock_label();
        self.timeline.observe_labelled(sample, now.as_str());
    }

    /// The `HH:MM:SS` label of a line id.
    pub fn label(&self, id: i64) -> (r: Option<String>)
        requires
            self.wf(),
        ensures
            match label_of(self@.stamps, id as int) {
                Some(l) => r matches Some(x) && x@ == l,
                None => r is None,
            },
    {
        match self.timeline.label(id) {
            Some(text) => Some(owned(text)),
            None => None,
        }
    }
}

impl Default for SharedLineTimeline {
    fn default() -> (t: Self)
        ensures
            t.wf(),
            t@.stamps == Seq::<(int, Seq<char>)>::empty(),
            t@.next_id == 0,
            t@.screen_lines == 0,
            !t@.initialized,
    {
        SharedLineTimeline::new()
    }
}

} // verus!
