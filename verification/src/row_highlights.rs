//! Highlighted rows and gutter highlights: each kind of highlight keeps its
//! ranges in order, with no range twice; ranges are added one at a time and
//! removed by a sweep over ranges to clear; each row shows the highlight
//! added last among those that cover it.
use vstd::prelude::*;

use std::collections::HashMap;

use crate::editor_state::RowHighlightOptions;

verus! {

broadcast use vstd::std_specs::hash::group_hash_axioms;

/// A counter that hands out increasing identifiers.
#[derive(Clone, Copy, PartialEq, Eq, Structural, Debug)]
pub struct EditorActionId(pub usize);

impl EditorActionId {
    /// Hands out the current value and moves the counter on by one.
    pub fn post_inc(&mut self) -> (r: EditorActionId)
        requires
            old(self).0 < usize::MAX,
        ensures
            r.0 == old(self).0,
            final(self).0 == old(self).0 + 1,
    {
        let answer = self.0;
        *self = EditorActionId(answer + 1);
        EditorActionId(answer)
    }
}

/// A range of a buffer, from offset `start` to `end`, with what is kept
/// along with it.
pub struct RangeEntry<T> {
    /// Where it starts.
    pub start: usize,
    /// Where it ends.
    pub end: usize,
    /// What is kept with the range.
    pub data: T,
}

/// What a row highlight keeps along with its range: the order in which it
/// was added, its color and its options.
pub struct RowHighlightData<C> {
    /// When the highlight was added: later highlights have larger indices.
    pub index: usize,
    /// Its color.
    pub color: C,
    /// Its options.
    pub options: RowHighlightOptions,
}

/// A highlighted range of rows.
pub type RowHighlight<C> = RangeEntry<RowHighlightData<C>>;

/// Whether the range `a` comes before `b`: it starts earlier, or starts at
/// the same place and ends earlier.
pub open spec fn range_lt(a: (usize, usize), b: (usize, usize)) -> bool {
    a.0 < b.0 || (a.0 == b.0 && a.1 < b.1)
}

/// The range of a highlight.
pub open spec fn range_of<T>(h: RangeEntry<T>) -> (usize, usize) {
    (h.start, h.end)
}

/// The highlights are in order of their ranges, with no range twice.
pub open spec fn sorted_unique<T>(s: Seq<RangeEntry<T>>) -> bool {
    forall|i: int, j: int| 0 <= i < j < s.len() ==> range_lt(range_of(#[trigger] s[i]), range_of(#[trigger] s[j]))
}

/// Whether clearing the range `r` removes a highlight of the range `h`: it
/// ends after the highlight starts and starts at or before it ends.
pub open spec fn clears(r: (usize, usize), h: (usize, usize)) -> bool {
    r.1 > h.0 && r.0 <= h.1
}

/// One step of the sweep that clears ranges: from the pointer `p` into the
/// ranges to clear, skip those that end at or before the highlight `h`
/// starts; the highlight stays unless the range reached clears it. Gives
/// whether it stays and where the pointer stops.
pub open spec fn sweep_step(rem: Seq<(usize, usize)>, p: int, h: (usize, usize)) -> (bool, int)
    decreases rem.len() - p,
{
    if p < 0 || p >= rem.len() {
        (true, p)
    } else if rem[p].1 <= h.0 {
        sweep_step(rem, p + 1, h)
    } else if rem[p].0 <= h.1 {
        (false, p)
    } else {
        (true, p)
    }
}

/// Whether each highlight from the `i`-th on stays, the sweep's pointer
/// being at `p` when it reaches the `i`-th.
pub open spec fn sweep_flags<T>(s: Seq<RangeEntry<T>>, rem: Seq<(usize, usize)>, i: int, p: int) -> Seq<bool>
    decreases s.len() - i,
{
    if i < 0 || i >= s.len() {
        Seq::empty()
    } else {
        let (keep, q) = sweep_step(rem, p, range_of(s[i]));
        seq![keep] + sweep_flags(s, rem, i + 1, q)
    }
}

/// The items of `s` whose flag is set, in order.
pub open spec fn kept_by<T>(s: Seq<T>, flags: Seq<bool>) -> Seq<T>
    decreases s.len(),
{
    if s.len() == 0 {
        Seq::empty()
    } else {
        let rest = kept_by(s.drop_last(), flags.take(s.len() - 1));
        if flags[s.len() - 1] {
            rest.push(s.last())
        } else {
            rest
        }
    }
}

/// The ranges start in order.
pub open spec fn starts_sorted(rem: Seq<(usize, usize)>) -> bool {
    forall|i: int, j: int| 0 <= i <= j < rem.len() ==> (#[trigger] rem[i]).0 <= (#[trigger] rem[j]).0
}

/// Whether one of the ranges clears a highlight of the range `h`.
pub open spec fn cleared_by(rem: Seq<(usize, usize)>, h: (usize, usize)) -> bool {
    exists|k: int| 0 <= k < rem.len() && clears(#[trigger] rem[k], h)
}

proof fn lemma_sweep_step(rem: Seq<(usize, usize)>, p: int, h: (usize, usize))
    requires
        0 <= p <= rem.len(),
        starts_sorted(rem),
        forall|k: int| 0 <= k < p ==> (#[trigger] rem[k]).1 <= h.0,
    ensures
        p <= sweep_step(rem, p, h).1 <= rem.len(),
        sweep_step(rem, p, h).0 == !cleared_by(rem, h),
        forall|k: int| 0 <= k < sweep_step(rem, p, h).1 ==> (#[trigger] rem[k]).1 <= h.0,
    decreases rem.len() - p,
{
    if p < rem.len() {
        if rem[p].1 <= h.0 {
            lemma_sweep_step(rem, p + 1, h);
        } else if rem[p].0 <= h.1 {
            assert(clears(rem[p], h));
        } else {
            assert forall|k: int| 0 <= k < rem.len() implies !clears(#[trigger] rem[k], h) by {
                if k >= p {
                    assert(rem[p].0 <= rem[k].0);
                }
            }
        }
    } else {
        assert forall|k: int| 0 <= k < rem.len() implies !clears(#[trigger] rem[k], h) by {}
    }
}

proof fn lemma_sweep_flags<T>(s: Seq<RangeEntry<T>>, rem: Seq<(usize, usize)>, i: int, p: int)
    requires
        0 <= i <= s.len(),
        0 <= p <= rem.len(),
        sorted_unique(s),
        starts_sorted(rem),
        i < s.len() ==> forall|k: int| 0 <= k < p ==> (#[trigger] rem[k]).1 <= s[i].start,
    ensures
        sweep_flags(s, rem, i, p).len() == s.len() - i,
        forall|j: int| i <= j < s.len() ==> sweep_flags(s, rem, i, p)[j - i] == !cleared_by(rem, range_of(#[trigger] s[j])),
    decreases s.len() - i,
{
    if i < s.len() {
        let h = range_of(s[i]);
        lemma_sweep_step(rem, p, h);
        let q = sweep_step(rem, p, h).1;
        if i + 1 < s.len() {
            assert(range_lt(range_of(s[i]), range_of(s[i + 1])));
        }
        lemma_sweep_flags(s, rem, i + 1, q);
        let f = sweep_flags(s, rem, i, p);
        assert forall|j: int| i <= j < s.len() implies f[j - i] == !cleared_by(rem, range_of(#[trigger] s[j])) by {
            if j > i {
                assert(f[j - i] == sweep_flags(s, rem, i + 1, q)[j - (i + 1)]);
            }
        }
    }
}

/// Clearing ranges that start in order, from a list in order, keeps exactly
/// the highlights that none of the ranges overlaps: the sweep decides of
/// each highlight just what a search through all the ranges would.
pub proof fn lemma_clear_keeps_exactly_unoverlapped<T>(s: Seq<RangeEntry<T>>, rem: Seq<(usize, usize)>)
    requires
        sorted_unique(s),
        starts_sorted(rem),
    ensures
        sweep_flags(s, rem, 0, 0).len() == s.len(),
        forall|j: int| 0 <= j < s.len() ==> sweep_flags(s, rem, 0, 0)[j] == !cleared_by(rem, range_of(#[trigger] s[j])),
{
    lemma_sweep_flags(s, rem, 0, 0);
}

/// Whether `x` is one of the items of `s`.
pub open spec fn member_of<T>(x: T, s: Seq<T>) -> bool {
    exists|b: int| 0 <= b < s.len() && #[trigger] s[b] == x
}

proof fn lemma_kept_by_members<T>(s: Seq<T>, flags: Seq<bool>)
    requires
        flags.len() == s.len(),
    ensures
        forall|a: int| 0 <= a < kept_by(s, flags).len() ==> member_of(#[trigger] kept_by(s, flags)[a], s),
    decreases s.len(),
{
    if s.len() > 0 {
        let s2 = s.drop_last();
        let f2 = flags.take(s.len() - 1);
        lemma_kept_by_members(s2, f2);
        let k = kept_by(s, flags);
        let rest = kept_by(s2, f2);
        assert forall|a: int| 0 <= a < k.len() implies member_of(#[trigger] k[a], s) by {
            if a < rest.len() {
                assert(member_of(rest[a], s2));
                let b = choose|b: int| 0 <= b < s2.len() && #[trigger] s2[b] == rest[a];
                assert(k[a] == rest[a]);
                assert(s[b] == s2[b]);
            } else {
                assert(k[a] == s[s.len() - 1]);
            }
        }
    }
}

proof fn lemma_kept_by_sorted<T>(s: Seq<RangeEntry<T>>, flags: Seq<bool>)
    requires
        flags.len() == s.len(),
        sorted_unique(s),
    ensures
        sorted_unique(kept_by(s, flags)),
    decreases s.len(),
{
    if s.len() > 0 {
        let s2 = s.drop_last();
        let f2 = flags.take(s.len() - 1);
        assert(sorted_unique(s2)) by {
            assert forall|i: int, j: int| 0 <= i < j < s2.len() implies range_lt(range_of(#[trigger] s2[i]), range_of(#[trigger] s2[j])) by {
                assert(s2[i] == s[i] && s2[j] == s[j]);
            }
        }
        lemma_kept_by_sorted(s2, f2);
        lemma_kept_by_members(s2, f2);
        let rest = kept_by(s2, f2);
        if flags[s.len() - 1] {
            let k = rest.push(s.last());
            assert forall|i: int, j: int| 0 <= i < j < k.len() implies range_lt(range_of(#[trigger] k[i]), range_of(#[trigger] k[j])) by {
                if j == k.len() - 1 {
                    assert(member_of(rest[i], s2));
                    let b = choose|b: int| 0 <= b < s2.len() && #[trigger] s2[b] == rest[i];
                    assert(k[i] == s[b]);
                    assert(range_lt(range_of(s[b]), range_of(s[s.len() - 1])));
                } else {
                    assert(k[i] == rest[i] && k[j] == rest[j]);
                }
            }
        }
    }
}

/// The ranges of one kind of highlight, in order, with no range twice.
pub struct SortedRanges<T> {
    items: Vec<RangeEntry<T>>,
}

/// The row highlights of one kind.
pub type RowHighlights<C> = SortedRanges<RowHighlightData<C>>;

impl<T> View for SortedRanges<T> {
    type V = Seq<RangeEntry<T>>;

    closed spec fn view(&self) -> Seq<RangeEntry<T>> {
        self.items@
    }
}

impl<T> SortedRanges<T> {
    /// The list is in order, with no range twice.
    pub closed spec fn wf(&self) -> bool {
        sorted_unique(self.items@)
    }

    /// No ranges.
    pub fn new() -> (r: SortedRanges<T>)
        ensures
            r.wf(),
            r@ == Seq::<RangeEntry<T>>::empty(),
    {
        SortedRanges { items: Vec::new() }
    }

    /// The ranges, in order.
    pub fn items(&self) -> (r: &[RangeEntry<T>])
        ensures
            r@ == self@,
    {
        self.items.as_slice()
    }

    /// Adds `h`, unless an entry with its range is there already; the list
    /// stays in order.
    pub fn insert(&mut self, h: RangeEntry<T>)
        requires
            old(self).wf(),
        ensures
            final(self).wf(),
            (exists|i: int| 0 <= i < old(self)@.len() && range_of(#[trigger] old(self)@[i]) == range_of(h))
                ==> final(self)@ == old(self)@,
            !(exists|i: int| 0 <= i < old(self)@.len() && range_of(#[trigger] old(self)@[i]) == range_of(h))
                ==> exists|ix: int| 0 <= ix <= old(self)@.len() && final(self)@ == old(self)@.insert(ix, h),
    {
        let mut lo: usize = 0;
        let mut hi: usize = self.items.len();
        while lo < hi
            invariant
                0 <= lo <= hi <= self.items@.len(),
                sorted_unique(self.items@),
                forall|k: int| 0 <= k < lo ==> range_lt(range_of(#[trigger] self.items@[k]), range_of(h)),
                forall|k: int| hi <= k < self.items@.len() ==> !range_lt(range_of(#[trigger] self.items@[k]), range_of(h)),
            decreases hi - lo,
        {
            let mid = lo + (hi - lo) / 2;
            let m = &self.items[mid];
            if m.start < h.start || (m.start == h.start && m.end < h.end) {
                lo = mid + 1;
            } else {
                hi = mid;
            }
        }
        if lo < self.items.len() && self.items[lo].start == h.start && self.items[lo].end == h.end {
            assert(self.items@ == old(self)@);
            assert(range_of(old(self)@[lo as int]) == range_of(h));
            return;
        }
        let ghost old_v = self.items@;
        assert(old_v == old(self)@);
        assert forall|i: int| 0 <= i < old_v.len() implies range_of(#[trigger] old_v[i]) != range_of(h) by {
            if i >= lo {
                if i > lo {
                    assert(range_lt(range_of(old_v[lo as int]), range_of(old_v[i])));
                }
            }
        }
        self.items.insert(lo, h);
        proof {
            assert(self.items@ == old_v.insert(lo as int, h));
            assert(self@ == old(self)@.insert(lo as int, h));
            assert forall|i: int, j: int| 0 <= i < j < self.items@.len() implies range_lt(
                range_of(#[trigger] self.items@[i]),
                range_of(#[trigger] self.items@[j]),
            ) by {
                if j < lo {
                    assert(self.items@[i] == old_v[i] && self.items@[j] == old_v[j]);
                } else if j == lo {
                    assert(self.items@[i] == old_v[i]);
                } else if i < lo {
                    assert(self.items@[i] == old_v[i] && self.items@[j] == old_v[j - 1]);
                    assert(range_lt(range_of(old_v[i]), range_of(h)));
                } else if i == lo {
                    assert(self.items@[j] == old_v[j - 1]);
                    assert(range_of(old_v[j - 1]) != range_of(h));
                } else {
                    assert(self.items@[i] == old_v[i - 1] && self.items@[j] == old_v[j - 1]);
                }
            }
        }
    }

    /// Clears the ranges `rem`, as one sweep through the list and the ranges
    /// together: a pointer into the ranges passes those that end at or
    /// before a highlight starts, and the highlight goes when the range the
    /// pointer stops at starts at or before the highlight ends.
    pub fn remove_overlapping(&mut self, rem: &Vec<(usize, usize)>)
        requires
            old(self).wf(),
        ensures
            final(self).wf(),
            final(self)@ == kept_by(old(self)@, sweep_flags(old(self)@, rem@, 0, 0)),
    {
        let ghost s = self.items@;
        let n = self.items.len();
        let mut flags: Vec<bool> = Vec::new();
        let mut i: usize = 0;
        let mut p: usize = 0;
        while i < n
            invariant
                n == s.len(),
                self.items@ == s,
                i <= n,
                p <= rem@.len(),
                flags@.len() == i,
                flags@ + sweep_flags(s, rem@, i as int, p as int) == sweep_flags(s, rem@, 0, 0),
            decreases n - i,
        {
            let hs = self.items[i].start;
            let he = self.items[i].end;
            let ghost p0 = p as int;
            let mut keep = true;
            loop
                invariant_except_break
                    p0 <= p <= rem@.len(),
                    sweep_step(rem@, p0, (hs, he)) == sweep_step(rem@, p as int, (hs, he)),
                    keep,
                ensures
                    p0 <= p <= rem@.len(),
                    sweep_step(rem@, p0, (hs, he)) == (keep, p as int),
                decreases rem@.len() - p,
            {
                if p >= rem.len() {
                    break;
                }
                if rem[p].1 <= hs {
                    p = p + 1;
                } else {
                    if rem[p].0 <= he {
                        keep = false;
                    }
                    break;
                }
            }
            assert(sweep_step(rem@, p0, (hs, he)) == (keep, p as int));
            assert(range_of(s[i as int]) == (hs, he));
            let ghost before = flags@;
            flags.push(keep);
            assert(flags@ + sweep_flags(s, rem@, i + 1, p as int) =~= before + (seq![keep] + sweep_flags(
                s,
                rem@,
                i + 1,
                p as int,
            )));
            i = i + 1;
        }
        assert(flags@ =~= sweep_flags(s, rem@, 0, 0));
        let mut k: usize = 0;
        let mut j: usize = 0;
        assert(s.take(0) =~= Seq::<RangeEntry<T>>::empty());
        assert(s.skip(0) =~= s);
        while k < n
            invariant
                n == s.len() == flags@.len(),
                k <= n,
                j <= k,
                self.items@ == kept_by(s.take(k as int), flags@.take(k as int)) + s.skip(k as int),
                kept_by(s.take(k as int), flags@.take(k as int)).len() == j,
            decreases n - k,
        {
            let ghost kept = kept_by(s.take(k as int), flags@.take(k as int));
            assert(s.take(k as int + 1).drop_last() =~= s.take(k as int));
            assert(flags@.take(k as int + 1).take(k as int) =~= flags@.take(k as int));
            assert(s.skip(k as int) =~= seq![s[k as int]] + s.skip(k as int + 1));
            if flags[k] {
                assert(kept_by(s.take(k as int + 1), flags@.take(k as int + 1)) == kept.push(s[k as int]));
                assert(self.items@ =~= kept.push(s[k as int]) + s.skip(k as int + 1));
                j = j + 1;
            } else {
                assert(kept_by(s.take(k as int + 1), flags@.take(k as int + 1)) == kept);
                assert(self.items@[j as int] == s[k as int]);
                self.items.remove(j);
                assert(self.items@ =~= kept + s.skip(k as int + 1));
            }
            k = k + 1;
        }
        assert(s.take(n as int) =~= s);
        assert(flags@.take(n as int) =~= flags@);
        assert(s.skip(n as int) =~= Seq::<RangeEntry<T>>::empty());
        assert(self.items@ =~= kept_by(s, flags@));
        proof {
            lemma_kept_by_sorted(s, flags@);
        }
    }
}

/// The gutter highlights of one kind: the function that gives their color,
/// and their ranges, in order, with no range twice.
pub struct GutterHighlights<F> {
    /// What gives the highlights' color.
    pub color_fetcher: F,
    /// The highlighted ranges.
    pub ranges: SortedRanges<()>,
}

/// The ranges of a kind's gutter highlights, none when it has none yet.
pub open spec fn ranges_before<F>(existing: Option<GutterHighlights<F>>) -> Seq<RangeEntry<()>> {
    match existing {
        Some(g) => g.ranges@,
        None => Seq::<RangeEntry<()>>::empty(),
    }
}

/// Adds the gutter highlight `range` to the highlights of its kind, which
/// hold `existing` (none yet when `None`): the kind's color now comes from
/// `color_fetcher`, and its ranges gain `range` unless they hold it already,
/// staying in order.
pub fn insert_gutter_highlight<F>(
    existing: Option<GutterHighlights<F>>,
    range: (usize, usize),
    color_fetcher: F,
) -> (r: GutterHighlights<F>)
    requires
        existing is Some ==> existing->0.ranges.wf(),
    ensures
        r.color_fetcher == color_fetcher,
        r.ranges.wf(),
        (exists|i: int|
            0 <= i < ranges_before(existing).len() && range_of(#[trigger] ranges_before(existing)[i]) == range)
            ==> r.ranges@ == ranges_before(existing),
        !(exists|i: int|
            0 <= i < ranges_before(existing).len() && range_of(#[trigger] ranges_before(existing)[i]) == range)
            ==> exists|ix: int|
            0 <= ix <= ranges_before(existing).len() && r.ranges@ == ranges_before(existing).insert(
                ix,
                RangeEntry { start: range.0, end: range.1, data: () },
            ),
{
    let mut ranges = match existing {
        Some(g) => g.ranges,
        None => SortedRanges::new(),
    };
    let ghost before = ranges@;
    assert(before == ranges_before(existing));
    let h = RangeEntry { start: range.0, end: range.1, data: () };
    assert(range_of(h) == range);
    ranges.insert(h);
    proof {
        if exists|i: int| 0 <= i < before.len() && range_of(#[trigger] before[i]) == range {
            assert(ranges@ == before);
        } else {
            let ix = choose|ix: int| 0 <= ix <= before.len() && ranges@ == before.insert(ix, h);
            assert(ranges@ == before.insert(ix, h));
        }
    }
    GutterHighlights { color_fetcher, ranges }
}

impl<C> SortedRanges<RowHighlightData<C>> {
    /// The start of the first highlight that the view scrolls to, which is
    /// the least start among them since the list is in order; `None` when
    /// none scrolls.
    pub fn first_autoscroll_start(&self) -> (r: Option<usize>)
        requires
            self.wf(),
        ensures
            r is None <==> !exists|i: int| 0 <= i < self@.len() && (#[trigger] self@[i]).data.options.autoscroll,
            r is Some ==> exists|i: int| 0 <= i < self@.len() && (#[trigger] self@[i]).data.options.autoscroll
                && self@[i].start == r->0,
            r is Some ==> forall|i: int| 0 <= i < self@.len() && (#[trigger] self@[i]).data.options.autoscroll
                ==> r->0 <= self@[i].start,
    {
        let mut i: usize = 0;
        while i < self.items.len()
            invariant
                i <= self.items@.len(),
                sorted_unique(self.items@),
                forall|j: int| 0 <= j < i ==> !(#[trigger] self.items@[j]).data.options.autoscroll,
            decreases self.items@.len() - i,
        {
            if self.items[i].data.options.autoscroll {
                proof {
                    assert forall|j: int| 0 <= j < self@.len() && (#[trigger] self@[j]).data.options.autoscroll
                        implies self.items@[i as int].start <= self@[j].start by {
                        if j > i {
                            assert(range_lt(range_of(self.items@[i as int]), range_of(self.items@[j])));
                        }
                    }
                }
                assert(self@[i as int].data.options.autoscroll);
                return Some(self.items[i].start);
            }
            i = i + 1;
        }
        None
    }
}

/// The last display row a highlight covers, from the display position of
/// its end: the row before when the end is at the start of a row (and not
/// at the end of the buffer), else the end's row.
pub fn highlight_end_row(end_row: u32, end_column: u32, end_is_max: bool) -> (r: u32)
    ensures
        r == if !end_is_max && end_column == 0 {
            if end_row > 0 {
                (end_row - 1) as u32
            } else {
                0
            }
        } else {
            end_row
        },
{
    if !end_is_max && end_column == 0 {
        end_row.saturating_sub(1)
    } else {
        end_row
    }
}

/// A highlight on screen: the display rows it covers, first and last, and
/// when it was added.
#[derive(Clone, Copy, PartialEq, Eq, Structural, Debug)]
pub struct DisplayRowSpan {
    /// The first row.
    pub start_row: u32,
    /// The last row.
    pub end_row: u32,
    /// When the highlight was added.
    pub index: usize,
}

/// Whether a span covers `row`.
pub open spec fn covers(sp: DisplayRowSpan, row: u32) -> bool {
    sp.start_row <= row <= sp.end_row
}

/// Among the first `n` spans, the one that `row` shows, with the index it
/// won with: going through the spans in order, a span that covers the row
/// takes it over when its index is at least that of the one showing.
pub open spec fn row_winner(spans: Seq<DisplayRowSpan>, row: u32, n: int) -> Option<(usize, int)>
    decreases n,
{
    if n <= 0 {
        None
    } else {
        let w = row_winner(spans, row, n - 1);
        let sp = spans[n - 1];
        if covers(sp, row) {
            match w {
                None => Some((sp.index, n - 1)),
                Some((used, _)) => if sp.index >= used {
                    Some((sp.index, n - 1))
                } else {
                    w
                },
            }
        } else {
            w
        }
    }
}

/// A row shows a highlight exactly when one covers it, and then it shows
/// the covering highlight with the largest index; of two with that index,
/// the later one.
pub proof fn lemma_row_shows_latest_highlight(spans: Seq<DisplayRowSpan>, row: u32, n: int)
    requires
        0 <= n <= spans.len(),
    ensures
        row_winner(spans, row, n) is None <==> !exists|j: int| 0 <= j < n && covers(#[trigger] spans[j], row),
        row_winner(spans, row, n) is Some ==> {
            let (idx, pos) = row_winner(spans, row, n).unwrap();
            &&& 0 <= pos < n
            &&& covers(spans[pos], row)
            &&& idx == spans[pos].index
            &&& forall|j: int| 0 <= j < n && covers(#[trigger] spans[j], row) ==> spans[j].index <= idx
            &&& forall|j: int| pos < j < n && covers(#[trigger] spans[j], row) ==> spans[j].index < idx
        },
    decreases n,
{
    if n > 0 {
        lemma_row_shows_latest_highlight(spans, row, n - 1);
        if covers(spans[n - 1], row) {
            assert(exists|j: int| 0 <= j < n && covers(#[trigger] spans[j], row));
        } else {
            assert forall|j: int| 0 <= j < n && covers(#[trigger] spans[j], row) implies j < n - 1 by {}
        }
    }
}

/// Which span each display row shows, by its position in `spans`: for each
/// covered row, the span that covers it with the largest index, the later
/// of two with the same index.
pub fn row_winners(spans: &Vec<DisplayRowSpan>) -> (r: HashMap<u32, usize>)
    ensures
        forall|row: u32| #[trigger] r@.contains_key(row) <==> row_winner(spans@, row, spans@.len() as int) is Some,
        forall|row: u32| #[trigger] r@.contains_key(row) ==> r@[row] == row_winner(spans@, row, spans@.len() as int).unwrap().1,
{
    let mut used: HashMap<u32, usize> = HashMap::new();
    let mut winners: HashMap<u32, usize> = HashMap::new();
    let mut k: usize = 0;
    while k < spans.len()
        invariant
            k <= spans@.len(),
            forall|row: u32| #[trigger] winners@.contains_key(row) <==> row_winner(spans@, row, k as int) is Some,
            forall|row: u32| #[trigger] used@.contains_key(row) <==> row_winner(spans@, row, k as int) is Some,
            forall|row: u32| #[trigger] winners@.contains_key(row) ==> winners@[row] == row_winner(spans@, row, k as int).unwrap().1
                && used@[row] == row_winner(spans@, row, k as int).unwrap().0,
        decreases spans@.len() - k,
    {
        let sp = spans[k];
        let mut cur: u64 = sp.start_row as u64;
        while cur <= sp.end_row as u64
            invariant
                k < spans@.len(),
                sp == spans@[k as int],
                sp.start_row <= cur,
                cur <= sp.end_row as u64 + 1 || cur == sp.start_row as u64,
                forall|row: u32| #[trigger] winners@.contains_key(row) <==> row_winner(spans@, row, (if sp.start_row <= row < cur { k + 1 } else { k as int })) is Some,
                forall|row: u32| #[trigger] used@.contains_key(row) <==> row_winner(spans@, row, (if sp.start_row <= row < cur { k + 1 } else { k as int })) is Some,
                forall|row: u32| #[trigger] winners@.contains_key(row) ==> winners@[row] == row_winner(spans@, row, (if sp.start_row <= row < cur { k + 1 } else { k as int })).unwrap().1
                    && used@[row] == row_winner(spans@, row, (if sp.start_row <= row < cur { k + 1 } else { k as int })).unwrap().0,
            decreases sp.end_row as u64 + 1 - cur,
        {
            let row = cur as u32;
            let ghost w = row_winner(spans@, row, k as int);
            assert(covers(sp, row));
            assert(row as u64 == cur);
            assert((if sp.start_row <= row < cur { k + 1 } else { k as int }) == k as int);
            let take = match used.get(&row) {
                Some(u) => {
                    assert(used@.contains_key(row));
                    assert(w is Some);
                    assert(winners@.contains_key(row));
                    assert(*u == w.unwrap().0);
                    sp.index >= *u
                },
                None => {
                    assert(!used@.contains_key(row));
                    assert(w is None);
                    true
                },
            };
            if take {
                used.insert(row, sp.index);
                winners.insert(row, k);
            }
            assert(row_winner(spans@, row, k + 1) == if take { Some((sp.index, k as int)) } else { w });
            cur = cur + 1;
        }
        proof {
            assert forall|row: u32| !(sp.start_row <= row < cur) implies row_winner(spans@, row, k + 1) == row_winner(spans@, row, k as int) by {
                assert(!covers(sp, row));
            }
        }
        k = k + 1;
    }
    winners
}

} // verus!
