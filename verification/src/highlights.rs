//! Which highlighted ranges fall within a range being drawn: the
//! highlights are kept in order, so the first candidate is found by binary
//! search and the scan stops at the first range past the end.
use vstd::prelude::*;

verus! {

/// The ranges' ends never decrease.
pub open spec fn ends_sorted(ranges: Seq<(usize, usize)>) -> bool {
    forall|i: int, j: int| 0 <= i <= j < ranges.len() ==> ranges[i].1 <= ranges[j].1
}

/// The number of leading ranges that end at or before `at`.
pub open spec fn ended_before(ranges: Seq<(usize, usize)>, at: usize) -> int
    decreases ranges.len(),
{
    if ranges.len() == 0 || ranges[0].1 > at {
        0
    } else {
        1 + ended_before(ranges.drop_first(), at)
    }
}

/// The first index from `from` on whose range starts at or after `at`, or
/// the number of ranges.
pub open spec fn first_starting_at(ranges: Seq<(usize, usize)>, from: int, at: usize) -> int
    decreases ranges.len() - from,
{
    if from >= ranges.len() || from < 0 {
        ranges.len() as int
    } else if ranges[from].0 >= at {
        from
    } else {
        first_starting_at(ranges, from + 1, at)
    }
}

proof fn lemma_ended_before(ranges: Seq<(usize, usize)>, at: usize)
    requires
        ends_sorted(ranges),
    ensures
        0 <= ended_before(ranges, at) <= ranges.len(),
        forall|k: int| 0 <= k < ended_before(ranges, at) ==> ranges[k].1 <= at,
        forall|k: int| ended_before(ranges, at) <= k < ranges.len() ==> ranges[k].1 > at,
    decreases ranges.len(),
{
    if ranges.len() > 0 && ranges[0].1 <= at {
        let rest = ranges.drop_first();
        assert forall|i: int, j: int| 0 <= i <= j < rest.len() implies rest[i].1 <= rest[j].1 by {
            assert(rest[i] == ranges[i + 1] && rest[j] == ranges[j + 1]);
        }
        lemma_ended_before(rest, at);
        assert forall|k: int| 0 <= k < ended_before(ranges, at) implies ranges[k].1 <= at by {
            if k > 0 {
                assert(ranges[k] == rest[k - 1]);
            }
        }
        assert forall|k: int| ended_before(ranges, at) <= k < ranges.len() implies ranges[k].1 > at by {
            assert(ranges[k] == rest[k - 1]);
        }
    } else if ranges.len() > 0 {
        assert forall|k: int| 0 <= k < ranges.len() implies ranges[k].1 > at by {
            assert(ranges[0].1 <= ranges[k].1);
        }
    }
}

/// The indices `[start, end)` of the highlights to draw within `search`:
/// from the first highlight that ends after `search` starts, up to the
/// first one from there that starts at or after `search` ends.
pub fn highlights_in_range(ranges: &Vec<(usize, usize)>, search: (usize, usize)) -> (r: (usize, usize))
    requires
        ends_sorted(ranges@),
    ensures
        r.0 == ended_before(ranges@, search.0),
        r.1 == first_starting_at(ranges@, r.0 as int, search.1),
        r.0 <= r.1 <= ranges@.len(),
{
    proof {
        lemma_ended_before(ranges@, search.0);
    }
    let mut lo: usize = 0;
    let mut hi: usize = ranges.len();
    while lo < hi
        invariant
            0 <= lo <= hi <= ranges@.len(),
            ends_sorted(ranges@),
            lo <= ended_before(ranges@, search.0) <= hi,
            0 <= ended_before(ranges@, search.0) <= ranges@.len(),
            forall|k: int| 0 <= k < ended_before(ranges@, search.0) ==> ranges@[k].1 <= search.0,
            forall|k: int| ended_before(ranges@, search.0) <= k < ranges@.len() ==> ranges@[k].1 > search.0,
        decreases hi - lo,
    {
        let mid = lo + (hi - lo) / 2;
        if ranges[mid].1 > search.0 {
            hi = mid;
        } else {
            lo = mid + 1;
        }
    }
    let start = lo;
    let mut end = start;
    while end < ranges.len()
        invariant
            start <= end <= ranges@.len(),
            first_starting_at(ranges@, start as int, search.1) == first_starting_at(ranges@, end as int, search.1),
        ensures
            end == ranges@.len() || ranges@[end as int].0 >= search.1,
            first_starting_at(ranges@, start as int, search.1) == first_starting_at(ranges@, end as int, search.1),
            start <= end <= ranges@.len(),
        decreases ranges@.len() - end,
    {
        if ranges[end].0 >= search.1 {
            break;
        }
        end = end + 1;
    }
    (start, end)
}

/// Every highlight drawn overlaps the range being drawn, when the
/// highlights are in order of their ends.
pub proof fn lemma_drawn_highlights_overlap(ranges: Seq<(usize, usize)>, search: (usize, usize), k: int)
    requires
        ends_sorted(ranges),
        ended_before(ranges, search.0) <= k < first_starting_at(ranges, ended_before(ranges, search.0), search.1),
    ensures
        ranges[k].1 > search.0,
        ranges[k].0 < search.1,
{
    lemma_ended_before(ranges, search.0);
    lemma_first_starting_at(ranges, ended_before(ranges, search.0), search.1);
}

proof fn lemma_first_starting_at(ranges: Seq<(usize, usize)>, from: int, at: usize)
    requires
        0 <= from <= ranges.len(),
    ensures
        from <= first_starting_at(ranges, from, at) <= ranges.len(),
        forall|k: int| from <= k < first_starting_at(ranges, from, at) ==> ranges[k].0 < at,
    decreases ranges.len() - from,
{
    if from < ranges.len() && ranges[from].0 < at {
        lemma_first_starting_at(ranges, from + 1, at);
    }
}

/// Whether range `a` comes before or with `b`: it starts earlier, or starts
/// at the same place and ends no later.
pub open spec fn range_le(a: (usize, usize), b: (usize, usize)) -> bool {
    a.0 < b.0 || (a.0 == b.0 && a.1 <= b.1)
}

/// The ranges are in order of their starts, then of their ends.
pub open spec fn ranges_sorted(s: Seq<(usize, usize)>) -> bool {
    forall|i: int, j: int| 0 <= i < j < s.len() ==> range_le(#[trigger] s[i], #[trigger] s[j])
}

/// The ranges that navigation overlays cover, in order of their starts and
/// then of their ends: the same ranges, each as often as given.
pub fn sort_covered_ranges(ranges: Vec<(usize, usize)>) -> (r: Vec<(usize, usize)>)
    ensures
        ranges_sorted(r@),
        r@.to_multiset() == ranges@.to_multiset(),
{
    let mut out: Vec<(usize, usize)> = Vec::new();
    let mut i: usize = 0;
    assert(ranges@.take(0) =~= Seq::<(usize, usize)>::empty());
    assert(out@ =~= Seq::<(usize, usize)>::empty());
    while i < ranges.len()
        invariant
            i <= ranges@.len(),
            ranges_sorted(out@),
            out@.to_multiset() == ranges@.take(i as int).to_multiset(),
        decreases ranges@.len() - i,
    {
        let x = ranges[i];
        let mut k: usize = out.len();
        while k > 0 && !range_le_exec(out[k - 1], x)
            invariant
                k <= out@.len(),
                ranges_sorted(out@),
                forall|j: int| k <= j < out@.len() ==> !range_le(out@[j], x),
            decreases k,
        {
            k = k - 1;
        }
        let ghost before = out@;
        out.insert(k, x);
        proof {
            vstd::seq_lib::to_multiset_insert(before, k as int, x);
            assert(ranges@.take(i as int + 1) =~= ranges@.take(i as int).push(x));
            vstd::seq_lib::to_multiset_build(ranges@.take(i as int), x);
            assert forall|a: int, b: int| 0 <= a < b < out@.len() implies range_le(#[trigger] out@[a], #[trigger] out@[b]) by {
                if b < k {
                    assert(out@[a] == before[a] && out@[b] == before[b]);
                } else if b == k {
                    assert(out@[a] == before[a]);
                    if k > 0 {
                        assert(range_le(before[k - 1], x));
                        if a < k - 1 {
                            assert(range_le(before[a], before[k - 1]));
                        }
                    }
                } else if a < k {
                    assert(out@[a] == before[a] && out@[b] == before[b - 1]);
                } else if a == k {
                    assert(out@[b] == before[b - 1]);
                    assert(!range_le(before[b - 1], x));
                } else {
                    assert(out@[a] == before[a - 1] && out@[b] == before[b - 1]);
                }
            }
        }
        i = i + 1;
    }
    assert(ranges@.take(i as int) =~= ranges@);
    out
}

/// Whether range `a` comes before or with `b`.
fn range_le_exec(a: (usize, usize), b: (usize, usize)) -> (r: bool)
    ensures
        r == range_le(a, b),
{
    a.0 < b.0 || (a.0 == b.0 && a.1 <= b.1)
}

} // verus!
