//! Where text from an input method goes: the range it replaces, given
//! relative to the newest selection, is carried over to every selection.
//! Offsets are counted in UTF-16 code units.
use vstd::prelude::*;

verus! {

/// A selection as the input method sees it: its identifier (newer selections
/// have larger ones) and its range.
#[derive(Clone, Copy, PartialEq, Eq, Structural, Debug)]
pub struct ImeSelection {
    /// The selection's identifier.
    pub id: usize,
    /// Where it starts.
    pub start: usize,
    /// Where it ends.
    pub end: usize,
}

/// The position of the newest selection: the last one with the largest
/// identifier.
pub open spec fn newest_index(sels: Seq<ImeSelection>) -> int
    decreases sels.len(),
{
    if sels.len() <= 1 {
        0
    } else {
        let k = newest_index(sels.drop_last());
        if sels.last().id >= sels[k].id {
            sels.len() - 1
        } else {
            k
        }
    }
}

/// `v` as a machine `isize` would hold it, were it clamped to the range of
/// `isize`.
pub open spec fn saturate_isize(v: int) -> int {
    if v > isize::MAX {
        isize::MAX as int
    } else if v < isize::MIN {
        isize::MIN as int
    } else {
        v
    }
}

/// The `usize` whose bits are those of the `isize` value `v`.
pub open spec fn isize_bits_as_usize(v: int) -> int {
    if v >= 0 {
        v
    } else {
        v + usize::MAX + 1
    }
}

/// An offset moved by `delta`, the way a machine does it: added as `isize`
/// values with saturation, then read back as a `usize`.
pub open spec fn shifted(offset: usize, delta: int) -> int {
    isize_bits_as_usize(saturate_isize(offset + delta))
}

/// The ranges the input method's text replaces in each selection, before
/// they are clipped to the buffer: each selection's start and end move by
/// as much as the newest selection's start and end must move to reach
/// `range`.
pub open spec fn replacement_ranges_of(sels: Seq<ImeSelection>, range: (usize, usize)) -> Seq<(int, int)> {
    let n = sels[newest_index(sels)];
    let sd = range.0 - n.start;
    let ed = range.1 - n.end;
    sels.map_values(|s: ImeSelection| (shifted(s.start, sd), shifted(s.end, ed)))
}

/// `offset` moved by `delta`, as a machine does it with `isize` values.
fn shift_offset(offset: usize, delta: isize) -> (r: usize)
    requires
        offset <= isize::MAX,
    ensures
        r == shifted(offset, delta as int),
{
    let o = offset as i128;
    let d = delta as i128;
    let sum = o + d;
    let sat: i128 = if sum > isize::MAX as i128 {
        isize::MAX as i128
    } else if sum < isize::MIN as i128 {
        isize::MIN as i128
    } else {
        sum
    };
    if sat >= 0 {
        sat as usize
    } else {
        let back = (-(sat + 1)) as usize;
        usize::MAX - back
    }
}

/// The ranges the input method's text replaces, one per selection, before
/// they are clipped to the buffer: the replaced `range` is given for the
/// newest selection, and each selection's ends move as the newest one's do.
/// Offsets are at most `isize::MAX`, as a buffer's are.
pub fn selection_replacement_ranges(sels: &Vec<ImeSelection>, range: (usize, usize)) -> (r: Vec<(usize, usize)>)
    requires
        sels@.len() >= 1,
        range.0 <= isize::MAX,
        range.1 <= isize::MAX,
        forall|i: int| 0 <= i < sels@.len() ==> (#[trigger] sels@[i]).start <= isize::MAX && sels@[i].end <= isize::MAX,
    ensures
        r@.len() == sels@.len(),
        forall|i: int|
            0 <= i < sels@.len() ==> (#[trigger] r@[i]).0 == replacement_ranges_of(sels@, range)[i].0 && r@[i].1
                == replacement_ranges_of(sels@, range)[i].1,
{
    let mut newest: usize = 0;
    let mut i: usize = 1;
    assert(sels@.take(1).len() == 1);
    while i < sels.len()
        invariant
            1 <= i <= sels@.len(),
            newest < i,
            newest == newest_index(sels@.take(i as int)),
        decreases sels@.len() - i,
    {
        assert(sels@.take(i as int + 1).drop_last() =~= sels@.take(i as int));
        if sels[i].id >= sels[newest].id {
            newest = i;
        }
        i = i + 1;
    }
    assert(sels@.take(i as int) =~= sels@);
    let n = sels[newest];
    let sd = range.0 as isize - n.start as isize;
    let ed = range.1 as isize - n.end as isize;
    let mut out: Vec<(usize, usize)> = Vec::new();
    let mut k: usize = 0;
    while k < sels.len()
        invariant
            k <= sels@.len(),
            out@.len() == k,
            n == sels@[newest_index(sels@)],
            sd == range.0 - n.start,
            ed == range.1 - n.end,
            forall|j: int| 0 <= j < sels@.len() ==> (#[trigger] sels@[j]).start <= isize::MAX && sels@[j].end <= isize::MAX,
            forall|j: int|
                0 <= j < k ==> (#[trigger] out@[j]).0 == replacement_ranges_of(sels@, range)[j].0 && out@[j].1
                    == replacement_ranges_of(sels@, range)[j].1,
        decreases sels@.len() - k,
    {
        let s = sels[k];
        out.push((shift_offset(s.start, sd), shift_offset(s.end, ed)));
        k = k + 1;
    }
    out
}

/// `head` moved by `delta`, clamped to the range of `usize`.
pub open spec fn saturating_add_signed_of(head: usize, delta: int) -> int {
    if head + delta < 0 {
        0
    } else if head + delta > usize::MAX {
        usize::MAX as int
    } else {
        head + delta
    }
}

/// `head` moved by `delta`, clamped to the range of `usize`.
fn saturating_add_signed(head: usize, delta: isize) -> (r: usize)
    ensures
        r == saturating_add_signed_of(head, delta as int),
{
    if delta >= 0 {
        head.saturating_add(delta as usize)
    } else {
        let back = ((-(delta + 1)) as usize) + 1;
        head.saturating_sub(back)
    }
}

/// The selections after an input method replays an insertion with a range
/// relative to each selection's head: from the head moved by the range's
/// start to the head moved by its end, clamped to the range of offsets.
pub fn replay_ranges(heads: &Vec<usize>, relative: (isize, isize)) -> (r: Vec<(usize, usize)>)
    ensures
        r@.len() == heads@.len(),
        forall|i: int|
            0 <= i < heads@.len() ==> (#[trigger] r@[i]).0 == saturating_add_signed_of(heads@[i], relative.0 as int)
                && r@[i].1 == saturating_add_signed_of(heads@[i], relative.1 as int),
{
    let mut out: Vec<(usize, usize)> = Vec::new();
    let mut i: usize = 0;
    while i < heads.len()
        invariant
            i <= heads@.len(),
            out@.len() == i,
            forall|j: int|
                0 <= j < i ==> (#[trigger] out@[j]).0 == saturating_add_signed_of(heads@[j], relative.0 as int)
                    && out@[j].1 == saturating_add_signed_of(heads@[j], relative.1 as int),
        decreases heads@.len() - i,
    {
        let h = heads[i];
        out.push((saturating_add_signed(h, relative.0), saturating_add_signed(h, relative.1)));
        i = i + 1;
    }
    out
}

} // verus!
