//! What a mouse click does to the selections: what it selects by its click
//! count, whether it scrolls, and whether it removes an existing selection
//! or starts a new one.
use vstd::prelude::*;

use crate::tab::Point;

verus! {

/// What a click selects.
#[derive(Clone, Copy, PartialEq, Eq, Structural, Debug)]
pub enum ClickGranularity {
    /// A position between two characters.
    Character,
    /// The word around the click.
    Word,
    /// The line of the click, with its line break.
    Line,
    /// The whole buffer.
    All,
}

/// One click selects a position, two a word, three a line, and any other
/// count the whole buffer.
pub open spec fn granularity_of(click_count: usize) -> ClickGranularity {
    if click_count == 1 {
        ClickGranularity::Character
    } else if click_count == 2 {
        ClickGranularity::Word
    } else if click_count == 3 {
        ClickGranularity::Line
    } else {
        ClickGranularity::All
    }
}

/// What a click with `click_count` clicks selects.
pub fn click_granularity(click_count: usize) -> (r: ClickGranularity)
    ensures
        r == granularity_of(click_count),
{
    match click_count {
        1 => ClickGranularity::Character,
        2 => ClickGranularity::Word,
        3 => ClickGranularity::Line,
        _ => ClickGranularity::All,
    }
}

/// The range, in buffer offsets, that a click makes its pending selection:
/// an empty range at the clicked `point` for one click, the `word` around it
/// for two, its `line` with the line break for three, and the whole buffer
/// of `buffer_len` bytes for more.
pub open spec fn clicked_range_of(
    click_count: usize,
    point: usize,
    word: (usize, usize),
    line: (usize, usize),
    buffer_len: usize,
) -> (usize, usize) {
    match granularity_of(click_count) {
        ClickGranularity::Character => (point, point),
        ClickGranularity::Word => word,
        ClickGranularity::Line => line,
        ClickGranularity::All => (0, buffer_len),
    }
}

/// The range a click with `click_count` clicks selects, given the clicked
/// offset `point`, the word and the line around it, and the buffer's length.
pub fn clicked_range(
    click_count: usize,
    point: usize,
    word: (usize, usize),
    line: (usize, usize),
    buffer_len: usize,
) -> (r: (usize, usize))
    ensures
        r == clicked_range_of(click_count, point, word, line, buffer_len),
{
    match click_granularity(click_count) {
        ClickGranularity::Character => (point, point),
        ClickGranularity::Word => word,
        ClickGranularity::Line => line,
        ClickGranularity::All => (0, buffer_len),
    }
}

/// Whether the click scrolls to the new selection: a click that selects the
/// whole buffer does not, and neither does any click when clicks are set not
/// to scroll.
pub fn click_autoscroll(click_count: usize, autoscroll_on_clicks: bool) -> (r: bool)
    ensures
        r == (granularity_of(click_count) != ClickGranularity::All && autoscroll_on_clicks),
{
    let scroll = match click_count {
        1 | 2 | 3 => true,
        _ => false,
    };
    scroll && autoscroll_on_clicks
}

/// An existing selection: its id and its end points.
#[derive(Clone, Copy, PartialEq, Eq, Structural, Debug)]
pub struct SelectionSpan {
    /// The selection's id.
    pub id: usize,
    /// Where it starts.
    pub start: Point,
    /// Where it ends.
    pub end: Point,
}

/// The first selection that starts at `start` or ends at `end`.
pub open spec fn first_touching(sels: Seq<SelectionSpan>, start: Point, end: Point) -> Option<usize>
    decreases sels.len(),
{
    if sels.len() == 0 {
        None
    } else if sels[0].start == start || sels[0].end == end {
        Some(sels[0].id)
    } else {
        first_touching(sels.drop_first(), start, end)
    }
}

/// The id of the first selection that starts at `start` or ends at `end`.
pub fn find_touching(sels: &Vec<SelectionSpan>, start: Point, end: Point) -> (r: Option<usize>)
    ensures
        r == first_touching(sels@, start, end),
{
    let mut i: usize = 0;
    assert(sels@.skip(0) =~= sels@);
    while i < sels.len()
        invariant
            i <= sels@.len(),
            first_touching(sels@, start, end) == first_touching(sels@.skip(i as int), start, end),
        decreases sels@.len() - i,
    {
        let s = sels[i];
        assert(sels@.skip(i as int)[0] == s);
        assert(sels@.skip(i as int).drop_first() =~= sels@.skip(i as int + 1));
        if s.start == start || s.end == end {
            return Some(s.id);
        }
        i = i + 1;
    }
    assert(sels@.skip(i as int) =~= Seq::<SelectionSpan>::empty());
    None
}

/// What a click does to the existing selections.
#[derive(Clone, Copy, PartialEq, Eq, Structural, Debug)]
pub enum ClickAction {
    /// Remove the selection `id`; when `pending` the clicked range becomes
    /// the pending selection, as it was the only one.
    Remove { id: usize, pending: bool },
    /// Make the clicked range the pending selection; when `clear` the other
    /// selections are dropped first.
    Select { clear: bool },
}

/// The selection a click removes: only a single click that adds a
/// selection removes one, the first selection within the clicked range, or
/// else the first one that starts or ends where the click does.
pub open spec fn removed_by_click(add: bool, click_count: usize, in_range: Seq<usize>, touching: Option<usize>) -> Option<usize> {
    if !add || click_count > 1 {
        None
    } else if in_range.len() > 0 {
        Some(in_range[0])
    } else {
        touching
    }
}

/// What a click does: `add` tells whether it adds a selection,
/// `in_range` lists the ids of the selections within the clicked range,
/// `touching` is the first selection that starts or ends where the click
/// does, and `selections_count` the number of selections.
pub fn click_action(
    add: bool,
    click_count: usize,
    in_range: &Vec<usize>,
    touching: Option<usize>,
    selections_count: usize,
) -> (r: ClickAction)
    ensures
        r == match removed_by_click(add, click_count, in_range@, touching) {
            Some(id) => ClickAction::Remove { id, pending: selections_count == 1 },
            None => ClickAction::Select { clear: !add },
        },
{
    let removed = if !add || click_count > 1 {
        None
    } else if in_range.len() > 0 {
        Some(in_range[0])
    } else {
        touching
    };
    match removed {
        Some(id) => ClickAction::Remove { id, pending: selections_count == 1 },
        None => ClickAction::Select { clear: !add },
    }
}


/// The least click count that keeps what the current selection mode
/// selects: one for characters, two for words, three for lines, four for
/// everything.
pub open spec fn mode_click_count(mode: ClickGranularity) -> usize {
    match mode {
        ClickGranularity::Character => 1,
        ClickGranularity::Word => 2,
        ClickGranularity::Line => 3,
        ClickGranularity::All => 4,
    }
}

/// The click count a shift-click extends with: at least the one of the
/// current selection mode.
pub fn extend_click_count(click_count: usize, mode: ClickGranularity) -> (r: usize)
    ensures
        r == if click_count >= mode_click_count(mode) {
            click_count
        } else {
            mode_click_count(mode)
        },
{
    let m: usize = match mode {
        ClickGranularity::Character => 1,
        ClickGranularity::Word => 2,
        ClickGranularity::Line => 3,
        ClickGranularity::All => 4,
    };
    if click_count >= m {
        click_count
    } else {
        m
    }
}

/// A pending selection between two offsets, and whether its head is at
/// its start.
#[derive(Clone, Copy, PartialEq, Eq, Structural, Debug)]
pub struct PendingSelection {
    /// Where it starts.
    pub start: usize,
    /// Where it ends.
    pub end: usize,
    /// Whether its head is at the start.
    pub reversed: bool,
}

/// The pending selection of a shift-click, widened to keep what was
/// selected before, `current`: its start moves back to `current`'s start
/// when that is earlier, and its end forward to `current`'s end when that
/// is later, which puts its head at the start.
pub fn extend_pending(pending: PendingSelection, current: (usize, usize)) -> (r: PendingSelection)
    ensures
        r.start == if pending.start > current.0 {
            current.0
        } else {
            pending.start
        },
        r.end == if pending.end < current.1 {
            current.1
        } else {
            pending.end
        },
        r.reversed == (pending.reversed || pending.end < current.1),
{
    let mut r = pending;
    if r.start > current.0 {
        r.start = current.0;
    }
    if r.end < current.1 {
        r.end = current.1;
        r.reversed = true;
    }
    r
}


/// A selection with its head moved to its other end; a cursor stays as it
/// is.
pub open spec fn swapped(sel: PendingSelection) -> PendingSelection {
    if sel.start != sel.end {
        PendingSelection { reversed: !sel.reversed, ..sel }
    } else {
        sel
    }
}

/// Moves the head of a selection to its other end; a cursor stays as it is.
pub fn swap_selection_ends(sel: PendingSelection) -> (r: PendingSelection)
    ensures
        r == swapped(sel),
{
    if sel.start != sel.end {
        PendingSelection { reversed: !sel.reversed, ..sel }
    } else {
        sel
    }
}

/// Swapping the ends twice gives the selection back.
pub proof fn lemma_swap_twice(sel: PendingSelection)
    ensures
        swapped(swapped(sel)) == sel,
{
}


/// The ranges the context menu acts on: those of the settled selections,
/// in order, followed by that of the pending selection, if any.
pub fn display_ranges(disjoint: &Vec<(usize, usize)>, pending: Option<(usize, usize)>) -> (r: Vec<(usize, usize)>)
    ensures
        r@ == match pending {
            Some(p) => disjoint@.push(p),
            None => disjoint@,
        },
{
    let mut r: Vec<(usize, usize)> = Vec::new();
    let mut i: usize = 0;
    while i < disjoint.len()
        invariant
            i <= disjoint@.len(),
            r@ == disjoint@.take(i as int),
        decreases disjoint@.len() - i,
    {
        r.push(disjoint[i]);
        i = i + 1;
        assert(r@ =~= disjoint@.take(i as int));
    }
    assert(disjoint@.take(i as int) =~= disjoint@);
    if let Some(p) = pending {
        r.push(p);
    }
    r
}


/// Whether some selection in `sels` is not empty.
pub open spec fn some_nonempty(sels: Seq<(usize, usize)>) -> bool {
    exists|i: int| 0 <= i < sels.len() && (#[trigger] sels[i]).1 > sels[i].0
}

/// Whether the buffer range `range` counts as selected: the pending
/// selection, if any, covers it, or one of the selections within it
/// (`in_range`) is not empty (a mere cursor at its start does not count).
pub fn is_range_selected(pending: Option<(usize, usize)>, range: (usize, usize), in_range: &Vec<(usize, usize)>) -> (r: bool)
    ensures
        r == ((pending matches Some(p) && p.0 <= range.0 && range.1 <= p.1) || some_nonempty(in_range@)),
{
    if let Some(p) = pending {
        if p.0 <= range.0 && range.1 <= p.1 {
            return true;
        }
    }
    let mut i: usize = 0;
    while i < in_range.len()
        invariant
            i <= in_range@.len(),
            forall|k: int| 0 <= k < i ==> (#[trigger] in_range@[k]).1 <= in_range@[k].0,
        decreases in_range@.len() - i,
    {
        let s = in_range[i];
        if s.1 > s.0 {
            assert(in_range@[i as int].1 > in_range@[i as int].0);
            return true;
        }
        i = i + 1;
    }
    false
}

} // verus!
