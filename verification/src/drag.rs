//! Selecting with the mouse: which modifiers start a columnar selection,
//! when typing or moving hides the pointer, how dragging grows a selection
//! made by word or by line, and which rows and columns a columnar selection
//! covers.
use vstd::prelude::*;

use crate::tab::Point;

verus! {

/// Where a columnar selection starts from.
#[derive(Clone, Copy, PartialEq, Eq, Structural, Debug)]
pub enum ColumnarMode {
    /// From the position where the mouse went down.
    FromMouse,
    /// From the tail of the newest selection.
    FromSelection,
}

/// Which key adds cursors when held with a click.
#[derive(Clone, Copy, PartialEq, Eq, Structural, Debug)]
pub enum MultiCursorModifier {
    /// Alt adds cursors; the platform's command key opens links.
    Alt,
    /// The platform's command key adds cursors; alt opens links.
    CmdOrCtrl,
}

/// The modifier keys held: shift, alt, the platform's secondary key (command
/// on macOS, control elsewhere), and how many modifiers are held in all.
#[derive(Clone, Copy, PartialEq, Eq, Structural, Debug)]
pub struct ModifierKeys {
    /// Whether shift is held.
    pub shift: bool,
    /// Whether alt is held.
    pub alt: bool,
    /// Whether the secondary key is held.
    pub secondary: bool,
    /// How many modifier keys are held.
    pub count: usize,
}

/// Whether the key that plays the part of command-or-control is held: the
/// secondary key when alt adds cursors, alt otherwise.
pub fn is_cmd_or_ctrl_pressed(keys: ModifierKeys, setting: MultiCursorModifier) -> (r: bool)
    ensures
        r == match setting {
            MultiCursorModifier::Alt => keys.secondary,
            MultiCursorModifier::CmdOrCtrl => keys.alt,
        },
{
    match setting {
        MultiCursorModifier::Alt => keys.secondary,
        MultiCursorModifier::CmdOrCtrl => keys.alt,
    }
}

/// Whether the key that plays the part of alt is held: alt when alt adds
/// cursors, the secondary key otherwise.
pub fn is_alt_pressed(keys: ModifierKeys, setting: MultiCursorModifier) -> (r: bool)
    ensures
        r == match setting {
            MultiCursorModifier::Alt => keys.alt,
            MultiCursorModifier::CmdOrCtrl => keys.secondary,
        },
{
    match setting {
        MultiCursorModifier::Alt => keys.alt,
        MultiCursorModifier::CmdOrCtrl => keys.secondary,
    }
}

/// The columnar mode that a drag with these modifiers starts: shift and
/// exactly one other modifier, which is command-or-control for a selection
/// from the mouse and alt for one from the selection.
pub fn columnar_selection_mode(keys: ModifierKeys, setting: MultiCursorModifier) -> (r: Option<
    ColumnarMode,
>)
    ensures
        r == if keys.shift && keys.count == 2 {
            if (match setting {
                MultiCursorModifier::Alt => keys.secondary,
                MultiCursorModifier::CmdOrCtrl => keys.alt,
            }) {
                Some(ColumnarMode::FromMouse)
            } else if (match setting {
                MultiCursorModifier::Alt => keys.alt,
                MultiCursorModifier::CmdOrCtrl => keys.secondary,
            }) {
                Some(ColumnarMode::FromSelection)
            } else {
                None
            }
        } else {
            None
        },
{
    if keys.shift && keys.count == 2 {
        if is_cmd_or_ctrl_pressed(keys, setting) {
            Some(ColumnarMode::FromMouse)
        } else if is_alt_pressed(keys, setting) {
            Some(ColumnarMode::FromSelection)
        } else {
            None
        }
    } else {
        None
    }
}

/// When the mouse pointer hides.
#[derive(Clone, Copy, PartialEq, Eq, Structural, Debug)]
pub enum HideMouseMode {
    /// Never.
    Never,
    /// While typing.
    OnTyping,
    /// While typing or moving the cursor.
    OnTypingAndMovement,
}

/// What kind of action may hide the mouse pointer.
#[derive(Clone, Copy, PartialEq, Eq, Structural, Debug)]
pub enum HideMouseCursorOrigin {
    /// Typing.
    TypingAction,
    /// Moving the cursor.
    MovementAction,
}

/// Whether the pointer is hidden after an action of kind `origin`: typing
/// hides it unless it never hides, moving only when it hides on movement.
pub fn hides_mouse_cursor(origin: HideMouseCursorOrigin, mode: HideMouseMode) -> (r: bool)
    ensures
        r == match origin {
            HideMouseCursorOrigin::TypingAction => mode != HideMouseMode::Never,
            HideMouseCursorOrigin::MovementAction => mode == HideMouseMode::OnTypingAndMovement,
        },
{
    match origin {
        HideMouseCursorOrigin::TypingAction => match mode {
            HideMouseMode::OnTyping | HideMouseMode::OnTypingAndMovement => true,
            HideMouseMode::Never => false,
        },
        HideMouseCursorOrigin::MovementAction => match mode {
            HideMouseMode::OnTypingAndMovement => true,
            _ => false,
        },
    }
}

/// A position on screen: a display row and a column in it.
#[derive(Clone, Copy, PartialEq, Eq, Structural, Debug)]
pub struct DisplayPoint {
    /// The display row.
    pub row: u32,
    /// The column.
    pub column: u32,
}

/// Where a columnar selection started: from the mouse, with the tail of the
/// selection and the point the mouse went down at when that differs from
/// where the selection could start; or from the tail of the selection.
#[derive(Clone, Copy, PartialEq, Eq, Structural, Debug)]
pub enum ColumnarSelectionState {
    /// Started from the mouse.
    FromMouse { selection_tail: DisplayPoint, display_point: Option<DisplayPoint> },
    /// Started from the selection.
    FromSelection { selection_tail: DisplayPoint },
}

/// The start of a columnar selection begun from the mouse at `position`,
/// when the mouse was at `goal_column`: after a reset, the point in the
/// mouse's row at the goal column when the position was clipped away from
/// it; no such point otherwise.
pub fn columnar_display_point(position: DisplayPoint, goal_column: u32, reset: bool) -> (r: Option<
    DisplayPoint,
>)
    ensures
        r == if reset && position.column != goal_column {
            Some(DisplayPoint { row: position.row, column: goal_column })
        } else {
            None
        },
{
    if reset && position.column != goal_column {
        Some(DisplayPoint { row: position.row, column: goal_column })
    } else {
        None
    }
}

/// The corner a columnar selection grows from.
pub open spec fn tail_of(state: ColumnarSelectionState) -> DisplayPoint {
    match state {
        ColumnarSelectionState::FromMouse { selection_tail, display_point } => match display_point {
            Some(p) => p,
            None => selection_tail,
        },
        ColumnarSelectionState::FromSelection { selection_tail } => selection_tail,
    }
}

/// The corner a columnar selection grows from: the mouse's point when there
/// is one, the selection's tail otherwise.
pub fn columnar_tail(state: ColumnarSelectionState) -> (r: DisplayPoint)
    ensures
        r == tail_of(state),
{
    match state {
        ColumnarSelectionState::FromMouse { selection_tail, display_point } => match display_point {
            Some(p) => p,
            None => selection_tail,
        },
        ColumnarSelectionState::FromSelection { selection_tail } => selection_tail,
    }
}

/// What a columnar selection reads of a display row: its length and whether
/// it shows a block rather than text.
#[derive(Clone, Copy, PartialEq, Eq, Structural, Debug)]
pub struct DisplayRowInfo {
    /// The length of the row.
    pub line_len: u32,
    /// Whether the row is a block.
    pub is_block: bool,
}

/// The rows and columns a columnar selection covers; the selections are
/// reversed when they grow to the left of the tail.
pub struct ColumnPlan {
    /// The rows that get a selection, top to bottom.
    pub rows: Vec<u32>,
    /// The left column.
    pub start_column: u32,
    /// The right column.
    pub end_column: u32,
    /// Whether each selection runs from right to left.
    pub reversed: bool,
}

/// The rows from `row` to `last` that get a selection: not a block, and,
/// unless the selection started from the mouse, long enough to reach
/// `start_column`.
pub open spec fn column_rows(
    info: Seq<DisplayRowInfo>,
    row: int,
    last: int,
    start_column: u32,
    from_mouse: bool,
) -> Seq<u32>
    decreases last + 1 - row,
{
    if row > last {
        Seq::empty()
    } else {
        let here: Seq<u32> = if (from_mouse || start_column <= info[row].line_len) && !info[row].is_block {
            seq![row as u32]
        } else {
            Seq::empty()
        };
        here + column_rows(info, row + 1, last, start_column, from_mouse)
    }
}

/// The smaller of two numbers.
pub open spec fn min_u32(a: u32, b: u32) -> u32 {
    if a <= b {
        a
    } else {
        b
    }
}

/// The larger of two numbers.
pub open spec fn max_u32(a: u32, b: u32) -> u32 {
    if a <= b {
        b
    } else {
        a
    }
}

/// Plans a columnar selection from the corner of `state` to the mouse at
/// `head`, at `goal_column`: the rows between them that get a selection, the
/// columns between the tail's and the goal, and whether the selections run
/// right to left (the goal lies left of the tail).
pub fn plan_columns(
    state: ColumnarSelectionState,
    head: DisplayPoint,
    goal_column: u32,
    info: &Vec<DisplayRowInfo>,
) -> (r: ColumnPlan)
    requires
        tail_of(state).row < info@.len(),
        head.row < info@.len(),
    ensures
        r.start_column == min_u32(tail_of(state).column, goal_column),
        r.end_column == max_u32(tail_of(state).column, goal_column),
        r.reversed == (r.start_column < tail_of(state).column),
        r.rows@ == column_rows(
            info@,
            min_u32(tail_of(state).row, head.row) as int,
            max_u32(tail_of(state).row, head.row) as int,
            r.start_column,
            state is FromMouse,
        ),
{
    let tail = columnar_tail(state);
    let from_mouse = match state {
        ColumnarSelectionState::FromMouse { .. } => true,
        _ => false,
    };
    let start_row = if tail.row <= head.row {
        tail.row
    } else {
        head.row
    };
    let end_row = if tail.row <= head.row {
        head.row
    } else {
        tail.row
    };
    let start_column = if tail.column <= goal_column {
        tail.column
    } else {
        goal_column
    };
    let end_column = if tail.column <= goal_column {
        goal_column
    } else {
        tail.column
    };
    let reversed = start_column < tail.column;
    let mut rows: Vec<u32> = Vec::new();
    let mut row: u32 = start_row;
    while row <= end_row
        invariant
            start_row <= row <= end_row + 1,
            end_row < info@.len(),
            tail == tail_of(state),
            start_column == min_u32(tail.column, goal_column),
            end_column == max_u32(tail.column, goal_column),
            reversed == (start_column < tail.column),
            from_mouse == (state is FromMouse),
            start_row == min_u32(tail.row, head.row),
            end_row == max_u32(tail.row, head.row),
            column_rows(info@, start_row as int, end_row as int, start_column, from_mouse) == rows@
                + column_rows(info@, row as int, end_row as int, start_column, from_mouse),
        decreases end_row + 1 - row,
    {
        let ri = info[row as usize];
        let keep = (from_mouse || start_column <= ri.line_len) && !ri.is_block;
        if keep {
            rows.push(row);
        }
        let ghost here: Seq<u32> = if keep {
            seq![row]
        } else {
            Seq::empty()
        };
        assert(rows@ + column_rows(info@, row + 1, end_row as int, start_column, from_mouse) =~= rows@.subrange(
            0,
            rows@.len() - here.len(),
        ) + (here + column_rows(info@, row + 1, end_row as int, start_column, from_mouse)));
        if row == end_row {
            assert(column_rows(info@, row + 1, end_row as int, start_column, from_mouse) =~= Seq::<u32>::empty());
            assert(rows@ + Seq::<u32>::empty() =~= rows@);
            return ColumnPlan { rows, start_column, end_column, reversed };
        }
        row = row + 1;
    }
    ColumnPlan { rows, start_column, end_column, reversed }
}

/// A range given the way round that a columnar selection runs.
pub open spec fn oriented(p: (Point, Point), reversed: bool) -> (Point, Point) {
    if reversed {
        (p.1, p.0)
    } else {
        p
    }
}

/// The ranges of `s` that are not empty.
pub open spec fn nonempty_ranges(s: Seq<(Point, Point)>) -> Seq<(Point, Point)>
    decreases s.len(),
{
    if s.len() == 0 {
        Seq::empty()
    } else {
        let rest = nonempty_ranges(s.drop_last());
        if s.last().0 != s.last().1 {
            rest.push(s.last())
        } else {
            rest
        }
    }
}

/// The selections of a columnar selection, from the ranges its planned rows
/// clip to (each from the left column to the right one): each given the way
/// round it runs; from the mouse, only the non-empty ones when there are
/// any; nothing to select when no row was planned.
pub open spec fn column_selections(
    clipped: Seq<(Point, Point)>,
    reversed: bool,
    from_mouse: bool,
) -> Option<Seq<(Point, Point)>> {
    let ranges = clipped.map_values(|p: (Point, Point)| oriented(p, reversed));
    if ranges.len() == 0 {
        None
    } else if from_mouse && nonempty_ranges(ranges).len() > 0 {
        Some(nonempty_ranges(ranges))
    } else {
        Some(ranges)
    }
}

/// The selections of a columnar selection from the ranges its planned rows
/// clip to; `None` when there is nothing to select.
pub fn column_selection_ranges(clipped: &Vec<(Point, Point)>, reversed: bool, from_mouse: bool) -> (r:
    Option<Vec<(Point, Point)>>)
    ensures
        match column_selections(clipped@, reversed, from_mouse) {
            Some(s) => r is Some && r->0@ == s,
            None => r is None,
        },
{
    let ghost ranges = clipped@.map_values(|p: (Point, Point)| oriented(p, reversed));
    let mut all: Vec<(Point, Point)> = Vec::new();
    let mut nonempty: Vec<(Point, Point)> = Vec::new();
    let mut i: usize = 0;
    while i < clipped.len()
        invariant
            i <= clipped@.len(),
            ranges == clipped@.map_values(|p: (Point, Point)| oriented(p, reversed)),
            all@ == ranges.take(i as int),
            nonempty@ == nonempty_ranges(ranges.take(i as int)),
        decreases clipped@.len() - i,
    {
        let (a, b) = clipped[i];
        let p = if reversed {
            (b, a)
        } else {
            (a, b)
        };
        assert(ranges.take(i as int + 1).drop_last() =~= ranges.take(i as int));
        assert(ranges.take(i as int + 1).last() == p);
        all.push(p);
        if p.0 != p.1 {
            nonempty.push(p);
        }
        i = i + 1;
    }
    assert(ranges.take(i as int) =~= ranges);
    if all.len() == 0 {
        None
    } else if from_mouse && nonempty.len() > 0 {
        Some(nonempty)
    } else {
        Some(all)
    }
}

/// Whether `a` comes before `b`: on an earlier row, or on the same row at an
/// earlier column.
pub open spec fn point_lt(a: Point, b: Point) -> bool {
    a.row < b.row || (a.row == b.row && a.column < b.column)
}

/// Whether `a` comes before `b`.
pub fn point_less(a: Point, b: Point) -> (r: bool)
    ensures
        r == point_lt(a, b),
{
    a.row < b.row || (a.row == b.row && a.column < b.column)
}

/// A pending selection after a drag: from `start` to `end`, with its head at
/// `start` when reversed.
#[derive(Clone, Copy, PartialEq, Eq, Structural, Debug)]
pub struct DragSpan {
    /// Where the selection starts.
    pub start: Point,
    /// Where it ends.
    pub end: Point,
    /// Whether the head is at the start.
    pub reversed: bool,
}

/// The pending selection between a dragged `head` and its `tail`: reversed
/// when the head comes first.
pub fn order_drag(head: Point, tail: Point) -> (r: DragSpan)
    ensures
        r == if point_lt(head, tail) {
            DragSpan { start: head, end: tail, reversed: true }
        } else {
            DragSpan { start: tail, end: head, reversed: false }
        },
{
    if point_less(head, tail) {
        DragSpan { start: head, end: tail, reversed: true }
    } else {
        DragSpan { start: tail, end: head, reversed: false }
    }
}

/// The head and tail, as offsets, of a selection by word dragged to
/// `offset`: when the offset is inside a word, or inside the word first
/// selected (`original`), the head goes to the start of the word around the
/// offset (`word`) when that lies before the original word and to its end
/// otherwise; elsewhere the head is the offset. The tail is the far end of
/// the original word.
pub open spec fn word_drag(offset: usize, original: (usize, usize), inside_word: bool, word: (usize, usize)) -> (
    usize,
    usize,
) {
    let head = if inside_word || (original.0 <= offset && offset < original.1) {
        if word.0 < original.0 {
            word.0
        } else {
            word.1
        }
    } else {
        offset
    };
    let tail = if head <= original.0 {
        original.1
    } else {
        original.0
    };
    (head, tail)
}

/// The head and tail, as offsets, of a selection by word dragged to
/// `offset`; `inside_word` tells whether the offset lies inside a word and
/// `word` is the word around it.
pub fn word_drag_ends(offset: usize, original: (usize, usize), inside_word: bool, word: (usize, usize)) -> (r: (
    usize,
    usize,
))
    ensures
        r == word_drag(offset, original, inside_word, word),
{
    let head = if inside_word || (original.0 <= offset && offset < original.1) {
        if word.0 < original.0 {
            word.0
        } else {
            word.1
        }
    } else {
        offset
    };
    let tail = if head <= original.0 {
        original.1
    } else {
        original.0
    };
    (head, tail)
}

/// The head and tail of a selection by line dragged to a row that starts at
/// `line_start` and is followed by `next_line_start`: the head goes to the
/// start of the row when that lies before the lines first selected
/// (`original`), and to the start of the next row otherwise; the tail is
/// the far end of the original lines.
pub open spec fn line_drag(original: (Point, Point), line_start: Point, next_line_start: Point) -> (Point, Point) {
    let head = if point_lt(line_start, original.0) {
        line_start
    } else {
        next_line_start
    };
    let tail = if !point_lt(original.0, head) {
        original.1
    } else {
        original.0
    };
    (head, tail)
}

/// The head and tail of a selection by line dragged to a row.
pub fn line_drag_ends(original: (Point, Point), line_start: Point, next_line_start: Point) -> (r: (Point, Point))
    ensures
        r == line_drag(original, line_start, next_line_start),
{
    let head = if point_less(line_start, original.0) {
        line_start
    } else {
        next_line_start
    };
    let tail = if !point_less(original.0, head) {
        original.1
    } else {
        original.0
    };
    (head, tail)
}

} // verus!
