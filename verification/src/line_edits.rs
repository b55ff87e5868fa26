//! Edits that work on whole rows: outdenting the rows of the selections,
//! grouping the rows that deleting lines removes, and the rows that new
//! lines above or below the cursors land on.
use vstd::prelude::*;

use crate::join::{ranges_apart, removed_rows};
use crate::newline::{IndentKind, IndentSize};
use crate::tab::Point;

verus! {

/// A deletion of the columns `[start, end)` of `row`.
#[derive(Clone, Copy, PartialEq, Eq, Structural, Debug)]
pub struct RowDeletion {
    /// The row.
    pub row: u32,
    /// The first column deleted.
    pub start: u32,
    /// The column after the last one deleted.
    pub end: u32,
}

/// What outdenting needs to know about one selection.
pub struct OutdentInput {
    /// The rows `[start, end)` the selection spans.
    pub rows: (u32, u32),
    /// The column at which the selection starts.
    pub start_column: u32,
    /// The width of a tab stop.
    pub tab_size: u32,
    /// The indentation of each spanned row, first row first.
    pub indents: Vec<IndentSize>,
}

/// How many columns outdenting removes from an indentation: back to the
/// previous tab stop, or a whole tab stop when already on one, or one tab.
pub open spec fn outdent_len(indent: IndentSize, tab_size: u32) -> u32 {
    match indent.kind {
        IndentKind::Space => if indent.len % tab_size == 0 {
            tab_size
        } else {
            (indent.len % tab_size) as u32
        },
        IndentKind::Tab => 1,
    }
}

/// The deletion that outdents `row`, whose indentation is `indent`: from
/// column 0 when several rows are outdented or the selection does not start
/// inside the indentation far enough, else ending at the selection's start.
pub open spec fn row_outdent(inp: OutdentInput, multi: bool, row: int, indent: IndentSize) -> RowDeletion {
    let del = outdent_len(indent, inp.tab_size);
    let start = if multi || del > inp.start_column || indent.len < inp.start_column {
        0
    } else {
        (inp.start_column - del) as u32
    };
    RowDeletion { row: row as u32, start, end: (start + del) as u32 }
}

/// The deletions for the rows from `row` to the end of the selection's rows
/// that have an indentation.
pub open spec fn outdent_from(inp: OutdentInput, multi: bool, row: int) -> Seq<RowDeletion>
    decreases inp.rows.1 - row,
{
    if row >= inp.rows.1 {
        Seq::empty()
    } else {
        let indent = inp.indents@[row - inp.rows.0];
        let rest = outdent_from(inp, multi, row + 1);
        if indent.len > 0 {
            seq![row_outdent(inp, multi, row, indent)] + rest
        } else {
            rest
        }
    }
}

/// The last row from `row` on that has an indentation, or `last` when none.
pub open spec fn last_outdented(inp: OutdentInput, row: int, last: Option<u32>) -> Option<u32>
    decreases inp.rows.1 - row,
{
    if row >= inp.rows.1 {
        last
    } else {
        let indent = inp.indents@[row - inp.rows.0];
        last_outdented(inp, row + 1, if indent.len > 0 { Some(row as u32) } else { last })
    }
}

/// The first row a selection outdents: its first row, unless the previous
/// selection already outdented it.
pub open spec fn outdent_start(inp: OutdentInput, last: Option<u32>) -> int {
    if last == Some(inp.rows.0) {
        inp.rows.0 + 1
    } else {
        inp.rows.0 as int
    }
}

/// The deletions that outdent the selections, in order, and the last row
/// outdented.
pub open spec fn outdent_run(inputs: Seq<OutdentInput>) -> (Seq<RowDeletion>, Option<u32>)
    decreases inputs.len(),
{
    if inputs.len() == 0 {
        (Seq::empty(), None)
    } else {
        let (dels, last) = outdent_run(inputs.drop_last());
        let inp = inputs.last();
        let start = outdent_start(inp, last);
        let multi = inp.rows.1 - start > 1;
        (dels + outdent_from(inp, multi, start), last_outdented(inp, start, last))
    }
}

/// The selection spans its rows, whose indentations are given, and the tab
/// stop is positive.
pub open spec fn outdent_input_ok(inp: OutdentInput) -> bool {
    &&& inp.rows.0 <= inp.rows.1
    &&& inp.indents@.len() == inp.rows.1 - inp.rows.0
    &&& inp.tab_size > 0
}

fn outdent_len_of(indent: IndentSize, tab_size: u32) -> (r: u32)
    requires
        tab_size > 0,
        indent.len > 0,
    ensures
        r == outdent_len(indent, tab_size),
        r <= indent.len,
{
    match indent.kind {
        IndentKind::Space => {
            let rem = indent.len % tab_size;
            let len = indent.len;
            assert(len % tab_size <= len) by (nonlinear_arith)
                requires
                    tab_size > 0,
            ;
            if rem == 0 {
                assert(len >= tab_size) by (nonlinear_arith)
                    requires
                        len % tab_size == 0,
                        len > 0,
                        tab_size > 0,
                ;
                tab_size
            } else {
                rem
            }
        },
        IndentKind::Tab => 1,
    }
}

/// The deletions that outdent the rows of each selection by one level, in
/// order; a row already outdented by the previous selection is not outdented
/// again.
pub fn outdent_ranges(inputs: &Vec<OutdentInput>) -> (r: Vec<RowDeletion>)
    requires
        forall|i: int| 0 <= i < inputs@.len() ==> outdent_input_ok(#[trigger] inputs@[i]),
    ensures
        r@ == outdent_run(inputs@).0,
{
    let mut dels: Vec<RowDeletion> = Vec::new();
    let mut last: Option<u32> = None;
    let mut i: usize = 0;
    while i < inputs.len()
        invariant
            i <= inputs@.len(),
            forall|k: int| 0 <= k < inputs@.len() ==> outdent_input_ok(#[trigger] inputs@[k]),
            (dels@, last) == outdent_run(inputs@.take(i as int)),
        decreases inputs@.len() - i,
    {
        let inp = &inputs[i];
        assert(outdent_input_ok(inputs@[i as int]));
        assert(inputs@.take(i as int + 1).drop_last() =~= inputs@.take(i as int));
        assert(inputs@.take(i as int + 1).last() == inputs@[i as int]);
        let ghost last0 = last;
        let ghost dels0 = dels@;
        let mut start: u32 = inp.rows.0;
        if let Some(l) = last {
            if l == inp.rows.0 && inp.rows.0 < inp.rows.1 {
                start = start + 1;
            }
        }
        let ghost spec_start = outdent_start(*inp, last0);
        proof {
            if last0 == Some(inp.rows.0) && inp.rows.0 >= inp.rows.1 {
                assert(outdent_from(*inp, inp.rows.1 - spec_start > 1, spec_start) =~= Seq::<RowDeletion>::empty());
            }
        }
        let multi = inp.rows.1 > start && inp.rows.1 - start > 1;
        let mut row: u32 = start;
        let ghost multi_spec = inp.rows.1 - spec_start > 1;
        assert(multi == multi_spec);
        let ghost full = outdent_from(*inp, multi_spec, spec_start);
        let ghost final_last = last_outdented(*inp, spec_start, last0);
        proof {
            if spec_start > start {
                assert(spec_start >= inp.rows.1);
            }
        }
        while row < inp.rows.1
            invariant
                outdent_input_ok(*inp),
                start <= row || row >= inp.rows.1,
                inp.rows.0 <= start,
                spec_start >= inp.rows.1 ==> row >= inp.rows.1,
                spec_start < inp.rows.1 ==> spec_start == start,
                full == outdent_from(*inp, multi, spec_start),
                final_last == last_outdented(*inp, spec_start, last0),
                dels0 + full == dels@ + outdent_from(*inp, multi, row as int),
                final_last == last_outdented(*inp, row as int, last),
            decreases inp.rows.1 - row,
        {
            let indent = inp.indents[(row - inp.rows.0) as usize];
            let ghost rest = outdent_from(*inp, multi, row as int + 1);
            if indent.len > 0 {
                let del = outdent_len_of(indent, inp.tab_size);
                let s: u32 = if multi || del > inp.start_column || indent.len < inp.start_column {
                    0
                } else {
                    inp.start_column - del
                };
                dels.push(RowDeletion { row, start: s, end: s + del });
                last = Some(row);
                assert(dels0 + full =~= dels@ + rest);
            }
            row = row + 1;
        }
        proof {
            assert(outdent_from(*inp, multi, row as int) =~= Seq::<RowDeletion>::empty());
            assert(dels@ =~= dels0 + full);
        }
        i = i + 1;
    }
    assert(inputs@.take(i as int) =~= inputs@);
    dels
}

/// The groups of selections whose row ranges `[start, end)` touch, in
/// order: each with the index of its first selection and the rows it
/// spans, from the first selection's start to the last one's end.
pub open spec fn line_groups(rows: Seq<(u32, u32)>) -> Seq<(usize, (u32, u32))>
    decreases rows.len(),
{
    if rows.len() == 0 {
        Seq::empty()
    } else {
        let prev = line_groups(rows.drop_last());
        let r = rows.last();
        if prev.len() > 0 && r.0 <= prev.last().1.1 {
            prev.update(prev.len() - 1, (prev.last().0, (prev.last().1.0, r.1)))
        } else {
            prev.push(((rows.len() - 1) as usize, r))
        }
    }
}

/// The groups of selections whose rows touch, each with its first
/// selection and its rows: deleting lines removes each group's rows and
/// puts one cursor for it.
pub fn delete_line_groups(rows: &Vec<(u32, u32)>) -> (r: Vec<(usize, (u32, u32))>)
    ensures
        r@ == line_groups(rows@),
{
    let mut groups: Vec<(usize, (u32, u32))> = Vec::new();
    let mut i: usize = 0;
    while i < rows.len()
        invariant
            i <= rows@.len(),
            groups@ == line_groups(rows@.take(i as int)),
        decreases rows@.len() - i,
    {
        let r = rows[i];
        assert(rows@.take(i as int + 1).drop_last() =~= rows@.take(i as int));
        let n = groups.len();
        if n > 0 && r.0 <= groups[n - 1].1.1 {
            let first = groups[n - 1].0;
            let start = groups[n - 1].1.0;
            groups.set(n - 1, (first, (start, r.1)));
        } else {
            groups.push((i, r));
        }
        i = i + 1;
    }
    assert(rows@.take(i as int) =~= rows@);
    groups
}

/// What deleting the rows `[start, end)` does, where `max_row` is the last
/// row of the buffer.
#[derive(Clone, Copy, PartialEq, Eq, Structural, Debug)]
pub struct LineDeletion {
    /// The rows deleted start here.
    pub start_row: u32,
    /// Whether the deletion runs to the start of `end` (a row follows) or
    /// to the end of the buffer, taking the line break before `start_row`.
    pub to_next_row: bool,
    /// The row the cursor moves to.
    pub target_row: u32,
}

/// Deleting rows `[start, end)`: up to the start of `end` when the buffer
/// has that row, the cursor going there; else to the end of the buffer,
/// with the line break before, the cursor going to the row before.
pub fn delete_rows(rows: (u32, u32), max_row: u32) -> (r: LineDeletion)
    ensures
        r.start_row == rows.0,
        r.to_next_row == (max_row >= rows.1),
        r.target_row == if max_row >= rows.1 {
            rows.1
        } else if rows.0 > 0 {
            (rows.0 - 1) as u32
        } else {
            0
        },
{
    if max_row >= rows.1 {
        LineDeletion { start_row: rows.0, to_next_row: true, target_row: rows.1 }
    } else {
        LineDeletion { start_row: rows.0, to_next_row: false, target_row: rows.0.saturating_sub(1) }
    }
}

/// Where the cursor of a group lands once its rows `[start, end)` are
/// deleted, in the text after the deletion, `removed` rows having gone
/// before it: on the row that followed the group, now at the group's first
/// row, or on the row before the group when none followed; at the goal
/// column, clipped to that row's length `target_line_len`. Deleting every
/// row of the buffer leaves the cursor at its start.
pub open spec fn delete_line_cursor_of(
    rows: (u32, u32),
    max_row: u32,
    goal_column: u32,
    target_line_len: u32,
    removed: int,
) -> Point {
    let column = if goal_column <= target_line_len { goal_column } else { target_line_len };
    if max_row >= rows.1 {
        Point { row: (rows.0 - removed) as u32, column }
    } else if rows.0 > 0 {
        Point { row: (rows.0 - 1 - removed) as u32, column }
    } else {
        Point { row: 0, column: 0 }
    }
}

/// The cursors after deleting the lines of each group of `rows` (from
/// [`delete_line_groups`]), one per group: `goal_columns[k]` is the column
/// the group's first cursor keeps to, `target_line_lens[k]` the length of
/// the row it moves to (see [`delete_rows`]), and `max_row` the buffer's
/// last row.
pub fn delete_line_cursors(
    rows: &Vec<(u32, u32)>,
    max_row: u32,
    goal_columns: &Vec<u32>,
    target_line_lens: &Vec<u32>,
) -> (r: Vec<Point>)
    requires
        ranges_apart(rows@),
        forall|k: int| 0 <= k < rows@.len() ==> (#[trigger] rows@[k]).0 < rows@[k].1,
        goal_columns@.len() == rows@.len(),
        target_line_lens@.len() == rows@.len(),
    ensures
        r@.len() == rows@.len(),
        forall|k: int|
            0 <= k < rows@.len() ==> #[trigger] r@[k] == delete_line_cursor_of(
                rows@[k],
                max_row,
                goal_columns@[k],
                target_line_lens@[k],
                removed_rows(rows@, k),
            ),
{
    let mut r: Vec<Point> = Vec::new();
    let mut removed: u32 = 0;
    let mut k: usize = 0;
    while k < rows.len()
        invariant
            k <= rows@.len(),
            ranges_apart(rows@),
            forall|i: int| 0 <= i < rows@.len() ==> (#[trigger] rows@[i]).0 < rows@[i].1,
            goal_columns@.len() == rows@.len(),
            target_line_lens@.len() == rows@.len(),
            r@.len() == k,
            removed == removed_rows(rows@, k as int),
            k > 0 ==> removed <= rows@[k - 1].1,
            k == 0 ==> removed == 0,
            forall|i: int|
                0 <= i < k ==> #[trigger] r@[i] == delete_line_cursor_of(
                    rows@[i],
                    max_row,
                    goal_columns@[i],
                    target_line_lens@[i],
                    removed_rows(rows@, i),
                ),
        decreases rows@.len() - k,
    {
        let (start, end) = rows[k];
        assert(rows@[k as int].0 < rows@[k as int].1);
        if k > 0 {
            assert(rows@[k - 1].1 < rows@[k as int].0);
        }
        let goal = goal_columns[k];
        let len = target_line_lens[k];
        let column = if goal <= len {
            goal
        } else {
            len
        };
        let p = if max_row >= end {
            Point { row: start - removed, column }
        } else if start > 0 {
            Point { row: start - 1 - removed, column }
        } else {
            Point { row: 0, column: 0 }
        };
        r.push(p);
        removed = removed + (end - start);
        k = k + 1;
    }
    r
}

/// The rows the cursors land on after a new line is inserted above each:
/// the `i`th cursor's row moves down by the `i` lines inserted above it.
pub fn newline_above_rows(cursor_rows: &Vec<u32>) -> (r: Vec<u32>)
    requires
        forall|i: int| 0 <= i < cursor_rows@.len() ==> cursor_rows@[i] + i <= u32::MAX,
    ensures
        r@.len() == cursor_rows@.len(),
        forall|i: int| 0 <= i < r@.len() ==> r@[i] == cursor_rows@[i] + i,
{
    let mut r: Vec<u32> = Vec::new();
    let mut i: usize = 0;
    while i < cursor_rows.len()
        invariant
            i <= cursor_rows@.len(),
            forall|k: int| 0 <= k < cursor_rows@.len() ==> cursor_rows@[k] + k <= u32::MAX,
            r@.len() == i,
            forall|k: int| 0 <= k < i ==> r@[k] == cursor_rows@[k] + k,
        decreases cursor_rows@.len() - i,
    {
        let row = cursor_rows[i];
        r.push(row + i as u32);
        i = i + 1;
    }
    r
}

/// The rows the cursors land on after a new line is inserted below each
/// cursor that lies in a buffer (`None` marks one that does not): each
/// such cursor's row moves down by the number of lines inserted up to and
/// including its own.
pub open spec fn rows_below(cursor_rows: Seq<Option<u32>>) -> Seq<int>
    decreases cursor_rows.len(),
{
    if cursor_rows.len() == 0 {
        Seq::empty()
    } else {
        let prev = rows_below(cursor_rows.drop_last());
        match cursor_rows.last() {
            Some(row) => prev.push(row + prev.len() + 1),
            None => prev,
        }
    }
}

/// The rows the cursors land on after a new line is inserted below each
/// cursor that lies in a buffer.
pub fn newline_below_rows(cursor_rows: &Vec<Option<u32>>) -> (r: Vec<u32>)
    requires
        forall|i: int| 0 <= i < cursor_rows@.len() && cursor_rows@[i] is Some ==> cursor_rows@[i]->0 + i + 1 <= u32::MAX,
    ensures
        r@.len() == rows_below(cursor_rows@).len(),
        forall|i: int| 0 <= i < r@.len() ==> r@[i] == rows_below(cursor_rows@)[i],
{
    let mut r: Vec<u32> = Vec::new();
    let mut inserted: u32 = 0;
    let mut i: usize = 0;
    while i < cursor_rows.len()
        invariant
            i <= cursor_rows@.len(),
            forall|k: int| 0 <= k < cursor_rows@.len() && cursor_rows@[k] is Some ==> cursor_rows@[k]->0 + k + 1 <= u32::MAX,
            inserted == r@.len(),
            inserted <= i,
            r@.len() == rows_below(cursor_rows@.take(i as int)).len(),
            forall|k: int| 0 <= k < r@.len() ==> r@[k] == rows_below(cursor_rows@.take(i as int))[k],
        decreases cursor_rows@.len() - i,
    {
        assert(cursor_rows@.take(i as int + 1).drop_last() =~= cursor_rows@.take(i as int));
        if let Some(row) = cursor_rows[i] {
            inserted = inserted + 1;
            r.push(row + inserted);
        }
        i = i + 1;
    }
    assert(cursor_rows@.take(i as int) =~= cursor_rows@);
    r
}


/// The new line that opening a line above or below a cursor makes: where
/// the line break goes in the text before the edit, the indentation the new
/// line is given, and where the cursor lands in the text after it.
#[derive(Clone, Debug)]
pub struct OpenedLine {
    /// Where the line break is inserted, in the text before the edit.
    pub break_at: Point,
    /// The indentation inserted at the start of the new line.
    pub indent: Vec<char>,
    /// The cursor on the new line, after its indentation.
    pub cursor: Point,
}

/// The lines opened above the cursors on `cursor_rows`, in order, each
/// given its suggested indentation `indents[i]`: a line break at the start
/// of the cursor's row, so the new empty line takes that row, moved down by
/// the `i` lines opened above it; the cursor at the end of the new line's
/// indentation.
pub fn newline_above_lines(cursor_rows: &Vec<u32>, indents: &Vec<IndentSize>) -> (r: Vec<OpenedLine>)
    requires
        indents@.len() == cursor_rows@.len(),
        forall|i: int| 0 <= i < cursor_rows@.len() ==> cursor_rows@[i] + i <= u32::MAX,
    ensures
        r@.len() == cursor_rows@.len(),
        forall|i: int|
            0 <= i < r@.len() ==> {
                &&& (#[trigger] r@[i]).break_at == (Point { row: cursor_rows@[i], column: 0 })
                &&& r@[i].indent@ == indents@[i].spec_chars()
                &&& r@[i].cursor == (Point { row: (cursor_rows@[i] + i) as u32, column: indents@[i].len })
            },
{
    let rows = newline_above_rows(cursor_rows);
    let mut r: Vec<OpenedLine> = Vec::new();
    let mut i: usize = 0;
    while i < cursor_rows.len()
        invariant
            i <= cursor_rows@.len(),
            indents@.len() == cursor_rows@.len(),
            rows@.len() == cursor_rows@.len(),
            forall|k: int| 0 <= k < rows@.len() ==> rows@[k] == cursor_rows@[k] + k,
            r@.len() == i,
            forall|k: int|
                0 <= k < i ==> {
                    &&& (#[trigger] r@[k]).break_at == (Point { row: cursor_rows@[k], column: 0 })
                    &&& r@[k].indent@ == indents@[k].spec_chars()
                    &&& r@[k].cursor == (Point { row: (cursor_rows@[k] + k) as u32, column: indents@[k].len })
                },
        decreases cursor_rows@.len() - i,
    {
        let ind = indents[i];
        let line = OpenedLine {
            break_at: Point { row: cursor_rows[i], column: 0 },
            indent: ind.chars(),
            cursor: Point { row: rows[i], column: ind.len },
        };
        r.push(line);
        i = i + 1;
    }
    r
}

/// Where the line break below a cursor on `row` goes: at the start of the
/// next row, or at the end of the buffer (its last row `max_row`, of length
/// `last_line_len`) when the cursor is on the last row.
pub open spec fn break_below(row: u32, max_row: u32, last_line_len: u32) -> Point {
    if row < max_row {
        Point { row: (row + 1) as u32, column: 0 }
    } else {
        Point { row: max_row, column: last_line_len }
    }
}

proof fn lemma_rows_below_past_inserted(cursor_rows: Seq<Option<u32>>)
    ensures
        forall|k: int|
            0 <= k < rows_below(cursor_rows).len() ==> #[trigger] rows_below(cursor_rows)[k] >= k + 1,
    decreases cursor_rows.len(),
{
    if cursor_rows.len() > 0 {
        let prev = rows_below(cursor_rows.drop_last());
        lemma_rows_below_past_inserted(cursor_rows.drop_last());
        match cursor_rows.last() {
            Some(row) => {
                let cur = prev.push(row + prev.len() + 1);
                assert(rows_below(cursor_rows) == cur);
                assert forall|k: int| 0 <= k < cur.len() implies #[trigger] cur[k] >= k + 1 by {
                    if k < prev.len() {
                        assert(cur[k] == prev[k]);
                    }
                }
            },
            None => {
                assert(rows_below(cursor_rows) == prev);
            },
        }
    }
}

/// The lines opened below the cursors that lie in a buffer (`None` marks
/// one that does not and opens nothing), in order, the `i`th opened line
/// getting its suggested indentation `indents[i]`: a line break at the end
/// of the cursor's row, so the new line follows it, moved down by the lines
/// opened up to and including its own; the cursor at the end of the new
/// line's indentation.
pub fn newline_below_lines(
    cursor_rows: &Vec<Option<u32>>,
    max_row: u32,
    last_line_len: u32,
    indents: &Vec<IndentSize>,
) -> (r: Vec<OpenedLine>)
    requires
        indents@.len() == rows_below(cursor_rows@).len(),
        forall|i: int|
            0 <= i < cursor_rows@.len() && cursor_rows@[i] is Some ==> cursor_rows@[i]->0 + i + 1 <= u32::MAX,
    ensures
        r@.len() == rows_below(cursor_rows@).len(),
        forall|i: int|
            0 <= i < r@.len() ==> {
                &&& (#[trigger] r@[i]).break_at == break_below(
                    (rows_below(cursor_rows@)[i] - i - 1) as u32,
                    max_row,
                    last_line_len,
                )
                &&& r@[i].indent@ == indents@[i].spec_chars()
                &&& r@[i].cursor == (Point { row: rows_below(cursor_rows@)[i] as u32, column: indents@[i].len })
            },
{
    let rows = newline_below_rows(cursor_rows);
    proof {
        lemma_rows_below_past_inserted(cursor_rows@);
    }
    let mut r: Vec<OpenedLine> = Vec::new();
    let mut i: usize = 0;
    while i < rows.len()
        invariant
            i <= rows@.len(),
            indents@.len() == rows@.len(),
            rows@.len() == rows_below(cursor_rows@).len(),
            forall|k: int| 0 <= k < rows@.len() ==> rows@[k] == rows_below(cursor_rows@)[k],
            forall|k: int| 0 <= k < rows@.len() ==> rows@[k] >= k + 1,
            r@.len() == i,
            forall|k: int|
                0 <= k < i ==> {
                    &&& (#[trigger] r@[k]).break_at == break_below(
                        (rows_below(cursor_rows@)[k] - k - 1) as u32,
                        max_row,
                        last_line_len,
                    )
                    &&& r@[k].indent@ == indents@[k].spec_chars()
                    &&& r@[k].cursor == (Point { row: rows_below(cursor_rows@)[k] as u32, column: indents@[k].len })
                },
        decreases rows@.len() - i,
    {
        let ind = indents[i];
        let row = rows[i] - i as u32 - 1;
        let break_at = if row < max_row {
            Point { row: row + 1, column: 0 }
        } else {
            Point { row: max_row, column: last_line_len }
        };
        let line = OpenedLine { break_at, indent: ind.chars(), cursor: Point { row: rows[i], column: ind.len } };
        r.push(line);
        i = i + 1;
    }
    r
}

} // verus!
