//! What the Tab key does to each selection: indent the selected rows, snap
//! a cursor to the suggested indentation, or insert a hard or soft tab.
use vstd::prelude::*;

use crate::editor_state::EditorMode;
use crate::newline::{IndentKind, IndentSize};

verus! {

/// A position in a buffer: a row and a column, both counted from zero.
#[derive(Clone, Copy, PartialEq, Eq, Structural, Debug)]
pub struct Point {
    /// The row.
    pub row: u32,
    /// The column, in bytes from the start of the row.
    pub column: u32,
}

/// A selection from `start` to `end`; it is a cursor when both are equal.
#[derive(Clone, Copy, PartialEq, Eq, Structural, Debug)]
pub struct Selection {
    /// Where the selection starts.
    pub start: Point,
    /// Where the selection ends.
    pub end: Point,
}

/// An edit that Tab asks of the buffer.
#[derive(Clone, Copy, PartialEq, Eq, Structural, Debug)]
pub enum IndentEdit {
    /// Insert the indentation `indent` at `at`.
    Insert { at: Point, indent: IndentSize },
    /// Change the indentation of `row` from `from` to `to`.
    Adjust { row: u32, from: IndentSize, to: IndentSize },
}

/// One hard tab.
pub open spec fn hard_tab() -> IndentSize {
    IndentSize { len: 1, kind: IndentKind::Tab }
}

/// How far one level of indentation moves a row whose indentation is
/// `current`.
pub open spec fn indent_delta(current: IndentSize, tab_size: u32, hard_tabs: bool) -> IndentSize
    recommends
        tab_size > 0,
{
    if hard_tabs {
        hard_tab()
    } else {
        match current.kind {
            IndentKind::Space => IndentSize {
                len: (tab_size - current.len % tab_size) as u32,
                kind: IndentKind::Space,
            },
            IndentKind::Tab => IndentSize { len: tab_size, kind: IndentKind::Space },
        }
    }
}

/// How far one level of indentation moves a row whose indentation is
/// `current`: to the next tab stop with spaces, a full tab's width of spaces
/// after a tab, or one tab.
pub fn indent_delta_for(current: IndentSize, tab_size: u32, hard_tabs: bool) -> (r: IndentSize)
    requires
        tab_size > 0,
    ensures
        r == indent_delta(current, tab_size, hard_tabs),
        1 <= r.len <= tab_size,
{
    if hard_tabs {
        IndentSize { len: 1, kind: IndentKind::Tab }
    } else {
        match current.kind {
            IndentKind::Space => IndentSize::spaces(tab_size - current.len % tab_size),
            IndentKind::Tab => IndentSize::spaces(tab_size),
        }
    }
}

/// The column within a tab stop reached after `s`, counting from `start`:
/// a tab resets it, any other character advances it by one.
pub open spec fn tab_fold(s: Seq<char>, start: nat, tab_size: nat) -> nat
    decreases s.len(),
{
    if s.len() == 0 {
        start
    } else if s.last() == '\t' {
        0
    } else {
        (tab_fold(s.drop_last(), start, tab_size) + 1) % tab_size
    }
}

/// The number of spaces that reach the next tab stop after `prefix`, the
/// text of the row before the cursor, when `row_delta` columns were already
/// inserted before it on the same row.
pub fn soft_tab_width(prefix: &Vec<char>, row_delta: u32, tab_size: u32) -> (r: u32)
    requires
        tab_size > 0,
    ensures
        r == tab_size - tab_fold(prefix@, (row_delta % tab_size) as nat, tab_size as nat),
        1 <= r <= tab_size,
{
    let mut counter: u32 = row_delta % tab_size;
    let mut i: usize = 0;
    while i < prefix.len()
        invariant
            i <= prefix@.len(),
            tab_size > 0,
            counter < tab_size,
            counter == tab_fold(prefix@.take(i as int), (row_delta % tab_size) as nat, tab_size as nat),
        decreases prefix@.len() - i,
    {
        let c = prefix[i];
        assert(prefix@.take(i as int + 1).drop_last() =~= prefix@.take(i as int));
        if c == '\t' {
            counter = 0;
        } else {
            counter = (counter + 1) % tab_size;
        }
        i = i + 1;
    }
    assert(prefix@.take(i as int) =~= prefix@);
    tab_size - counter
}

/// The rows `[start, end)` that indenting `sel` touches, when `delta`
/// columns were already inserted on its first row by an earlier selection.
pub open spec fn indented_rows(sel: Selection, delta: u32) -> (int, int) {
    let end = if sel.end.column == 0 && sel.end.row > sel.start.row {
        sel.end.row as int
    } else {
        sel.end.row + 1
    };
    let start = if delta > 0 {
        sel.start.row + 1
    } else {
        sel.start.row as int
    };
    (start, end)
}

/// The indentation of `row`, where `indents` lists those of the rows of `sel`.
pub open spec fn row_indent(sel: Selection, indents: Seq<IndentSize>, row: int) -> IndentSize {
    indents[row - sel.start.row]
}

/// The insertions that indent `sel`: one per touched row, at column 0 when
/// several rows are touched or the row's indentation is left of the
/// selection's start, else at the selection's start.
pub open spec fn indent_selection_edits(
    sel: Selection,
    delta: u32,
    indents: Seq<IndentSize>,
    tab_size: u32,
    hard_tabs: bool,
) -> Seq<IndentEdit> {
    let (s, e) = indented_rows(sel, delta);
    let multi = s + 1 != e;
    let col0 = sel.start.column + delta;
    Seq::new(
        if e > s { (e - s) as nat } else { 0 },
        |k: int|
            {
                let ind = row_indent(sel, indents, s + k);
                IndentEdit::Insert {
                    at: Point {
                        row: (s + k) as u32,
                        column: if multi || ind.len < col0 { 0 } else { col0 as u32 },
                    },
                    indent: indent_delta(ind, tab_size, hard_tabs),
                }
            },
    )
}

/// How far the last row of `sel` moves when it is indented.
pub open spec fn end_row_shift(
    sel: Selection,
    delta: u32,
    indents: Seq<IndentSize>,
    tab_size: u32,
    hard_tabs: bool,
) -> nat {
    let (s, e) = indented_rows(sel, delta);
    if s <= sel.end.row < e {
        indent_delta(row_indent(sel, indents, sel.end.row as int), tab_size, hard_tabs).len as nat
    } else {
        0
    }
}

/// `sel` after its rows are indented.
pub open spec fn indented_selection(
    sel: Selection,
    delta: u32,
    indents: Seq<IndentSize>,
    tab_size: u32,
    hard_tabs: bool,
) -> Selection {
    let start_shift = if delta == 0 {
        indent_delta(row_indent(sel, indents, sel.start.row as int), tab_size, hard_tabs).len as int
    } else {
        0
    };
    let end_shift = (if sel.end.row == sel.start.row { delta as int } else { 0 }) + end_row_shift(
        sel,
        delta,
        indents,
        tab_size,
        hard_tabs,
    );
    Selection {
        start: Point { row: sel.start.row, column: (sel.start.column + delta + start_shift) as u32 },
        end: Point { row: sel.end.row, column: (sel.end.column + end_shift) as u32 },
    }
}

/// The columns inserted on the last row of `sel`, as the next selection on
/// that row must see them.
pub open spec fn indent_selection_delta(
    sel: Selection,
    delta: u32,
    indents: Seq<IndentSize>,
    tab_size: u32,
    hard_tabs: bool,
) -> nat {
    if sel.start.row == sel.end.row {
        delta as nat + end_row_shift(sel, delta, indents, tab_size, hard_tabs)
    } else {
        end_row_shift(sel, delta, indents, tab_size, hard_tabs)
    }
}

/// The conditions under which a selection can be indented: it runs forward,
/// `indents` lists the indentation of each of its rows, and no column
/// overflows.
pub open spec fn indentable(sel: Selection, delta: u32, indents: Seq<IndentSize>, tab_size: u32) -> bool {
    &&& sel.start.row <= sel.end.row
    &&& sel.end.row < u32::MAX
    &&& indents.len() == sel.end.row - sel.start.row + 1
    &&& tab_size > 0
    &&& sel.start.column + delta + tab_size <= u32::MAX
    &&& sel.end.column + delta + tab_size <= u32::MAX
}

/// Indents every row of `sel` by one level, appends the insertions to
/// `edits`, moves `sel` with the inserted text and returns the number of
/// columns inserted on its last row. `delta` columns were inserted on its
/// first row by an earlier selection, which already indented that row.
pub fn indent_selection(
    sel: &mut Selection,
    edits: &mut Vec<IndentEdit>,
    delta: u32,
    indents: &Vec<IndentSize>,
    tab_size: u32,
    hard_tabs: bool,
) -> (r: u32)
    requires
        indentable(*old(sel), delta, indents@, tab_size),
    ensures
        final(edits)@ == old(edits)@ + indent_selection_edits(*old(sel), delta, indents@, tab_size, hard_tabs),
        *final(sel) == indented_selection(*old(sel), delta, indents@, tab_size, hard_tabs),
        r == indent_selection_delta(*old(sel), delta, indents@, tab_size, hard_tabs),
{
    let ghost sel0 = *sel;
    let ghost edits0 = edits@;
    let first_row = sel.start.row;
    let mut start_row: u32 = sel.start.row;
    let mut end_row: u32 = sel.end.row + 1;
    if sel.end.column == 0 && sel.end.row > sel.start.row {
        end_row = end_row - 1;
    }
    if delta > 0 {
        start_row = start_row + 1;
        sel.start.column = sel.start.column + delta;
        if sel.end.row == sel.start.row {
            sel.end.column = sel.end.column + delta;
        }
    }
    let ghost (s, e) = indented_rows(sel0, delta);
    assert(s == start_row && e == end_row);
    let mut delta_for_end_row: u32 = 0;
    let has_multiple_rows = start_row as u64 + 1 != end_row as u64;
    let ghost target = indent_selection_edits(sel0, delta, indents@, tab_size, hard_tabs);
    let mut row: u32 = start_row;
    while row < end_row
        invariant
            indentable(sel0, delta, indents@, tab_size),
            (s, e) == indented_rows(sel0, delta),
            start_row == s,
            end_row == e,
            first_row == sel0.start.row,
            has_multiple_rows == (s + 1 != e),
            target == indent_selection_edits(sel0, delta, indents@, tab_size, hard_tabs),
            s <= row,
            row <= e || e <= s,
            e <= s ==> row == s,
            edits@ == edits0 + target.take(row - s),
            sel.start.row == sel0.start.row,
            sel.end.row == sel0.end.row,
            sel.start.column == sel0.start.column + delta + (if delta == 0 && row > sel0.start.row {
                indent_delta(row_indent(sel0, indents@, sel0.start.row as int), tab_size, hard_tabs).len as int
            } else {
                0
            }),
            sel.end.column == sel0.end.column + (if sel0.end.row == sel0.start.row { delta as int } else { 0 }) + (
            if s <= sel0.end.row < row {
                indent_delta(row_indent(sel0, indents@, sel0.end.row as int), tab_size, hard_tabs).len as int
            } else {
                0
            }),
            delta_for_end_row == (if s <= sel0.end.row < row {
                indent_delta(row_indent(sel0, indents@, sel0.end.row as int), tab_size, hard_tabs).len as int
            } else {
                0
            }),
        decreases e - row,
    {
        let current_indent = indents[(row - first_row) as usize];
        let indent = indent_delta_for(current_indent, tab_size, hard_tabs);
        let start: u32 = if has_multiple_rows || current_indent.len < sel.start.column {
            0
        } else {
            sel.start.column
        };
        proof {
            if !has_multiple_rows {
                assert(row == s);
            }
        }
        edits.push(IndentEdit::Insert { at: Point { row, column: start }, indent });
        if row == sel.start.row {
            sel.start.column = sel.start.column + indent.len;
        }
        if row == sel.end.row {
            sel.end.column = sel.end.column + indent.len;
            delta_for_end_row = indent.len;
        }
        row = row + 1;
        assert(edits@ =~= edits0 + target.take(row - s));
    }
    proof {
        if e > s {
            assert(target.take(row - s) =~= target);
        } else {
            assert(target =~= Seq::<IndentEdit>::empty());
            assert(target.take(row - s) =~= target);
        }
    }
    if sel.start.row == sel.end.row {
        delta + delta_for_end_row
    } else {
        delta_for_end_row
    }
}

/// What Tab needs to know about one selection.
pub struct TabInput {
    /// The selection.
    pub selection: Selection,
    /// The indentation of each row of the selection, its first row first.
    pub indents: Vec<IndentSize>,
    /// The indentation suggested for the row of the selection's head.
    pub suggested_indent: Option<IndentSize>,
    /// The text of the cursor's row before the cursor.
    pub line_prefix: Vec<char>,
    /// Whether Tab indents list items and the cursor's row starts with a
    /// list marker.
    pub indent_list_prefix: bool,
    /// Whether indentation uses tabs.
    pub hard_tabs: bool,
    /// The width of a tab stop.
    pub tab_size: u32,
}

/// Whether `sel` is a cursor.
pub open spec fn is_cursor(sel: Selection) -> bool {
    sel.start == sel.end
}

/// A cursor at `column` of `row`.
pub open spec fn cursor_at(row: u32, column: u32) -> Selection {
    Selection { start: Point { row, column }, end: Point { row, column } }
}

/// Whether the input is a cursor left of its row's indentation.
pub open spec fn cursor_in_whitespace(inp: TabInput) -> bool {
    is_cursor(inp.selection) && inp.selection.start.column < inp.indents@[0].len
}

/// Whether some input is a cursor left of its row's indentation.
pub open spec fn has_cursor_in_whitespace(inputs: Seq<TabInput>) -> bool {
    exists|i: int| 0 <= i < inputs.len() && #[trigger] cursor_in_whitespace(inputs[i])
}

/// The tab inserted at the cursor: a hard tab, or the spaces that reach the
/// next tab stop, counting `delta` columns already inserted on the row.
pub open spec fn tab_width(inp: TabInput, delta: u32) -> IndentSize {
    if inp.hard_tabs {
        hard_tab()
    } else {
        IndentSize {
            len: (inp.tab_size - tab_fold(
                inp.line_prefix@,
                (delta % inp.tab_size) as nat,
                inp.tab_size as nat,
            )) as u32,
            kind: IndentKind::Space,
        }
    }
}

/// What Tab does to one selection, given the columns `delta` already
/// inserted on its row and whether some cursor is left of its row's
/// indentation: the new selection, the edits, and the new `delta`.
pub open spec fn tab_step(inp: TabInput, delta: u32, any_in_whitespace: bool) -> (Selection, Seq<IndentEdit>, u32) {
    let sel = inp.selection;
    if !is_cursor(sel) || inp.indent_list_prefix {
        (
            indented_selection(sel, delta, inp.indents@, inp.tab_size, inp.hard_tabs),
            indent_selection_edits(sel, delta, inp.indents@, inp.tab_size, inp.hard_tabs),
            indent_selection_delta(sel, delta, inp.indents@, inp.tab_size, inp.hard_tabs) as u32,
        )
    } else {
        let cur = sel.start;
        let current = inp.indents@[0];
        let has = inp.suggested_indent is Some;
        let sug = inp.suggested_indent->0;
        if has && any_in_whitespace && cur.column == current.len && current.len == sug.len {
            (sel, Seq::empty(), delta)
        } else if has && cur.column < sug.len && cur.column <= current.len && current.len <= sug.len {
            if delta == 0 {
                (
                    cursor_at(cur.row, sug.len),
                    seq![IndentEdit::Adjust { row: cur.row, from: current, to: sug }],
                    (sug.len - current.len) as u32,
                )
            } else {
                (cursor_at(cur.row, sug.len), Seq::empty(), delta)
            }
        } else if has && cur.column < current.len && current.len > sug.len {
            (cursor_at(cur.row, current.len), Seq::empty(), delta)
        } else {
            let w = tab_width(inp, delta);
            (
                cursor_at(cur.row, (cur.column + delta + w.len) as u32),
                seq![IndentEdit::Insert { at: cur, indent: w }],
                (delta + w.len) as u32,
            )
        }
    }
}

/// Tab over the selections in order: the new selections, the edits, the
/// columns inserted on the last edited row, and that row. The count of
/// inserted columns starts again at zero whenever a selection starts on
/// another row than the one the previous selection ended on.
pub open spec fn tab_run(inputs: Seq<TabInput>, any_in_whitespace: bool) -> (Seq<Selection>, Seq<IndentEdit>, u32, u32)
    decreases inputs.len(),
{
    if inputs.len() == 0 {
        (Seq::empty(), Seq::empty(), 0, 0)
    } else {
        let (sels, edits, delta, prev_row) = tab_run(inputs.drop_last(), any_in_whitespace);
        let inp = inputs.last();
        let d0 = if inp.selection.start.row != prev_row { 0 } else { delta };
        let (sel, new_edits, d1) = tab_step(inp, d0, any_in_whitespace);
        (sels.push(sel), edits + new_edits, d1, inp.selection.end.row)
    }
}

/// The selection is well formed: it runs forward, its rows' indentations
/// are given, and the tab stop is positive.
pub open spec fn tab_input_ok(inp: TabInput) -> bool {
    &&& inp.selection.start.row <= inp.selection.end.row
    &&& inp.selection.end.row < u32::MAX
    &&& inp.indents@.len() == inp.selection.end.row - inp.selection.start.row + 1
    &&& inp.tab_size > 0
}

/// What one selection can add to a column: its tab stop, its suggested
/// indentation and its own columns.
pub open spec fn tab_weight(inp: TabInput) -> nat {
    inp.tab_size as nat + (if inp.suggested_indent is Some {
        inp.suggested_indent->0.len as nat
    } else {
        0
    }) + inp.selection.start.column as nat + inp.selection.end.column as nat
}

/// The weight gathered on the row being edited after the selections in
/// order, and that row: it starts again at zero whenever a selection starts
/// on another row than the one the previous selection ended on, as the
/// count of inserted columns does.
pub open spec fn row_budget(inputs: Seq<TabInput>) -> (nat, u32)
    decreases inputs.len(),
{
    if inputs.len() == 0 {
        (0, 0)
    } else {
        let (b, prev_row) = row_budget(inputs.drop_last());
        let inp = inputs.last();
        let b0 = if inp.selection.start.row != prev_row { 0 } else { b };
        (b0 + tab_weight(inp), inp.selection.end.row)
    }
}

/// No row's columns can overflow: on every row the weights of the
/// selections that edit it in turn stay within `u32`.
pub open spec fn rows_fit(inputs: Seq<TabInput>) -> bool {
    forall|i: int| 1 <= i <= inputs.len() ==> #[trigger] row_budget(inputs.take(i)).0 <= u32::MAX
}

/// Whether some input is a cursor left of its row's indentation.
pub fn any_cursor_in_whitespace(inputs: &Vec<TabInput>) -> (r: bool)
    requires
        forall|i: int| 0 <= i < inputs@.len() ==> tab_input_ok(#[trigger] inputs@[i]),
    ensures
        r == has_cursor_in_whitespace(inputs@),
{
    let mut i: usize = 0;
    while i < inputs.len()
        invariant
            i <= inputs@.len(),
            forall|k: int| 0 <= k < inputs@.len() ==> tab_input_ok(#[trigger] inputs@[k]),
            forall|k: int| 0 <= k < i ==> !cursor_in_whitespace(#[trigger] inputs@[k]),
        decreases inputs@.len() - i,
    {
        let inp = &inputs[i];
        assert(tab_input_ok(inputs@[i as int]));
        if inp.selection.start == inp.selection.end && inp.selection.start.column < inp.indents[0].len {
            assert(cursor_in_whitespace(inputs@[i as int]));
            return true;
        }
        i = i + 1;
    }
    false
}

/// What Tab does to one selection; appends its edits to `edits` and returns
/// the new selection and the new count of inserted columns.
fn tab_one(inp: &TabInput, delta: u32, any_in_whitespace: bool, edits: &mut Vec<IndentEdit>) -> (r: (Selection, u32))
    requires
        tab_input_ok(*inp),
        tab_weight(*inp) + delta <= u32::MAX,
    ensures
        r.0 == tab_step(*inp, delta, any_in_whitespace).0,
        final(edits)@ == old(edits)@ + tab_step(*inp, delta, any_in_whitespace).1,
        r.1 == tab_step(*inp, delta, any_in_whitespace).2,
        r.1 <= delta + tab_weight(*inp),
{
    let mut sel = inp.selection;
    if sel.start != sel.end || inp.indent_list_prefix {
        let d = indent_selection(&mut sel, edits, delta, &inp.indents, inp.tab_size, inp.hard_tabs);
        return (sel, d);
    }
    let cur = sel.start;
    let current = inp.indents[0];
    let ghost e0 = edits@;
    if let Some(sug) = inp.suggested_indent {
        if any_in_whitespace && cur.column == current.len && current.len == sug.len {
            assert(edits@ =~= e0 + Seq::<IndentEdit>::empty());
            return (sel, delta);
        }
        if cur.column < sug.len && cur.column <= current.len && current.len <= sug.len {
            let p = Point { row: cur.row, column: sug.len };
            if delta == 0 {
                edits.push(IndentEdit::Adjust { row: cur.row, from: current, to: sug });
                return (Selection { start: p, end: p }, sug.len - current.len);
            }
            assert(edits@ =~= e0 + Seq::<IndentEdit>::empty());
            return (Selection { start: p, end: p }, delta);
        }
        if cur.column < current.len && current.len > sug.len {
            let p = Point { row: cur.row, column: current.len };
            assert(edits@ =~= e0 + Seq::<IndentEdit>::empty());
            return (Selection { start: p, end: p }, delta);
        }
    }
    let w = if inp.hard_tabs {
        IndentSize { len: 1, kind: IndentKind::Tab }
    } else {
        IndentSize::spaces(soft_tab_width(&inp.line_prefix, delta, inp.tab_size))
    };
    let p = Point { row: cur.row, column: cur.column + delta + w.len };
    edits.push(IndentEdit::Insert { at: cur, indent: w });
    (Selection { start: p, end: p }, delta + w.len)
}

/// Tab over all selections, in order: returns the new selections and the
/// edits to apply to the buffer, all positioned in the text before the edit.
pub fn tab(inputs: &Vec<TabInput>) -> (r: (Vec<Selection>, Vec<IndentEdit>))
    requires
        forall|i: int| 0 <= i < inputs@.len() ==> tab_input_ok(#[trigger] inputs@[i]),
        rows_fit(inputs@),
    ensures
        r.0@ == tab_run(inputs@, has_cursor_in_whitespace(inputs@)).0,
        r.1@ == tab_run(inputs@, has_cursor_in_whitespace(inputs@)).1,
{
    let any_ws = any_cursor_in_whitespace(inputs);
    let mut sels: Vec<Selection> = Vec::new();
    let mut edits: Vec<IndentEdit> = Vec::new();
    let mut delta: u32 = 0;
    let mut prev_row: u32 = 0;
    let mut i: usize = 0;
    while i < inputs.len()
        invariant
            i <= inputs@.len(),
            forall|k: int| 0 <= k < inputs@.len() ==> tab_input_ok(#[trigger] inputs@[k]),
            rows_fit(inputs@),
            any_ws == has_cursor_in_whitespace(inputs@),
            (sels@, edits@, delta, prev_row) == tab_run(inputs@.take(i as int), any_ws),
            prev_row == row_budget(inputs@.take(i as int)).1,
            delta <= row_budget(inputs@.take(i as int)).0,
        decreases inputs@.len() - i,
    {
        let inp = &inputs[i];
        assert(tab_input_ok(inputs@[i as int]));
        let ghost pre = inputs@.take(i as int);
        let ghost next = inputs@.take(i as int + 1);
        assert(next.drop_last() =~= pre);
        assert(next.last() == inputs@[i as int]);
        assert(row_budget(next).0 <= u32::MAX);
        let d0 = if inp.selection.start.row != prev_row {
            0
        } else {
            delta
        };
        let (sel, d1) = tab_one(inp, d0, any_ws, &mut edits);
        sels.push(sel);
        delta = d1;
        prev_row = inp.selection.end.row;
        i = i + 1;
    }
    assert(inputs@.take(i as int) =~= inputs@);
    (sels, edits)
}



/// Tab in an editor of `mode`: a single-line editor hands Tab on to what
/// contains it and a read-only one ignores it, so neither changes anything
/// (`None`); any other editor tabs over its selections.
pub fn tab_in_editor(mode: EditorMode, read_only: bool, inputs: &Vec<TabInput>) -> (r: Option<
    (Vec<Selection>, Vec<IndentEdit>),
>)
    requires
        forall|i: int| 0 <= i < inputs@.len() ==> tab_input_ok(#[trigger] inputs@[i]),
        rows_fit(inputs@),
    ensures
        r is None <==> (mode is SingleLine || read_only),
        r is Some ==> (r->0).0@ == tab_run(inputs@, has_cursor_in_whitespace(inputs@)).0,
        r is Some ==> (r->0).1@ == tab_run(inputs@, has_cursor_in_whitespace(inputs@)).1,
{
    if mode.is_single_line() || read_only {
        return None;
    }
    Some(tab(inputs))
}

/// The Indent action over the selections in order: each selection's rows
/// are indented one level. Gives the new selections, the edits, the columns
/// inserted on the last edited row, and that row; the count of inserted
/// columns starts again at zero whenever a selection starts on another row
/// than the one the previous selection ended on.
pub open spec fn indent_run(inputs: Seq<TabInput>) -> (Seq<Selection>, Seq<IndentEdit>, u32, u32)
    decreases inputs.len(),
{
    if inputs.len() == 0 {
        (Seq::empty(), Seq::empty(), 0, 0)
    } else {
        let (sels, edits, delta, prev_row) = indent_run(inputs.drop_last());
        let inp = inputs.last();
        let sel = inp.selection;
        let d0 = if sel.start.row != prev_row { 0 } else { delta };
        (
            sels.push(indented_selection(sel, d0, inp.indents@, inp.tab_size, inp.hard_tabs)),
            edits + indent_selection_edits(sel, d0, inp.indents@, inp.tab_size, inp.hard_tabs),
            indent_selection_delta(sel, d0, inp.indents@, inp.tab_size, inp.hard_tabs) as u32,
            sel.end.row,
        )
    }
}

proof fn lemma_indent_delta_len(current: IndentSize, tab_size: u32, hard_tabs: bool)
    requires
        tab_size > 0,
    ensures
        indent_delta(current, tab_size, hard_tabs).len <= tab_size,
{
}

/// The Indent action over all selections, in order: every row of every
/// selection gains one level of indentation. Returns the new selections and
/// the edits, all positioned in the text before the edit.
pub fn indent(inputs: &Vec<TabInput>) -> (r: (Vec<Selection>, Vec<IndentEdit>))
    requires
        forall|i: int| 0 <= i < inputs@.len() ==> tab_input_ok(#[trigger] inputs@[i]),
        rows_fit(inputs@),
    ensures
        r.0@ == indent_run(inputs@).0,
        r.1@ == indent_run(inputs@).1,
{
    let mut sels: Vec<Selection> = Vec::new();
    let mut edits: Vec<IndentEdit> = Vec::new();
    let mut delta: u32 = 0;
    let mut prev_row: u32 = 0;
    let mut i: usize = 0;
    while i < inputs.len()
        invariant
            i <= inputs@.len(),
            forall|k: int| 0 <= k < inputs@.len() ==> tab_input_ok(#[trigger] inputs@[k]),
            rows_fit(inputs@),
            (sels@, edits@, delta, prev_row) == indent_run(inputs@.take(i as int)),
            prev_row == row_budget(inputs@.take(i as int)).1,
            delta <= row_budget(inputs@.take(i as int)).0,
        decreases inputs@.len() - i,
    {
        let inp = &inputs[i];
        assert(tab_input_ok(inputs@[i as int]));
        let ghost pre = inputs@.take(i as int);
        let ghost next = inputs@.take(i as int + 1);
        assert(next.drop_last() =~= pre);
        assert(next.last() == inputs@[i as int]);
        assert(row_budget(next).0 <= u32::MAX);
        let d0 = if inp.selection.start.row != prev_row {
            0
        } else {
            delta
        };
        let mut sel = inp.selection;
        proof {
            lemma_indent_delta_len(inp.indents@[sel.end.row - sel.start.row], inp.tab_size, inp.hard_tabs);
        }
        let d1 = indent_selection(&mut sel, &mut edits, d0, &inp.indents, inp.tab_size, inp.hard_tabs);
        sels.push(sel);
        delta = d1;
        prev_row = inp.selection.end.row;
        i = i + 1;
    }
    assert(inputs@.take(i as int) =~= inputs@);
    (sels, edits)
}

/// The Indent action in an editor of `mode`: a read-only editor ignores it
/// and a single-line one hands it on, so neither changes anything (`None`);
/// any other editor indents its selections.
pub fn indent_in_editor(mode: EditorMode, read_only: bool, inputs: &Vec<TabInput>) -> (r: Option<
    (Vec<Selection>, Vec<IndentEdit>),
>)
    requires
        forall|i: int| 0 <= i < inputs@.len() ==> tab_input_ok(#[trigger] inputs@[i]),
        rows_fit(inputs@),
    ensures
        r is None <==> (mode is SingleLine || read_only),
        r is Some ==> (r->0).0@ == indent_run(inputs@).0,
        r is Some ==> (r->0).1@ == indent_run(inputs@).1,
{
    if read_only || mode.is_single_line() {
        return None;
    }
    Some(indent(inputs))
}

/// Whether `a` comes before `b` or is `b`: by row, then by column.
pub open spec fn point_le(a: Point, b: Point) -> bool {
    a.row < b.row || (a.row == b.row && a.column <= b.column)
}

/// Where backspace moves the cursor at `head` before deleting: to `left`,
/// the position one character to its left, or, when the cursor is inside
/// its row's indentation `indent`, back to the previous indentation stop if
/// that comes first. A stop is a tab stop for spaces and every column for
/// tabs.
pub open spec fn backspace_target(head: Point, left: Point, indent: Option<IndentSize>, tab_size: u32) -> Point {
    match indent {
        Some(ind) => if head.column <= ind.len && head.column > 0 {
            let unit: int = match ind.kind {
                IndentKind::Space => tab_size as int,
                IndentKind::Tab => 1,
            };
            let stop = Point { row: head.row, column: (((head.column - 1) / unit) * unit) as u32 };
            if point_le(left, stop) {
                left
            } else {
                stop
            }
        } else {
            left
        },
        None => left,
    }
}

/// Where backspace moves the cursor at `head` before deleting; see
/// `backspace_target`.
pub fn backspace_head(head: Point, left: Point, indent: Option<IndentSize>, tab_size: u32) -> (r: Point)
    requires
        tab_size > 0,
    ensures
        r == backspace_target(head, left, indent, tab_size),
{
    match indent {
        Some(ind) => {
            if head.column <= ind.len && head.column > 0 {
                let unit: u32 = match ind.kind {
                    IndentKind::Space => tab_size,
                    IndentKind::Tab => 1,
                };
                let c = head.column - 1;
                assert((c / unit) * unit <= c) by (nonlinear_arith)
                    requires
                        unit > 0,
                ;
                let stop = Point { row: head.row, column: (c / unit) * unit };
                if left.row < stop.row || (left.row == stop.row && left.column <= stop.column) {
                    left
                } else {
                    stop
                }
            } else {
                left
            }
        },
        None => left,
    }
}


/// Backspace from inside a row's space indentation steps back to the
/// previous tab stop: from column `c` (with `0 < c` within the indentation,
/// the character to the left being at `c - 1`), the cursor goes to the
/// largest multiple of the tab size below `c`, on the same row.
pub proof fn lemma_backspace_to_previous_tab_stop(head: Point, ind_len: u32, tab_size: u32)
    requires
        tab_size > 0,
        0 < head.column <= ind_len,
    ensures
        ({
            let r = backspace_target(
                head,
                Point { row: head.row, column: (head.column - 1) as u32 },
                Some(IndentSize { len: ind_len, kind: IndentKind::Space }),
                tab_size,
            );
            &&& r.row == head.row
            &&& r.column % tab_size == 0
            &&& r.column < head.column
            &&& head.column <= r.column + tab_size
        }),
{
    let c = head.column as int;
    let t = tab_size as int;
    let stop = ((c - 1) / t) * t;
    assert(stop % t == 0 && stop <= c - 1 && c - 1 < stop + t) by (nonlinear_arith)
        requires
            t > 0,
            c >= 1,
            stop == ((c - 1) / t) * t,
    ;
}

proof fn lemma_fold_below(s: Seq<char>, start: nat, tab_size: nat)
    requires
        tab_size > 0,
        start < tab_size,
    ensures
        tab_fold(s, start, tab_size) < tab_size,
    decreases s.len(),
{
    if s.len() > 0 {
        lemma_fold_below(s.drop_last(), start, tab_size);
    }
}

proof fn lemma_fold_spaces(s: Seq<char>, start: nat, tab_size: nat, k: nat)
    requires
        tab_size > 0,
        start < tab_size,
    ensures
        tab_fold(s + Seq::new(k, |i: int| ' '), start, tab_size) == ((tab_fold(s, start, tab_size) + k) as int)
            % (tab_size as int),
    decreases k,
{
    lemma_fold_below(s, start, tab_size);
    if k == 0 {
        assert(s + Seq::new(0, |i: int| ' ') =~= s);
        vstd::arithmetic::div_mod::lemma_small_mod(tab_fold(s, start, tab_size), tab_size);
    } else {
        let t = s + Seq::new(k, |i: int| ' ');
        assert(t.last() == ' ');
        assert(t.drop_last() =~= s + Seq::new((k - 1) as nat, |i: int| ' '));
        lemma_fold_spaces(s, start, tab_size, (k - 1) as nat);
        let f = tab_fold(s, start, tab_size) as int;
        assert(((f + (k - 1)) % (tab_size as int) + 1) % (tab_size as int) == (f + k) % (tab_size as int)) by {
            vstd::arithmetic::div_mod::lemma_add_mod_noop_right(1, f + k - 1, tab_size as int);
        }
    }
}

/// A soft tab ends on a tab stop: after the text before the cursor and the
/// spaces of the soft tab, the column within the tab stop is zero.
pub proof fn lemma_soft_tab_reaches_stop(prefix: Seq<char>, row_delta: u32, tab_size: u32)
    requires
        tab_size > 0,
    ensures
        ({
            let start = (row_delta % tab_size) as nat;
            let w = tab_size - tab_fold(prefix, start, tab_size as nat);
            &&& 1 <= w <= tab_size
            &&& tab_fold(prefix + Seq::new(w as nat, |i: int| ' '), start, tab_size as nat) == 0
        }),
{
    let start = (row_delta % tab_size) as nat;
    lemma_fold_below(prefix, start, tab_size as nat);
    let f = tab_fold(prefix, start, tab_size as nat);
    let w = (tab_size - f) as nat;
    lemma_fold_spaces(prefix, start, tab_size as nat, w);
    vstd::arithmetic::div_mod::lemma_mod_self_0(tab_size as int);
}

/// Indenting a space-indented row that sits on a tab stop moves it by a
/// whole tab stop, and outdenting moves it back by as much.
pub proof fn lemma_indent_then_outdent(len: u32, tab_size: u32)
    requires
        tab_size > 0,
        len % tab_size == 0,
        len + tab_size <= u32::MAX,
    ensures
        ({
            let d = indent_delta(IndentSize { len, kind: IndentKind::Space }, tab_size, false);
            &&& d == IndentSize { len: tab_size, kind: IndentKind::Space }
            &&& crate::line_edits::outdent_len(
                IndentSize { len: (len + d.len) as u32, kind: IndentKind::Space },
                tab_size,
            ) == d.len
        }),
{
    let n = (len + tab_size) as int;
    assert(n % (tab_size as int) == 0) by {
        vstd::arithmetic::div_mod::lemma_add_mod_noop(len as int, tab_size as int, tab_size as int);
        vstd::arithmetic::div_mod::lemma_mod_self_0(tab_size as int);
        vstd::arithmetic::div_mod::lemma_small_mod(0, tab_size as nat);
    }
}

/// Tab gives one new selection for each selection.
pub proof fn lemma_tab_keeps_selection_count(inputs: Seq<TabInput>, any_in_whitespace: bool)
    ensures
        tab_run(inputs, any_in_whitespace).0.len() == inputs.len(),
    decreases inputs.len(),
{
    if inputs.len() > 0 {
        lemma_tab_keeps_selection_count(inputs.drop_last(), any_in_whitespace);
    }
}

} // verus!
