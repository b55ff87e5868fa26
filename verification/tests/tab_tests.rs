use zen::newline::{IndentKind, IndentSize};
use zen::tab::{
    backspace_head, indent, indent_delta_for, indent_selection, soft_tab_width, tab, IndentEdit, Point,
    Selection, TabInput,
};

fn p(row: u32, column: u32) -> Point {
    Point { row, column }
}

fn cursor(row: u32, column: u32) -> Selection {
    Selection { start: p(row, column), end: p(row, column) }
}

fn spaces(len: u32) -> IndentSize {
    IndentSize { len, kind: IndentKind::Space }
}

fn input(sel: Selection, indents: Vec<IndentSize>, suggested: Option<IndentSize>, prefix: &str) -> TabInput {
    TabInput {
        selection: sel,
        indents,
        suggested_indent: suggested,
        line_prefix: prefix.chars().collect(),
        indent_list_prefix: false,
        hard_tabs: false,
        tab_size: 4,
    }
}

#[test]
fn soft_tab_reaches_the_next_tab_stop() {
    let ab: Vec<char> = "ab".chars().collect();
    assert_eq!(soft_tab_width(&ab, 0, 4), 2);
    let with_tab: Vec<char> = "a\tb".chars().collect();
    assert_eq!(soft_tab_width(&with_tab, 0, 4), 3);
    assert_eq!(soft_tab_width(&Vec::new(), 5, 4), 3);
    assert_eq!(soft_tab_width(&"abcd".chars().collect(), 0, 4), 4);
}

#[test]
fn indent_delta_follows_the_indent_kind() {
    assert_eq!(indent_delta_for(spaces(2), 4, false), spaces(2));
    assert_eq!(indent_delta_for(spaces(4), 4, false), spaces(4));
    assert_eq!(indent_delta_for(IndentSize { len: 1, kind: IndentKind::Tab }, 4, false), spaces(4));
    assert_eq!(indent_delta_for(spaces(3), 4, true), IndentSize { len: 1, kind: IndentKind::Tab });
}

#[test]
fn indent_selection_indents_every_spanned_row() {
    let mut sel = Selection { start: p(1, 0), end: p(2, 3) };
    let mut edits = Vec::new();
    let d = indent_selection(&mut sel, &mut edits, 0, &vec![spaces(0), spaces(4)], 4, false);
    assert_eq!(d, 4);
    assert_eq!(sel, Selection { start: p(1, 4), end: p(2, 7) });
    assert_eq!(
        edits,
        vec![
            IndentEdit::Insert { at: p(1, 0), indent: spaces(4) },
            IndentEdit::Insert { at: p(2, 0), indent: spaces(4) },
        ]
    );
}

#[test]
fn indent_selection_skips_a_last_row_selected_at_its_start() {
    let mut sel = Selection { start: p(1, 2), end: p(3, 0) };
    let mut edits = Vec::new();
    let d = indent_selection(&mut sel, &mut edits, 0, &vec![spaces(2), spaces(0), spaces(0)], 4, false);
    assert_eq!(edits.len(), 2);
    assert_eq!(edits[0], IndentEdit::Insert { at: p(1, 0), indent: spaces(2) });
    assert_eq!(edits[1], IndentEdit::Insert { at: p(2, 0), indent: spaces(4) });
    assert_eq!(sel, Selection { start: p(1, 4), end: p(3, 0) });
    assert_eq!(d, 0);
}

#[test]
fn tab_inserts_spaces_at_a_cursor() {
    let (sels, edits) = tab(&vec![input(cursor(0, 2), vec![spaces(0)], None, "ab")]);
    assert_eq!(sels, vec![cursor(0, 4)]);
    assert_eq!(edits, vec![IndentEdit::Insert { at: p(0, 2), indent: spaces(2) }]);
}

#[test]
fn tab_counts_columns_inserted_earlier_on_the_row() {
    let inputs = vec![
        input(cursor(0, 1), vec![spaces(0)], None, "a"),
        input(cursor(0, 3), vec![spaces(0)], None, "abc"),
    ];
    let (sels, edits) = tab(&inputs);
    assert_eq!(sels, vec![cursor(0, 4), cursor(0, 8)]);
    assert_eq!(
        edits,
        vec![
            IndentEdit::Insert { at: p(0, 1), indent: spaces(3) },
            IndentEdit::Insert { at: p(0, 3), indent: spaces(2) },
        ]
    );
}

#[test]
fn tab_snaps_to_the_suggested_indent() {
    let (sels, edits) = tab(&vec![input(cursor(0, 0), vec![spaces(0)], Some(spaces(4)), "")]);
    assert_eq!(sels, vec![cursor(0, 4)]);
    assert_eq!(edits, vec![IndentEdit::Adjust { row: 0, from: spaces(0), to: spaces(4) }]);
}

#[test]
fn tab_moves_to_a_deeper_current_indent() {
    let (sels, edits) = tab(&vec![input(cursor(0, 1), vec![spaces(8)], Some(spaces(4)), " ")]);
    assert_eq!(sels, vec![cursor(0, 8)]);
    assert!(edits.is_empty());
}

#[test]
fn tab_uses_a_hard_tab() {
    let mut inp = input(cursor(2, 5), vec![spaces(0)], None, "hello");
    inp.hard_tabs = true;
    let (sels, edits) = tab(&vec![inp]);
    assert_eq!(sels, vec![cursor(2, 6)]);
    assert_eq!(
        edits,
        vec![IndentEdit::Insert { at: p(2, 5), indent: IndentSize { len: 1, kind: IndentKind::Tab } }]
    );
}

#[test]
fn tab_indents_a_list_item() {
    let mut inp = input(cursor(0, 2), vec![spaces(0)], None, "- ");
    inp.indent_list_prefix = true;
    let (sels, edits) = tab(&vec![inp]);
    assert_eq!(sels, vec![cursor(0, 6)]);
    assert_eq!(edits, vec![IndentEdit::Insert { at: p(0, 0), indent: spaces(4) }]);
}

#[test]
fn backspace_steps_back_to_the_previous_indent_stop() {
    let spaces8 = Some(spaces(8));
    assert_eq!(backspace_head(p(0, 6), p(0, 5), spaces8, 4), p(0, 4));
    assert_eq!(backspace_head(p(0, 8), p(0, 7), spaces8, 4), p(0, 4));
    let tabs = Some(IndentSize { len: 2, kind: IndentKind::Tab });
    assert_eq!(backspace_head(p(0, 2), p(0, 1), tabs, 4), p(0, 1));
    assert_eq!(backspace_head(p(0, 10), p(0, 9), spaces8, 4), p(0, 9));
    assert_eq!(backspace_head(p(0, 3), p(0, 2), None, 4), p(0, 2));
}

#[test]
fn indent_action_indents_every_row_and_carries_the_row_delta() {
    let first = input(Selection { start: p(0, 2), end: p(1, 3) }, vec![spaces(2), spaces(0)], None, "");
    let second = input(cursor(1, 5), vec![spaces(0)], None, "");
    let (sels, edits) = indent(&vec![first, second]);
    assert_eq!(sels, vec![Selection { start: p(0, 4), end: p(1, 7) }, cursor(1, 9)]);
    assert_eq!(
        edits,
        vec![
            IndentEdit::Insert { at: p(0, 0), indent: spaces(2) },
            IndentEdit::Insert { at: p(1, 0), indent: spaces(4) },
        ]
    );
}

#[test]
fn indent_action_on_a_cursor_inserts_at_line_start_or_inside_the_indentation() {
    let (sels, edits) = indent(&vec![input(cursor(2, 6), vec![spaces(4)], None, "")]);
    assert_eq!(sels, vec![cursor(2, 10)]);
    assert_eq!(edits, vec![IndentEdit::Insert { at: p(2, 0), indent: spaces(4) }]);
    let (sels, edits) = indent(&vec![input(cursor(2, 2), vec![spaces(4)], None, "")]);
    assert_eq!(sels, vec![cursor(2, 6)]);
    assert_eq!(edits, vec![IndentEdit::Insert { at: p(2, 2), indent: spaces(4) }]);
}
