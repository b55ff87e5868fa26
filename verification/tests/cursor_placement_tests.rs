use zen::join::{join_cursors, join_row_ranges, JoinPiece};
use zen::line_edits::{delete_line_cursors, newline_above_lines, newline_below_lines};
use zen::newline::{IndentKind, IndentSize};
use zen::tab::{Point, Selection};

fn p(row: u32, column: u32) -> Point {
    Point { row, column }
}

fn spaces(len: u32) -> IndentSize {
    IndentSize { len, kind: IndentKind::Space }
}

fn piece(line_len: u32, join_col: u32, space: bool) -> JoinPiece {
    JoinPiece { line_len, join_col, space }
}

#[test]
fn joining_puts_the_cursor_at_the_old_end_of_the_row() {
    // "aaa\nbbb\nccc" with a cursor at (0, 2) becomes "aaa bbb\nccc".
    let ranges = join_row_ranges(&vec![Selection { start: p(0, 2), end: p(0, 2) }]);
    assert_eq!(ranges, vec![(0, 1)]);
    let cursors = join_cursors(&ranges, &vec![vec![piece(3, 0, false)]]);
    assert_eq!(cursors, vec![p(0, 3)]);
}

#[test]
fn joining_several_rows_counts_the_joined_text() {
    // Rows 0..3 of "ab\n  cd\nef\ngh" join into "ab cd ef gh"; the cursor
    // lands after "ef".
    let cursors = join_cursors(&vec![(0, 3)], &vec![vec![piece(2, 0, false), piece(4, 2, true), piece(2, 0, true)]]);
    assert_eq!(cursors, vec![p(0, 8)]);
}

#[test]
fn later_ranges_move_up_by_the_rows_folded_before() {
    let cursors = join_cursors(&vec![(0, 1), (3, 5)], &vec![vec![piece(3, 0, false)], vec![piece(1, 0, false), piece(2, 0, true)]]);
    assert_eq!(cursors, vec![p(0, 3), p(2, 4)]);
}

#[test]
fn deleting_a_line_keeps_the_goal_column() {
    // "a\nb\nc" with a cursor at (1, 0) becomes "a\nc", the cursor at (1, 0).
    assert_eq!(delete_line_cursors(&vec![(1, 2)], 2, &vec![0], &vec![1]), vec![p(1, 0)]);
    // The goal column is clipped to the row the cursor lands on.
    assert_eq!(delete_line_cursors(&vec![(1, 2)], 2, &vec![5], &vec![1]), vec![p(1, 1)]);
    // Deleting the last row moves the cursor to the row before.
    assert_eq!(delete_line_cursors(&vec![(2, 3)], 2, &vec![3], &vec![7]), vec![p(1, 3)]);
    // Deleting everything leaves the cursor at the start.
    assert_eq!(delete_line_cursors(&vec![(0, 3)], 2, &vec![3], &vec![7]), vec![p(0, 0)]);
    // A second group lands above by the rows the first one removed.
    assert_eq!(delete_line_cursors(&vec![(0, 1), (3, 5)], 9, &vec![2, 0], &vec![4, 4]), vec![p(0, 2), p(2, 0)]);
}

#[test]
fn newline_above_opens_an_empty_line_with_the_cursor() {
    // "ab\ncd" with a cursor at (1, 1) becomes "ab\n\ncd", the cursor at (1, 0).
    let lines = newline_above_lines(&vec![1], &vec![spaces(0)]);
    assert_eq!(lines.len(), 1);
    assert_eq!(lines[0].break_at, p(1, 0));
    assert!(lines[0].indent.is_empty());
    assert_eq!(lines[0].cursor, p(1, 0));
}

#[test]
fn newline_above_indents_and_counts_lines_opened_before() {
    let lines = newline_above_lines(&vec![0, 4], &vec![spaces(0), spaces(4)]);
    assert_eq!(lines[1].break_at, p(4, 0));
    assert_eq!(lines[1].indent, vec![' '; 4]);
    assert_eq!(lines[1].cursor, p(5, 4));
}

#[test]
fn newline_below_opens_a_line_after_the_row() {
    // "ab\ncd" with a cursor at (0, 1) becomes "ab\n\ncd", the cursor at (1, 0).
    let lines = newline_below_lines(&vec![Some(0)], 1, 2, &vec![spaces(0)]);
    assert_eq!(lines.len(), 1);
    assert_eq!(lines[0].break_at, p(1, 0));
    assert_eq!(lines[0].cursor, p(1, 0));
    // On the last row the break goes at the end of the buffer.
    let last = newline_below_lines(&vec![Some(1), None], 1, 2, &vec![IndentSize { len: 1, kind: IndentKind::Tab }]);
    assert_eq!(last.len(), 1);
    assert_eq!(last[0].break_at, p(1, 2));
    assert_eq!(last[0].indent, vec!['\t']);
    assert_eq!(last[0].cursor, p(2, 1));
}
