use zen::line_edits::{
    delete_line_groups, delete_rows, newline_above_rows, newline_below_rows, outdent_ranges, LineDeletion,
    OutdentInput, RowDeletion,
};
use zen::newline::{IndentKind, IndentSize};

fn spaces(len: u32) -> IndentSize {
    IndentSize { len, kind: IndentKind::Space }
}

#[test]
fn outdent_removes_back_to_the_previous_tab_stop() {
    let inputs = vec![OutdentInput { rows: (0, 3), start_column: 0, tab_size: 4, indents: vec![spaces(6), spaces(0), spaces(4)] }];
    assert_eq!(
        outdent_ranges(&inputs),
        vec![RowDeletion { row: 0, start: 0, end: 2 }, RowDeletion { row: 2, start: 0, end: 4 }]
    );
}

#[test]
fn outdent_of_a_single_row_ends_at_the_cursor() {
    let inputs = vec![OutdentInput { rows: (3, 4), start_column: 6, tab_size: 4, indents: vec![spaces(8)] }];
    assert_eq!(outdent_ranges(&inputs), vec![RowDeletion { row: 3, start: 2, end: 6 }]);
    let tabs = vec![OutdentInput {
        rows: (0, 1),
        start_column: 2,
        tab_size: 4,
        indents: vec![IndentSize { len: 2, kind: IndentKind::Tab }],
    }];
    assert_eq!(outdent_ranges(&tabs), vec![RowDeletion { row: 0, start: 1, end: 2 }]);
}

#[test]
fn a_row_is_outdented_once() {
    let inputs = vec![
        OutdentInput { rows: (0, 1), start_column: 4, tab_size: 4, indents: vec![spaces(8)] },
        OutdentInput { rows: (0, 2), start_column: 6, tab_size: 4, indents: vec![spaces(8), spaces(4)] },
    ];
    assert_eq!(
        outdent_ranges(&inputs),
        vec![RowDeletion { row: 0, start: 0, end: 4 }, RowDeletion { row: 1, start: 0, end: 4 }]
    );
}

#[test]
fn touching_rows_are_deleted_together() {
    assert_eq!(
        delete_line_groups(&vec![(0, 1), (1, 2), (4, 5), (5, 7)]),
        vec![(0, (0, 2)), (2, (4, 7))]
    );
    assert!(delete_line_groups(&vec![]).is_empty());
}

#[test]
fn deleting_the_last_rows_takes_the_line_break_before() {
    assert_eq!(delete_rows((2, 4), 10), LineDeletion { start_row: 2, to_next_row: true, target_row: 4 });
    assert_eq!(delete_rows((2, 4), 3), LineDeletion { start_row: 2, to_next_row: false, target_row: 1 });
    assert_eq!(delete_rows((0, 1), 0), LineDeletion { start_row: 0, to_next_row: false, target_row: 0 });
}

#[test]
fn new_lines_shift_the_cursors_below() {
    assert_eq!(newline_above_rows(&vec![0, 3, 3]), vec![0, 4, 5]);
    assert_eq!(newline_below_rows(&vec![Some(0), None, Some(3)]), vec![1, 5]);
}
