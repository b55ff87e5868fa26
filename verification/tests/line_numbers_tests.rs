use zen::line_numbers::{relative_line_numbers, RowKind};

fn kinds() -> Vec<RowKind> {
    let b = RowKind { buffer_row: true, wrapped_row: false };
    let w = RowKind { buffer_row: false, wrapped_row: true };
    let n = RowKind { buffer_row: false, wrapped_row: false };
    vec![b, w, b, b, n]
}

#[test]
fn relative_numbers_skip_wrapped_rows_and_the_cursor_row() {
    assert_eq!(relative_line_numbers(&kinds(), 10, 3, 5, false), vec![(10, 2), (12, 1)]);
}

#[test]
fn relative_numbers_count_wrapped_rows_when_asked() {
    assert_eq!(relative_line_numbers(&kinds(), 10, 3, 5, true), vec![(10, 2), (11, 1), (13, 1)]);
}

#[test]
fn relative_numbers_below_the_cursor() {
    assert_eq!(relative_line_numbers(&kinds(), 0, 7, 5, false), vec![(0, 2), (2, 3), (3, 4)]);
    assert!(relative_line_numbers(&vec![], 0, 0, 0, false).is_empty());
}
