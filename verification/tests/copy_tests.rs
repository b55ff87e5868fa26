use zen::copy::{clipboard_text, copy_range, CopyRange};
use zen::tab::Point;

fn pt(row: u32, column: u32) -> Point {
    Point { row, column }
}

#[test]
fn non_empty_selection_copies_itself() {
    assert_eq!(
        copy_range(pt(1, 2), pt(1, 5), false, pt(3, 4), 9),
        CopyRange { start: pt(1, 2), end: pt(1, 5), trailing_newline: false }
    );
}

#[test]
fn cursor_copies_its_whole_line() {
    assert_eq!(
        copy_range(pt(1, 3), pt(1, 3), false, pt(3, 4), 7),
        CopyRange { start: pt(1, 0), end: pt(2, 0), trailing_newline: false }
    );
    assert_eq!(
        copy_range(pt(3, 1), pt(3, 1), false, pt(3, 4), 4),
        CopyRange { start: pt(3, 0), end: pt(3, 4), trailing_newline: true }
    );
    assert_eq!(
        copy_range(pt(0, 2), pt(1, 1), true, pt(3, 4), 5),
        CopyRange { start: pt(0, 0), end: pt(2, 0), trailing_newline: false }
    );
}

fn piece(s: &str, nl: bool) -> (Vec<char>, bool) {
    (s.chars().collect(), nl)
}

fn text(v: Vec<char>) -> String {
    v.into_iter().collect()
}

#[test]
fn clipboard_text_joins_and_trims() {
    let pieces = vec![piece("  ab  ", false), piece("c\n", false)];
    assert_eq!(text(clipboard_text(&pieces, false)), "  ab  \nc\n");
    assert_eq!(text(clipboard_text(&pieces, true)), "ab\nc");
    assert_eq!(text(clipboard_text(&vec![piece("x", true)], false)), "x\n");
    assert_eq!(text(clipboard_text(&vec![piece("a", true), piece("b", false)], false)), "a\n\nb");
    assert_eq!(text(clipboard_text(&vec![], true)), "");
}
