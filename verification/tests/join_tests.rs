use zen::join::{join_line, join_row_ranges};
use zen::language::{rust_lang, LanguageId};
use zen::tab::{Point, Selection};

fn sel(r0: u32, c0: u32, r1: u32, c1: u32) -> Selection {
    Selection { start: Point { row: r0, column: c0 }, end: Point { row: r1, column: c1 } }
}

#[test]
fn a_cursor_joins_its_row_with_the_next() {
    assert_eq!(join_row_ranges(&vec![sel(0, 0, 0, 0)]), vec![(0, 1)]);
}

#[test]
fn touching_selections_join_together() {
    assert_eq!(join_row_ranges(&vec![sel(0, 0, 0, 0), sel(1, 2, 1, 2)]), vec![(0, 2)]);
    assert_eq!(join_row_ranges(&vec![sel(0, 0, 0, 0), sel(3, 0, 3, 0)]), vec![(0, 1), (3, 4)]);
}

#[test]
fn a_selection_ending_at_a_row_start_leaves_that_row_out() {
    assert_eq!(join_row_ranges(&vec![sel(2, 0, 4, 0)]), vec![(2, 3)]);
    assert_eq!(join_row_ranges(&vec![sel(2, 0, 3, 0)]), vec![(2, 3)]);
    assert_eq!(join_row_ranges(&vec![sel(2, 1, 4, 2)]), vec![(2, 4)]);
}

#[test]
fn joining_drops_the_comment_marker_of_the_next_line() {
    let rust = rust_lang(LanguageId(1));
    let scope = rust.default_scope();
    let text: Vec<char> = "// foo".chars().collect();
    assert_eq!(join_line(&text, 4, 10, true, Some(&scope)), (7, true));
    assert_eq!(join_line(&text, 4, 10, false, Some(&scope)), (7, false));
    let doc: Vec<char> = "/// bar".chars().collect();
    assert_eq!(join_line(&doc, 0, 7, true, Some(&scope)), (4, true));
    let bare: Vec<char> = "//".chars().collect();
    assert_eq!(join_line(&bare, 2, 4, true, Some(&scope)), (4, false));
}

#[test]
fn joining_keeps_text_without_a_marker() {
    let rust = rust_lang(LanguageId(1));
    let scope = rust.default_scope();
    let text: Vec<char> = "let x = 1;".chars().collect();
    assert_eq!(join_line(&text, 4, 14, true, Some(&scope)), (4, true));
    assert_eq!(join_line(&Vec::new(), 4, 4, true, Some(&scope)), (4, false));
    assert_eq!(join_line(&"// x".chars().collect(), 0, 4, true, None), (0, true));
}
