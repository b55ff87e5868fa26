use zen::folding::newline_fold_ranges;
use zen::pending_input::{pending_input_changes, pending_ranges, pending_text, selections_after_pending};

fn keys(ks: &[Option<&str>]) -> Vec<Option<String>> {
    ks.iter().map(|k| k.map(|s| s.to_string())).collect()
}

#[test]
fn pending_text_joins_typed_characters() {
    let ks = keys(&[Some("j"), None, Some("k")]);
    assert_eq!(pending_text(true, false, true, &ks), "jk");
    assert_eq!(pending_text(false, false, true, &ks), "");
    assert_eq!(pending_text(true, true, true, &ks), "");
    assert_eq!(pending_text(true, false, false, &ks), "");
    assert_eq!(pending_text(true, false, true, &vec![]), "");
}

#[test]
fn pending_input_changes_when_text_or_shown() {
    assert!(!pending_input_changes(false, 0));
    assert!(pending_input_changes(true, 0));
    assert!(pending_input_changes(false, 2));
}

#[test]
fn selections_move_by_text_typed_before_them() {
    let sels = vec![(0, 0), (5, 7), (10, 10)];
    assert_eq!(selections_after_pending(&sels, 2), vec![(0, 0), (7, 9), (14, 14)]);
    assert_eq!(selections_after_pending(&sels, 0), sels);
    assert_eq!(pending_ranges(&vec![(0, 0), (7, 9)], 2), vec![(0, 2), (9, 11)]);
}

#[test]
fn newline_folds_cover_each_line_break_in_bytes() {
    let text: Vec<char> = "ab\né\n\n".chars().collect();
    assert_eq!(newline_fold_ranges(&text), vec![(2, 3), (5, 6), (6, 7)]);
    assert!(newline_fold_ranges(&"plain".chars().collect()).is_empty());
}
