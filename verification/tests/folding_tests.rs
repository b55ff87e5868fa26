use zen::folding::{
    fold_all_rows, fold_at_level_rows, fold_recursive_rows, fold_recursive_selections, fold_rows,
    fold_selections,
};

fn creases() -> Vec<Option<u32>> {
    vec![Some(5), Some(3), None, None, None, None, Some(8), Some(7), None, None]
}

#[test]
fn fold_cursor_folds_nearest_enclosing_crease() {
    let c = creases();
    assert_eq!(fold_rows(&c, (2, 2)), vec![1]);
    assert_eq!(fold_rows(&c, (4, 4)), vec![0]);
    assert_eq!(fold_rows(&c, (9, 9)), Vec::<u32>::new());
}

#[test]
fn fold_multi_row_selection_folds_creases_inside() {
    let c = creases();
    assert_eq!(fold_rows(&c, (9, 5)), vec![6]);
    assert_eq!(fold_rows(&c, (0, 9)), vec![0, 6]);
    // No crease starts in rows 8..=9: fall back to the enclosing one.
    assert_eq!(fold_rows(&c, (8, 9)), vec![6]);
}

#[test]
fn fold_selections_concatenates() {
    let c = creases();
    assert_eq!(fold_selections(&c, &vec![(2, 2), (9, 5)]), vec![1, 6]);
}

#[test]
fn fold_recursive_takes_every_crease() {
    let c = creases();
    assert_eq!(fold_recursive_rows(&c, (0, 7)), vec![0, 1, 6, 7]);
    assert_eq!(fold_recursive_rows(&c, (2, 2)), vec![1, 0]);
    assert_eq!(fold_recursive_rows(&c, (4, 4)), Vec::<u32>::new());
    assert_eq!(fold_recursive_rows(&c, (7, 7)), vec![7, 6]);
    assert_eq!(fold_recursive_selections(&c, &vec![(7, 7), (2, 2)]), vec![7, 6, 1, 0]);
}

#[test]
fn fold_all_takes_creases_before_last_row() {
    assert_eq!(fold_all_rows(&creases()), vec![0, 1, 6, 7]);
    assert_eq!(fold_all_rows(&vec![Some(0)]), Vec::<u32>::new());
}

#[test]
fn fold_at_level_walks_nesting() {
    let c = creases();
    assert_eq!(fold_at_level_rows(&c, 1, &vec![]), vec![0, 6]);
    assert_eq!(fold_at_level_rows(&c, 2, &vec![]), vec![7, 1]);
    assert_eq!(fold_at_level_rows(&c, 3, &vec![]), Vec::<u32>::new());
    assert_eq!(fold_at_level_rows(&c, 0, &vec![]), Vec::<u32>::new());
}

#[test]
fn fold_at_level_keeps_selected_creases_open() {
    let c = creases();
    assert_eq!(fold_at_level_rows(&c, 2, &vec![(2, 2)]), vec![7]);
    assert_eq!(fold_at_level_rows(&c, 1, &vec![(9, 9)]), vec![0, 6]);
    assert_eq!(fold_at_level_rows(&c, 1, &vec![(8, 9)]), vec![0]);
}
