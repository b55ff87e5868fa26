use zen::click::{
    click_action, click_autoscroll, click_granularity, extend_click_count, extend_pending,
    find_touching, ClickAction, ClickGranularity, PendingSelection, SelectionSpan,
};
use zen::tab::Point;

fn p(row: u32, column: u32) -> Point {
    Point { row, column }
}

#[test]
fn click_count_picks_what_is_selected() {
    assert_eq!(click_granularity(1), ClickGranularity::Character);
    assert_eq!(click_granularity(2), ClickGranularity::Word);
    assert_eq!(click_granularity(3), ClickGranularity::Line);
    assert_eq!(click_granularity(4), ClickGranularity::All);
    assert_eq!(click_granularity(0), ClickGranularity::All);
}

#[test]
fn selecting_everything_does_not_scroll() {
    assert!(click_autoscroll(1, true));
    assert!(click_autoscroll(3, true));
    assert!(!click_autoscroll(4, true));
    assert!(!click_autoscroll(2, false));
}

#[test]
fn the_first_touching_selection_is_found() {
    let sels = vec![
        SelectionSpan { id: 7, start: p(0, 0), end: p(0, 3) },
        SelectionSpan { id: 9, start: p(1, 0), end: p(1, 4) },
        SelectionSpan { id: 11, start: p(2, 0), end: p(1, 4) },
    ];
    assert_eq!(find_touching(&sels, p(1, 0), p(5, 5)), Some(9));
    assert_eq!(find_touching(&sels, p(9, 9), p(1, 4)), Some(9));
    assert_eq!(find_touching(&sels, p(9, 9), p(9, 9)), None);
}

#[test]
fn a_single_added_click_removes_a_selection() {
    assert_eq!(click_action(true, 1, &vec![4, 5], Some(9), 3), ClickAction::Remove { id: 4, pending: false });
    assert_eq!(click_action(true, 1, &vec![], Some(9), 1), ClickAction::Remove { id: 9, pending: true });
    assert_eq!(click_action(true, 1, &vec![], None, 2), ClickAction::Select { clear: false });
    assert_eq!(click_action(true, 2, &vec![4], Some(9), 2), ClickAction::Select { clear: false });
    assert_eq!(click_action(false, 1, &vec![4], Some(9), 2), ClickAction::Select { clear: true });
}

#[test]
fn extending_keeps_what_was_selected() {
    assert_eq!(extend_click_count(1, ClickGranularity::Word), 2);
    assert_eq!(extend_click_count(3, ClickGranularity::Word), 3);
    assert_eq!(extend_click_count(1, ClickGranularity::All), 4);
    let pending = PendingSelection { start: 10, end: 12, reversed: false };
    assert_eq!(extend_pending(pending, (4, 8)), PendingSelection { start: 4, end: 12, reversed: false });
    assert_eq!(extend_pending(pending, (11, 20)), PendingSelection { start: 10, end: 20, reversed: true });
}
