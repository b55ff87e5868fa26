use zen::selection_history::{HistorySelection, SelectionHistory, SelectionHistoryMode, MAX_SELECTION_HISTORY_LEN};

fn sels(start: usize) -> Vec<HistorySelection> {
    vec![HistorySelection { id: 1, start, end: start + 1, reversed: false }]
}

#[test]
fn equal_selections_are_pushed_once() {
    let mut h = SelectionHistory::new();
    h.push(sels(0));
    h.push(sels(0));
    assert_eq!(h.undo_len(), 1);
    h.push(sels(5));
    h.push(sels(0));
    assert_eq!(h.undo_len(), 3);
}

#[test]
fn skipping_and_empty_selections_record_nothing() {
    let mut h = SelectionHistory::new();
    h.push(vec![]);
    assert_eq!(h.undo_len(), 0);
    h.set_mode(SelectionHistoryMode::Skipping);
    h.push(sels(1));
    assert_eq!(h.undo_len(), 0);
    h.set_mode(SelectionHistoryMode::Normal);
    h.push(sels(1));
    assert_eq!(h.undo_len(), 1);
}

#[test]
fn the_undo_stack_is_bounded() {
    let mut h = SelectionHistory::new();
    for i in 0..(MAX_SELECTION_HISTORY_LEN + 10) {
        h.push_undo(sels(i));
    }
    assert_eq!(h.undo_len(), MAX_SELECTION_HISTORY_LEN);
}

#[test]
fn transactions_remember_their_selections() {
    let mut h = SelectionHistory::new();
    h.insert_transaction(7, vec![]);
    assert!(h.transaction(7).is_none());
    h.insert_transaction(7, sels(2));
    let t = h.transaction(7).unwrap();
    assert_eq!(t.0, sels(2));
    assert!(t.1.is_none());
    assert!(h.set_end_selections(7, sels(4)));
    assert_eq!(h.transaction(7).unwrap().1, Some(sels(4)));
    assert!(!h.set_end_selections(8, sels(4)));
    assert!(h.transaction(8).is_none());
}
