use zen::change_list::{edit_groups_with_last, ChangeList, Direction};

#[test]
fn an_empty_list_has_no_change() {
    let mut list: ChangeList<u32> = ChangeList::new();
    assert_eq!(list.next_change(1, Direction::Prev), None);
    assert_eq!(list.last(), None);
    assert_eq!(list.last_before_grouping(), None);
}

#[test]
fn grouping_replaces_the_last_change() {
    let mut list: ChangeList<u32> = ChangeList::new();
    list.push_to_change_list(false, vec![1]);
    list.push_to_change_list(false, vec![2]);
    list.push_to_change_list(true, vec![3]);
    assert_eq!(list.last(), Some(&[3u32][..]));
    assert_eq!(list.last_before_grouping(), Some(&[2u32][..]));
}

#[test]
fn moving_through_changes_stops_at_the_ends() {
    let mut list: ChangeList<u32> = ChangeList::new();
    list.push_to_change_list(false, vec![1]);
    list.push_to_change_list(false, vec![2]);
    list.push_to_change_list(true, vec![3]);
    assert_eq!(list.next_change(1, Direction::Prev), Some(&[3u32][..]));
    assert_eq!(list.next_change(1, Direction::Prev), Some(&[1u32][..]));
    assert_eq!(list.next_change(5, Direction::Prev), Some(&[1u32][..]));
    assert_eq!(list.next_change(5, Direction::Next), Some(&[3u32][..]));
}

#[test]
fn moving_by_nothing_from_no_position_finds_nothing() {
    let mut list: ChangeList<u32> = ChangeList::new();
    list.push_to_change_list(false, vec![1]);
    assert_eq!(list.next_change(0, Direction::Prev), None);
    assert_eq!(list.next_change(0, Direction::Prev), None);
    list.push_to_change_list(false, vec![2]);
    assert_eq!(list.next_change(1, Direction::Prev), Some(&[2u32][..]));
}

#[test]
fn inverting_the_last_group_twice_restores_it() {
    let mut list: ChangeList<u32> = ChangeList::new();
    list.push_to_change_list(false, vec![1]);
    list.push_to_change_list(true, vec![2, 3]);
    list.invert_last_group();
    assert_eq!(list.last(), Some(&[1u32][..]));
    assert_eq!(list.last_before_grouping(), Some(&[2u32, 3][..]));
    list.invert_last_group();
    assert_eq!(list.last(), Some(&[2u32, 3][..]));
    assert_eq!(list.last_before_grouping(), Some(&[1u32][..]));
}

#[test]
fn inverting_an_ungrouped_change_does_nothing() {
    let mut list: ChangeList<u32> = ChangeList::new();
    list.push_to_change_list(false, vec![1]);
    list.invert_last_group();
    assert_eq!(list.last(), Some(&[1u32][..]));
    assert_eq!(list.last_before_grouping(), Some(&[1u32][..]));
}

#[test]
fn edits_group_when_cursors_stay_on_their_rows() {
    assert!(edit_groups_with_last(Some(&vec![1, 4]), &vec![1, 4]));
    assert!(!edit_groups_with_last(Some(&vec![1, 4]), &vec![1, 5]));
    assert!(!edit_groups_with_last(Some(&vec![1]), &vec![1, 4]));
    assert!(!edit_groups_with_last(None, &vec![1]));
}
