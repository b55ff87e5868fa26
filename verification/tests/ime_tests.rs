use zen::ime::{replay_ranges, selection_replacement_ranges, ImeSelection};

fn sel(id: usize, start: usize, end: usize) -> ImeSelection {
    ImeSelection { id, start, end }
}

#[test]
fn replacement_follows_the_newest_selection() {
    let sels = vec![sel(1, 5, 5), sel(3, 10, 12), sel(2, 20, 20)];
    assert_eq!(selection_replacement_ranges(&sels, (11, 13)), vec![(6, 6), (11, 13), (21, 21)]);
    assert_eq!(selection_replacement_ranges(&sels, (10, 12)), vec![(5, 5), (10, 12), (20, 20)]);
}

#[test]
fn replacement_before_the_buffer_start_wraps_like_the_machine() {
    let sels = vec![sel(1, 0, 0), sel(2, 10, 10)];
    let r = selection_replacement_ranges(&sels, (3, 3));
    assert_eq!(r, vec![(usize::MAX - 6, usize::MAX - 6), (3, 3)]);
}

#[test]
fn newest_is_the_last_with_the_largest_id() {
    let sels = vec![sel(1, 0, 0), sel(1, 4, 4)];
    assert_eq!(selection_replacement_ranges(&sels, (5, 5)), vec![(1, 1), (5, 5)]);
}

#[test]
fn replay_moves_from_each_head_and_clamps() {
    assert_eq!(replay_ranges(&vec![0, 10], (-2, 3)), vec![(0, 3), (8, 13)]);
    assert_eq!(replay_ranges(&vec![5], (isize::MIN, isize::MAX)), vec![(0, 5 + isize::MAX as usize)]);
    assert_eq!(replay_ranges(&vec![usize::MAX], (0, 1)), vec![(usize::MAX, usize::MAX)]);
}
