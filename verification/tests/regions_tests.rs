use zen::autoclose::{invalidate_autoclose_regions, selections_with_autoclose_regions, OffsetSelection, RegionSpan};
use zen::click::{swap_selection_ends, PendingSelection};
use zen::highlights::highlights_in_range;

fn region(selection_id: usize, start: usize, end: usize, valid: bool) -> RegionSpan {
    RegionSpan { selection_id, start, end, valid }
}

fn sel(id: usize, start: usize, end: usize) -> OffsetSelection {
    OffsetSelection { id, start, end }
}

#[test]
fn regions_survive_only_around_their_selection() {
    let mut regions = vec![region(1, 2, 4, true), region(2, 10, 12, true), region(3, 20, 22, false), region(4, 30, 31, true)];
    invalidate_autoclose_regions(&mut regions, &vec![sel(1, 3, 3), sel(5, 11, 11), sel(4, 30, 30)]);
    assert_eq!(regions, vec![region(1, 2, 4, true), region(4, 30, 31, true)]);
}

#[test]
fn no_selection_no_region() {
    let mut regions = vec![region(1, 2, 4, true)];
    invalidate_autoclose_regions(&mut regions, &vec![]);
    assert!(regions.is_empty());
}

#[test]
fn each_selection_finds_its_enclosing_region() {
    let regions = vec![region(1, 2, 4, true), region(1, 1, 5, true), region(2, 10, 12, true)];
    let found = selections_with_autoclose_regions(&vec![sel(1, 3, 3), sel(2, 11, 11), sel(7, 40, 40)], &regions);
    assert_eq!(found, vec![Some(1), Some(2), None]);
}

#[test]
fn highlights_within_the_drawn_range() {
    let ranges = vec![(0, 2), (3, 5), (4, 8), (9, 12), (15, 20)];
    assert_eq!(highlights_in_range(&ranges, (4, 10)), (1, 4));
    assert_eq!(highlights_in_range(&ranges, (20, 30)), (5, 5));
    assert_eq!(highlights_in_range(&ranges, (0, 1)), (0, 1));
    assert_eq!(highlights_in_range(&vec![], (0, 1)), (0, 0));
}

#[test]
fn swapping_ends_twice_restores_the_selection() {
    let s = PendingSelection { start: 2, end: 5, reversed: false };
    assert!(swap_selection_ends(s).reversed);
    assert_eq!(swap_selection_ends(swap_selection_ends(s)), s);
    let c = PendingSelection { start: 2, end: 2, reversed: false };
    assert_eq!(swap_selection_ends(c), c);
}
