use zen::editor_state::RowHighlightOptions;
use zen::row_highlights::{
    highlight_end_row, row_winners, DisplayRowSpan, EditorActionId, RangeEntry, RowHighlight, RowHighlightData,
    RowHighlights, SortedRanges,
};

fn hl(index: usize, start: usize, end: usize, autoscroll: bool) -> RowHighlight<&'static str> {
    RangeEntry {
        start,
        end,
        data: RowHighlightData { index, color: "red", options: RowHighlightOptions { autoscroll, include_gutter: true } },
    }
}

fn ranges(list: &RowHighlights<&'static str>) -> Vec<(usize, usize)> {
    list.items().iter().map(|h| (h.start, h.end)).collect()
}

fn sample() -> RowHighlights<&'static str> {
    let mut list = RowHighlights::new();
    list.insert(hl(0, 20, 25, false));
    list.insert(hl(1, 3, 4, false));
    list.insert(hl(2, 10, 12, true));
    list.insert(hl(3, 0, 5, false));
    list
}

#[test]
fn post_inc_hands_out_increasing_ids() {
    let mut id = EditorActionId(7);
    assert_eq!(id.post_inc(), EditorActionId(7));
    assert_eq!(id.post_inc(), EditorActionId(8));
    assert_eq!(id, EditorActionId(9));
}

#[test]
fn insert_keeps_order_and_skips_known_ranges() {
    let mut list = sample();
    assert_eq!(ranges(&list), vec![(0, 5), (3, 4), (10, 12), (20, 25)]);
    list.insert(hl(9, 10, 12, false));
    assert_eq!(ranges(&list), vec![(0, 5), (3, 4), (10, 12), (20, 25)]);
    assert_eq!(list.items()[2].data.index, 2);
    list.insert(hl(10, 0, 4, false));
    assert_eq!(ranges(&list), vec![(0, 4), (0, 5), (3, 4), (10, 12), (20, 25)]);
}

#[test]
fn clearing_removes_overlapped_highlights() {
    let mut list = sample();
    list.remove_overlapping(&vec![(4, 11)]);
    assert_eq!(ranges(&list), vec![(20, 25)]);

    let mut list = sample();
    list.remove_overlapping(&vec![(5, 5)]);
    assert_eq!(ranges(&list), vec![(3, 4), (10, 12), (20, 25)]);

    let mut list = sample();
    list.remove_overlapping(&vec![]);
    assert_eq!(ranges(&list), vec![(0, 5), (3, 4), (10, 12), (20, 25)]);
}

#[test]
fn clearing_out_of_order_ranges_stops_at_the_first_unpassed_one() {
    let mut list = sample();
    list.remove_overlapping(&vec![(21, 22), (0, 1)]);
    assert_eq!(ranges(&list), vec![(0, 5), (3, 4), (10, 12)]);
}

#[test]
fn first_autoscroll_start_is_the_least() {
    let list = sample();
    assert_eq!(list.first_autoscroll_start(), Some(10));
    let mut quiet = RowHighlights::new();
    quiet.insert(hl(0, 1, 2, false));
    assert_eq!(quiet.first_autoscroll_start(), None);
}

#[test]
fn end_row_steps_back_from_row_starts() {
    assert_eq!(highlight_end_row(5, 0, false), 4);
    assert_eq!(highlight_end_row(0, 0, false), 0);
    assert_eq!(highlight_end_row(5, 0, true), 5);
    assert_eq!(highlight_end_row(5, 3, false), 5);
}

#[test]
fn each_row_shows_the_latest_highlight() {
    let spans = vec![
        DisplayRowSpan { start_row: 0, end_row: 2, index: 5 },
        DisplayRowSpan { start_row: 1, end_row: 3, index: 7 },
        DisplayRowSpan { start_row: 2, end_row: 2, index: 6 },
    ];
    let w = row_winners(&spans);
    assert_eq!(w.get(&0), Some(&0));
    assert_eq!(w.get(&1), Some(&1));
    assert_eq!(w.get(&2), Some(&1));
    assert_eq!(w.get(&3), Some(&1));
    assert_eq!(w.get(&4), None);
    assert_eq!(w.len(), 4);

    let ties = vec![
        DisplayRowSpan { start_row: 0, end_row: 0, index: 3 },
        DisplayRowSpan { start_row: 0, end_row: 0, index: 3 },
    ];
    assert_eq!(row_winners(&ties).get(&0), Some(&1));
    let empty = vec![DisplayRowSpan { start_row: 4, end_row: 3, index: 1 }];
    assert!(row_winners(&empty).is_empty());
}

#[test]
fn gutter_highlights_use_the_same_ordered_set() {
    let mut gutter: SortedRanges<()> = SortedRanges::new();
    gutter.insert(RangeEntry { start: 8, end: 9, data: () });
    gutter.insert(RangeEntry { start: 1, end: 2, data: () });
    gutter.insert(RangeEntry { start: 8, end: 9, data: () });
    let ranges: Vec<(usize, usize)> = gutter.items().iter().map(|r| (r.start, r.end)).collect();
    assert_eq!(ranges, vec![(1, 2), (8, 9)]);
    gutter.remove_overlapping(&vec![(2, 3)]);
    let ranges: Vec<(usize, usize)> = gutter.items().iter().map(|r| (r.start, r.end)).collect();
    assert_eq!(ranges, vec![(8, 9)]);
}
