use zen::bracket_colors::{compute_bracket_ranges, BracketChunk, BracketHighlights, BracketMatch, FetchedChunks};

fn chunk() -> BracketChunk {
    BracketChunk {
        rows: (0, 10),
        pairs: vec![
            BracketMatch { open_range: (0, 1), close_range: (5, 6), color_index: Some(3) },
            BracketMatch { open_range: (2, 3), close_range: (20, 21), color_index: Some(1) },
            BracketMatch { open_range: (7, 8), close_range: (9, 10), color_index: None },
        ],
    }
}

#[test]
fn fetched_chunks_remember_rows() {
    let mut f = FetchedChunks::new();
    assert!(!f.contains((0, 10)));
    assert!(f.insert((0, 10)));
    assert!(!f.insert((0, 10)));
    assert!(f.contains((0, 10)));
    assert!(!f.contains((10, 20)));
    f.clear();
    assert!(!f.contains((0, 10)));
}

#[test]
fn colored_pairs_keep_their_visible_ranges() {
    let mut fetched = FetchedChunks::new();
    let found = compute_bracket_ranges(&vec![chunk()], &mut fetched, (0, 10), 3);
    assert_eq!(found, vec![(0, vec![(0, 1), (5, 6)]), (1, vec![(2, 3)])]);
    assert!(fetched.contains((0, 10)));
}

#[test]
fn a_fetched_chunk_is_not_colored_again() {
    let mut fetched = FetchedChunks::new();
    let _ = compute_bracket_ranges(&vec![chunk()], &mut fetched, (0, 10), 3);
    let again = compute_bracket_ranges(&vec![chunk()], &mut fetched, (0, 10), 3);
    assert!(again.is_empty());
    let twice = compute_bracket_ranges(&vec![chunk(), chunk()], &mut FetchedChunks::new(), (0, 10), 3);
    assert_eq!(twice.len(), 2);
}

#[test]
fn highlights_stay_in_order_of_start() {
    let mut h = BracketHighlights::new(2);
    h.merge(&vec![(0, vec![(5, 6), (0, 1)]), (1, vec![(2, 3)]), (0, vec![(3, 4)])]);
    assert_eq!(h.ranges_for(0), &vec![(0, 1), (3, 4), (5, 6)]);
    assert_eq!(h.ranges_for(1), &vec![(2, 3)]);
    h.merge(&vec![(1, vec![(0, 2)])]);
    assert_eq!(h.ranges_for(1), &vec![(0, 2), (2, 3)]);
}
