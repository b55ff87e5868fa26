use zen::hover::{
    find_url, keeps_hovered_link, url_scan_in_bounds, Anchor, HoverLink, HoverState, HoveredLinkState,
    RangeInEditor, TriggerPoint,
};

fn chars(s: &str) -> Vec<char> {
    s.chars().collect()
}

fn at(offset: usize) -> TriggerPoint {
    TriggerPoint::Text(Anchor { offset })
}

#[test]
fn a_trigger_point_has_an_anchor() {
    assert_eq!(at(5).anchor(), &Anchor { offset: 5 });
}

#[test]
fn a_range_contains_its_ends() {
    let r = RangeInEditor::Text { start: Anchor { offset: 3 }, end: Anchor { offset: 7 } };
    assert!(r.point_within_range(&at(3)));
    assert!(r.point_within_range(&at(7)));
    assert!(!r.point_within_range(&at(8)));
    assert!(!r.point_within_range(&at(2)));
}

#[test]
fn a_cached_link_is_kept_where_it_applies() {
    let state = HoveredLinkState {
        last_trigger_point: at(4),
        link_range: Some(RangeInEditor::Text { start: Anchor { offset: 10 }, end: Anchor { offset: 20 } }),
        links: vec![HoverLink::Url("https://example.com".to_string())],
    };
    assert!(keeps_hovered_link(Some(&state), &at(4)));
    assert!(keeps_hovered_link(Some(&state), &at(15)));
    assert!(!keeps_hovered_link(Some(&state), &at(30)));
    assert!(!keeps_hovered_link(None, &at(4)));
    assert!(!HoverState.focused());
}

#[test]
fn the_url_under_the_cursor_is_found() {
    let before = chars("see https://exa");
    let after = chars("mple.com now");
    assert!(url_scan_in_bounds(&before));
    let (start, end, url) = find_url(&before, &after).unwrap();
    assert_eq!((start, end), (4, 23));
    assert_eq!(url, "https://example.com");
}

#[test]
fn no_url_is_found_in_plain_text() {
    let before = chars("hello wor");
    let after = chars("ld");
    assert!(url_scan_in_bounds(&before));
    assert_eq!(find_url(&before, &after), None);
}

#[test]
fn offsets_count_bytes() {
    let before = chars("é https://example.org");
    let after = chars("/c");
    let (start, end, url) = find_url(&before, &after).unwrap();
    assert_eq!((start, end), (3, 24));
    assert_eq!(url, "https://example.org/c");
}

#[test]
fn a_token_longer_than_the_scan_is_not_searched() {
    let long: String = std::iter::repeat('x').take(3000).collect();
    let before = chars(&long);
    assert!(url_scan_in_bounds(&before));
    assert_eq!(find_url(&before, &chars("")), None);
}
