use zen::wrap_tag::{can_wrap_in_tag, plan_wraps, wrap_cursors, WrapCharactersConfig, WrapTarget};

fn cfg(sp: &str, ss: &str, ep: &str, es: &str) -> WrapCharactersConfig {
    WrapCharactersConfig {
        start_prefix: sp.to_string(),
        start_suffix: ss.to_string(),
        end_prefix: ep.to_string(),
        end_suffix: es.to_string(),
    }
}

#[test]
fn wraps_only_selections_whose_language_has_tags() {
    let targets = vec![
        WrapTarget { start: 0, end: 3, config: Some(cfg("<", ">", "</", ">")) },
        WrapTarget { start: 5, end: 5, config: None },
        WrapTarget { start: 7, end: 9, config: Some(cfg("«", "»", "«/", "»»")) },
    ];
    let plans = plan_wraps(&targets);
    assert_eq!(plans.len(), 2);
    assert_eq!((plans[0].start, plans[0].end), (0, 3));
    assert_eq!((plans[0].open_tag.as_str(), plans[0].close_tag.as_str()), ("<>", "</>"));
    assert_eq!((plans[0].start_prefix_len, plans[0].end_suffix_len), (1, 1));
    assert_eq!((plans[1].start, plans[1].end), (7, 9));
    assert_eq!((plans[1].open_tag.as_str(), plans[1].close_tag.as_str()), ("«»", "«/»»"));
    assert_eq!((plans[1].start_prefix_len, plans[1].end_suffix_len), (2, 4));
}

#[test]
fn cursors_land_inside_the_tags() {
    assert_eq!(wrap_cursors(&vec![(0, 7, 1, 1), (10, 16, 1, 1)]), vec![1, 6, 11, 15]);
    assert_eq!(wrap_cursors(&vec![(0, 0, 1, 2)]), vec![1, 0]);
}

#[test]
fn wrap_is_offered_when_some_language_has_tags() {
    assert!(can_wrap_in_tag(&vec![false, true]));
    assert!(!can_wrap_in_tag(&vec![false]));
    assert!(!can_wrap_in_tag(&vec![]));
}
