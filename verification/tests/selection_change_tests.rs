use zen::selection_change::{bracket_query, nav_history_entry, primary_selection_text, BracketQuery};

fn chars(s: &str) -> Vec<char> {
    s.chars().collect()
}

#[test]
fn primary_selection_joins_with_line_breaks() {
    let texts = vec![chars("ab"), chars(""), chars("c")];
    assert_eq!(primary_selection_text(&texts), chars("ab\n\nc"));
    assert_eq!(primary_selection_text(&vec![chars("x")]), chars("x"));
    assert!(primary_selection_text(&vec![]).is_empty());
}

#[test]
fn nav_history_entries() {
    assert_eq!(nav_history_entry(None), Some(false));
    assert_eq!(nav_history_entry(Some(true)), Some(true));
    assert_eq!(nav_history_entry(Some(false)), None);
}

#[test]
fn bracket_query_cases() {
    assert_eq!(bracket_query(false, 3, 10, false, None), BracketQuery::Clear);
    assert_eq!(bracket_query(true, 11, 10, false, None), BracketQuery::Skip);
    assert_eq!(bracket_query(true, 3, 10, false, Some('é')), BracketQuery::Search { head: 3, tail: 3 });
    assert_eq!(bracket_query(true, 3, 10, true, Some('é')), BracketQuery::Search { head: 3, tail: 5 });
    assert_eq!(bracket_query(true, 10, 10, true, None), BracketQuery::Search { head: 10, tail: 10 });
}
