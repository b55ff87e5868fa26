use zen::highlight_json::{highlight_lines, HighlightChunk};

fn chunk(text: &str, highlight: Option<&str>) -> HighlightChunk {
    HighlightChunk { text: text.chars().collect(), highlight: highlight.map(|h| h.to_string()) }
}

fn render(lines: &[Vec<HighlightChunk>]) -> Vec<Vec<(String, Option<String>)>> {
    lines
        .iter()
        .map(|l| l.iter().map(|c| (c.text.iter().collect::<String>(), c.highlight.clone())).collect())
        .collect()
}

fn expect(pieces: &[&[(&str, Option<&str>)]]) -> Vec<Vec<(String, Option<String>)>> {
    pieces
        .iter()
        .map(|l| l.iter().map(|(t, h)| (t.to_string(), h.map(|h| h.to_string()))).collect())
        .collect()
}

#[test]
fn highlight_lines_of_nothing_is_empty() {
    assert!(highlight_lines(&Vec::new()).is_empty());
}

#[test]
fn highlight_lines_splits_and_merges() {
    let chunks = vec![
        chunk("fn", Some("keyword")),
        chunk(" main() {\n", None),
        chunk("    x\n", None),
        chunk("}", Some("punctuation")),
    ];
    let lines = highlight_lines(&chunks);
    assert_eq!(
        render(&lines),
        expect(&[
            &[("fn", Some("keyword")), (" main() {", None)],
            &[("    x", None)],
            &[("", None), ("}", Some("punctuation"))],
        ])
    );
}

#[test]
fn highlight_lines_drops_empty_first_piece_of_finished_line() {
    let chunks = vec![chunk("a\n", None), chunk("\n", Some("x"))];
    let lines = highlight_lines(&chunks);
    assert_eq!(render(&lines), expect(&[&[("a", None)], &[("", Some("x"))]]));
}

#[test]
fn highlight_lines_drops_empty_last_piece_of_finished_line() {
    let chunks = vec![chunk("ab", Some("k")), chunk("\n", None)];
    let lines = highlight_lines(&chunks);
    assert_eq!(render(&lines), expect(&[&[("ab", Some("k"))]]));
}

#[test]
fn highlight_lines_merges_same_highlight_across_chunks() {
    let chunks = vec![chunk("let", Some("keyword")), chunk(" mut", Some("keyword")), chunk(" x", None)];
    let lines = highlight_lines(&chunks);
    assert_eq!(render(&lines), expect(&[&[("let mut", Some("keyword")), (" x", None)]]));
}
