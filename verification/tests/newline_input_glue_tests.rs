use zen::autoclose::{InputAction, RegionFacts};
use zen::language::{empty_config, plain_text, rust_lang, Language, LanguageId, OrderedListConfig, LanguageScope};
use zen::newline::{newline_cursor, newline_delimiter, ordered_list_marker, IndentKind, IndentSize, NewlineConfig};
use zen::pattern::RegexCaptures;
use zen::tab::Point;
use zen::typing::{input_steps, plan_input, SelectionFacts, TypedSelection};

fn markdown() -> Language {
    let mut c = empty_config("Markdown".to_string());
    c.unordered_list = vec!["- ".to_string()];
    c.ordered_list = vec![OrderedListConfig { pattern: "(\\d+)\\. ".to_string(), format: "{1}. ".to_string() }];
    Language::new_with_id(LanguageId(2), c, None)
}

fn facts<'a>(scope: Option<LanguageScope<'a>>, at: usize, before: &str, next: Option<char>, region: Option<RegionFacts>) -> SelectionFacts<'a> {
    SelectionFacts {
        id: 0,
        start: at,
        end: at,
        reversed: false,
        editable: true,
        scope,
        before: before.to_string(),
        autoclose: true,
        auto_surround: true,
        next_char: next,
        at_line_start: at == 0,
        prev_char_is_word: None,
        quotes_before: vec![],
        region,
        always_autoclosed: false,
        text_follows_selection: next == Some('}'),
    }
}

#[test]
fn the_rust_test_language_is_fully_configured() {
    let rust = rust_lang(LanguageId(1));
    assert!(rust.config.code_fence_block_name.is_none());
    assert_eq!(rust.code_fence_block_name(), "rust");
    assert!(rust.config.autoclose_before.is_empty());
    assert!(rust.config.collapsed_placeholder.is_empty());
    assert!(!rust.config.hidden);
    let plain = plain_text(LanguageId(3));
    assert!(plain.config.code_fence_block_name.is_none());
    assert!(!plain.config.hidden);
    assert!(plain.config.collapsed_placeholder.is_empty());
}

#[test]
fn an_ordered_marker_counts_on_from_its_captures() {
    let line: Vec<char> = "1. foo".chars().collect();
    let caps = RegexCaptures { whole_len: Some(3), group1: Some("1".to_string()) };
    let (next, cfg) = ordered_list_marker("{1}. ", &line, 6, 0, &caps);
    assert_eq!(next.as_deref(), Some("2. "));
    assert!(cfg.is_none());
    let empty: Vec<char> = "1. ".chars().collect();
    let (next, cfg) = ordered_list_marker("{1}. ", &empty, 3, 0, &caps);
    assert!(next.is_none());
    assert!(matches!(cfg, Some(NewlineConfig::ClearCurrentLine)));
    let indented: Vec<char> = "  4. ".chars().collect();
    let (_, cfg) = ordered_list_marker("{1}. ", &indented, 5, 2, &caps);
    match cfg {
        Some(NewlineConfig::UnindentCurrentLine { continuation }) => assert_eq!(continuation, "1. "),
        _ => panic!("expected an unindent"),
    }
    let no_match = RegexCaptures { whole_len: None, group1: None };
    let (next, cfg) = ordered_list_marker("{1}. ", &line, 6, 0, &no_match);
    assert!(next.is_none() && cfg.is_none());
}

#[test]
fn a_comment_wins_over_a_list_and_settings_gate_them() {
    let rust = rust_lang(LanguageId(1));
    let scope = rust.default_scope();
    let (d, cfg) = newline_delimiter("// foo", 6, Some(&scope), None, true, true, true, false);
    assert_eq!(d.as_deref(), Some("// "));
    assert!(matches!(cfg, NewlineConfig::Newline { extra_line_additional_indent: None, .. }));
    let (d, _) = newline_delimiter("// foo", 6, Some(&scope), None, true, false, true, false);
    assert!(d.is_none());
    let (d, _) = newline_delimiter("// foo", 6, Some(&scope), None, false, true, true, false);
    assert!(d.is_none());
    let (d, cfg) = newline_delimiter("x", 1, None, None, true, true, true, true);
    assert!(d.is_none());
    assert!(matches!(cfg, NewlineConfig::Newline { extra_line_additional_indent: None, .. }));
    let (_, cfg) = newline_delimiter("{}", 1, Some(&scope), None, true, true, true, true);
    assert!(matches!(
        cfg,
        NewlineConfig::Newline { extra_line_additional_indent: Some(IndentSize { len: 0, kind: IndentKind::Space }), .. }
    ));
}

#[test]
fn lists_continue_only_when_asked() {
    let md = markdown();
    let scope = md.default_scope();
    let (d, _) = newline_delimiter("- item", 6, Some(&scope), None, true, true, true, false);
    assert_eq!(d.as_deref(), Some("- "));
    let (d, _) = newline_delimiter("- item", 6, Some(&scope), None, true, true, false, false);
    assert!(d.is_none());
    let (d, cfg) = newline_delimiter("- ", 2, Some(&scope), None, true, false, true, false);
    assert!(d.is_none());
    assert!(matches!(cfg, NewlineConfig::ClearCurrentLine));
}

#[test]
fn the_cursor_stays_before_an_extra_line() {
    assert_eq!(newline_cursor(Point { row: 2, column: 0 }, false, 7), Point { row: 2, column: 0 });
    assert_eq!(newline_cursor(Point { row: 2, column: 0 }, true, 4), Point { row: 1, column: 4 });
}

#[test]
fn typing_a_brace_then_its_closing_brace() {
    let rust = rust_lang(LanguageId(1));
    let open = input_steps("{", &vec![facts(Some(rust.default_scope()), 0, "", None, None)]);
    assert_eq!(open.len(), 1);
    assert_eq!(open[0].action, InputAction::InsertWithClosing);
    assert_eq!(open[0].pair_end, "}");
    let o = plan_input(false, "{", &open).unwrap();
    assert_eq!(o.edits.len(), 1);
    assert_eq!(o.edits[0].text, "{}");
    assert_eq!(o.selections, vec![TypedSelection { id: 0, start: 1, end: 1, reversed: false }]);

    let region = RegionFacts { ends_at_selection: true, pair_end: "}".to_string(), text_follows: true };
    let close = input_steps("}", &vec![facts(Some(rust.default_scope()), 1, "{", Some('}'), Some(region))]);
    assert_eq!(close[0].action, InputAction::SkipClosing { len: 1 });
    let o = plan_input(false, "}", &close).unwrap();
    assert!(o.edits.is_empty());
    assert_eq!(o.selections, vec![TypedSelection { id: 0, start: 2, end: 2, reversed: false }]);
}

#[test]
fn typing_without_a_language_replaces() {
    let steps = input_steps("{", &vec![facts(None, 0, "", None, None)]);
    assert_eq!(steps[0].action, InputAction::Replace);
    assert_eq!(steps[0].pair_end, "");
}
