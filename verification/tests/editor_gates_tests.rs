use zen::bracket_colors::{colorize_brackets, BracketChunk, BracketMatch, FetchedChunks};
use zen::click::{clicked_range, is_range_selected};
use zen::editor_state::{mode_defaults, new_editor_state, AutoindentMode, EditorMode};
use zen::excerpts::{open_excerpts_route, ExcerptsRoute};
use zen::language::{plain_text, rust_lang, LanguageId};
use zen::markdown_path::{context_menu_plan, MenuPlan};
use zen::newline::{IndentKind, IndentSize};
use zen::row_highlights::insert_gutter_highlight;
use zen::tab::{indent_in_editor, tab_in_editor, IndentEdit, Point, Selection, TabInput};

fn cursor_input(row: u32, column: u32, prefix: &str) -> TabInput {
    TabInput {
        selection: Selection { start: Point { row, column }, end: Point { row, column } },
        indents: vec![IndentSize { len: 0, kind: IndentKind::Space }],
        suggested_indent: None,
        line_prefix: prefix.chars().collect(),
        indent_list_prefix: false,
        hard_tabs: false,
        tab_size: 4,
    }
}

#[test]
fn a_new_editor_is_writable_and_closes_brackets() {
    let state = new_editor_state::<usize>(EditorMode::full());
    assert_eq!(state.mode, EditorMode::full());
    assert!(!state.read_only);
    assert!(state.input_enabled);
    assert!(state.use_autoclose);
    assert!(state.use_auto_surround);
    assert!(matches!(state.autoindent_mode, Some(AutoindentMode::EachLine)));
    assert!(state.use_selection_highlight);
    assert!(!state.collapse_matches);
    assert_eq!(state.defaults, mode_defaults(EditorMode::full()));
    assert!(state.defaults.show_gutter);
    assert!(state.change_list.last().is_none());
}

#[test]
fn a_new_single_line_editor_never_wraps() {
    let state = new_editor_state::<usize>(EditorMode::SingleLine);
    assert!(state.defaults.soft_wrap_off);
    assert!(!state.defaults.show_gutter);
    assert_eq!(state.defaults.show_line_numbers, Some(false));
    assert!(state.use_autoclose);
}

#[test]
fn tab_inserts_spaces_to_the_next_stop() {
    let r = tab_in_editor(EditorMode::full(), false, &vec![cursor_input(0, 1, "a")]).unwrap();
    assert_eq!(r.0, vec![Selection { start: Point { row: 0, column: 4 }, end: Point { row: 0, column: 4 } }]);
    assert_eq!(
        r.1,
        vec![IndentEdit::Insert { at: Point { row: 0, column: 1 }, indent: IndentSize { len: 3, kind: IndentKind::Space } }]
    );
}

#[test]
fn tab_in_a_single_line_editor_does_nothing() {
    assert!(tab_in_editor(EditorMode::SingleLine, false, &vec![cursor_input(0, 1, "a")]).is_none());
    assert!(tab_in_editor(EditorMode::full(), true, &vec![cursor_input(0, 1, "a")]).is_none());
    assert!(indent_in_editor(EditorMode::SingleLine, false, &vec![cursor_input(0, 1, "a")]).is_none());
    assert!(indent_in_editor(EditorMode::full(), true, &vec![cursor_input(0, 1, "a")]).is_none());
    assert!(indent_in_editor(EditorMode::full(), false, &vec![cursor_input(0, 1, "a")]).is_some());
}

#[test]
fn many_cursors_on_different_rows_can_each_be_far_right() {
    let inputs: Vec<TabInput> = (0..4).map(|row| cursor_input(row, 2_000_000_000, "")).collect();
    let r = tab_in_editor(EditorMode::full(), false, &inputs).unwrap();
    assert_eq!(r.0.len(), 4);
    assert_eq!(r.0[3].start, Point { row: 3, column: 2_000_000_004 });
}

#[test]
fn clicks_select_by_their_count() {
    assert_eq!(clicked_range(1, 7, (5, 9), (0, 12), 40), (7, 7));
    assert_eq!(clicked_range(2, 7, (5, 9), (0, 12), 40), (5, 9));
    assert_eq!(clicked_range(3, 7, (5, 9), (0, 12), 40), (0, 12));
    assert_eq!(clicked_range(4, 7, (5, 9), (0, 12), 40), (0, 40));
    assert_eq!(clicked_range(9, 7, (5, 9), (0, 12), 40), (0, 40));
}

#[test]
fn a_range_is_selected_by_pending_or_nonempty_selections() {
    assert!(is_range_selected(Some((0, 10)), (2, 5), &vec![]));
    assert!(!is_range_selected(Some((3, 10)), (2, 5), &vec![]));
    assert!(!is_range_selected(None, (2, 5), &vec![(2, 2)]));
    assert!(is_range_selected(None, (2, 5), &vec![(2, 2), (3, 4)]));
}

#[test]
fn only_full_editors_color_brackets() {
    let chunk = || BracketChunk {
        rows: (0, 10),
        pairs: vec![BracketMatch { open_range: (0, 1), close_range: (5, 6), color_index: Some(3) }],
    };
    let mut fetched = FetchedChunks::new();
    assert!(colorize_brackets(EditorMode::SingleLine, false, &vec![chunk()], &mut fetched, (0, 10), 3).is_none());
    assert!(!fetched.contains((0, 10)));
    let found = colorize_brackets(EditorMode::full(), false, &vec![chunk()], &mut fetched, (0, 10), 3);
    assert_eq!(found, Some(vec![(0, vec![(0, 1), (5, 6)])]));
    let again = colorize_brackets(EditorMode::full(), false, &vec![chunk()], &mut fetched, (0, 10), 3);
    assert_eq!(again, Some(vec![]));
    let invalidated = colorize_brackets(EditorMode::full(), true, &vec![chunk()], &mut fetched, (0, 10), 3);
    assert_eq!(invalidated, Some(vec![(0, vec![(0, 1), (5, 6)])]));
}

#[test]
fn opening_excerpts_of_one_buffer_is_handed_on() {
    assert_eq!(open_excerpts_route(true, true, true, true, true), ExcerptsRoute::Propagate);
    assert_eq!(open_excerpts_route(false, true, true, false, false), ExcerptsRoute::Emit);
    assert_eq!(open_excerpts_route(false, true, false, true, true), ExcerptsRoute::Nothing);
    assert_eq!(open_excerpts_route(false, false, true, false, true), ExcerptsRoute::Propagate);
    assert_eq!(open_excerpts_route(false, false, true, true, true), ExcerptsRoute::Open);
    assert_eq!(open_excerpts_route(false, false, true, true, false), ExcerptsRoute::Nothing);
}

#[test]
fn inserting_a_gutter_highlight_keeps_its_color_fetcher() {
    let g = insert_gutter_highlight(None, (4, 8), "green");
    assert_eq!(g.color_fetcher, "green");
    let g = insert_gutter_highlight(Some(g), (0, 2), "blue");
    assert_eq!(g.color_fetcher, "blue");
    let got: Vec<(usize, usize)> = g.ranges.items().iter().map(|e| (e.start, e.end)).collect();
    assert_eq!(got, vec![(0, 2), (4, 8)]);
    let g = insert_gutter_highlight(Some(g), (4, 8), "blue");
    assert_eq!(g.ranges.items().len(), 2);
}

#[test]
fn languages_are_equal_by_identity() {
    assert!(rust_lang(LanguageId(1)) == rust_lang(LanguageId(1)));
    assert!(rust_lang(LanguageId(1)) == plain_text(LanguageId(1)));
    assert!(rust_lang(LanguageId(1)) != rust_lang(LanguageId(2)));
}

#[test]
fn the_context_menu_offers_a_markdown_preview() {
    assert_eq!(context_menu_plan(false, true, false, false, false, None), None);
    assert_eq!(context_menu_plan(true, false, false, false, false, None), None);
    assert_eq!(
        context_menu_plan(true, true, false, true, false, None),
        Some(MenuPlan { move_cursor: true, mark_selection_enabled: true, reveal_enabled: false, markdown_preview: false })
    );
    let by_language = context_menu_plan(true, true, true, false, true, Some((Some("Markdown"), None))).unwrap();
    assert!(by_language.markdown_preview);
    assert!(!by_language.move_cursor);
    assert!(by_language.reveal_enabled);
    let by_path = context_menu_plan(true, true, false, false, false, Some((Some("Rust"), Some("docs/Guide.MD")))).unwrap();
    assert!(by_path.markdown_preview);
    let neither = context_menu_plan(true, true, false, false, false, Some((None, Some("src/main.rs")))).unwrap();
    assert!(!neither.markdown_preview);
}
