use zen::click::display_ranges;
use zen::lsp_ids::{LanguageServerId, LanguageServerName, LanguageServerSelector};
use zen::actions::{AddSelectionAbove, FoldAtLevel, HandleInput, MoveToBeginningOfLine};
use zen::askpass::{
    unavailable_askpass_program, AskPassResult, AskPassSession, EncryptedPassword,
    IKnowWhatIAmDoingAndIHaveReadTheDocs,
};
use zen::editor_settings::{
    ui_scrollbar_settings_from_raw, EditorSettingsScrollbarProxy, ShowScrollbar, ShowScrollbarSetting,
};
use zen::persistence::EditorDb;
use zen::semantic_tokens::SemanticTokenState;
use zen::telemetry::Telemetry;

#[test]
fn telemetry_is_off() {
    let t = Telemetry::global();
    assert!(!t.diagnostics_enabled());
    assert!(t.installation_id().is_none());
    assert_eq!(Telemetry::log_file_path(), "");
    t.log_edit_event("editor", false);
    t.report_discovered_project_type_events(1u64, "entries");
}

#[test]
fn passwords_come_back_as_given() {
    let p = EncryptedPassword::try_from("s3cret").ok().unwrap();
    assert_eq!(p.decrypt(IKnowWhatIAmDoingAndIHaveReadTheDocs).ok().unwrap(), "s3cret");
}

#[test]
fn askpass_sessions_are_cancelled() {
    assert_eq!(unavailable_askpass_program(), "/usr/bin/false");
    let mut session = AskPassSession::new();
    assert_eq!(session.script_path(), "/usr/bin/false");
    assert_eq!(session.run(), AskPassResult::CancelledByUser);
    assert!(session.get_password().is_none());
}

#[test]
fn semantic_tokens_stay_off() {
    let mut s = SemanticTokenState::new(true);
    assert!(!s.enabled());
    s.invalidate_buffer(3);
    assert!(!s.update_rules(vec!["rule"]));
}

#[test]
fn the_store_keeps_nothing() {
    let db = EditorDb::global();
    assert!(db.get_serialized_editor(1, 2).is_none());
    assert!(db.get_editor_selections(1, 2).is_empty());
    assert!(db.get_editor_folds(1, 2).is_empty());
    assert!(db.get_file_folds(2, "/a.md").is_empty());
}

#[test]
fn scrollbar_settings_map_one_to_one() {
    assert_eq!(ui_scrollbar_settings_from_raw(ShowScrollbarSetting::Auto), ShowScrollbar::Auto);
    assert_eq!(ui_scrollbar_settings_from_raw(ShowScrollbarSetting::System), ShowScrollbar::System);
    assert_eq!(ui_scrollbar_settings_from_raw(ShowScrollbarSetting::Always), ShowScrollbar::Always);
    assert_eq!(ui_scrollbar_settings_from_raw(ShowScrollbarSetting::Never), ShowScrollbar::Never);
    assert_eq!(EditorSettingsScrollbarProxy.visibility(ShowScrollbarSetting::Never), ShowScrollbar::Never);
}

#[test]
fn action_parameters() {
    let a = MoveToBeginningOfLine { stop_at_soft_wraps: true, stop_at_indent: false };
    assert_ne!(a, MoveToBeginningOfLine::default());
    assert_eq!(FoldAtLevel(2).0, 2);
    assert_eq!(HandleInput("x".to_string()).0, "x");
    assert!(!AddSelectionAbove::default().skip_soft_wrap);
}

#[test]
fn language_server_ids_travel_as_numbers() {
    assert_eq!(LanguageServerId::from_proto(7), LanguageServerId(7));
    assert_eq!(LanguageServerId(7).to_proto(), 7);
    let name = LanguageServerName::from_proto("rust-analyzer".to_string());
    assert!(name.eq_str("rust-analyzer"));
    assert!(!name.eq_str("clangd"));
    assert_ne!(LanguageServerSelector::Id(LanguageServerId(1)), LanguageServerSelector::Name(name));
}

#[test]
fn context_menu_ranges_end_with_the_pending_selection() {
    assert_eq!(display_ranges(&vec![(0, 1), (4, 6)], Some((8, 9))), vec![(0, 1), (4, 6), (8, 9)]);
    assert_eq!(display_ranges(&vec![(0, 1)], None), vec![(0, 1)]);
}

#[test]
fn selections_are_grouped_by_buffer() {
    let m = zen::excerpts::selections_by_buffer(&vec![(1, (0, 2)), (2, (5, 5)), (1, (7, 9))]);
    assert_eq!(m.len(), 2);
    assert_eq!(m.get(&1), Some(&vec![(0, 2), (7, 9)]));
    assert_eq!(m.get(&2), Some(&vec![(5, 5)]));
    assert!(zen::excerpts::selections_by_buffer(&vec![]).is_empty());
}

#[test]
fn files_outside_the_project_open_read_only() {
    let p = zen::excerpts::open_plan(true, false);
    assert!(p.reuse_open_editor && p.read_only);
    let q = zen::excerpts::open_plan(true, true);
    assert!(!q.reuse_open_editor && !q.read_only);
    let r = zen::excerpts::open_plan(false, false);
    assert!(r.reuse_open_editor && !r.read_only);
}

#[test]
fn a_transaction_within_the_cursor_excerpt_is_not_shown() {
    let show = zen::excerpts::show_transaction;
    assert!(!show(0, None, &vec![]));
    assert!(!show(1, Some((0, 10)), &vec![(1, 2), (5, 10)]));
    assert!(show(1, Some((0, 10)), &vec![(1, 2), (5, 11)]));
    assert!(show(1, None, &vec![(1, 2)]));
    assert!(show(2, Some((0, 10)), &vec![(1, 2)]));
}

#[test]
fn zen_links_open_nothing() {
    assert_eq!(zen::client_status::ZEN_URL_SCHEME, "zen");
    assert_eq!(zen::client_status::parse_zen_link("zen://channel/1"), None);
}

#[test]
fn covered_ranges_sort_by_start_then_end() {
    let sorted = zen::highlights::sort_covered_ranges(vec![(5, 9), (1, 4), (5, 6), (1, 4), (0, 10)]);
    assert_eq!(sorted, vec![(0, 10), (1, 4), (1, 4), (5, 6), (5, 9)]);
    assert!(zen::highlights::sort_covered_ranges(vec![]).is_empty());
}
