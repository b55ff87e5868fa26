use zen::editor_state::{editor_capability, mode_defaults, sticky_header_rows, toggled_capability, Capability};
use zen::client_status::Status;
use zen::editor_state::{
    Autoscroll, ClipboardSelection, EditorMode, NextScrollCursorCenterTopBottom, RowHighlightOptions,
    SelectionEffects, SizingBehavior,
};
use zen::user::PeerId;

#[test]
fn a_full_editor_by_default() {
    let m = EditorMode::full();
    assert!(m.is_full());
    assert!(!m.is_single_line());
    assert_eq!(
        m,
        EditorMode::Full {
            scale_ui_elements_with_buffer_font_size: true,
            show_active_line_background: true,
            sizing_behavior: SizingBehavior::Default,
        }
    );
    assert!(EditorMode::SingleLine.is_single_line());
    assert!(!EditorMode::AutoHeight { min_lines: 1, max_lines: None }.is_full());
}

#[test]
fn selection_effects_builders() {
    assert_eq!(SelectionEffects::default(), SelectionEffects::scroll(Autoscroll::Fit));
    let e = SelectionEffects::no_scroll().nav_history(true).from_search(true);
    assert_ne!(e, SelectionEffects::no_scroll());
    assert_eq!(e, SelectionEffects::no_scroll().from_search(true).nav_history(true));
    assert_ne!(SelectionEffects::scroll(Autoscroll::Center), SelectionEffects::scroll(Autoscroll::Top));
}

#[test]
fn scroll_positions_cycle() {
    let c = NextScrollCursorCenterTopBottom::default();
    assert_eq!(c, NextScrollCursorCenterTopBottom::Center);
    assert_eq!(c.next(), NextScrollCursorCenterTopBottom::Top);
    assert_eq!(c.next().next(), NextScrollCursorCenterTopBottom::Bottom);
    assert_eq!(c.next().next().next(), c);
}

#[test]
fn row_highlights_cover_the_gutter_by_default() {
    assert_eq!(RowHighlightOptions::default(), RowHighlightOptions { autoscroll: false, include_gutter: true });
}

#[test]
fn copied_rows_are_kept_only_with_a_file() {
    let with_file = ClipboardSelection::for_buffer(10, true, 4, Some("/a.rs".to_string()), Some((2, 3)));
    assert_eq!(with_file.line_range, Some((2, 3)));
    assert_eq!(with_file.first_line_indent, 4);
    let without = ClipboardSelection::for_buffer(10, false, 0, None, Some((2, 3)));
    assert_eq!(without.line_range, None);
    assert_eq!(without.len, 10);
}

#[test]
fn connection_states() {
    let peer = PeerId { owner_id: 1, id: 2 };
    let connected = Status::Connected { peer_id: peer, connection_id: peer };
    assert!(connected.is_connected());
    assert!(connected.is_or_was_connected());
    assert!(!connected.was_connected());
    assert!(Status::Reconnecting.was_connected());
    assert!(Status::Reconnecting.is_signing_in());
    assert!(Status::Authenticating.is_signing_in());
    assert!(!Status::Authenticated.is_signing_in());
    assert!(Status::UpgradeRequired.is_signed_out());
    assert!(!Status::ReconnectionError { next_reconnection: 5 }.is_or_was_connected());
    assert!(Status::ConnectionLost.is_or_was_connected());
}

#[test]
fn capability_follows_read_only_and_toggles() {
    assert_eq!(editor_capability(true, Capability::ReadWrite), Capability::ReadOnly);
    assert_eq!(editor_capability(false, Capability::Read), Capability::Read);
    assert_eq!(toggled_capability(Capability::ReadWrite), Capability::Read);
    assert_eq!(toggled_capability(Capability::Read), Capability::ReadWrite);
    assert_eq!(toggled_capability(Capability::ReadOnly), Capability::ReadOnly);
    assert_eq!(toggled_capability(toggled_capability(Capability::ReadWrite)), Capability::ReadWrite);
}

#[test]
fn mode_defaults_by_mode() {
    let full = mode_defaults(EditorMode::full());
    assert!(full.show_scrollbars && full.show_gutter && full.offset_content && full.use_modal_editing);
    assert_eq!(full.show_line_numbers, None);
    assert_eq!(full.show_indent_guides, None);
    assert!(!full.soft_wrap_off && !full.disable_expand_excerpt_buttons && full.enable_mouse_wheel_zoom);
    let single = mode_defaults(EditorMode::SingleLine);
    assert!(!single.show_scrollbars && !single.offset_content && single.soft_wrap_off);
    assert_eq!(single.show_line_numbers, Some(false));
    assert_eq!(single.show_indent_guides, Some(false));
    let auto = mode_defaults(EditorMode::AutoHeight { min_lines: 1, max_lines: Some(3) });
    assert!(auto.offset_content && !auto.show_gutter && auto.disable_expand_excerpt_buttons);
    assert_eq!(auto.show_indent_guides, None);
}

#[test]
fn sticky_header_rows_stay_in_the_buffer() {
    assert_eq!(sticky_header_rows(5, 100), (5, 15));
    assert_eq!(sticky_header_rows(95, 100), (95, 100));
    assert_eq!(sticky_header_rows(120, 100), (100, 100));
}
