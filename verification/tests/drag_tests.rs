use zen::drag::{
    column_selection_ranges, columnar_display_point, columnar_selection_mode, columnar_tail,
    hides_mouse_cursor, is_alt_pressed, is_cmd_or_ctrl_pressed, line_drag_ends, order_drag,
    plan_columns, word_drag_ends, ColumnarMode, ColumnarSelectionState, DisplayPoint,
    DisplayRowInfo, DragSpan, HideMouseCursorOrigin, HideMouseMode, ModifierKeys,
    MultiCursorModifier,
};
use zen::tab::Point;

fn keys(shift: bool, alt: bool, secondary: bool, count: usize) -> ModifierKeys {
    ModifierKeys { shift, alt, secondary, count }
}

fn pt(row: u32, column: u32) -> Point {
    Point { row, column }
}

fn dp(row: u32, column: u32) -> DisplayPoint {
    DisplayPoint { row, column }
}

#[test]
fn modifier_roles_follow_the_setting() {
    let k = keys(false, true, false, 1);
    assert!(is_cmd_or_ctrl_pressed(k, MultiCursorModifier::CmdOrCtrl));
    assert!(!is_cmd_or_ctrl_pressed(k, MultiCursorModifier::Alt));
    assert!(is_alt_pressed(k, MultiCursorModifier::Alt));
    assert!(!is_alt_pressed(k, MultiCursorModifier::CmdOrCtrl));
}

#[test]
fn columnar_mode_needs_shift_and_one_more() {
    let alt = MultiCursorModifier::Alt;
    let cmd = MultiCursorModifier::CmdOrCtrl;
    assert_eq!(columnar_selection_mode(keys(true, false, true, 2), alt), Some(ColumnarMode::FromMouse));
    assert_eq!(columnar_selection_mode(keys(true, true, false, 2), alt), Some(ColumnarMode::FromSelection));
    assert_eq!(columnar_selection_mode(keys(true, true, false, 2), cmd), Some(ColumnarMode::FromMouse));
    assert_eq!(columnar_selection_mode(keys(true, false, true, 2), cmd), Some(ColumnarMode::FromSelection));
    assert_eq!(columnar_selection_mode(keys(true, false, false, 1), alt), None);
    assert_eq!(columnar_selection_mode(keys(true, true, true, 3), alt), None);
    assert_eq!(columnar_selection_mode(keys(false, true, true, 2), alt), None);
}

#[test]
fn pointer_hides_by_mode() {
    let (typing, moving) = (HideMouseCursorOrigin::TypingAction, HideMouseCursorOrigin::MovementAction);
    assert!(hides_mouse_cursor(typing, HideMouseMode::OnTyping));
    assert!(hides_mouse_cursor(typing, HideMouseMode::OnTypingAndMovement));
    assert!(!hides_mouse_cursor(typing, HideMouseMode::Never));
    assert!(!hides_mouse_cursor(moving, HideMouseMode::OnTyping));
    assert!(hides_mouse_cursor(moving, HideMouseMode::OnTypingAndMovement));
    assert!(!hides_mouse_cursor(moving, HideMouseMode::Never));
}

#[test]
fn columnar_start_point() {
    assert_eq!(columnar_display_point(dp(3, 4), 9, true), Some(dp(3, 9)));
    assert_eq!(columnar_display_point(dp(3, 9), 9, true), None);
    assert_eq!(columnar_display_point(dp(3, 4), 9, false), None);
    let from_mouse = ColumnarSelectionState::FromMouse { selection_tail: dp(1, 1), display_point: Some(dp(2, 7)) };
    assert_eq!(columnar_tail(from_mouse), dp(2, 7));
    let plain = ColumnarSelectionState::FromMouse { selection_tail: dp(1, 1), display_point: None };
    assert_eq!(columnar_tail(plain), dp(1, 1));
}

fn rows(lens: &[u32], blocks: &[bool]) -> Vec<DisplayRowInfo> {
    lens.iter().zip(blocks).map(|(&line_len, &is_block)| DisplayRowInfo { line_len, is_block }).collect()
}

#[test]
fn plan_columns_skips_short_and_block_rows() {
    let info = rows(&[10, 10, 1, 10, 10], &[false, false, false, false, false]);
    let from_sel = ColumnarSelectionState::FromSelection { selection_tail: dp(1, 5) };
    let plan = plan_columns(from_sel, dp(3, 0), 2, &info);
    assert_eq!(plan.rows, vec![1, 3]);
    assert_eq!((plan.start_column, plan.end_column, plan.reversed), (2, 5, true));

    let from_mouse = ColumnarSelectionState::FromMouse { selection_tail: dp(3, 2), display_point: None };
    let plan = plan_columns(from_mouse, dp(1, 0), 5, &info);
    assert_eq!(plan.rows, vec![1, 2, 3]);
    assert_eq!((plan.start_column, plan.end_column, plan.reversed), (2, 5, false));

    let info = rows(&[10, 10, 1, 10, 10], &[false, false, false, true, false]);
    let plan = plan_columns(from_mouse, dp(1, 0), 5, &info);
    assert_eq!(plan.rows, vec![1, 2]);
}

#[test]
fn column_ranges_orient_and_drop_empty_from_mouse() {
    let clipped = vec![(pt(1, 2), pt(1, 5)), (pt(2, 1), pt(2, 1)), (pt(3, 2), pt(3, 5))];
    assert_eq!(
        column_selection_ranges(&clipped, true, true),
        Some(vec![(pt(1, 5), pt(1, 2)), (pt(3, 5), pt(3, 2))])
    );
    assert_eq!(
        column_selection_ranges(&clipped, false, false),
        Some(vec![(pt(1, 2), pt(1, 5)), (pt(2, 1), pt(2, 1)), (pt(3, 2), pt(3, 5))])
    );
    let empties = vec![(pt(1, 1), pt(1, 1))];
    assert_eq!(column_selection_ranges(&empties, false, true), Some(empties.clone()));
    assert_eq!(column_selection_ranges(&vec![], false, true), None);
}

#[test]
fn drag_orders_head_and_tail() {
    assert_eq!(order_drag(pt(1, 0), pt(2, 0)), DragSpan { start: pt(1, 0), end: pt(2, 0), reversed: true });
    assert_eq!(order_drag(pt(2, 3), pt(2, 1)), DragSpan { start: pt(2, 1), end: pt(2, 3), reversed: false });
    assert_eq!(order_drag(pt(2, 3), pt(2, 3)), DragSpan { start: pt(2, 3), end: pt(2, 3), reversed: false });
}

#[test]
fn drag_by_word_snaps_to_words() {
    let original = (10, 15);
    assert_eq!(word_drag_ends(20, original, true, (18, 22)), (22, 10));
    assert_eq!(word_drag_ends(3, original, true, (0, 5)), (0, 15));
    assert_eq!(word_drag_ends(16, original, false, (16, 16)), (16, 10));
    assert_eq!(word_drag_ends(12, original, false, (10, 15)), (15, 10));
}

#[test]
fn drag_by_line_snaps_to_lines() {
    let original = (pt(2, 0), pt(4, 0));
    assert_eq!(line_drag_ends(original, pt(0, 0), pt(1, 0)), (pt(0, 0), pt(4, 0)));
    assert_eq!(line_drag_ends(original, pt(5, 0), pt(6, 0)), (pt(6, 0), pt(2, 0)));
    assert_eq!(line_drag_ends(original, pt(2, 0), pt(3, 0)), (pt(3, 0), pt(2, 0)));
}
