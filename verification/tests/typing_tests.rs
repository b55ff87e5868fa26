use zen::autoclose::{InputAction, RegionSpan};
use zen::typing::{plan_input, remember_regions, InputStep, TypedSelection};

fn step(id: usize, start: usize, end: usize, action: InputAction, pair_end: &str) -> InputStep {
    InputStep { id, start, end, reversed: false, editable: true, action, pair_end: pair_end.to_string() }
}

fn edits(o: &zen::typing::InputOutcome) -> Vec<(usize, usize, String)> {
    o.edits.iter().map(|e| (e.start, e.end, e.text.clone())).collect()
}

fn cursor(id: usize, at: usize) -> TypedSelection {
    TypedSelection { id, start: at, end: at, reversed: false }
}

#[test]
fn typing_an_opening_bracket_closes_it() {
    let o = plan_input(false, "{", &vec![step(0, 0, 0, InputAction::InsertWithClosing, "}")]).unwrap();
    assert_eq!(edits(&o), vec![(0, 0, "{}".to_string())]);
    assert_eq!(o.selections, vec![cursor(0, 1)]);
    assert_eq!(o.regions, vec![(0, 1)]);
}

#[test]
fn typing_the_closing_text_skips_it() {
    let o = plan_input(false, "}", &vec![step(0, 1, 1, InputAction::SkipClosing { len: 1 }, "}")]).unwrap();
    assert!(o.edits.is_empty());
    assert_eq!(o.selections, vec![cursor(0, 2)]);
    assert!(o.regions.is_empty());
}

#[test]
fn typing_a_bracket_over_a_selection_surrounds_it() {
    let o = plan_input(false, "(", &vec![step(0, 0, 3, InputAction::Surround, ")")]).unwrap();
    assert_eq!(edits(&o), vec![(0, 0, "(".to_string()), (3, 3, ")".to_string())]);
    assert_eq!(o.selections, vec![TypedSelection { id: 0, start: 1, end: 4, reversed: false }]);
}

#[test]
fn later_selections_move_by_earlier_edits() {
    let steps = vec![
        step(0, 0, 2, InputAction::Replace, ""),
        step(1, 5, 5, InputAction::InsertWithClosing, "\u{bb}"),
        step(2, 9, 9, InputAction::Replace, ""),
    ];
    let o = plan_input(false, "x", &steps).unwrap();
    assert_eq!(
        edits(&o),
        vec![(0, 2, "x".to_string()), (5, 5, "x\u{bb}".to_string()), (9, 9, "x".to_string())]
    );
    assert_eq!(o.selections, vec![cursor(0, 1), cursor(1, 5), cursor(2, 12)]);
    assert_eq!(o.regions, vec![(1, 5)]);
}

#[test]
fn nothing_happens_when_read_only_or_nothing_is_editable() {
    let s = step(0, 0, 0, InputAction::Replace, "");
    assert!(plan_input(true, "a", &vec![s]).is_none());
    let mut locked = step(0, 0, 0, InputAction::Replace, "");
    locked.editable = false;
    assert!(plan_input(false, "a", &vec![locked]).is_none());
    let mut locked = step(0, 0, 0, InputAction::Replace, "");
    locked.editable = false;
    let o = plan_input(false, "a", &vec![locked, step(1, 3, 3, InputAction::Replace, "")]).unwrap();
    assert_eq!(o.selections, vec![cursor(1, 4)]);
}

#[test]
fn regions_are_remembered_in_order() {
    let r = |id, start, end| RegionSpan { selection_id: id, start, end, valid: true };
    let mut regions = vec![r(7, 0, 4), r(8, 10, 12)];
    remember_regions(&mut regions, &vec![(1, 2), (2, 10)]);
    assert_eq!(regions, vec![r(7, 0, 4), r(1, 2, 2), r(8, 10, 12), r(2, 10, 10)]);
}
