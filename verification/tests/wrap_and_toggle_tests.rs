use std::collections::HashSet;
use zen::editor_state::{soft_wrap_mode, toggle_read_only_plan, wrap_guides, Capability, EditorSoftWrap};
use zen::language::{plain_text, rust_lang, LanguageId, SettingsSoftWrap};

#[test]
fn toggling_read_only_needs_a_single_buffer() {
    assert_eq!(toggle_read_only_plan(None), None);
    assert_eq!(toggle_read_only_plan(Some(Capability::ReadWrite)), Some(Capability::Read));
    assert_eq!(toggle_read_only_plan(Some(Capability::Read)), Some(Capability::ReadWrite));
    assert_eq!(toggle_read_only_plan(Some(Capability::ReadOnly)), Some(Capability::ReadOnly));
}

#[test]
fn the_override_decides_the_wrapping() {
    assert_eq!(soft_wrap_mode(None, SettingsSoftWrap::Bounded, 80), EditorSoftWrap::Bounded(80));
    assert_eq!(soft_wrap_mode(None, SettingsSoftWrap::PreferLine, 80), EditorSoftWrap::NoWrap);
    assert_eq!(soft_wrap_mode(Some(SettingsSoftWrap::EditorWidth), SettingsSoftWrap::Bounded, 80), EditorSoftWrap::EditorWidth);
    assert_eq!(soft_wrap_mode(Some(SettingsSoftWrap::NoWrap), SettingsSoftWrap::EditorWidth, 80), EditorSoftWrap::NoWrap);
}

#[test]
fn wrap_guides_put_the_bound_first() {
    assert_eq!(wrap_guides(None, true, EditorSoftWrap::Bounded(80), &vec![100, 120]), vec![(80, true), (100, false), (120, false)]);
    assert_eq!(wrap_guides(None, true, EditorSoftWrap::EditorWidth, &vec![100]), vec![(100, false)]);
    assert!(wrap_guides(Some(false), true, EditorSoftWrap::Bounded(80), &vec![100]).is_empty());
    assert!(wrap_guides(None, false, EditorSoftWrap::Bounded(80), &vec![100]).is_empty());
    assert_eq!(wrap_guides(Some(true), true, EditorSoftWrap::NoWrap, &vec![]), vec![]);
}

#[test]
fn languages_hash_by_identity() {
    let mut set = HashSet::new();
    set.insert(rust_lang(LanguageId(1)));
    assert!(set.contains(&plain_text(LanguageId(1))));
    assert!(!set.contains(&rust_lang(LanguageId(2))));
}
