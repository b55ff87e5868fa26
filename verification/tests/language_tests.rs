use std::collections::HashMap;
use zen::autoclose::{bracket_pair_for_input, select_autoclose_pair, AutocloseRegion, PairScan};
use zen::language::{
    empty_config, plain_text, rust_lang, to_settings_soft_wrap, BlockCommentConfig, Grammar, Language,
    LanguageConfigOverride, LanguageId, LanguageScope, Override, OverrideConfig, OverrideEntry, SettingsSoftWrap,
    SoftWrap,
};

fn with_string_scope() -> Language {
    let mut c = rust_lang(LanguageId(5)).config;
    c.block_comment = Some(BlockCommentConfig {
        start: "/* ".to_string(),
        end: " */".to_string(),
        prefix: "* ".to_string(),
        tab_size: 1,
    });
    let mut values = HashMap::new();
    values.insert(
        1u32,
        OverrideEntry {
            name: "string".to_string(),
            range_is_inclusive: true,
            value: LanguageConfigOverride {
                line_comments: Override::Remove { remove: true },
                block_comment: Override::Remove { remove: false },
                disabled_bracket_ixs: vec![4],
            },
        },
    );
    Language::new_with_id(LanguageId(5), c, Some(Grammar { override_config: Some(OverrideConfig { values }) }))
}

#[test]
fn rust_and_plain_text() {
    let rust = rust_lang(LanguageId(1));
    assert_eq!(rust.name(), "Rust");
    assert_eq!(rust.id(), LanguageId(1));
    assert_eq!(rust.code_fence_block_name(), "rust");
    assert_eq!(rust.path_suffixes(), &["rs".to_string()][..]);
    assert!(rust.grammar().is_none());
    let text = plain_text(LanguageId(2));
    assert_eq!(text.name(), "Plain Text");
    assert_eq!(text.config().soft_wrap, Some(SoftWrap::EditorWidth));
    assert_eq!(text.config().brackets.pairs.len(), 5);
}

#[test]
fn soft_wrap_names() {
    assert_eq!(to_settings_soft_wrap(SoftWrap::NoWrap), SettingsSoftWrap::NoWrap);
    assert_eq!(to_settings_soft_wrap(SoftWrap::Bounded), SettingsSoftWrap::Bounded);
    assert_eq!(to_settings_soft_wrap(SoftWrap::PreferLine), SettingsSoftWrap::PreferLine);
    assert_eq!(to_settings_soft_wrap(SoftWrap::EditorWidth), SettingsSoftWrap::EditorWidth);
}

#[test]
fn code_fence_names_default_to_the_lowercase_name() {
    let mut c = empty_config("Plain Text".to_string());
    let l = Language::new_with_id(LanguageId(3), c, None);
    assert_eq!(l.code_fence_block_name(), "plain text");
    c = empty_config("C++".to_string());
    c.code_fence_block_name = Some("cpp".to_string());
    let l = Language::new_with_id(LanguageId(4), c, None);
    assert_eq!(l.code_fence_block_name(), "cpp");
}

#[test]
fn a_scope_overrides_comments_and_brackets() {
    let lang = with_string_scope();
    let default = lang.default_scope();
    assert_eq!(default.line_comment_prefixes().len(), 3);
    assert!(default.override_name().is_none());
    let string = LanguageScope::new(&lang, Some(1));
    assert_eq!(string.override_name(), Some("string"));
    assert!(string.line_comment_prefixes().is_empty());
    assert_eq!(string.block_comment().map(|b| b.start.as_str()), Some("/* "));
    let flags: Vec<bool> = string.brackets().iter().map(|(_, enabled)| *enabled).collect();
    assert_eq!(flags, vec![true, true, true, true, false]);
    let all: Vec<bool> = default.brackets().iter().map(|(_, enabled)| *enabled).collect();
    assert_eq!(all, vec![true; 5]);
    let unknown = LanguageScope::new(&lang, Some(9));
    assert!(unknown.override_name().is_none());
    assert_eq!(unknown.line_comment_prefixes().len(), 3);
}

#[test]
fn autoclose_before_whitespace_and_listed_characters() {
    let mut c = empty_config("X".to_string());
    c.autoclose_before = ";)".to_string();
    let l = Language::new_with_id(LanguageId(6), c, None);
    assert!(l.should_autoclose_before(' '));
    assert!(l.should_autoclose_before(';'));
    assert!(!l.should_autoclose_before('a'));
    assert!(l.default_scope().should_autoclose_before('\n'));
}

#[test]
fn typed_brackets_open_or_close_pairs() {
    let rust = rust_lang(LanguageId(1));
    let scope = rust.default_scope();
    assert_eq!(bracket_pair_for_input("{", "fn main() ", &scope), Some((0, true)));
    assert_eq!(bracket_pair_for_input("}", "x", &scope), Some((0, false)));
    assert_eq!(bracket_pair_for_input("\"", "", &scope), Some((4, true)));
    assert_eq!(bracket_pair_for_input("a", "", &scope), None);
    assert_eq!(bracket_pair_for_input("", "", &scope), None);
}

#[test]
fn backspace_takes_both_brackets_of_an_autoclosed_pair() {
    let rust = rust_lang(LanguageId(1));
    let scope = rust.default_scope();
    let text = b"f()";
    let region = AutocloseRegion { range: (2, 2), pair_start: "(".to_string(), pair_end: ")".to_string() };
    assert_eq!(select_autoclose_pair(text, (2, 2), Some(&region), false, Some(&scope)), PairScan::Found(1, 3));
    assert_eq!(select_autoclose_pair(text, (2, 2), None, false, Some(&scope)), PairScan::Found(2, 2));
    assert_eq!(select_autoclose_pair(text, (2, 2), None, true, Some(&scope)), PairScan::Found(1, 3));
    assert_eq!(select_autoclose_pair(text, (1, 3), None, true, Some(&scope)), PairScan::Found(1, 3));
    assert_eq!(select_autoclose_pair(b"\"x", (0, 0), None, true, Some(&scope)), PairScan::Underflow);
}
