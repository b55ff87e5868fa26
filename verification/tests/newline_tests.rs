use std::collections::HashMap;
use zen::language::{
    empty_config, rust_lang, BlockCommentConfig, Grammar, Language, LanguageConfigOverride, LanguageId,
    LanguageScope, OrderedListConfig, Override, OverrideConfig, OverrideEntry, TaskListConfig,
};
use zen::newline::{
    comment_delimiter_for_newline, documentation_delimiter_for_newline, is_list_prefix_row,
    list_delimiter_for_newline, newline_edit, AutoIndentMode, IndentKind, IndentSize, NewlineConfig,
};

fn plain() -> NewlineConfig {
    NewlineConfig::Newline {
        additional_indent: IndentSize { len: 0, kind: IndentKind::Space },
        extra_line_additional_indent: None,
        prevent_auto_indent: false,
    }
}

fn markdown() -> Language {
    let mut c = empty_config("Markdown".to_string());
    c.unordered_list = vec!["- ".to_string(), "* ".to_string(), "+ ".to_string()];
    c.ordered_list = vec![OrderedListConfig { pattern: "(\\d+)\\. ".to_string(), format: "{1}. ".to_string() }];
    c.task_list = Some(TaskListConfig {
        prefixes: vec!["- [ ] ".to_string(), "- [x] ".to_string()],
        continuation: "- [ ] ".to_string(),
    });
    Language::new_with_id(LanguageId(2), c, None)
}

#[test]
fn line_comments_continue_after_the_marker() {
    let rust = rust_lang(LanguageId(1));
    let scope = rust.default_scope();
    assert_eq!(comment_delimiter_for_newline("    // foo", 10, &scope).as_deref(), Some("// "));
    assert_eq!(comment_delimiter_for_newline("    /// foo", 11, &scope).as_deref(), Some("/// "));
    assert_eq!(comment_delimiter_for_newline("    // foo", 2, &scope), None);
    assert_eq!(comment_delimiter_for_newline("let x = 1;", 10, &scope), None);
}

#[test]
fn a_repl_cell_marker_continues_only_before_text() {
    let rust = rust_lang(LanguageId(1));
    let scope = rust.default_scope();
    assert_eq!(comment_delimiter_for_newline("// %%", 5, &scope), None);
    assert_eq!(comment_delimiter_for_newline("// %% x", 5, &scope).as_deref(), Some("// "));
}

#[test]
fn unordered_items_continue() {
    let md = markdown();
    let scope = md.default_scope();
    let mut cfg = plain();
    assert_eq!(list_delimiter_for_newline("- item", 6, &scope, &mut cfg).as_deref(), Some("- "));
    assert!(matches!(cfg, NewlineConfig::Newline { .. }));
    assert_eq!(list_delimiter_for_newline("- [ ] task", 10, &scope, &mut cfg).as_deref(), Some("- [ ] "));
    assert_eq!(list_delimiter_for_newline("- [x] done", 10, &scope, &mut cfg).as_deref(), Some("- [ ] "));
}

#[test]
fn an_empty_item_ends_the_list() {
    let md = markdown();
    let scope = md.default_scope();
    let mut cfg = plain();
    assert_eq!(list_delimiter_for_newline("- ", 2, &scope, &mut cfg), None);
    assert!(matches!(cfg, NewlineConfig::ClearCurrentLine));
    let mut cfg = plain();
    assert_eq!(list_delimiter_for_newline("  - ", 4, &scope, &mut cfg), None);
    match cfg {
        NewlineConfig::UnindentCurrentLine { continuation } => assert_eq!(continuation, "- "),
        _ => panic!("expected an unindent"),
    }
}

#[test]
fn ordered_items_count_on() {
    let md = markdown();
    let scope = md.default_scope();
    let mut cfg = plain();
    assert_eq!(list_delimiter_for_newline("3. third", 8, &scope, &mut cfg).as_deref(), Some("4. "));
    assert_eq!(list_delimiter_for_newline("  9. x", 6, &scope, &mut cfg).as_deref(), Some("10. "));
    let mut cfg = plain();
    assert_eq!(list_delimiter_for_newline("  7. ", 5, &scope, &mut cfg), None);
    match cfg {
        NewlineConfig::UnindentCurrentLine { continuation } => assert_eq!(continuation, "1. "),
        _ => panic!("expected an unindent"),
    }
    let mut cfg = plain();
    assert_eq!(list_delimiter_for_newline("plain text", 10, &scope, &mut cfg), None);
    assert!(matches!(cfg, NewlineConfig::Newline { .. }));
}

#[test]
fn list_rows_are_recognised() {
    let md = markdown();
    let scope = md.default_scope();
    assert!(is_list_prefix_row(Some("  - item"), &scope));
    assert!(is_list_prefix_row(Some("12. item"), &scope));
    assert!(!is_list_prefix_row(Some("text"), &scope));
    assert!(!is_list_prefix_row(None, &scope));
}

#[test]
fn documentation_comments_need_a_comment_scope() {
    let mut c = empty_config("C".to_string());
    c.documentation_comment = Some(BlockCommentConfig {
        start: "/**".to_string(),
        end: "*/".to_string(),
        prefix: "* ".to_string(),
        tab_size: 1,
    });
    let lang = Language::new_with_id(LanguageId(3), c, None);
    let scope = lang.default_scope();
    let mut cfg = plain();
    assert_eq!(documentation_delimiter_for_newline("/** doc", 7, &scope, Some(&scope), &mut cfg), None);
    assert!(matches!(cfg, NewlineConfig::Newline { prevent_auto_indent: false, .. }));
}

#[test]
fn newline_text_keeps_the_indent_and_the_delimiter() {
    let spaces2 = IndentSize { len: 2, kind: IndentKind::Space };
    let none = IndentSize { len: 0, kind: IndentKind::Space };
    let e = newline_edit(&plain(), spaces2, none, 2, 5, true, AutoIndentMode::PreserveIndent, Some("// "));
    assert_eq!(e.text, "\n  // ");
    assert!(!e.from_line_start);
    assert!(e.prevent_auto_indent);
    let e = newline_edit(&plain(), spaces2, none, 2, 2, true, AutoIndentMode::SyntaxAware, None);
    assert_eq!(e.text, "\n  ");
    assert!(e.from_line_start);
    assert!(!e.prevent_auto_indent);
    let e = newline_edit(&plain(), spaces2, none, 2, 2, true, AutoIndentMode::NoIndent, None);
    assert_eq!(e.text, "\n");
}

#[test]
fn cleared_and_unindented_lines() {
    let none = IndentSize { len: 0, kind: IndentKind::Space };
    let two = IndentSize { len: 2, kind: IndentKind::Space };
    let e = newline_edit(&NewlineConfig::ClearCurrentLine, two, none, 2, 4, true, AutoIndentMode::SyntaxAware, None);
    assert_eq!(e.text, "");
    assert!(e.from_line_start);
    let cfg = NewlineConfig::UnindentCurrentLine { continuation: "- ".to_string() };
    let e = newline_edit(&cfg, two, none, 2, 4, true, AutoIndentMode::SyntaxAware, None);
    assert_eq!(e.text, "- ");
    assert!(e.prevent_auto_indent);
}

#[test]
fn an_extra_line_follows_when_asked() {
    let cfg = NewlineConfig::Newline {
        additional_indent: IndentSize { len: 1, kind: IndentKind::Space },
        extra_line_additional_indent: Some(IndentSize { len: 0, kind: IndentKind::Space }),
        prevent_auto_indent: true,
    };
    assert!(cfg.has_extra_line());
    assert!(!plain().has_extra_line());
    let e = newline_edit(&cfg, IndentSize { len: 0, kind: IndentKind::Space }, IndentSize { len: 0, kind: IndentKind::Space }, 0, 3, true, AutoIndentMode::SyntaxAware, Some("* "));
    assert_eq!(e.text, "\n * \n");
}

fn c_like() -> Language {
    let mut c = empty_config("C".to_string());
    c.documentation_comment = Some(BlockCommentConfig {
        start: "/**".to_string(),
        end: "*/".to_string(),
        prefix: "* ".to_string(),
        tab_size: 1,
    });
    let mut values = HashMap::new();
    values.insert(
        3u32,
        OverrideEntry {
            name: "comment".to_string(),
            range_is_inclusive: true,
            value: LanguageConfigOverride {
                line_comments: Override::Remove { remove: false },
                block_comment: Override::Remove { remove: false },
                disabled_bracket_ixs: vec![],
            },
        },
    );
    Language::new_with_id(LanguageId(4), c, Some(Grammar { override_config: Some(OverrideConfig { values }) }))
}

#[test]
fn documentation_comments_continue_inside_a_comment() {
    let lang = c_like();
    let scope = lang.default_scope();
    let comment = LanguageScope::new(&lang, Some(3));
    let mut cfg = plain();
    assert_eq!(documentation_delimiter_for_newline("/** doc", 7, &scope, Some(&comment), &mut cfg).as_deref(), Some("* "));
    match cfg {
        NewlineConfig::Newline { additional_indent, extra_line_additional_indent, prevent_auto_indent } => {
            assert_eq!(additional_indent, IndentSize { len: 1, kind: IndentKind::Space });
            assert_eq!(extra_line_additional_indent, None);
            assert!(prevent_auto_indent);
        }
        _ => panic!("expected a newline"),
    }
    let mut cfg = plain();
    assert_eq!(documentation_delimiter_for_newline("/** doc */", 7, &scope, Some(&comment), &mut cfg).as_deref(), Some("* "));
    match cfg {
        NewlineConfig::Newline { extra_line_additional_indent, .. } => {
            assert_eq!(extra_line_additional_indent, Some(IndentSize { len: 0, kind: IndentKind::Space }));
        }
        _ => panic!("expected a newline"),
    }
    let mut cfg = plain();
    assert_eq!(documentation_delimiter_for_newline(" * more", 7, &scope, Some(&comment), &mut cfg).as_deref(), Some("* "));
    let mut cfg = plain();
    assert_eq!(documentation_delimiter_for_newline("/** a */ b", 10, &scope, Some(&comment), &mut cfg), None);
}
