use zen::editor_state::EditorMode;
use zen::key_context::{key_context_entries, KeyContextEntry, KeyContextInputs};

fn id(s: &str) -> KeyContextEntry {
    KeyContextEntry::Identifier(s.to_string())
}

fn kv(k: &str, v: &str) -> KeyContextEntry {
    KeyContextEntry::Pair(k.to_string(), v.to_string())
}

fn inputs(mode: EditorMode, singleton_file_name: Option<Option<String>>) -> KeyContextInputs {
    KeyContextInputs {
        mode,
        singleton_file_name,
        has_active_edit_prediction: false,
        in_leading_whitespace: false,
        edit_prediction_requires_modifier: false,
        selection_mark_mode: false,
        single_caret: None,
    }
}

#[test]
fn full_editor_with_file_extension() {
    let i = inputs(EditorMode::full(), Some(Some("Main.RS".to_string())));
    assert_eq!(
        key_context_entries(&i),
        vec![id("Editor"), kv("mode", "full"), kv("extension", "rs"), kv("edit_prediction_mode", "eager")]
    );
}

#[test]
fn multibuffer_and_flags() {
    let mut i = inputs(EditorMode::AutoHeight { min_lines: 1, max_lines: None }, None);
    i.has_active_edit_prediction = true;
    i.in_leading_whitespace = true;
    i.edit_prediction_requires_modifier = true;
    i.selection_mark_mode = true;
    assert_eq!(
        key_context_entries(&i),
        vec![
            id("Editor"),
            kv("mode", "auto_height"),
            id("multibuffer"),
            id("edit_prediction"),
            id("copilot_suggestion"),
            id("in_leading_whitespace"),
            kv("edit_prediction_mode", "subtle"),
            id("selection_mode"),
        ]
    );
}

#[test]
fn single_line_caret_at_both_ends_of_empty_input() {
    let mut i = inputs(EditorMode::SingleLine, Some(None));
    i.single_caret = Some((0, 0));
    assert_eq!(
        key_context_entries(&i),
        vec![
            id("Editor"),
            kv("mode", "single_line"),
            kv("edit_prediction_mode", "eager"),
            id("start_of_input"),
            id("end_of_input"),
        ]
    );
    i.single_caret = Some((3, 3));
    assert_eq!(key_context_entries(&i).last(), Some(&id("end_of_input")));
    i.single_caret = Some((1, 3));
    assert_eq!(key_context_entries(&i).len(), 3);
}

#[test]
fn full_editor_ignores_caret_and_dotfile_has_no_extension() {
    let mut i = inputs(EditorMode::full(), Some(Some(".bashrc".to_string())));
    i.single_caret = Some((0, 0));
    assert_eq!(key_context_entries(&i), vec![id("Editor"), kv("mode", "full"), kv("edit_prediction_mode", "eager")]);
}
