//! The key context an editor offers to key bindings: the identifiers it adds
//! and the keys it sets, in the order it adds them.
use vstd::prelude::*;

use crate::editor_state::EditorMode;
use crate::language::{lowercase_of, to_lowercase};
use crate::markdown_path::{extension, extension_of};

verus! {

/// One entry of a key context: an identifier, or a key with its value.
#[derive(Clone, PartialEq, Eq, Debug)]
pub enum KeyContextEntry {
    /// An identifier.
    Identifier(String),
    /// A key and its value.
    Pair(String, String),
}

/// The value of an entry: an identifier is a pair without a value.
pub open spec fn entry_view(e: KeyContextEntry) -> (Seq<char>, Option<Seq<char>>) {
    match e {
        KeyContextEntry::Identifier(s) => (s@, None),
        KeyContextEntry::Pair(k, v) => (k@, Some(v@)),
    }
}

/// The values of a list of entries.
pub open spec fn entries_view(es: Seq<KeyContextEntry>) -> Seq<(Seq<char>, Option<Seq<char>>)> {
    es.map_values(|e: KeyContextEntry| entry_view(e))
}

/// What the key context reads of an editor.
pub struct KeyContextInputs {
    /// The editor's mode.
    pub mode: EditorMode,
    /// The name of the file of the editor's only buffer (the final
    /// component of its full path); `None` when the editor shows several
    /// buffers, `Some(None)` when its buffer has no file.
    pub singleton_file_name: Option<Option<String>>,
    /// Whether an edit prediction is showing.
    pub has_active_edit_prediction: bool,
    /// Whether the cursor is in a line's leading whitespace.
    pub in_leading_whitespace: bool,
    /// Whether accepting a prediction needs a modifier.
    pub edit_prediction_requires_modifier: bool,
    /// Whether selection mark mode is on.
    pub selection_mark_mode: bool,
    /// For an editor that is not full and has exactly one selection, which
    /// is empty: the cursor's offset and the buffer's length.
    pub single_caret: Option<(usize, usize)>,
}

/// The name of an editor mode in key contexts.
pub open spec fn mode_name(mode: EditorMode) -> Seq<char> {
    match mode {
        EditorMode::SingleLine => "single_line"@,
        EditorMode::AutoHeight { .. } => "auto_height"@,
        EditorMode::Full { .. } => "full"@,
    }
}

/// The extension of a file named `name`, in lower case.
pub open spec fn extension_lower(name: Seq<char>) -> Option<Seq<char>> {
    match extension_of(name) {
        Some(e) => Some(lowercase_of(e)),
        None => None,
    }
}

/// An identifier entry.
pub open spec fn ident(s: Seq<char>) -> (Seq<char>, Option<Seq<char>>) {
    (s, None)
}

/// A pair entry.
pub open spec fn pair(k: Seq<char>, v: Seq<char>) -> (Seq<char>, Option<Seq<char>>) {
    (k, Some(v))
}

/// The entry for the file of an editor: the lower-case extension of its
/// only buffer's file, when it has one, or `multibuffer` when it shows
/// several buffers.
pub open spec fn file_entries(name: Option<Option<String>>) -> Seq<(Seq<char>, Option<Seq<char>>)> {
    match name {
        Some(Some(n)) => match extension_lower(n@) {
            Some(e) => seq![pair("extension"@, e)],
            None => Seq::empty(),
        },
        Some(None) => Seq::empty(),
        None => seq![ident("multibuffer"@)],
    }
}

/// The entries that flags add: the edit prediction identifiers when a
/// prediction shows, `in_leading_whitespace`, the edit prediction mode, and
/// `selection_mode`.
pub open spec fn flag_entries(i: KeyContextInputs) -> Seq<(Seq<char>, Option<Seq<char>>)> {
    let prediction: Seq<(Seq<char>, Option<Seq<char>>)> = if i.has_active_edit_prediction {
        seq![ident("edit_prediction"@), ident("copilot_suggestion"@)]
    } else {
        Seq::empty()
    };
    let leading: Seq<(Seq<char>, Option<Seq<char>>)> = if i.in_leading_whitespace {
        seq![ident("in_leading_whitespace"@)]
    } else {
        Seq::empty()
    };
    let mode = seq![
        pair(
            "edit_prediction_mode"@,
            if i.edit_prediction_requires_modifier {
                "subtle"@
            } else {
                "eager"@
            },
        ),
    ];
    let mark: Seq<(Seq<char>, Option<Seq<char>>)> = if i.selection_mark_mode {
        seq![ident("selection_mode"@)]
    } else {
        Seq::empty()
    };
    prediction + leading + mode + mark
}

/// The entries for a single empty selection in an editor that is not full:
/// `start_of_input` and `end_of_input` where the cursor is there.
pub open spec fn caret_entries(mode: EditorMode, caret: Option<(usize, usize)>) -> Seq<(Seq<char>, Option<Seq<char>>)> {
    match caret {
        Some((offset, len)) => if !(mode is Full) {
            (if offset == 0 {
                seq![ident("start_of_input"@)]
            } else {
                Seq::empty()
            }) + (if offset == len {
                seq![ident("end_of_input"@)]
            } else {
                Seq::empty()
            })
        } else {
            Seq::empty()
        },
        None => Seq::empty(),
    }
}

/// The entries of an editor's key context, in order: `Editor`; its mode;
/// the entry for its file; the entries of its flags; and those for a single
/// empty selection.
pub open spec fn key_context_of(i: KeyContextInputs) -> Seq<(Seq<char>, Option<Seq<char>>)> {
    seq![ident("Editor"@), pair("mode"@, mode_name(i.mode))] + file_entries(i.singleton_file_name) + flag_entries(i)
        + caret_entries(i.mode, i.single_caret)
}

/// An identifier entry.
fn identifier(s: &str) -> (r: KeyContextEntry)
    ensures
        entry_view(r) == ident(s@),
{
    KeyContextEntry::Identifier(s.to_string())
}

/// A pair entry.
fn key_pair(k: &str, v: &str) -> (r: KeyContextEntry)
    ensures
        entry_view(r) == pair(k@, v@),
{
    KeyContextEntry::Pair(k.to_string(), v.to_string())
}

/// Adds `e` to the end of `es`.
fn add_entry(es: &mut Vec<KeyContextEntry>, e: KeyContextEntry)
    ensures
        entries_view(final(es)@) == entries_view(old(es)@).push(entry_view(e)),
{
    let ghost before = es@;
    es.push(e);
    assert(entries_view(es@) =~= entries_view(before).push(entry_view(e)));
}

/// The lower-case extension of a file named `name`.
fn name_extension(name: &str) -> (r: Option<String>)
    ensures
        match r {
            Some(e) => extension_lower(name@) == Some(e@),
            None => extension_lower(name@) is None,
        },
{
    match extension(name) {
        Some(e) => Some(to_lowercase(e.as_str())),
        None => None,
    }
}

/// Adds the entry for the editor's file.
fn add_file_entries(es: &mut Vec<KeyContextEntry>, name: &Option<Option<String>>)
    ensures
        entries_view(final(es)@) == entries_view(old(es)@) + file_entries(*name),
{
    proof {
        reveal_strlit("extension");
        reveal_strlit("multibuffer");
    }
    let ghost before = entries_view(es@);
    match name {
        Some(Some(n)) => match name_extension(n.as_str()) {
            Some(e) => add_entry(es, KeyContextEntry::Pair("extension".to_string(), e)),
            None => {},
        },
        Some(None) => {},
        None => add_entry(es, identifier("multibuffer")),
    }
    assert(entries_view(es@) =~= before + file_entries(*name));
}

/// Adds the entries of the editor's flags.
fn add_flag_entries(es: &mut Vec<KeyContextEntry>, i: &KeyContextInputs)
    ensures
        entries_view(final(es)@) == entries_view(old(es)@) + flag_entries(*i),
{
    proof {
        reveal_strlit("edit_prediction");
        reveal_strlit("copilot_suggestion");
        reveal_strlit("in_leading_whitespace");
        reveal_strlit("edit_prediction_mode");
        reveal_strlit("subtle");
        reveal_strlit("eager");
        reveal_strlit("selection_mode");
    }
    let ghost before = entries_view(es@);
    if i.has_active_edit_prediction {
        add_entry(es, identifier("edit_prediction"));
        add_entry(es, identifier("copilot_suggestion"));
    }
    if i.in_leading_whitespace {
        add_entry(es, identifier("in_leading_whitespace"));
    }
    if i.edit_prediction_requires_modifier {
        add_entry(es, key_pair("edit_prediction_mode", "subtle"));
    } else {
        add_entry(es, key_pair("edit_prediction_mode", "eager"));
    }
    if i.selection_mark_mode {
        add_entry(es, identifier("selection_mode"));
    }
    assert(entries_view(es@) =~= before + flag_entries(*i));
}

/// Adds the entries for a single empty selection.
fn add_caret_entries(es: &mut Vec<KeyContextEntry>, mode: EditorMode, caret: Option<(usize, usize)>)
    ensures
        entries_view(final(es)@) == entries_view(old(es)@) + caret_entries(mode, caret),
{
    proof {
        reveal_strlit("start_of_input");
        reveal_strlit("end_of_input");
    }
    let ghost before = entries_view(es@);
    let full = match mode {
        EditorMode::Full { .. } => true,
        _ => false,
    };
    match caret {
        Some((offset, len)) => {
            if !full {
                if offset == 0 {
                    add_entry(es, identifier("start_of_input"));
                }
                if offset == len {
                    add_entry(es, identifier("end_of_input"));
                }
            }
        },
        None => {},
    }
    assert(entries_view(es@) =~= before + caret_entries(mode, caret));
}

/// The entries of an editor's key context, in the order the editor adds
/// them.
pub fn key_context_entries(i: &KeyContextInputs) -> (r: Vec<KeyContextEntry>)
    ensures
        entries_view(r@) == key_context_of(*i),
{
    proof {
        reveal_strlit("Editor");
        reveal_strlit("mode");
        reveal_strlit("single_line");
        reveal_strlit("auto_height");
        reveal_strlit("full");
    }
    let mut es: Vec<KeyContextEntry> = Vec::new();
    add_entry(&mut es, identifier("Editor"));
    let mode = match i.mode {
        EditorMode::SingleLine => "single_line",
        EditorMode::AutoHeight { .. } => "auto_height",
        EditorMode::Full { .. } => "full",
    };
    add_entry(&mut es, key_pair("mode", mode));
    assert(entries_view(es@) =~= seq![ident("Editor"@), pair("mode"@, mode_name(i.mode))]);
    add_file_entries(&mut es, &i.singleton_file_name);
    add_flag_entries(&mut es, i);
    add_caret_entries(&mut es, i.mode, i.single_caret);
    es
}

} // verus!
