//! The editor's store of per-workspace state, which keeps nothing: every
//! lookup finds nothing.
use vstd::prelude::*;

verus! {

/// An editor's state as it would be stored.
#[derive(Clone, Debug)]
pub struct SerializedEditor {
    /// The path of the file shown.
    pub abs_path: Option<String>,
    /// The contents of an unsaved buffer.
    pub contents: Option<String>,
    /// The name of the buffer's language.
    pub language: Option<String>,
    /// The file's modification time, in seconds and nanoseconds.
    pub mtime: Option<(i64, u32)>,
}

/// A fold as stored: its start and end offsets and the texts at its ends.
pub type StoredFold = (usize, usize, Option<String>, Option<String>);

/// The store of editor state.
#[derive(Clone, Copy, PartialEq, Eq, Structural, Debug, Default)]
pub struct EditorDb;

impl EditorDb {
    /// The process-wide store.
    pub fn global() -> (r: EditorDb)
        ensures
            r == EditorDb,
    {
        EditorDb
    }

    /// The stored state of an editor: none.
    pub fn get_serialized_editor(&self, item_id: u64, workspace_id: i64) -> (r: Option<SerializedEditor>)
        ensures
            r is None,
    {
        None
    }

    /// The stored selections of an editor: none.
    pub fn get_editor_selections(&self, item_id: u64, workspace_id: i64) -> (r: Vec<(usize, usize)>)
        ensures
            r@.len() == 0,
    {
        Vec::new()
    }

    /// The stored folds of an editor: none.
    pub fn get_editor_folds(&self, item_id: u64, workspace_id: i64) -> (r: Vec<StoredFold>)
        ensures
            r@.len() == 0,
    {
        Vec::new()
    }

    /// The stored folds of a file: none.
    pub fn get_file_folds(&self, workspace_id: i64, path: &str) -> (r: Vec<StoredFold>)
        ensures
            r@.len() == 0,
    {
        Vec::new()
    }
}

} // verus!
