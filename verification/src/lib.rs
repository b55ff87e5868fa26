//! Editing logic of a Markdown-first editor: language scopes and their
//! comment, list and bracket configuration, what a newline continues,
//! authorship persistence, user caches and small state machines.
use vstd::prelude::*;

pub mod actions;
pub mod askpass;
pub mod authorship;
pub mod autoclose;
pub mod bracket_colors;
pub mod change_list;
pub mod click;
pub mod copy;
pub mod drag;
pub mod client_status;
pub mod editor_settings;
pub mod editor_state;
pub mod excerpts;
pub mod folding;
pub mod git_hosting;
pub mod highlight_json;
pub mod highlights;
pub mod hover;
pub mod ime;
pub mod item_paths;
pub mod join;
pub mod key_context;
pub mod language;
pub mod line_edits;
pub mod line_numbers;
pub mod lsp_ids;
pub mod markdown_path;
pub mod newline;
pub mod pattern;
pub mod pending_input;
pub mod persistence;
pub mod row_highlights;
pub mod selection_change;
pub mod selection_history;
pub mod semantic_tokens;
pub mod tab;
pub mod telemetry;
pub mod text;
pub mod typing;
pub mod user;
pub mod wrap_tag;

verus! {

} // verus!
