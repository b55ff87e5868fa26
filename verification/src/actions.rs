//! Parameters of the editor's actions.
use vstd::prelude::*;

verus! {

/// Moves the cursor to the beginning of the line.
#[derive(Clone, Copy, PartialEq, Eq, Structural, Debug, Default)]
pub struct MoveToBeginningOfLine {
    /// Stop at a soft wrap instead of the line's start.
    pub stop_at_soft_wraps: bool,
    /// Stop at the line's indentation first.
    pub stop_at_indent: bool,
}

/// Extends the selection to the beginning of the line.
#[derive(Clone, Copy, PartialEq, Eq, Structural, Debug, Default)]
pub struct SelectToBeginningOfLine {
    /// Stop at a soft wrap instead of the line's start.
    pub stop_at_soft_wraps: bool,
    /// Stop at the line's indentation first.
    pub stop_at_indent: bool,
}

/// Deletes to the beginning of the line.
#[derive(Clone, Copy, PartialEq, Eq, Structural, Debug, Default)]
pub struct DeleteToBeginningOfLine {
    /// Stop at the line's indentation first.
    pub stop_at_indent: bool,
}

/// Moves the cursor up by a page.
#[derive(Clone, Copy, PartialEq, Eq, Structural, Debug, Default)]
pub struct MovePageUp {
    /// Center the cursor in the view.
    pub center_cursor: bool,
}

/// Moves the cursor down by a page.
#[derive(Clone, Copy, PartialEq, Eq, Structural, Debug, Default)]
pub struct MovePageDown {
    /// Center the cursor in the view.
    pub center_cursor: bool,
}

/// Moves the cursor to the end of the line.
#[derive(Clone, Copy, PartialEq, Eq, Structural, Debug, Default)]
pub struct MoveToEndOfLine {
    /// Stop at a soft wrap instead of the line's end.
    pub stop_at_soft_wraps: bool,
}

/// Extends the selection to the end of the line.
#[derive(Clone, Copy, PartialEq, Eq, Structural, Debug, Default)]
pub struct SelectToEndOfLine {
    /// Stop at a soft wrap instead of the line's end.
    pub stop_at_soft_wraps: bool,
}

/// Moves the cursor up by a number of lines.
#[derive(Clone, Copy, PartialEq, Eq, Structural, Debug, Default)]
pub struct MoveUpByLines {
    /// The number of lines.
    pub lines: u32,
}

/// Moves the cursor down by a number of lines.
#[derive(Clone, Copy, PartialEq, Eq, Structural, Debug, Default)]
pub struct MoveDownByLines {
    /// The number of lines.
    pub lines: u32,
}

/// Extends the selection up by a number of lines.
#[derive(Clone, Copy, PartialEq, Eq, Structural, Debug, Default)]
pub struct SelectUpByLines {
    /// The number of lines.
    pub lines: u32,
}

/// Extends the selection down by a number of lines.
#[derive(Clone, Copy, PartialEq, Eq, Structural, Debug, Default)]
pub struct SelectDownByLines {
    /// The number of lines.
    pub lines: u32,
}

/// Expands excerpts by a number of lines.
#[derive(Clone, Copy, PartialEq, Eq, Structural, Debug, Default)]
pub struct ExpandExcerpts {
    /// The number of lines.
    pub lines: u32,
}

/// Expands excerpts upward by a number of lines.
#[derive(Clone, Copy, PartialEq, Eq, Structural, Debug, Default)]
pub struct ExpandExcerptsUp {
    /// The number of lines.
    pub lines: u32,
}

/// Expands excerpts downward by a number of lines.
#[derive(Clone, Copy, PartialEq, Eq, Structural, Debug, Default)]
pub struct ExpandExcerptsDown {
    /// The number of lines.
    pub lines: u32,
}

/// Deletes to the end of the next word.
#[derive(Clone, Copy, PartialEq, Eq, Structural, Debug, Default)]
pub struct DeleteToNextWordEnd {
    /// Delete across line breaks.
    pub ignore_newlines: bool,
    /// Do not stop before a bracket of the language.
    pub ignore_brackets: bool,
}

/// Deletes to the start of the previous word.
#[derive(Clone, Copy, PartialEq, Eq, Structural, Debug, Default)]
pub struct DeleteToPreviousWordStart {
    /// Delete across line breaks.
    pub ignore_newlines: bool,
    /// Do not stop before a bracket of the language.
    pub ignore_brackets: bool,
}

/// Deletes to the end of the next subword.
#[derive(Clone, Copy, PartialEq, Eq, Structural, Debug, Default)]
pub struct DeleteToNextSubwordEnd {
    /// Delete across line breaks.
    pub ignore_newlines: bool,
    /// Do not stop before a bracket of the language.
    pub ignore_brackets: bool,
}

/// Deletes to the start of the previous subword.
#[derive(Clone, Copy, PartialEq, Eq, Structural, Debug, Default)]
pub struct DeleteToPreviousSubwordStart {
    /// Delete across line breaks.
    pub ignore_newlines: bool,
    /// Do not stop before a bracket of the language.
    pub ignore_brackets: bool,
}

/// Cuts to the end of the line.
#[derive(Clone, Copy, PartialEq, Eq, Structural, Debug, Default)]
pub struct CutToEndOfLine {
    /// Do not cut the line break at the end of the line.
    pub stop_at_newlines: bool,
}

/// Splits each selection into one per line.
#[derive(Clone, Copy, PartialEq, Eq, Structural, Debug, Default)]
pub struct SplitSelectionIntoLines {
    /// Keep the selections rather than placing cursors.
    pub keep_selections: bool,
}

/// Adds a selection on the line above.
#[derive(Clone, Copy, PartialEq, Eq, Structural, Debug, Default)]
pub struct AddSelectionAbove {
    /// Skip soft-wrapped lines.
    pub skip_soft_wrap: bool,
}

/// Adds a selection on the line below.
#[derive(Clone, Copy, PartialEq, Eq, Structural, Debug, Default)]
pub struct AddSelectionBelow {
    /// Skip soft-wrapped lines.
    pub skip_soft_wrap: bool,
}

/// Inserts the given text.
#[derive(Clone, PartialEq, Eq, Debug, Default)]
pub struct HandleInput(pub String);

/// Folds every region at the given nesting level.
#[derive(Clone, Copy, PartialEq, Eq, Structural, Debug, Default)]
pub struct FoldAtLevel(pub u32);

} // verus!
