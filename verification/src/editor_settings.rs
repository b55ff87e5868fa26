//! The editor's settings that hold no floating-point value, and how the
//! scrollbar setting maps to the scrollbar's visibility.
use vstd::prelude::*;

verus! {

/// Whether the header of the enclosing scope sticks to the top.
#[derive(Clone, Copy, PartialEq, Eq, Structural, Debug)]
pub struct StickyScroll {
    /// Whether sticky scroll is on.
    pub enabled: bool,
}

/// What the toolbar shows.
#[derive(Clone, Copy, PartialEq, Eq, Structural, Debug)]
pub struct Toolbar {
    /// Whether quick actions are shown.
    pub quick_actions: bool,
    /// Whether the selections menu is shown.
    pub selections_menu: bool,
}

/// What the gutter shows.
#[derive(Clone, Copy, PartialEq, Eq, Structural, Debug)]
pub struct Gutter {
    /// The least number of digits kept for line numbers.
    pub min_line_number_digits: usize,
    /// Whether line numbers are shown.
    pub line_numbers: bool,
    /// Whether fold markers are shown.
    pub folds: bool,
}

/// Forcefully enable or disable the scrollbar for each axis.
#[derive(Clone, Copy, PartialEq, Eq, Structural, Debug)]
pub struct ScrollbarAxes {
    /// When false, the horizontal scrollbar is never shown.
    pub horizontal: bool,
    /// When false, the vertical scrollbar is never shown.
    pub vertical: bool,
}

/// Whether selected text can be dragged and dropped.
#[derive(Clone, Copy, PartialEq, Eq, Structural, Debug, Default)]
pub struct DragAndDropSelection {
    /// Whether drag and drop is on.
    pub enabled: bool,
    /// The milliseconds a press must last before a drag starts.
    pub delay: u64,
}

/// When scrollbars are shown, as settings write it.
#[derive(Clone, Copy, PartialEq, Eq, Structural, Debug)]
pub enum ShowScrollbarSetting {
    /// As the platform prefers, shown while scrolling.
    Auto,
    /// As the system settings say.
    System,
    /// Always.
    Always,
    /// Never.
    Never,
}

/// When a scrollbar is shown.
#[derive(Clone, Copy, PartialEq, Eq, Structural, Debug)]
pub enum ShowScrollbar {
    /// As the platform prefers, shown while scrolling.
    Auto,
    /// As the system settings say.
    System,
    /// Always.
    Always,
    /// Never.
    Never,
}

/// The scrollbar visibility that a setting asks for: the same choice.
pub fn ui_scrollbar_settings_from_raw(value: ShowScrollbarSetting) -> (r: ShowScrollbar)
    ensures
        r == match value {
            ShowScrollbarSetting::Auto => ShowScrollbar::Auto,
            ShowScrollbarSetting::System => ShowScrollbar::System,
            ShowScrollbarSetting::Always => ShowScrollbar::Always,
            ShowScrollbarSetting::Never => ShowScrollbar::Never,
        },
{
    match value {
        ShowScrollbarSetting::Auto => ShowScrollbar::Auto,
        ShowScrollbarSetting::System => ShowScrollbar::System,
        ShowScrollbarSetting::Always => ShowScrollbar::Always,
        ShowScrollbarSetting::Never => ShowScrollbar::Never,
    }
}

/// Gives scrollbars the visibility that the editor's settings ask for.
#[derive(Clone, Copy, PartialEq, Eq, Structural, Debug, Default)]
pub struct EditorSettingsScrollbarProxy;

impl EditorSettingsScrollbarProxy {
    /// The visibility of the scrollbars: that of the setting `show`.
    pub fn visibility(&self, show: ShowScrollbarSetting) -> (r: ShowScrollbar)
        ensures
            r == match show {
                ShowScrollbarSetting::Auto => ShowScrollbar::Auto,
                ShowScrollbarSetting::System => ShowScrollbar::System,
                ShowScrollbarSetting::Always => ShowScrollbar::Always,
                ShowScrollbarSetting::Never => ShowScrollbar::Never,
            },
    {
        ui_scrollbar_settings_from_raw(show)
    }
}

} // verus!
