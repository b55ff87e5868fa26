//! Small pieces of the editor's state: its mode, the effects of a selection
//! change, the cycle of scroll positions, row highlight options, and what a
//! copy records of each selection.
use vstd::prelude::*;
use crate::change_list::ChangeList;
use crate::language::SettingsSoftWrap;

verus! {

/// How the editor sizes itself.
#[derive(Clone, Copy, PartialEq, Eq, Structural, Debug, Default)]
pub enum SizingBehavior {
    /// Fill the available space, with the scroll margin below the last line.
    #[default]
    Default,
    /// Fill the available space, without the scroll margin.
    ExcludeOverscrollMargin,
    /// As tall as the content, without the scroll margin.
    SizeByContent,
}

/// The kind of editor.
#[derive(Clone, Copy, PartialEq, Eq, Structural, Debug)]
pub enum EditorMode {
    /// A single line of input.
    SingleLine,
    /// As tall as its content, between `min_lines` and `max_lines`.
    AutoHeight { min_lines: usize, max_lines: Option<usize> },
    /// A full editor.
    Full {
        /// Whether UI elements scale with the buffer font size.
        scale_ui_elements_with_buffer_font_size: bool,
        /// Whether the active line has a background.
        show_active_line_background: bool,
        /// How the editor sizes itself.
        sizing_behavior: SizingBehavior,
    },
}

impl EditorMode {
    /// A full editor that scales its UI, shows the active line's background
    /// and fills the available space.
    pub fn full() -> (r: EditorMode)
        ensures
            r == (EditorMode::Full {
                scale_ui_elements_with_buffer_font_size: true,
                show_active_line_background: true,
                sizing_behavior: SizingBehavior::Default,
            }),
    {
        EditorMode::Full {
            scale_ui_elements_with_buffer_font_size: true,
            show_active_line_background: true,
            sizing_behavior: SizingBehavior::Default,
        }
    }

    /// Whether this is a full editor.
    pub fn is_full(&self) -> (r: bool)
        ensures
            r == (*self is Full),
    {
        match self {
            EditorMode::Full { .. } => true,
            _ => false,
        }
    }

    /// Whether this is a single line of input.
    pub fn is_single_line(&self) -> (r: bool)
        ensures
            r == (*self is SingleLine),
    {
        match self {
            EditorMode::SingleLine => true,
            _ => false,
        }
    }
}

/// How a view scrolls to the selection.
#[derive(Clone, Copy, PartialEq, Eq, Structural, Debug)]
pub enum Autoscroll {
    /// Just enough to show the selection.
    Fit,
    /// With the selection in the middle.
    Center,
    /// With the selection at the top.
    Top,
    /// With the selection at the bottom.
    Bottom,
}

/// The side effects of changing the selections.
#[derive(Clone, Copy, PartialEq, Eq, Structural, Debug)]
pub struct SelectionEffects {
    nav_history: Option<bool>,
    scroll: Option<Autoscroll>,
    from_search: bool,
}

impl SelectionEffects {
    /// Whether to record the move in the navigation history; by default
    /// only large moves are.
    pub closed spec fn spec_nav_history(self) -> Option<bool> {
        self.nav_history
    }

    /// How to scroll, if at all.
    pub closed spec fn spec_scroll(self) -> Option<Autoscroll> {
        self.scroll
    }

    /// Whether the change comes from a search.
    pub closed spec fn spec_from_search(self) -> bool {
        self.from_search
    }

    /// Scroll just enough to show the selection, record large moves, not
    /// from a search.
    pub fn default() -> (r: SelectionEffects)
        ensures
            r.spec_nav_history() is None,
            r.spec_scroll() == Some(Autoscroll::Fit),
            !r.spec_from_search(),
    {
        SelectionEffects { nav_history: None, scroll: Some(Autoscroll::Fit), from_search: false }
    }

    /// The default effects, scrolling as `scroll` says.
    pub fn scroll(scroll: Autoscroll) -> (r: SelectionEffects)
        ensures
            r.spec_nav_history() is None,
            r.spec_scroll() == Some(scroll),
            !r.spec_from_search(),
    {
        SelectionEffects { scroll: Some(scroll), ..SelectionEffects::default() }
    }

    /// The default effects, without scrolling.
    pub fn no_scroll() -> (r: SelectionEffects)
        ensures
            r.spec_nav_history() is None,
            r.spec_scroll() is None,
            !r.spec_from_search(),
    {
        SelectionEffects { scroll: None, ..SelectionEffects::default() }
    }

    /// These effects, recording the move in the navigation history or not.
    pub fn nav_history(self, nav_history: bool) -> (r: SelectionEffects)
        ensures
            r.spec_nav_history() == Some(nav_history),
            r.spec_scroll() == self.spec_scroll(),
            r.spec_from_search() == self.spec_from_search(),
    {
        SelectionEffects { nav_history: Some(nav_history), ..self }
    }

    /// These effects, marked as coming from a search or not.
    pub fn from_search(self, from_search: bool) -> (r: SelectionEffects)
        ensures
            r.spec_nav_history() == self.spec_nav_history(),
            r.spec_scroll() == self.spec_scroll(),
            r.spec_from_search() == from_search,
    {
        SelectionEffects { from_search, ..self }
    }
}

/// Where the next "scroll cursor to center, top or bottom" puts the cursor.
#[derive(Clone, Copy, PartialEq, Eq, Structural, Debug, Default)]
pub enum NextScrollCursorCenterTopBottom {
    /// In the middle.
    #[default]
    Center,
    /// At the top.
    Top,
    /// At the bottom.
    Bottom,
}

/// The position after `p` in the cycle center, top, bottom.
pub open spec fn next_scroll_position(p: NextScrollCursorCenterTopBottom) -> NextScrollCursorCenterTopBottom {
    match p {
        NextScrollCursorCenterTopBottom::Center => NextScrollCursorCenterTopBottom::Top,
        NextScrollCursorCenterTopBottom::Top => NextScrollCursorCenterTopBottom::Bottom,
        NextScrollCursorCenterTopBottom::Bottom => NextScrollCursorCenterTopBottom::Center,
    }
}

impl NextScrollCursorCenterTopBottom {
    /// The next position in the cycle center, top, bottom.
    pub fn next(&self) -> (r: NextScrollCursorCenterTopBottom)
        ensures
            r == next_scroll_position(*self),
    {
        match self {
            NextScrollCursorCenterTopBottom::Center => NextScrollCursorCenterTopBottom::Top,
            NextScrollCursorCenterTopBottom::Top => NextScrollCursorCenterTopBottom::Bottom,
            NextScrollCursorCenterTopBottom::Bottom => NextScrollCursorCenterTopBottom::Center,
        }
    }
}

/// Three steps of the cycle center, top, bottom come back to the start, and
/// no fewer do.
pub proof fn lemma_scroll_cycle(p: NextScrollCursorCenterTopBottom)
    ensures
        next_scroll_position(next_scroll_position(next_scroll_position(p))) == p,
        next_scroll_position(p) != p,
        next_scroll_position(next_scroll_position(p)) != p,
{
}

/// How a row highlight behaves.
#[derive(Clone, Copy, PartialEq, Eq, Structural, Debug)]
pub struct RowHighlightOptions {
    /// Whether the view scrolls to the highlight.
    pub autoscroll: bool,
    /// Whether the highlight covers the gutter too.
    pub include_gutter: bool,
}

impl RowHighlightOptions {
    /// No scrolling, with the gutter.
    pub fn default() -> (r: RowHighlightOptions)
        ensures
            r == (RowHighlightOptions { autoscroll: false, include_gutter: true }),
    {
        RowHighlightOptions { autoscroll: false, include_gutter: true }
    }
}

/// What a copy records of one selection.
#[derive(Clone, Debug)]
pub struct ClipboardSelection {
    /// The number of bytes in the selection.
    pub len: usize,
    /// Whether the selection covered whole lines.
    pub is_entire_line: bool,
    /// The indentation of its first line when copied.
    pub first_line_indent: u32,
    /// The file it was copied from, if known.
    pub file_path: Option<String>,
    /// The rows it covered in that file, first and last.
    pub line_range: Option<(u32, u32)>,
}

impl ClipboardSelection {
    /// What a copy records of a selection of `len` bytes: `first_line_indent`
    /// is the indentation of its first row, `file_path` the file it lies in,
    /// if known, and `buffer_rows` its first and last rows in that file's
    /// buffer; the rows are kept only along with a file.
    pub fn for_buffer(
        len: usize,
        is_entire_line: bool,
        first_line_indent: u32,
        file_path: Option<String>,
        buffer_rows: Option<(u32, u32)>,
    ) -> (r: ClipboardSelection)
        ensures
            r.len == len,
            r.is_entire_line == is_entire_line,
            r.first_line_indent == first_line_indent,
            r.file_path == file_path,
            r.line_range == if file_path is Some {
                buffer_rows
            } else {
                None
            },
    {
        let line_range = if file_path.is_some() {
            buffer_rows
        } else {
            None
        };
        ClipboardSelection { len, is_entire_line, first_line_indent, file_path, line_range }
    }
}

/// What may be done to a buffer.
#[derive(Clone, Copy, PartialEq, Eq, Structural, Debug)]
pub enum Capability {
    /// It may be read and written.
    ReadWrite,
    /// It is read-only for now, and may be made writable.
    Read,
    /// It is read-only for good.
    ReadOnly,
}

/// What may be done through an editor: nothing but reading when the editor
/// itself is read-only, else what the buffer allows.
pub fn editor_capability(read_only: bool, buffer: Capability) -> (r: Capability)
    ensures
        r == if read_only {
            Capability::ReadOnly
        } else {
            buffer
        },
{
    if read_only {
        Capability::ReadOnly
    } else {
        buffer
    }
}

/// The capability after "toggle read-only": a writable buffer becomes
/// read-only for now and back; one read-only for good stays so.
pub open spec fn toggle_capability(c: Capability) -> Capability {
    match c {
        Capability::ReadWrite => Capability::Read,
        Capability::Read => Capability::ReadWrite,
        Capability::ReadOnly => Capability::ReadOnly,
    }
}

/// The capability after "toggle read-only".
pub fn toggled_capability(c: Capability) -> (r: Capability)
    ensures
        r == toggle_capability(c),
{
    match c {
        Capability::ReadWrite => Capability::Read,
        Capability::Read => Capability::ReadWrite,
        Capability::ReadOnly => Capability::ReadOnly,
    }
}

/// What toggling read-only does to an editor whose buffer, when it shows a
/// single one, has the capability `singleton`: that buffer's capability is
/// toggled; an editor of several buffers changes nothing (`None`).
pub fn toggle_read_only_plan(singleton: Option<Capability>) -> (r: Option<Capability>)
    ensures
        r == match singleton {
            Some(c) => Some(toggle_capability(c)),
            None => None,
        },
{
    match singleton {
        Some(c) => Some(toggled_capability(c)),
        None => None,
    }
}

/// Toggling read-only twice gives back the capability one started with.
pub proof fn lemma_toggle_read_only_twice(c: Capability)
    ensures
        toggle_capability(toggle_capability(c)) == c,
{
}

/// What a new editor turns on by its mode.
#[derive(Clone, Copy, PartialEq, Eq, Structural, Debug)]
pub struct ModeDefaults {
    /// Whether the scrollbars show (both axes).
    pub show_scrollbars: bool,
    /// Whether the content is offset from the edge.
    pub offset_content: bool,
    /// Whether the gutter shows.
    pub show_gutter: bool,
    /// The line numbers setting: off for an editor that is not full, the
    /// user's choice otherwise.
    pub show_line_numbers: Option<bool>,
    /// Whether the buttons that expand excerpts are off.
    pub disable_expand_excerpt_buttons: bool,
    /// Whether the mouse wheel zooms.
    pub enable_mouse_wheel_zoom: bool,
    /// The indent guides setting: off for a single line, the user's choice
    /// otherwise.
    pub show_indent_guides: Option<bool>,
    /// Whether soft wrapping is turned off whatever the settings say.
    pub soft_wrap_off: bool,
    /// Whether modal editing (such as vim mode) applies.
    pub use_modal_editing: bool,
}

/// The defaults of `mode`, field by field as [`mode_defaults`] states them.
pub open spec fn mode_defaults_spec(mode: EditorMode) -> ModeDefaults {
    ModeDefaults {
        show_scrollbars: mode is Full,
        offset_content: !(mode is SingleLine),
        show_gutter: mode is Full,
        show_line_numbers: if mode is Full { None } else { Some(false) },
        disable_expand_excerpt_buttons: !(mode is Full),
        enable_mouse_wheel_zoom: mode is Full,
        show_indent_guides: if mode is SingleLine { Some(false) } else { None },
        soft_wrap_off: mode is SingleLine,
        use_modal_editing: mode is Full,
    }
}

/// What a new editor of `mode` turns on: a full editor gets scrollbars, a
/// gutter, excerpt buttons, wheel zoom and modal editing; any editor but a
/// single line offsets its content and may show indent guides; a single
/// line never wraps.
pub fn mode_defaults(mode: EditorMode) -> (r: ModeDefaults)
    ensures
        r.show_scrollbars == (mode is Full),
        r.offset_content == !(mode is SingleLine),
        r.show_gutter == (mode is Full),
        r.show_line_numbers == if mode is Full {
            None
        } else {
            Some(false)
        },
        r.disable_expand_excerpt_buttons == !(mode is Full),
        r.enable_mouse_wheel_zoom == (mode is Full),
        r.show_indent_guides == if mode is SingleLine {
            Some(false)
        } else {
            None
        },
        r.soft_wrap_off == (mode is SingleLine),
        r.use_modal_editing == (mode is Full),
        r == mode_defaults_spec(mode),
{
    let full = mode.is_full();
    let single = mode.is_single_line();
    ModeDefaults {
        show_scrollbars: full,
        offset_content: !single,
        show_gutter: full,
        show_line_numbers: if full {
            None
        } else {
            Some(false)
        },
        disable_expand_excerpt_buttons: !full,
        enable_mouse_wheel_zoom: full,
        show_indent_guides: if single {
            Some(false)
        } else {
            None
        },
        soft_wrap_off: single,
        use_modal_editing: full,
    }
}

/// How edits are indented as they are made.
#[derive(Clone, Debug)]
pub enum AutoindentMode {
    /// Each edited line is indented on its own.
    EachLine,
    /// A pasted block keeps its inner indentation, shifted as a whole; the
    /// columns are those the block's lines had where it was copied.
    Block { original_indent_columns: Vec<Option<u32>> },
}

/// The editing state a new editor starts in, whatever its buffer.
pub struct EditorState<A> {
    /// The mode the editor was made with.
    pub mode: EditorMode,
    /// What the mode turns on.
    pub defaults: ModeDefaults,
    /// Whether edits are refused.
    pub read_only: bool,
    /// Whether typed input reaches the buffer.
    pub input_enabled: bool,
    /// Whether typing an opening bracket inserts its closing one.
    pub use_autoclose: bool,
    /// Whether typing an opening bracket over a selection surrounds it.
    pub use_auto_surround: bool,
    /// How edits are indented, if at all.
    pub autoindent_mode: Option<AutoindentMode>,
    /// Whether the other occurrences of the selection are highlighted.
    pub use_selection_highlight: bool,
    /// Whether search matches collapse to their start.
    pub collapse_matches: bool,
    /// The places where the buffer was changed, newest last.
    pub change_list: ChangeList<A>,
}

/// A new editor of `mode`: writable, taking input, closing and surrounding
/// brackets, indenting each edited line, highlighting its selection, with
/// what its mode turns on and an empty change list.
pub fn new_editor_state<A>(mode: EditorMode) -> (r: EditorState<A>)
    ensures
        r.mode == mode,
        r.defaults == mode_defaults_spec(mode),
        !r.read_only,
        r.input_enabled,
        r.use_autoclose,
        r.use_auto_surround,
        r.autoindent_mode matches Some(AutoindentMode::EachLine),
        r.use_selection_highlight,
        !r.collapse_matches,
        r.change_list.changes() == Seq::<(Seq<A>, Option<Seq<A>>)>::empty(),
        r.change_list.position() is None,
{
    EditorState {
        mode,
        defaults: mode_defaults(mode),
        read_only: false,
        input_enabled: true,
        use_autoclose: true,
        use_auto_surround: true,
        autoindent_mode: Some(AutoindentMode::EachLine),
        use_selection_highlight: true,
        collapse_matches: false,
        change_list: ChangeList::new(),
    }
}

/// The rows whose outline gives the sticky headers: from the first visible
/// row to ten rows below it, both kept within the buffer's last row.
pub fn sticky_header_rows(visible_row: u32, max_row: u32) -> (r: (u32, u32))
    requires
        visible_row + 10 <= u32::MAX,
    ensures
        r.0 == if visible_row <= max_row {
            visible_row
        } else {
            max_row
        },
        r.1 == if visible_row + 10 <= max_row {
            (visible_row + 10) as u32
        } else {
            max_row
        },
{
    let start = if visible_row <= max_row {
        visible_row
    } else {
        max_row
    };
    let ten_below = visible_row + 10;
    let end = if ten_below <= max_row {
        ten_below
    } else {
        max_row
    };
    (start, end)
}


/// How the editor wraps its lines.
#[derive(Clone, Copy, PartialEq, Eq, Structural, Debug)]
pub enum EditorSoftWrap {
    /// Wrapping as a diff view does.
    GitDiff,
    /// No wrapping.
    NoWrap,
    /// Wrapping at the editor's width.
    EditorWidth,
    /// Wrapping at the given column, or the editor's width when narrower.
    Bounded(u32),
}

/// The wrapping that a soft-wrap setting gives: none for the settings
/// `NoWrap` and `PreferLine`, the editor's width for `EditorWidth`, and
/// bounded by the preferred line length for `Bounded`.
pub open spec fn soft_wrap_of(setting: SettingsSoftWrap, preferred_line_length: u32) -> EditorSoftWrap {
    match setting {
        SettingsSoftWrap::NoWrap => EditorSoftWrap::NoWrap,
        SettingsSoftWrap::PreferLine => EditorSoftWrap::NoWrap,
        SettingsSoftWrap::EditorWidth => EditorSoftWrap::EditorWidth,
        SettingsSoftWrap::Bounded => EditorSoftWrap::Bounded(preferred_line_length),
    }
}

/// How the editor wraps: by its own override when it has one, else by the
/// language's setting, as `soft_wrap_of` reads it.
pub fn soft_wrap_mode(
    override_mode: Option<SettingsSoftWrap>,
    setting: SettingsSoftWrap,
    preferred_line_length: u32,
) -> (r: EditorSoftWrap)
    ensures
        r == soft_wrap_of(
            match override_mode {
                Some(m) => m,
                None => setting,
            },
            preferred_line_length,
        ),
{
    let mode = match override_mode {
        Some(m) => m,
        None => setting,
    };
    match mode {
        SettingsSoftWrap::NoWrap => EditorSoftWrap::NoWrap,
        SettingsSoftWrap::PreferLine => EditorSoftWrap::NoWrap,
        SettingsSoftWrap::EditorWidth => EditorSoftWrap::EditorWidth,
        SettingsSoftWrap::Bounded => EditorSoftWrap::Bounded(preferred_line_length),
    }
}

/// The wrap guides drawn, each a column and whether it marks the soft-wrap
/// bound: none when the editor turns them off (`show_override` is
/// `Some(false)`) or the settings do; else the bound of a bounded wrap
/// first, then each configured guide.
pub open spec fn wrap_guides_of(
    show_override: Option<bool>,
    show_setting: bool,
    mode: EditorSoftWrap,
    guides: Seq<usize>,
) -> Seq<(usize, bool)> {
    if show_override == Some(false) || !show_setting {
        Seq::empty()
    } else {
        let bound = match mode {
            EditorSoftWrap::Bounded(n) => seq![(n as usize, true)],
            _ => Seq::empty(),
        };
        bound + guides.map_values(|g: usize| (g, false))
    }
}

/// The wrap guides drawn; see `wrap_guides_of`.
pub fn wrap_guides(
    show_override: Option<bool>,
    show_setting: bool,
    mode: EditorSoftWrap,
    guides: &Vec<usize>,
) -> (r: Vec<(usize, bool)>)
    ensures
        r@ == wrap_guides_of(show_override, show_setting, mode, guides@),
{
    let mut r: Vec<(usize, bool)> = Vec::new();
    if show_override == Some(false) || !show_setting {
        return r;
    }
    match mode {
        EditorSoftWrap::Bounded(n) => r.push((n as usize, true)),
        _ => {},
    }
    let ghost bound = r@;
    let mut i: usize = 0;
    while i < guides.len()
        invariant
            i <= guides@.len(),
            r@ == bound + guides@.take(i as int).map_values(|g: usize| (g, false)),
        decreases guides@.len() - i,
    {
        r.push((guides[i], false));
        i = i + 1;
        assert(guides@.take(i as int).map_values(|g: usize| (g, false)) =~= guides@.take(i as int - 1).map_values(
            |g: usize| (g, false),
        ).push((guides@[i as int - 1], false)));
    }
    assert(guides@.take(i as int) =~= guides@);
    r
}

} // verus!
