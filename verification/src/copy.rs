//! What a copy puts on the clipboard: an empty selection (or any selection
//! in line mode) copies its whole lines, and the selections' texts are
//! joined with line breaks, trimmed when asked.
use vstd::prelude::*;

use crate::drag::{point_less, point_lt};
use crate::tab::Point;
use crate::text::{trim_end, trim_end_of, trim_start, trim_start_of};

verus! {

/// The part of the buffer a selection copies, and whether a line break
/// follows it on the clipboard.
#[derive(Clone, Copy, PartialEq, Eq, Structural, Debug)]
pub struct CopyRange {
    /// Where the copied text starts.
    pub start: Point,
    /// Where it ends.
    pub end: Point,
    /// Whether a line break is added after it.
    pub trailing_newline: bool,
}

/// What a selection from `start` to `end` copies: itself when it is not
/// empty and the editor is not in line mode; else its whole lines, through
/// the start of the next row when there is one, or to the end of its last
/// row (`end_line_len` long) followed by an added line break.
pub open spec fn copy_range_of(start: Point, end: Point, line_mode: bool, max_point: Point, end_line_len: u32) -> CopyRange {
    if start == end || line_mode {
        let next = Point { row: (end.row + 1) as u32, column: 0 };
        if !point_lt(max_point, next) {
            CopyRange { start: Point { row: start.row, column: 0 }, end: next, trailing_newline: false }
        } else {
            CopyRange {
                start: Point { row: start.row, column: 0 },
                end: Point { row: end.row, column: end_line_len },
                trailing_newline: true,
            }
        }
    } else {
        CopyRange { start, end, trailing_newline: false }
    }
}

/// What a selection copies; `max_point` is the end of the buffer and
/// `end_line_len` the length of the selection's last row.
pub fn copy_range(start: Point, end: Point, line_mode: bool, max_point: Point, end_line_len: u32) -> (r: CopyRange)
    requires
        end.row < u32::MAX,
    ensures
        r == copy_range_of(start, end, line_mode, max_point, end_line_len),
{
    if start == end || line_mode {
        let next = Point { row: end.row + 1, column: 0 };
        if !point_less(max_point, next) {
            CopyRange { start: Point { row: start.row, column: 0 }, end: next, trailing_newline: false }
        } else {
            CopyRange {
                start: Point { row: start.row, column: 0 },
                end: Point { row: end.row, column: end_line_len },
                trailing_newline: true,
            }
        }
    } else {
        CopyRange { start, end, trailing_newline: false }
    }
}

/// One copied piece as it goes on the clipboard: trimmed at both ends when
/// asked, then followed by its added line break, if any.
pub open spec fn copied_piece(text: Seq<char>, trailing_newline: bool, strip: bool) -> Seq<char> {
    (if strip {
        trim_start_of(trim_end_of(text))
    } else {
        text
    }) + (if trailing_newline {
        seq!['\n']
    } else {
        Seq::empty()
    })
}

/// The clipboard text of the copied pieces: each piece as it goes on the
/// clipboard, with a line break between each two.
pub open spec fn clipboard_text_of(pieces: Seq<(Seq<char>, bool)>, strip: bool) -> Seq<char>
    decreases pieces.len(),
{
    if pieces.len() == 0 {
        Seq::empty()
    } else {
        let last = copied_piece(pieces.last().0, pieces.last().1, strip);
        if pieces.len() == 1 {
            last
        } else {
            clipboard_text_of(pieces.drop_last(), strip) + seq!['\n'] + last
        }
    }
}

/// The clipboard text of the copied pieces, each given as its text and
/// whether a line break follows it.
pub fn clipboard_text(pieces: &Vec<(Vec<char>, bool)>, strip: bool) -> (r: Vec<char>)
    ensures
        r@ == clipboard_text_of(pieces@.map_values(|p: (Vec<char>, bool)| (p.0@, p.1)), strip),
{
    let ghost views = pieces@.map_values(|p: (Vec<char>, bool)| (p.0@, p.1));
    let mut out: Vec<char> = Vec::new();
    let mut i: usize = 0;
    while i < pieces.len()
        invariant
            i <= pieces@.len(),
            views == pieces@.map_values(|p: (Vec<char>, bool)| (p.0@, p.1)),
            out@ == clipboard_text_of(views.take(i as int), strip),
        decreases pieces@.len() - i,
    {
        assert(views.take(i as int + 1).drop_last() =~= views.take(i as int));
        assert(views.take(i as int + 1).last() == (pieces@[i as int].0@, pieces@[i as int].1));
        let ghost before = out@;
        if i > 0 {
            out.push('\n');
        }
        let mut text = if strip {
            let t = trim_end(&pieces[i].0);
            trim_start(&t)
        } else {
            pieces[i].0.clone()
        };
        out.append(&mut text);
        if pieces[i].1 {
            out.push('\n');
        }
        let ghost piece = copied_piece(pieces@[i as int].0@, pieces@[i as int].1, strip);
        if i == 0 {
            assert(out@ =~= piece);
        } else {
            assert(out@ =~= before + seq!['\n'] + piece);
        }
        i = i + 1;
    }
    assert(views.take(i as int) =~= views);
    out
}

} // verus!
