//! What follows a change of the selections: the text offered to the
//! system's primary selection, whether the move is recorded in the
//! navigation history, and where to look for the brackets around the cursor.
use vstd::prelude::*;

use crate::text::{len_utf8, utf8_width};

verus! {

/// The texts joined, with a line break between each two.
pub open spec fn joined_lines(texts: Seq<Seq<char>>) -> Seq<char>
    decreases texts.len(),
{
    if texts.len() == 0 {
        Seq::empty()
    } else if texts.len() == 1 {
        texts[0]
    } else {
        joined_lines(texts.drop_last()) + seq!['\n'] + texts.last()
    }
}

/// The text for the primary selection: the text of each selection, with a
/// line break between each two. It is offered only when it is not empty.
pub fn primary_selection_text(texts: &Vec<Vec<char>>) -> (r: Vec<char>)
    ensures
        r@ == joined_lines(texts@.map_values(|t: Vec<char>| t@)),
{
    let ghost views = texts@.map_values(|t: Vec<char>| t@);
    let mut out: Vec<char> = Vec::new();
    let mut i: usize = 0;
    while i < texts.len()
        invariant
            i <= texts@.len(),
            views == texts@.map_values(|t: Vec<char>| t@),
            out@ == joined_lines(views.take(i as int)),
        decreases texts@.len() - i,
    {
        assert(views.take(i as int + 1).drop_last() =~= views.take(i as int));
        assert(views.take(i as int + 1).last() == texts@[i as int]@);
        if i > 0 {
            out.push('\n');
        }
        let mut t = texts[i].clone();
        assert(t@ == texts@[i as int]@);
        out.append(&mut t);
        if i == 0 {
            assert(views.take(1)[0] == texts@[0]@);
            assert(out@ =~= joined_lines(views.take(1)));
        }
        i = i + 1;
    }
    assert(views.take(i as int) =~= views);
    out
}

/// Whether a selection change is recorded in the navigation history, and
/// whether only as a new entry: recorded unless the change asked not to be
/// (`Some(false)`); only as a new entry when it asked to be (`Some(true)`).
pub fn nav_history_entry(nav_history: Option<bool>) -> (r: Option<bool>)
    ensures
        r == match nav_history {
            None => Some(false),
            Some(true) => Some(true),
            Some(false) => None::<bool>,
        },
{
    match nav_history {
        None => Some(false),
        Some(true) => Some(true),
        Some(false) => None,
    }
}

/// What the matching-bracket highlight does after the selections change.
#[derive(Clone, Copy, PartialEq, Eq, Structural, Debug)]
pub enum BracketQuery {
    /// The newest selection is not empty: the highlight is cleared.
    Clear,
    /// The cursor lies past the end of the buffer: nothing is done.
    Skip,
    /// Look for the innermost brackets around the range from `head` to
    /// `tail`.
    Search { head: usize, tail: usize },
}

/// Where to look for the brackets around the cursor: nowhere, and the
/// highlight cleared, when the newest selection is not empty; nowhere when
/// the cursor `head` lies past the buffer's end `len`; else around the
/// cursor, widened over the character under it (`next_char`) when the
/// cursor is a block and not at the end of the buffer.
pub fn bracket_query(selection_empty: bool, head: usize, len: usize, block_cursor: bool, next_char: Option<char>) -> (r:
    BracketQuery)
    requires
        next_char matches Some(c) ==> head + utf8_width(c) <= len,
    ensures
        r == if !selection_empty {
            BracketQuery::Clear
        } else if head > len {
            BracketQuery::Skip
        } else if block_cursor && head < len && next_char is Some {
            BracketQuery::Search { head, tail: (head + utf8_width(next_char->0)) as usize }
        } else {
            BracketQuery::Search { head, tail: head }
        },
{
    if !selection_empty {
        return BracketQuery::Clear;
    }
    if head > len {
        return BracketQuery::Skip;
    }
    let mut tail = head;
    if block_cursor && head < len {
        if let Some(c) = next_char {
            tail = tail + len_utf8(c);
        }
    }
    BracketQuery::Search { head, tail }
}

} // verus!
