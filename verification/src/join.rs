//! Joining lines: which rows each selection joins, and where the joined
//! line's text resumes once its indentation and comment or list marker are
//! dropped.
use vstd::prelude::*;

use crate::language::LanguageScope;
use crate::tab::{Point, Selection};
use crate::text::{
    byte_len, has_prefix, is_ws, lemma_utf8_len_concat, starts_with, to_chars, trim_end, trim_end_of, utf8_len, ws_suffix_len,
};

verus! {

/// The row after the last row that `sel` joins: a single-row selection joins
/// its row with the next one, and a selection that ends at the start of a
/// row leaves that row out unless it covers only one row before it.
pub open spec fn join_end_row(sel: Selection) -> int {
    if sel.start.row == sel.end.row {
        sel.start.row + 1
    } else if sel.end.column == 0 {
        if sel.start.row + 1 == sel.end.row {
            sel.end.row as int
        } else {
            sel.end.row - 1
        }
    } else {
        sel.end.row as int
    }
}

/// The row ranges `[start, end)` joined for `sels`, in order: a selection
/// that starts at or before the end of the previous range extends it to its
/// own end instead of starting a new one.
pub open spec fn join_row_ranges_of(sels: Seq<Selection>) -> Seq<(u32, u32)>
    decreases sels.len(),
{
    if sels.len() == 0 {
        Seq::empty()
    } else {
        let prev = join_row_ranges_of(sels.drop_last());
        let sel = sels.last();
        let end = join_end_row(sel) as u32;
        if prev.len() > 0 && sel.start.row <= prev.last().1 {
            prev.update(prev.len() - 1, (prev.last().0, end))
        } else {
            prev.push((sel.start.row, end))
        }
    }
}

/// Each selection runs forward and does not start on the last possible row.
pub open spec fn joinable(sels: Seq<Selection>) -> bool {
    forall|i: int|
        0 <= i < sels.len() ==> (#[trigger] sels[i]).start.row <= sels[i].end.row && sels[i].start.row
            < u32::MAX
}

/// Consecutive ranges are apart: each starts after the previous one ends.
pub open spec fn ranges_apart(r: Seq<(u32, u32)>) -> bool {
    forall|i: int| 0 <= i < r.len() - 1 ==> #[trigger] r[i].1 < r[i + 1].0
}

/// The row ranges that joining lines works on, one per group of selections
/// that touch.
pub fn join_row_ranges(sels: &Vec<Selection>) -> (r: Vec<(u32, u32)>)
    requires
        joinable(sels@),
    ensures
        r@ == join_row_ranges_of(sels@),
        ranges_apart(r@),
        sels@.len() > 0 ==> r@.len() > 0,
        r@.len() <= sels@.len(),
{
    let mut r: Vec<(u32, u32)> = Vec::new();
    let mut i: usize = 0;
    while i < sels.len()
        invariant
            i <= sels@.len(),
            joinable(sels@),
            r@ == join_row_ranges_of(sels@.take(i as int)),
            ranges_apart(r@),
            i > 0 ==> r@.len() > 0,
            r@.len() <= i,
        decreases sels@.len() - i,
    {
        let sel = sels[i];
        assert(sels@.take(i as int + 1).drop_last() =~= sels@.take(i as int));
        assert(sels@[i as int].start.row <= sels@[i as int].end.row);
        let end: u32 = if sel.start.row == sel.end.row {
            sel.start.row + 1
        } else if sel.end.column == 0 {
            if sel.start.row + 1 == sel.end.row {
                sel.end.row
            } else {
                sel.end.row - 1
            }
        } else {
            sel.end.row
        };
        let n = r.len();
        if n > 0 && sel.start.row <= r[n - 1].1 {
            let first = r[n - 1].0;
            r.set(n - 1, (first, end));
        } else {
            r.push((sel.start.row, end));
        }
        i = i + 1;
    }
    assert(sels@.take(i as int) =~= sels@);
    r
}

/// How much of `text` the marker `p` covers: `p` itself when `text` starts
/// with it, else `p` without trailing whitespace when `text` starts with
/// that, in bytes.
pub open spec fn prefix_candidate(text: Seq<char>, p: Seq<char>) -> Option<nat> {
    if has_prefix(text, trim_end_of(p)) {
        Some(
            if has_prefix(text, p) {
                utf8_len(p)
            } else {
                utf8_len(trim_end_of(p))
            },
        )
    } else {
        None
    }
}

/// The longest of the markers in `ps` that `text` starts with, in bytes.
pub open spec fn longest_prefix(text: Seq<char>, ps: Seq<Seq<char>>) -> Option<nat>
    decreases ps.len(),
{
    if ps.len() == 0 {
        None
    } else {
        let prev = longest_prefix(text, ps.drop_last());
        match prefix_candidate(text, ps.last()) {
            Some(c) => if prev is None || c > prev->0 {
                Some(c)
            } else {
                prev
            },
            None => prev,
        }
    }
}

/// The markers dropped from the start of a joined line in `scope`: its
/// line-comment prefixes, the non-empty continuation prefixes of its block
/// and documentation comments, and its unordered-list markers.
pub open spec fn join_markers(scope: LanguageScope) -> Seq<Seq<char>> {
    scope.spec_line_comment_prefixes().map_values(|s: String| s@) + block_marker(scope) + doc_marker(scope)
        + scope.language.config.unordered_list@.map_values(|s: String| s@)
}

/// The continuation prefix of the scope's block comments, where it is not empty.
pub open spec fn block_marker(scope: LanguageScope) -> Seq<Seq<char>> {
    match scope.spec_block_comment() {
        Some(b) => if b.prefix@.len() > 0 {
            seq![b.prefix@]
        } else {
            Seq::empty()
        },
        None => Seq::empty(),
    }
}

/// The continuation prefix of the language's documentation comments, where
/// it is not empty.
pub open spec fn doc_marker(scope: LanguageScope) -> Seq<Seq<char>> {
    match scope.language.config.documentation_comment {
        Some(b) => if b.prefix@.len() > 0 {
            seq![b.prefix@]
        } else {
            Seq::empty()
        },
        None => Seq::empty(),
    }
}

proof fn lemma_ws_suffix_within(s: Seq<char>)
    ensures
        ws_suffix_len(s) <= s.len(),
    decreases s.len(),
{
    if s.len() > 0 && is_ws(s.last()) {
        lemma_ws_suffix_within(s.drop_last());
    }
}

/// A marker that `text` starts with covers all of itself.
proof fn lemma_candidate_of_prefix(text: Seq<char>, p: Seq<char>)
    requires
        has_prefix(text, p),
    ensures
        prefix_candidate(text, p) == Some(utf8_len(p)),
{
    lemma_ws_suffix_within(p);
    let t = trim_end_of(p);
    assert(text.take(t.len() as int) =~= t) by {
        assert forall|i: int| 0 <= i < t.len() implies text.take(t.len() as int)[i] == t[i] by {
            assert(text.take(p.len() as int)[i] == p[i]);
        }
    }
}

/// The longest marker found covers at least any one marker that `text`
/// starts with.
proof fn lemma_longest_covers(text: Seq<char>, ps: Seq<Seq<char>>, i: int)
    requires
        0 <= i < ps.len(),
        has_prefix(text, ps[i]),
    ensures
        longest_prefix(text, ps) matches Some(n) && n >= utf8_len(ps[i]),
    decreases ps.len(),
{
    lemma_candidate_of_prefix(text, ps[i]);
    if i < ps.len() - 1 {
        lemma_longest_covers(text, ps.drop_last(), i);
    }
}

proof fn lemma_prefix_len_within(text: Seq<char>, q: Seq<char>)
    requires
        has_prefix(text, q),
    ensures
        utf8_len(q) <= utf8_len(text),
{
    assert(text =~= q + text.skip(q.len() as int));
    lemma_utf8_len_concat(q, text.skip(q.len() as int));
}

/// The longest marker found never runs past the end of `text`.
proof fn lemma_longest_within(text: Seq<char>, ps: Seq<Seq<char>>)
    ensures
        longest_prefix(text, ps) matches Some(n) ==> n <= utf8_len(text),
    decreases ps.len(),
{
    if ps.len() > 0 {
        lemma_longest_within(text, ps.drop_last());
        let p = ps.last();
        if has_prefix(text, trim_end_of(p)) {
            lemma_prefix_len_within(text, trim_end_of(p));
            if has_prefix(text, p) {
                lemma_prefix_len_within(text, p);
            }
        }
    }
}

/// Joining a line that starts, after its indentation, with one of its
/// scope's unordered-list markers drops that marker: the joined text
/// resumes at least that marker's length past the indentation (for a line
/// whose columns fit in `u32`).
pub proof fn lemma_join_drops_list_marker(indent_len: u32, text: Seq<char>, scope: LanguageScope, i: int)
    requires
        0 <= i < scope.language.config.unordered_list@.len(),
        has_prefix(text, scope.language.config.unordered_list@[i]@),
        text.len() > 0,
        indent_len + utf8_len(text) <= u32::MAX,
    ensures
        join_start_column(indent_len, text, Some(scope)) >= indent_len + utf8_len(
            scope.language.config.unordered_list@[i]@,
        ),
{
    let ms = join_markers(scope);
    let lists = scope.language.config.unordered_list@.map_values(|s: String| s@);
    let before = scope.spec_line_comment_prefixes().map_values(|s: String| s@) + block_marker(scope)
        + doc_marker(scope);
    assert(ms == before + lists);
    let k = before.len() + i;
    assert(ms[k] == scope.language.config.unordered_list@[i]@);
    lemma_longest_covers(text, ms, k);
    lemma_longest_within(text, ms);
}

/// `a + b`, or `u32::MAX` where that overflows.
pub open spec fn saturating(a: u32, b: u32) -> u32 {
    if a + b > u32::MAX {
        u32::MAX
    } else {
        (a + b) as u32
    }
}

/// The column at which the joined line's text resumes: after its
/// indentation and after the longest marker of its scope that its text
/// starts with.
pub open spec fn join_start_column(indent_len: u32, text: Seq<char>, scope: Option<LanguageScope>) -> u32 {
    match scope {
        Some(sc) => if text.len() > 0 {
            match longest_prefix(text, join_markers(sc)) {
                Some(n) => saturating(indent_len, n as u32),
                None => indent_len,
            }
        } else {
            indent_len
        },
        None => indent_len,
    }
}

fn push_strings(out: &mut Vec<Vec<char>>, v: &[String])
    ensures
        final(out)@.len() == old(out)@.len() + v@.len(),
        forall|i: int| 0 <= i < old(out)@.len() ==> (#[trigger] final(out)@[i])@ == old(out)@[i]@,
        forall|k: int|
            old(out)@.len() <= k < final(out)@.len() ==> (#[trigger] final(out)@[k])@ == v@[k - old(out)@.len()]@,
{
    let ghost o = out@;
    let mut i: usize = 0;
    while i < v.len()
        invariant
            i <= v@.len(),
            out@.len() == o.len() + i,
            forall|k: int| 0 <= k < o.len() ==> (#[trigger] out@[k])@ == o[k]@,
            forall|k: int| o.len() <= k < out@.len() ==> (#[trigger] out@[k])@ == v@[k - o.len()]@,
        decreases v@.len() - i,
    {
        out.push(to_chars(v[i].as_str()));
        i = i + 1;
    }
}

/// The markers dropped from the start of a joined line in `scope`.
fn markers(scope: &LanguageScope) -> (r: Vec<Vec<char>>)
    ensures
        r@.len() == join_markers(*scope).len(),
        forall|i: int| 0 <= i < r@.len() ==> (#[trigger] r@[i])@ == join_markers(*scope)[i],
{
    let ghost s = join_markers(*scope);
    let ghost lines = scope.spec_line_comment_prefixes().map_values(|s: String| s@);
    let ghost block = block_marker(*scope);
    let ghost doc = doc_marker(*scope);
    let ghost lists = scope.language.config.unordered_list@.map_values(|s: String| s@);
    assert(s == lines + block + doc + lists);
    let mut r: Vec<Vec<char>> = Vec::new();
    push_strings(&mut r, scope.line_comment_prefixes());
    let ghost n1 = r@.len();
    assert(forall|i: int| 0 <= i < n1 ==> (#[trigger] r@[i])@ == lines[i]);
    if let Some(b) = scope.block_comment() {
        if !b.prefix.as_str().is_empty() {
            r.push(to_chars(b.prefix.as_str()));
        }
    }
    let ghost n2 = r@.len();
    assert(n2 == n1 + block.len());
    assert(forall|i: int| 0 <= i < n1 ==> (#[trigger] r@[i])@ == lines[i]);
    assert(forall|i: int| n1 <= i < n2 ==> (#[trigger] r@[i])@ == block[i - n1]);
    if let Some(b) = scope.documentation_comment() {
        if !b.prefix.as_str().is_empty() {
            r.push(to_chars(b.prefix.as_str()));
        }
    }
    let ghost n3 = r@.len();
    assert(n3 == n2 + doc.len());
    assert(forall|i: int| 0 <= i < n1 ==> (#[trigger] r@[i])@ == lines[i]);
    assert(forall|i: int| n1 <= i < n2 ==> (#[trigger] r@[i])@ == block[i - n1]);
    assert(forall|i: int| n2 <= i < n3 ==> (#[trigger] r@[i])@ == doc[i - n2]);
    push_strings(&mut r, scope.unordered_list());
    proof {
        assert forall|i: int| 0 <= i < r@.len() implies (#[trigger] r@[i])@ == s[i] by {
            if i < n1 {
                assert(s[i] == lines[i]);
            } else if i < n2 {
                assert(s[i] == block[i - n1]);
            } else if i < n3 {
                assert(s[i] == doc[i - n2]);
            } else {
                assert(s[i] == lists[i - n3]);
            }
        }
    }
    r
}

/// How much of `text` the marker `p` covers, in bytes.
fn candidate(text: &Vec<char>, p: &Vec<char>) -> (r: Option<u128>)
    ensures
        prefix_candidate(text@, p@) == match r {
            Some(n) => Some(n as nat),
            None => None::<nat>,
        },
{
    let trimmed = trim_end(p);
    if starts_with(text, &trimmed) {
        if starts_with(text, p) {
            Some(byte_len(p))
        } else {
            Some(byte_len(&trimmed))
        }
    } else {
        None
    }
}

/// The longest of the markers `ps` that `text` starts with, in bytes.
fn longest(text: &Vec<char>, ps: &Vec<Vec<char>>, Ghost(spec_ps): Ghost<Seq<Seq<char>>>) -> (r: Option<u128>)
    requires
        ps@.len() == spec_ps.len(),
        forall|i: int| 0 <= i < ps@.len() ==> (#[trigger] ps@[i])@ == spec_ps[i],
    ensures
        longest_prefix(text@, spec_ps) == match r {
            Some(n) => Some(n as nat),
            None => None::<nat>,
        },
{
    let mut best: Option<u128> = None;
    let mut i: usize = 0;
    while i < ps.len()
        invariant
            i <= ps@.len(),
            ps@.len() == spec_ps.len(),
            forall|k: int| 0 <= k < ps@.len() ==> (#[trigger] ps@[k])@ == spec_ps[k],
            longest_prefix(text@, spec_ps.take(i as int)) == match best {
                Some(n) => Some(n as nat),
                None => None::<nat>,
            },
        decreases ps@.len() - i,
    {
        assert(spec_ps.take(i as int + 1).drop_last() =~= spec_ps.take(i as int));
        assert(spec_ps.take(i as int + 1).last() == ps@[i as int]@);
        let c = candidate(text, &ps[i]);
        match c {
            Some(n) => {
                match best {
                    Some(b) => {
                        if n > b {
                            best = Some(n);
                        }
                    },
                    None => {
                        best = Some(n);
                    },
                }
            },
            None => {},
        }
        i = i + 1;
    }
    assert(spec_ps.take(i as int) =~= spec_ps);
    best
}

/// Where the joined line's text resumes, and whether a space replaces the
/// line break: `indent_len` is the indentation of the line being joined,
/// `text` its text after that indentation, `line_len` its length, and
/// `scope` the language scope at the end of its indentation.
pub fn join_line(
    text: &Vec<char>,
    indent_len: u32,
    line_len: u32,
    insert_whitespace: bool,
    scope: Option<&LanguageScope>,
) -> (r: (u32, bool))
    ensures
        r.0 == join_start_column(
            indent_len,
            text@,
            match scope {
                Some(s) => Some(*s),
                None => None,
            },
        ),
        r.1 == (line_len > r.0 && insert_whitespace),
{
    let mut column = indent_len;
    if let Some(sc) = scope {
        if text.len() > 0 {
            let ms = markers(sc);
            let found = longest(text, &ms, Ghost(join_markers(*sc)));
            if let Some(n) = found {
                column = indent_len.saturating_add(n as u32);
            }
        }
    }
    (column, line_len > column && insert_whitespace)
}


/// One row of a range being joined, as the joined line takes it: its
/// length, the column where its text resumes (its indentation and marker
/// dropped), and whether a space joins it to the row before.
#[derive(Clone, Copy, PartialEq, Eq, Structural, Debug)]
pub struct JoinPiece {
    /// The row's length.
    pub line_len: u32,
    /// The column where the row's kept text starts.
    pub join_col: u32,
    /// Whether a space replaces the line break before this row.
    pub space: bool,
}

/// The column, in the joined line, where the last of `pieces` ends: the
/// first row is kept whole, and each later row adds its separator and its
/// text from its join column on.
pub open spec fn joined_width(pieces: Seq<JoinPiece>) -> int
    decreases pieces.len(),
{
    if pieces.len() <= 1 {
        if pieces.len() == 0 { 0 } else { pieces[0].line_len as int }
    } else {
        let p = pieces.last();
        joined_width(pieces.drop_last()) + (if p.space { 1int } else { 0int }) + p.line_len - p.join_col
    }
}

/// The rows that the ranges before the `k`-th remove: each range
/// `[start, end)` folds `end - start` line breaks away.
pub open spec fn removed_rows(ranges: Seq<(u32, u32)>, k: int) -> int
    decreases k,
{
    if k <= 0 {
        0
    } else {
        removed_rows(ranges, k - 1) + ranges[k - 1].1 - ranges[k - 1].0
    }
}

/// The pieces of each range are those of its rows `start .. end - 1` (the
/// row `end` is joined after the cursor), each keeps its text within the
/// row, and the joined columns fit in `u32`.
pub open spec fn pieces_fit(ranges: Seq<(u32, u32)>, pieces: Seq<Seq<JoinPiece>>) -> bool {
    &&& pieces.len() == ranges.len()
    &&& forall|k: int| 0 <= k < ranges.len() ==> (#[trigger] ranges[k]).0 < ranges[k].1
    &&& forall|k: int| 0 <= k < ranges.len() ==> (#[trigger] pieces[k]).len() == ranges[k].1 - ranges[k].0
    &&& forall|k: int, j: int|
        0 <= k < pieces.len() && 0 <= j < pieces[k].len() ==> (#[trigger] pieces[k][j]).join_col
            <= pieces[k][j].line_len
    &&& forall|k: int, j: int|
        0 <= k < pieces.len() && 0 <= j <= pieces[k].len() ==> #[trigger] joined_width(
            pieces[k].take(j),
        ) <= u32::MAX
}

/// Where the cursor of one joined range lands: at the end of its last row
/// before the break that was joined, in the text after the join. The row is
/// its first row, moved up by the `removed` rows that earlier ranges folded
/// away; the column is the joined width of its rows.
fn joined_cursor(start: u32, removed: u32, pieces: &Vec<JoinPiece>) -> (r: Point)
    requires
        removed <= start,
        pieces@.len() >= 1,
        forall|j: int| 0 <= j < pieces@.len() ==> (#[trigger] pieces@[j]).join_col <= pieces@[j].line_len,
        forall|j: int| 0 <= j <= pieces@.len() ==> #[trigger] joined_width(pieces@.take(j)) <= u32::MAX,
    ensures
        r == (Point { row: (start - removed) as u32, column: joined_width(pieces@) as u32 }),
{
    let mut col: u32 = pieces[0].line_len;
    assert(pieces@.take(1).drop_last().len() == 0);
    let mut j: usize = 1;
    while j < pieces.len()
        invariant
            1 <= j <= pieces@.len(),
            forall|i: int| 0 <= i < pieces@.len() ==> (#[trigger] pieces@[i]).join_col <= pieces@[i].line_len,
            forall|i: int| 0 <= i <= pieces@.len() ==> #[trigger] joined_width(pieces@.take(i)) <= u32::MAX,
            col == joined_width(pieces@.take(j as int)),
        decreases pieces@.len() - j,
    {
        let p = pieces[j];
        let ghost next = pieces@.take(j as int + 1);
        assert(next.drop_last() =~= pieces@.take(j as int));
        assert(next.last() == pieces@[j as int]);
        assert(joined_width(next) <= u32::MAX);
        let sep: u32 = if p.space { 1 } else { 0 };
        col = col + sep + (p.line_len - p.join_col);
        j = j + 1;
    }
    assert(pieces@.take(j as int) =~= pieces@);
    Point { row: start - removed, column: col }
}

/// Where the cursors land after joining the lines of `ranges` (from
/// [`join_row_ranges`]): one cursor per range, at the end of the range's
/// last row before the break that was joined, in the text after the join.
/// `pieces[k]` describes the rows `start .. end - 1` of the `k`-th range.
pub fn join_cursors(ranges: &Vec<(u32, u32)>, pieces: &Vec<Vec<JoinPiece>>) -> (r: Vec<Point>)
    requires
        ranges_apart(ranges@),
        pieces_fit(ranges@, pieces@.map_values(|v: Vec<JoinPiece>| v@)),
    ensures
        r@.len() == ranges@.len(),
        forall|k: int|
            0 <= k < ranges@.len() ==> #[trigger] r@[k] == (Point {
                row: (ranges@[k].0 - removed_rows(ranges@, k)) as u32,
                column: joined_width(pieces@[k]@) as u32,
            }),
{
    let ghost ps = pieces@.map_values(|v: Vec<JoinPiece>| v@);
    let mut r: Vec<Point> = Vec::new();
    let mut removed: u32 = 0;
    let mut k: usize = 0;
    while k < ranges.len()
        invariant
            k <= ranges@.len(),
            ranges_apart(ranges@),
            ps == pieces@.map_values(|v: Vec<JoinPiece>| v@),
            pieces_fit(ranges@, ps),
            r@.len() == k,
            removed == removed_rows(ranges@, k as int),
            k > 0 ==> removed <= ranges@[k - 1].1,
            forall|i: int|
                0 <= i < k ==> #[trigger] r@[i] == (Point {
                    row: (ranges@[i].0 - removed_rows(ranges@, i)) as u32,
                    column: joined_width(pieces@[i]@) as u32,
                }),
        decreases ranges@.len() - k,
    {
        let (start, end) = ranges[k];
        assert(ranges@[k as int].0 < ranges@[k as int].1);
        if k > 0 {
            assert(ranges@[k - 1].1 < ranges@[k as int].0);
        }
        assert(ps[k as int] == pieces@[k as int]@);
        assert forall|j: int| 0 <= j < pieces@[k as int]@.len() implies (#[trigger] pieces@[k as int]@[j]).join_col
            <= pieces@[k as int]@[j].line_len by {
            assert(ps[k as int][j] == pieces@[k as int]@[j]);
        }
        assert forall|j: int| 0 <= j <= pieces@[k as int]@.len() implies #[trigger] joined_width(
            pieces@[k as int]@.take(j),
        ) <= u32::MAX by {
            assert(joined_width(ps[k as int].take(j)) <= u32::MAX);
        }
        let p = joined_cursor(start, removed, &pieces[k]);
        r.push(p);
        removed = removed + (end - start);
        k = k + 1;
    }
    r
}

} // verus!
