//! Copying text with its syntax highlighting: the highlighted chunks of a
//! range are cut into lines, and neighbouring pieces of a line with the
//! same highlight are merged.
use vstd::prelude::*;

use crate::text::{append_chars, str_eq};

verus! {

/// A piece of text and the name of its highlight, if any.
pub struct HighlightChunk {
    /// The text.
    pub text: Vec<char>,
    /// The highlight's name.
    pub highlight: Option<String>,
}

/// A piece of text and its highlight, as values.
pub type ChunkView = (Seq<char>, Option<Seq<char>>);

/// The value of an optional string.
pub open spec fn opt_view(o: Option<String>) -> Option<Seq<char>> {
    match o {
        Some(s) => Some(s@),
        None => None,
    }
}

/// The value of a chunk.
pub open spec fn chunk_view(c: HighlightChunk) -> ChunkView {
    (c.text@, opt_view(c.highlight))
}

/// The value of a line of chunks.
pub open spec fn line_view(l: Seq<HighlightChunk>) -> Seq<ChunkView> {
    l.map_values(|c: HighlightChunk| chunk_view(c))
}

/// The values of a sequence of chunks.
pub open spec fn chunks_view(cs: Seq<HighlightChunk>) -> Seq<ChunkView> {
    cs.map_values(|c: HighlightChunk| chunk_view(c))
}

/// The value of lines of chunks.
pub open spec fn lines_view(ls: Seq<Vec<HighlightChunk>>) -> Seq<Seq<ChunkView>> {
    ls.map_values(|l: Vec<HighlightChunk>| line_view(l@))
}

/// `s` cut at each line break, as `str::split('\n')` cuts it: one more
/// part than there are line breaks.
pub open spec fn split_lines(s: Seq<char>) -> Seq<Seq<char>>
    decreases s.len(),
{
    if s.len() == 0 {
        seq![Seq::empty()]
    } else {
        let p = split_lines(s.drop_last());
        if s.last() == '\n' {
            p.push(Seq::empty())
        } else {
            p.update(p.len() - 1, p.last().push(s.last()))
        }
    }
}

/// The lines finished so far and the line being built.
pub type LinesState = (Seq<Seq<ChunkView>>, Seq<ChunkView>);

/// The line after a piece of text with highlight `hl` is added: merged into
/// the last piece when that has the same highlight.
pub open spec fn add_piece(line: Seq<ChunkView>, text: Seq<char>, hl: Option<Seq<char>>) -> Seq<ChunkView> {
    if line.len() > 0 && line.last().1 == hl {
        line.update(line.len() - 1, (line.last().0 + text, hl))
    } else {
        line.push((text, hl))
    }
}

/// A finished line without an empty first or last piece, when it has more
/// than one.
pub open spec fn trimmed_line(line: Seq<ChunkView>) -> Seq<ChunkView> {
    let l = if line.len() > 1 && line[0].0.len() == 0 {
        line.drop_first()
    } else {
        line
    };
    if l.len() > 1 && l.last().0.len() == 0 {
        l.drop_last()
    } else {
        l
    }
}

/// The state after the first `k` parts of a chunk, with highlight `hl`, are
/// added; every part but the chunk's last ends a line.
pub open spec fn feed_parts(st: LinesState, parts: Seq<Seq<char>>, k: int, hl: Option<Seq<char>>) -> LinesState
    decreases k,
{
    if k <= 0 {
        st
    } else {
        let (lines, line) = feed_parts(st, parts, k - 1, hl);
        let line1 = add_piece(line, parts[k - 1], hl);
        if k - 1 < parts.len() - 1 {
            (lines.push(trimmed_line(line1)), Seq::empty())
        } else {
            (lines, line1)
        }
    }
}

/// The state after the first `i` chunks.
pub open spec fn feed_chunks(chunks: Seq<ChunkView>, i: int) -> LinesState
    decreases i,
{
    if i <= 0 {
        (Seq::empty(), Seq::empty())
    } else {
        let parts = split_lines(chunks[i - 1].0);
        feed_parts(feed_chunks(chunks, i - 1), parts, parts.len() as int, chunks[i - 1].1)
    }
}

/// The lines of highlighted chunks: the finished lines, and the last line
/// when some of its text is not empty.
pub open spec fn highlight_lines_of(chunks: Seq<ChunkView>) -> Seq<Seq<ChunkView>> {
    let (lines, line) = feed_chunks(chunks, chunks.len() as int);
    if exists|j: int| 0 <= j < line.len() && #[trigger] line[j].0.len() > 0 {
        lines.push(line)
    } else {
        lines
    }
}

/// No two neighbouring pieces of a line have the same highlight.
pub open spec fn no_equal_neighbours(line: Seq<ChunkView>) -> bool {
    forall|i: int| 0 <= i < line.len() - 1 ==> (#[trigger] line[i]).1 != line[i + 1].1
}

/// Every finished line and the line being built have no two neighbouring
/// pieces with the same highlight.
pub open spec fn state_merged(st: LinesState) -> bool {
    &&& forall|j: int| 0 <= j < st.0.len() ==> no_equal_neighbours(#[trigger] st.0[j])
    &&& no_equal_neighbours(st.1)
}

proof fn lemma_add_piece_merged(line: Seq<ChunkView>, text: Seq<char>, hl: Option<Seq<char>>)
    requires
        no_equal_neighbours(line),
    ensures
        no_equal_neighbours(add_piece(line, text, hl)),
{
    let r = add_piece(line, text, hl);
    assert forall|i: int| 0 <= i < r.len() - 1 implies (#[trigger] r[i]).1 != r[i + 1].1 by {
        if line.len() > 0 && line.last().1 == hl {
            if i + 1 == line.len() - 1 {
                assert(r[i + 1].1 == hl);
                assert(line[i].1 != line[i + 1].1);
            } else {
                assert(r[i] == line[i] && r[i + 1] == line[i + 1]);
            }
        } else {
            if i + 1 == line.len() {
                assert(r[i] == line.last());
            } else {
                assert(r[i] == line[i] && r[i + 1] == line[i + 1]);
            }
        }
    }
}

proof fn lemma_trimmed_line_merged(line: Seq<ChunkView>)
    requires
        no_equal_neighbours(line),
    ensures
        no_equal_neighbours(trimmed_line(line)),
{
    let l = if line.len() > 1 && line[0].0.len() == 0 {
        line.drop_first()
    } else {
        line
    };
    assert(no_equal_neighbours(l)) by {
        assert forall|i: int| 0 <= i < l.len() - 1 implies (#[trigger] l[i]).1 != l[i + 1].1 by {
            if line.len() > 1 && line[0].0.len() == 0 {
                assert(l[i] == line[i + 1] && l[i + 1] == line[i + 2]);
            }
        }
    }
    let t = trimmed_line(line);
    assert forall|i: int| 0 <= i < t.len() - 1 implies (#[trigger] t[i]).1 != t[i + 1].1 by {
        assert(t[i] == l[i] && t[i + 1] == l[i + 1]);
    }
}

proof fn lemma_feed_parts_merged(st: LinesState, parts: Seq<Seq<char>>, k: int, hl: Option<Seq<char>>)
    requires
        state_merged(st),
    ensures
        state_merged(feed_parts(st, parts, k, hl)),
    decreases k,
{
    if k > 0 {
        lemma_feed_parts_merged(st, parts, k - 1, hl);
        let (lines, line) = feed_parts(st, parts, k - 1, hl);
        let line1 = add_piece(line, parts[k - 1], hl);
        lemma_add_piece_merged(line, parts[k - 1], hl);
        if k - 1 < parts.len() - 1 {
            lemma_trimmed_line_merged(line1);
            let l2 = lines.push(trimmed_line(line1));
            assert forall|j: int| 0 <= j < l2.len() implies no_equal_neighbours(#[trigger] l2[j]) by {
                if j < lines.len() {
                    assert(l2[j] == lines[j]);
                }
            }
        }
    }
}

proof fn lemma_feed_chunks_merged(chunks: Seq<ChunkView>, i: int)
    ensures
        state_merged(feed_chunks(chunks, i)),
    decreases i,
{
    if i > 0 {
        lemma_feed_chunks_merged(chunks, i - 1);
        let parts = split_lines(chunks[i - 1].0);
        lemma_feed_parts_merged(feed_chunks(chunks, i - 1), parts, parts.len() as int, chunks[i - 1].1);
    }
}

/// Pieces of a line with the same highlight are merged: no line of the
/// result has two neighbouring pieces with the same highlight.
pub proof fn lemma_highlight_lines_merged(chunks: Seq<ChunkView>)
    ensures
        forall|j: int|
            0 <= j < highlight_lines_of(chunks).len() ==> no_equal_neighbours(#[trigger] highlight_lines_of(chunks)[j]),
{
    lemma_feed_chunks_merged(chunks, chunks.len() as int);
    let (lines, line) = feed_chunks(chunks, chunks.len() as int);
    let r = highlight_lines_of(chunks);
    assert forall|j: int| 0 <= j < r.len() implies no_equal_neighbours(#[trigger] r[j]) by {
        if j < lines.len() {
            assert(r[j] == lines[j]);
        }
    }
}

proof fn lemma_split_lines_len(s: Seq<char>)
    ensures
        split_lines(s).len() >= 1,
    decreases s.len(),
{
    if s.len() > 0 {
        lemma_split_lines_len(s.drop_last());
    }
}

fn split_at_line_breaks(s: &Vec<char>) -> (r: Vec<Vec<char>>)
    ensures
        r@.len() == split_lines(s@).len(),
        forall|i: int| 0 <= i < r@.len() ==> (#[trigger] r@[i])@ == split_lines(s@)[i],
{
    let mut parts: Vec<Vec<char>> = Vec::new();
    parts.push(Vec::new());
    let mut i: usize = 0;
    assert(s@.take(0) =~= Seq::<char>::empty());
    while i < s.len()
        invariant
            i <= s@.len(),
            parts@.len() == split_lines(s@.take(i as int)).len(),
            parts@.len() >= 1,
            forall|k: int| 0 <= k < parts@.len() ==> (#[trigger] parts@[k])@ == split_lines(s@.take(i as int))[k],
        decreases s@.len() - i,
    {
        let c = s[i];
        assert(s@.take(i as int + 1).drop_last() =~= s@.take(i as int));
        assert(s@.take(i as int + 1).last() == c);
        if c == '\n' {
            parts.push(Vec::new());
        } else {
            let n = parts.len();
            parts[n - 1].push(c);
        }
        i = i + 1;
    }
    assert(s@.take(i as int) =~= s@);
    parts
}

fn same_highlight(a: &Option<String>, b: &Option<String>) -> (r: bool)
    ensures
        r == (opt_view(*a) == opt_view(*b)),
{
    match (a, b) {
        (Some(x), Some(y)) => str_eq(x.as_str(), y.as_str()),
        (None, None) => true,
        _ => false,
    }
}

fn copy_highlight(a: &Option<String>) -> (r: Option<String>)
    ensures
        opt_view(r) == opt_view(*a),
{
    match a {
        Some(x) => Some(x.clone()),
        None => None,
    }
}

/// The lines of the highlighted chunks of a range: each chunk is cut at its
/// line breaks; a piece joins the last piece of its line when both have the
/// same highlight; a finished line loses an empty first or last piece when
/// it has more than one; the last line is kept when some of its text is not
/// empty.
pub fn highlight_lines(chunks: &Vec<HighlightChunk>) -> (r: Vec<Vec<HighlightChunk>>)
    ensures
        lines_view(r@) == highlight_lines_of(chunks_view(chunks@)),
{
    let ghost cv = chunks_view(chunks@);
    let mut lines: Vec<Vec<HighlightChunk>> = Vec::new();
    let mut line: Vec<HighlightChunk> = Vec::new();
    let mut i: usize = 0;
    assert(lines_view(lines@) =~= Seq::<Seq<ChunkView>>::empty());
    assert(line_view(line@) =~= Seq::<ChunkView>::empty());
    while i < chunks.len()
        invariant
            i <= chunks@.len(),
            cv == chunks_view(chunks@),
            (lines_view(lines@), line_view(line@)) == feed_chunks(cv, i as int),
        decreases chunks@.len() - i,
    {
        let hl = &chunks[i].highlight;
        let parts = split_at_line_breaks(&chunks[i].text);
        let ghost spec_parts = split_lines(cv[i as int].0);
        let ghost st0 = feed_chunks(cv, i as int);
        assert(cv[i as int] == chunk_view(chunks@[i as int]));
        proof {
            lemma_split_lines_len(cv[i as int].0);
        }
        let np = parts.len();
        let mut k: usize = 0;
        while k < np
            invariant
                k <= np,
                np == parts@.len(),
                np == spec_parts.len(),
                forall|x: int| 0 <= x < np ==> (#[trigger] parts@[x])@ == spec_parts[x],
                opt_view(*hl) == cv[i as int].1,
                (lines_view(lines@), line_view(line@)) == feed_parts(st0, spec_parts, k as int, cv[i as int].1),
            decreases np - k,
        {
            let text = &parts[k];
            let n = line.len();
            let ghost before = line_view(line@);
            if n > 0 && same_highlight(&line[n - 1].highlight, hl) {
                append_chars(&mut line[n - 1].text, text);
                assert(line_view(line@) =~= add_piece(before, spec_parts[k as int], cv[i as int].1));
            } else {
                line.push(HighlightChunk { text: text.clone(), highlight: copy_highlight(hl) });
                assert(line_view(line@) =~= add_piece(before, spec_parts[k as int], cv[i as int].1));
            }
            if k < np - 1 {
                let ghost l1 = line_view(line@);
                if line.len() > 1 && line[0].text.len() == 0 {
                    line.remove(0);
                }
                let ghost l2 = line_view(line@);
                assert(l2 =~= if l1.len() > 1 && l1[0].0.len() == 0 { l1.drop_first() } else { l1 });
                if line.len() > 1 && line[line.len() - 1].text.len() == 0 {
                    line.pop();
                }
                assert(line_view(line@) =~= trimmed_line(l1));
                let mut fresh: Vec<HighlightChunk> = Vec::new();
                std::mem::swap(&mut line, &mut fresh);
                lines.push(fresh);
                assert(lines_view(lines@) =~= feed_parts(st0, spec_parts, k as int, cv[i as int].1).0.push(trimmed_line(l1)));
                assert(line_view(line@) =~= Seq::<ChunkView>::empty());
            }
            k = k + 1;
        }
        i = i + 1;
    }
    assert(cv.len() == chunks@.len());
    assert((lines_view(lines@), line_view(line@)) == feed_chunks(cv, cv.len() as int));
    let ghost last = line_view(line@);
    let mut j: usize = 0;
    let mut any = false;
    let ghost mut witness: int = 0;
    while j < line.len()
        invariant
            j <= line@.len(),
            last == line_view(line@),
            last.len() == line@.len(),
            any ==> 0 <= witness < j && last[witness].0.len() > 0,
            !any ==> forall|x: int| 0 <= x < j ==> #[trigger] last[x].0.len() == 0,
        decreases line@.len() - j,
    {
        if line[j].text.len() > 0 {
            any = true;
            proof {
                witness = j as int;
            }
        }
        j = j + 1;
    }
    let ghost fin = feed_chunks(cv, cv.len() as int);
    if any {
        lines.push(line);
        assert(fin.1[witness].0.len() > 0);
        assert(lines_view(lines@) =~= fin.0.push(fin.1));
    } else {
        assert(!exists|x: int| 0 <= x < fin.1.len() && #[trigger] fin.1[x].0.len() > 0);
    }
    lines
}

} // verus!
