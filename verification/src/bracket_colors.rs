//! Rainbow brackets: which bracket ranges of newly fetched chunks are
//! colored, with which accent, and the per-accent lists of ranges kept in
//! order of their start.
use vstd::multiset::Multiset;
use vstd::prelude::*;

use crate::editor_state::EditorMode;

verus! {

broadcast use vstd::seq_lib::group_to_multiset_ensures;

/// A byte range `[start, end)`.
pub type ByteRange = (usize, usize);

/// A matched pair of brackets: the ranges of the opening and the closing
/// bracket, and the nesting depth that picks its color, where it has one.
#[derive(Clone, Copy, Debug)]
pub struct BracketMatch {
    /// The range of the opening bracket.
    pub open_range: ByteRange,
    /// The range of the closing bracket.
    pub close_range: ByteRange,
    /// The color index, if the pair is colored.
    pub color_index: Option<usize>,
}

/// The bracket pairs found in one chunk of rows `[rows.0, rows.1)`.
pub struct BracketChunk {
    /// The rows of the chunk.
    pub rows: (u32, u32),
    /// The pairs found in it.
    pub pairs: Vec<BracketMatch>,
}

/// The set of row chunks whose brackets were already colored.
pub struct FetchedChunks {
    rows: Vec<(u32, u32)>,
}

impl View for FetchedChunks {
    type V = Set<(u32, u32)>;

    closed spec fn view(&self) -> Set<(u32, u32)> {
        Set::new(|r: (u32, u32)| self.rows@.contains(r))
    }
}

impl FetchedChunks {
    /// No chunk fetched yet.
    pub fn new() -> (r: FetchedChunks)
        ensures
            r@ == Set::<(u32, u32)>::empty(),
    {
        let r = FetchedChunks { rows: Vec::new() };
        assert(r@ =~= Set::<(u32, u32)>::empty());
        r
    }

    /// Whether the chunk `rows` was fetched.
    pub fn contains(&self, rows: (u32, u32)) -> (r: bool)
        ensures
            r == self@.contains(rows),
    {
        let mut i: usize = 0;
        while i < self.rows.len()
            invariant
                i <= self.rows@.len(),
                forall|k: int| 0 <= k < i ==> self.rows@[k] != rows,
            decreases self.rows@.len() - i,
        {
            if self.rows[i].0 == rows.0 && self.rows[i].1 == rows.1 {
                assert(self.rows@.contains(rows));
                return true;
            }
            i = i + 1;
        }
        false
    }

    /// Records the chunk `rows`; returns whether it is new.
    pub fn insert(&mut self, rows: (u32, u32)) -> (added: bool)
        ensures
            added == !old(self)@.contains(rows),
            final(self)@ == old(self)@.insert(rows),
    {
        if self.contains(rows) {
            assert(self@ =~= old(self)@.insert(rows));
            false
        } else {
            let ghost old_rows = self.rows@;
            self.rows.push(rows);
            assert forall|r: (u32, u32)| self.rows@.contains(r) <==> (old_rows.contains(r) || r == rows) by {
                if old_rows.contains(r) {
                    let k = choose|k: int| 0 <= k < old_rows.len() && old_rows[k] == r;
                    assert(self.rows@[k] == r);
                }
                if self.rows@.contains(r) {
                    let k = choose|k: int| 0 <= k < self.rows@.len() && self.rows@[k] == r;
                    if k < old_rows.len() {
                        assert(old_rows[k] == r);
                    }
                }
                if r == rows {
                    assert(self.rows@[old_rows.len() as int] == r);
                }
            }
            assert(self@ =~= old(self)@.insert(rows));
            true
        }
    }

    /// Forgets every chunk.
    pub fn clear(&mut self)
        ensures
            final(self)@ == Set::<(u32, u32)>::empty(),
    {
        self.rows.clear();
        assert(self@ =~= Set::<(u32, u32)>::empty());
    }
}

/// The pairs of the chunks not fetched before, in order, and the fetched
/// chunks afterwards: a chunk that occurs twice contributes once.
pub open spec fn fresh_pairs(chunks: Seq<BracketChunk>, fetched: Set<(u32, u32)>) -> (Seq<BracketMatch>, Set<(u32, u32)>)
    decreases chunks.len(),
{
    if chunks.len() == 0 {
        (Seq::empty(), fetched)
    } else {
        let (pairs, f) = fresh_pairs(chunks.drop_last(), fetched);
        let c = chunks.last();
        if f.contains(c.rows) {
            (pairs, f)
        } else {
            (pairs + c.pairs@, f.insert(c.rows))
        }
    }
}

/// Whether `r` lies within `context`.
pub open spec fn within(context: ByteRange, r: ByteRange) -> bool {
    context.0 <= r.0 && r.1 <= context.1
}

/// The bracket ranges of `p` that lie within `context`, opening one first.
pub open spec fn visible_ranges(p: BracketMatch, context: ByteRange) -> Seq<ByteRange> {
    (if within(context, p.open_range) {
        seq![p.open_range]
    } else {
        Seq::empty()
    }) + (if within(context, p.close_range) {
        seq![p.close_range]
    } else {
        Seq::empty()
    })
}

/// For each colored pair, in order, its accent (its color index modulo the
/// number of accents) and its ranges within `context`.
pub open spec fn colored_pairs(pairs: Seq<BracketMatch>, context: ByteRange, accents: usize) -> Seq<(usize, Seq<ByteRange>)>
    decreases pairs.len(),
{
    if pairs.len() == 0 {
        Seq::empty()
    } else {
        let prev = colored_pairs(pairs.drop_last(), context, accents);
        let p = pairs.last();
        match p.color_index {
            Some(c) => prev.push(((c % accents) as usize, visible_ranges(p, context))),
            None => prev,
        }
    }
}

/// The accents and ranges of a list of colored pairs, as values.
pub open spec fn found_view(found: Seq<(usize, Vec<ByteRange>)>) -> Seq<(usize, Seq<ByteRange>)> {
    found.map_values(|e: (usize, Vec<ByteRange>)| (e.0, e.1@))
}

/// The ranges of `p` within `context`.
fn ranges_within(p: &BracketMatch, context: ByteRange) -> (r: Vec<ByteRange>)
    ensures
        r@ == visible_ranges(*p, context),
{
    let mut r: Vec<ByteRange> = Vec::new();
    if context.0 <= p.open_range.0 && p.open_range.1 <= context.1 {
        r.push(p.open_range);
    }
    if context.0 <= p.close_range.0 && p.close_range.1 <= context.1 {
        r.push(p.close_range);
    }
    assert(r@ =~= visible_ranges(*p, context));
    r
}

/// The chunks counted as fetched before a coloring pass: none when the
/// pass invalidates what was fetched, else those of `fetched`.
pub open spec fn fetched_before(fetched: Set<(u32, u32)>, invalidate: bool) -> Set<(u32, u32)> {
    if invalidate {
        Set::empty()
    } else {
        fetched
    }
}

/// A bracket coloring pass in an editor of `mode`: only a full editor
/// colors brackets, so any other leaves `fetched` alone and finds nothing
/// (`None`); a full one forgets the fetched chunks first when `invalidate`
/// is set, then colors the brackets of the chunks not fetched before.
pub fn colorize_brackets(
    mode: EditorMode,
    invalidate: bool,
    chunks: &Vec<BracketChunk>,
    fetched: &mut FetchedChunks,
    context: ByteRange,
    accents_count: usize,
) -> (r: Option<Vec<(usize, Vec<ByteRange>)>>)
    requires
        mode is Full ==> accents_count > 0,
    ensures
        !(mode is Full) ==> r is None && final(fetched)@ == old(fetched)@,
        mode is Full ==> r is Some && found_view(r->0@) == colored_pairs(
            fresh_pairs(chunks@, fetched_before(old(fetched)@, invalidate)).0,
            context,
            accents_count,
        ) && final(fetched)@ == fresh_pairs(chunks@, fetched_before(old(fetched)@, invalidate)).1,
{
    if !mode.is_full() {
        return None;
    }
    if invalidate {
        fetched.clear();
    }
    Some(compute_bracket_ranges(chunks, fetched, context, accents_count))
}

/// The colored bracket ranges of the chunks not fetched before, each with
/// its accent; records those chunks as fetched. `context` is the part of the
/// buffer that is shown, and `accents_count` the number of accent colors.
pub fn compute_bracket_ranges(
    chunks: &Vec<BracketChunk>,
    fetched: &mut FetchedChunks,
    context: ByteRange,
    accents_count: usize,
) -> (r: Vec<(usize, Vec<ByteRange>)>)
    requires
        accents_count > 0,
    ensures
        found_view(r@) == colored_pairs(fresh_pairs(chunks@, old(fetched)@).0, context, accents_count),
        final(fetched)@ == fresh_pairs(chunks@, old(fetched)@).1,
{
    let ghost f0 = fetched@;
    let mut r: Vec<(usize, Vec<ByteRange>)> = Vec::new();
    let mut i: usize = 0;
    while i < chunks.len()
        invariant
            i <= chunks@.len(),
            accents_count > 0,
            found_view(r@) == colored_pairs(fresh_pairs(chunks@.take(i as int), f0).0, context, accents_count),
            fetched@ == fresh_pairs(chunks@.take(i as int), f0).1,
        decreases chunks@.len() - i,
    {
        let chunk = &chunks[i];
        let ghost before = fresh_pairs(chunks@.take(i as int), f0).0;
        assert(chunks@.take(i as int + 1).drop_last() =~= chunks@.take(i as int));
        assert(chunks@.take(i as int + 1).last() == chunks@[i as int]);
        if fetched.insert(chunk.rows) {
            let mut j: usize = 0;
            while j < chunk.pairs.len()
                invariant
                    j <= chunk.pairs@.len(),
                    accents_count > 0,
                    found_view(r@) == colored_pairs(before + chunk.pairs@.take(j as int), context, accents_count),
                decreases chunk.pairs@.len() - j,
            {
                let p = &chunk.pairs[j];
                let ghost prev_r = r@;
                assert((before + chunk.pairs@.take(j as int + 1)).drop_last() =~= before + chunk.pairs@.take(j as int));
                assert((before + chunk.pairs@.take(j as int + 1)).last() == chunk.pairs@[j as int]);
                if let Some(c) = p.color_index {
                    let ranges = ranges_within(p, context);
                    r.push((c % accents_count, ranges));
                    assert(found_view(r@) =~= found_view(prev_r).push(((c % accents_count) as usize, visible_ranges(*p, context))));
                }
                j = j + 1;
            }
            assert(chunk.pairs@.take(j as int) =~= chunk.pairs@);
        }
        i = i + 1;
    }
    assert(chunks@.take(i as int) =~= chunks@);
    r
}

/// Whether the ranges are in order of their start.
pub open spec fn sorted_by_start(s: Seq<ByteRange>) -> bool {
    forall|i: int, j: int| 0 <= i < j < s.len() ==> s[i].0 <= s[j].0
}

/// All ranges of the entries of `found` with accent `accent`, in order.
pub open spec fn accent_ranges(found: Seq<(usize, Seq<ByteRange>)>, accent: int) -> Seq<ByteRange>
    decreases found.len(),
{
    if found.len() == 0 {
        Seq::empty()
    } else {
        accent_ranges(found.drop_last(), accent) + (if found.last().0 == accent {
            found.last().1
        } else {
            Seq::empty()
        })
    }
}

/// Inserts `r` after every range that starts before it and before the
/// others, so that the ranges stay in order of their start.
fn insert_by_start(v: &mut Vec<ByteRange>, r: ByteRange)
    requires
        sorted_by_start(old(v)@),
    ensures
        sorted_by_start(final(v)@),
        final(v)@.to_multiset() == old(v)@.to_multiset().insert(r),
{
    let mut lo: usize = 0;
    let mut hi: usize = v.len();
    while lo < hi
        invariant
            0 <= lo <= hi <= v@.len(),
            sorted_by_start(v@),
            forall|k: int| 0 <= k < lo ==> v@[k].0 < r.0,
            forall|k: int| hi <= k < v@.len() ==> v@[k].0 >= r.0,
        decreases hi - lo,
    {
        let mid = lo + (hi - lo) / 2;
        if v[mid].0 < r.0 {
            lo = mid + 1;
        } else {
            hi = mid;
        }
    }
    let ghost old_v = v@;
    v.insert(lo, r);
    proof {
        vstd::seq_lib::to_multiset_insert(old_v, lo as int, r);
        assert forall|i: int, j: int| 0 <= i < j < v@.len() implies v@[i].0 <= v@[j].0 by {
            if j < lo {
            } else if j == lo {
                assert(old_v[i].0 < r.0);
            } else if i < lo {
                assert(v@[j] == old_v[j - 1]);
            } else if i == lo {
                assert(v@[j] == old_v[j - 1]);
            } else {
                assert(v@[i] == old_v[i - 1]);
                assert(v@[j] == old_v[j - 1]);
            }
        }
    }
}

/// The colored bracket ranges of the shown excerpts, one list per accent,
/// each kept in order of the ranges' start.
pub struct BracketHighlights {
    by_accent: Vec<Vec<ByteRange>>,
}

impl BracketHighlights {
    /// Every list is in order of the ranges' start.
    pub closed spec fn wf(&self) -> bool {
        forall|a: int| 0 <= a < self.by_accent@.len() ==> sorted_by_start(#[trigger] self.by_accent@[a]@)
    }

    /// The number of accents.
    pub closed spec fn accents(&self) -> nat {
        self.by_accent@.len()
    }

    /// The ranges colored with accent `a`.
    pub closed spec fn ranges(&self, a: int) -> Seq<ByteRange> {
        self.by_accent@[a]@
    }

    /// No range yet, for `accents_count` accents.
    pub fn new(accents_count: usize) -> (r: BracketHighlights)
        ensures
            r.wf(),
            r.accents() == accents_count,
            forall|a: int| 0 <= a < accents_count ==> (#[trigger] r.ranges(a)) == Seq::<ByteRange>::empty(),
    {
        let mut by_accent: Vec<Vec<ByteRange>> = Vec::new();
        let mut i: usize = 0;
        while i < accents_count
            invariant
                i <= accents_count,
                by_accent@.len() == i,
                forall|a: int| 0 <= a < i ==> (#[trigger] by_accent@[a])@ == Seq::<ByteRange>::empty(),
            decreases accents_count - i,
        {
            by_accent.push(Vec::new());
            i = i + 1;
        }
        BracketHighlights { by_accent }
    }

    /// The ranges colored with accent `accent`, in order of their start.
    pub fn ranges_for(&self, accent: usize) -> (r: &Vec<ByteRange>)
        requires
            accent < self.accents(),
        ensures
            r@ == self.ranges(accent as int),
    {
        &self.by_accent[accent]
    }

    /// Adds the ranges of `found` to the list of their accent.
    pub fn merge(&mut self, found: &Vec<(usize, Vec<ByteRange>)>)
        requires
            old(self).wf(),
            forall|i: int| 0 <= i < found@.len() ==> (#[trigger] found@[i]).0 < old(self).accents(),
        ensures
            final(self).wf(),
            final(self).accents() == old(self).accents(),
            forall|a: int|
                0 <= a < old(self).accents() ==> (#[trigger] final(self).ranges(a)).to_multiset() == old(
                    self,
                ).ranges(a).to_multiset().add(accent_ranges(found_view(found@), a).to_multiset()),
    {
        let ghost s0 = *self;
        let mut i: usize = 0;
        while i < found.len()
            invariant
                i <= found@.len(),
                self.wf(),
                self.accents() == s0.accents(),
                forall|k: int| 0 <= k < found@.len() ==> (#[trigger] found@[k]).0 < s0.accents(),
                forall|a: int|
                    0 <= a < s0.accents() ==> (#[trigger] self.ranges(a)).to_multiset() == s0.ranges(a).to_multiset().add(
                        accent_ranges(found_view(found@).take(i as int), a).to_multiset(),
                    ),
            decreases found@.len() - i,
        {
            let accent = found[i].0;
            let ranges = &found[i].1;
            let ghost fv = found_view(found@);
            assert(fv.take(i as int + 1).drop_last() =~= fv.take(i as int));
            assert(fv.take(i as int + 1).last() == (accent, ranges@));
            let ghost mid = *self;
            let mut j: usize = 0;
            while j < ranges.len()
                invariant
                    j <= ranges@.len(),
                    accent < s0.accents(),
                    self.wf(),
                    self.accents() == s0.accents(),
                    forall|a: int| 0 <= a < s0.accents() && a != accent ==> #[trigger] self.ranges(a) == mid.ranges(a),
                    self.ranges(accent as int).to_multiset() == mid.ranges(accent as int).to_multiset().add(
                        ranges@.take(j as int).to_multiset(),
                    ),
                decreases ranges@.len() - j,
            {
                let r = ranges[j];
                let ghost ba = self.by_accent@;
                assert forall|a: int| 0 <= a < s0.accents() && a != accent implies ba[a]@ == mid.ranges(a) by {
                    assert(self.ranges(a) == mid.ranges(a));
                }
                assert(sorted_by_start(self.by_accent@[accent as int]@));
                insert_by_start(&mut self.by_accent[accent], r);
                proof {
                    assert forall|a: int| 0 <= a < s0.accents() && a != accent implies #[trigger] self.ranges(a)
                        == mid.ranges(a) by {
                        assert(self.by_accent@[a] == ba[a]);
                    }
                    assert(ranges@.take(j as int + 1) =~= ranges@.take(j as int).push(r));
                    vstd::seq_lib::to_multiset_build(ranges@.take(j as int), r);
                    assert forall|a: int| 0 <= a < self.by_accent@.len() implies sorted_by_start(
                        #[trigger] self.by_accent@[a]@,
                    ) by {}
                }
                j = j + 1;
            }
            proof {
                assert(ranges@.take(j as int) =~= ranges@);
                assert forall|a: int| 0 <= a < s0.accents() implies (#[trigger] self.ranges(a)).to_multiset()
                    == s0.ranges(a).to_multiset().add(accent_ranges(fv.take(i as int + 1), a).to_multiset()) by {
                    let prev = accent_ranges(fv.take(i as int), a);
                    vstd::seq_lib::lemma_multiset_commutative(
                        prev,
                        if accent == a { ranges@ } else { Seq::empty() },
                    );
                    if a != accent {
                        assert(Seq::<ByteRange>::empty().to_multiset() =~= Multiset::empty());
                        assert(prev + Seq::<ByteRange>::empty() =~= prev);
                    }
                }
            }
            i = i + 1;
        }
        assert(found_view(found@).take(i as int) =~= found_view(found@));
    }
}


/// Every chunk whose pairs were taken is fetched afterwards, and chunks
/// fetched before stay fetched.
pub proof fn lemma_fresh_pairs_fetches(chunks: Seq<BracketChunk>, fetched: Set<(u32, u32)>)
    ensures
        forall|i: int| 0 <= i < chunks.len() ==> fresh_pairs(chunks, fetched).1.contains(#[trigger] chunks[i].rows),
        forall|r: (u32, u32)| fetched.contains(r) ==> fresh_pairs(chunks, fetched).1.contains(r),
    decreases chunks.len(),
{
    if chunks.len() > 0 {
        lemma_fresh_pairs_fetches(chunks.drop_last(), fetched);
        assert forall|i: int| 0 <= i < chunks.len() implies fresh_pairs(chunks, fetched).1.contains(
            #[trigger] chunks[i].rows,
        ) by {
            if i < chunks.len() - 1 {
                assert(chunks.drop_last()[i] == chunks[i]);
            }
        }
    }
}

/// Chunks that are all fetched contribute no pair.
pub proof fn lemma_fetched_chunks_add_nothing(chunks: Seq<BracketChunk>, fetched: Set<(u32, u32)>)
    requires
        forall|i: int| 0 <= i < chunks.len() ==> fetched.contains(#[trigger] chunks[i].rows),
    ensures
        fresh_pairs(chunks, fetched).0 == Seq::<BracketMatch>::empty(),
        fresh_pairs(chunks, fetched).1 == fetched,
    decreases chunks.len(),
{
    if chunks.len() > 0 {
        assert forall|i: int| 0 <= i < chunks.drop_last().len() implies fetched.contains(
            #[trigger] chunks.drop_last()[i].rows,
        ) by {
            assert(chunks.drop_last()[i] == chunks[i]);
        }
        lemma_fetched_chunks_add_nothing(chunks.drop_last(), fetched);
        assert(fetched.contains(chunks[chunks.len() - 1].rows));
    }
}

/// Coloring the same chunks a second time colors nothing: every chunk was
/// fetched by the first time.
pub proof fn lemma_second_fetch_is_empty(chunks: Seq<BracketChunk>, fetched: Set<(u32, u32)>, context: ByteRange, accents: usize)
    ensures
        colored_pairs(fresh_pairs(chunks, fresh_pairs(chunks, fetched).1).0, context, accents) == Seq::<
            (usize, Seq<ByteRange>),
        >::empty(),
        fresh_pairs(chunks, fresh_pairs(chunks, fetched).1).1 == fresh_pairs(chunks, fetched).1,
{
    lemma_fresh_pairs_fetches(chunks, fetched);
    lemma_fetched_chunks_add_nothing(chunks, fresh_pairs(chunks, fetched).1);
}

} // verus!
