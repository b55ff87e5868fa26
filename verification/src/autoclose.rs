//! Which bracket pair typed text opens or closes.
use vstd::prelude::*;

use crate::language::{BracketPair, LanguageScope};
use crate::text::{ends_with, has_suffix, is_ws, str_eq, sub_chars, to_chars};
use vstd::utf8::encode_utf8;

verus! {

/// Scans the bracket pairs (each with whether it is enabled) from index `k`
/// for the one that `text` typed after `before` opens; failing that, the
/// first that it closes, remembered in `end_match`. The result is the pair's
/// index and whether the text opens it.
pub open spec fn input_bracket_scan(
    pairs: Seq<BracketPair>,
    flags: Seq<bool>,
    k: int,
    text: Seq<char>,
    before: Seq<char>,
    end_match: Option<int>,
) -> Option<(int, bool)>
    decreases pairs.len() - k,
{
    if k < 0 || k >= pairs.len() {
        match end_match {
            Some(j) => Some((j, false)),
            None => None,
        }
    } else {
        let p = pairs[k];
        if !p.close && !p.surround {
            input_bracket_scan(pairs, flags, k + 1, text, before, end_match)
        } else {
            let prefix = p.start@.take(p.start@.len() - text.len());
            if flags[k] && has_suffix(p.start@, text) && (prefix.len() == 0 || has_suffix(
                before,
                prefix,
            )) {
                Some((k, true))
            } else {
                input_bracket_scan(
                    pairs,
                    flags,
                    k + 1,
                    text,
                    before,
                    if p.end@ == text && end_match is None {
                        Some(k)
                    } else {
                        end_match
                    },
                )
            }
        }
    }
}

/// The bracket pair of `scope` that non-empty `text`, typed after `before`
/// (the line up to the cursor), opens or closes.
pub open spec fn spec_input_bracket(text: Seq<char>, before: Seq<char>, scope: LanguageScope) -> Option<
    (int, bool),
> {
    if text.len() == 0 {
        None
    } else {
        input_bracket_scan(
            scope.language.config.brackets.pairs@,
            scope.spec_bracket_flags(),
            0,
            text,
            before,
            None,
        )
    }
}

/// The bracket pair of `scope` that `text`, typed after `before` (the line
/// up to the cursor), opens or closes, as the pair's index and whether the
/// text opens it. Only pairs that close or surround count. Text opens an
/// enabled pair when the pair's opening ends with it and the rest of the
/// opening precedes the cursor; otherwise it closes the first pair whose
/// closing it equals.
pub fn bracket_pair_for_input(text: &str, before: &str, scope: &LanguageScope) -> (r: Option<
    (usize, bool),
>)
    ensures
        match spec_input_bracket(text@, before@, *scope) {
            Some((j, opens)) => r == Some((j as usize, opens)),
            None => r is None,
        },
        r matches Some((j, opens)) ==> spec_input_bracket(text@, before@, *scope) == Some((j as int, opens)),
{
    let t = to_chars(text);
    if t.len() == 0 {
        return None;
    }
    let b = to_chars(before);
    let brackets = scope.brackets();
    let ghost pairs = scope.language.config.brackets.pairs@;
    let ghost flags = scope.spec_bracket_flags();
    let mut end_match: Option<usize> = None;
    let mut k: usize = 0;
    while k < brackets.len()
        invariant
            k <= brackets@.len(),
            brackets@.len() == pairs.len(),
            t@ == text@,
            b@ == before@,
            t@.len() > 0,
            pairs == scope.language.config.brackets.pairs@,
            flags == scope.spec_bracket_flags(),
            forall|i: int|
                0 <= i < brackets@.len() ==> *(#[trigger] brackets@[i]).0 == pairs[i]
                    && brackets@[i].1 == flags[i],
            end_match matches Some(j) ==> j < k,
            spec_input_bracket(text@, before@, *scope) == input_bracket_scan(
                pairs,
                flags,
                k as int,
                t@,
                b@,
                match end_match {
                    Some(j) => Some(j as int),
                    None => None,
                },
            ),
        decreases brackets.len() - k,
    {
        let (pair, enabled) = brackets[k];
        assert(*pair == pairs[k as int] && enabled == flags[k as int]);
        if pair.close || pair.surround {
            let start = to_chars(pair.start.as_str());
            if enabled && ends_with(&start, &t) {
                let prefix = sub_chars(&start, 0, start.len() - t.len());
                assert(prefix@ =~= start@.take(start@.len() - t@.len()));
                if prefix.len() == 0 || ends_with(&b, &prefix) {
                    return Some((k, true));
                }
            }
            let end = to_chars(pair.end.as_str());
            let same = end.len() == t.len() && ends_with(&end, &t);
            assert(same == (end@ == t@)) by {
                if end@.len() == t@.len() {
                    assert(end@.skip(0) =~= end@);
                }
            }
            if same && end_match.is_none() {
                end_match = Some(k);
            }
        }
        k = k + 1;
    }
    match end_match {
        Some(j) => Some((j, false)),
        None => None,
    }
}


/// Whether `text` holds `s` at byte offset `at`.
pub open spec fn contains_at(text: Seq<u8>, at: int, s: Seq<u8>) -> bool {
    0 <= at && at + s.len() <= text.len() && text.subrange(at, at + s.len()) == s
}

/// Whether `text` holds `s` at byte offset `at`.
pub fn contains_str_at(text: &[u8], at: usize, s: &[u8]) -> (r: bool)
    ensures
        r == contains_at(text@, at as int, s@),
{
    if at > text.len() || s.len() > text.len() - at {
        return false;
    }
    let n = text.len();
    let mut i: usize = 0;
    while i < s.len()
        invariant
            n == text@.len(),
            at + s@.len() <= text@.len(),
            i <= s@.len(),
            forall|k: int| 0 <= k < i ==> text@[at + k] == s@[k],
        decreases s@.len() - i,
    {
        if text[at + i] != s[i] {
            assert(text@.subrange(at as int, at + s@.len())[i as int] != s@[i as int]);
            return false;
        }
        i = i + 1;
    }
    assert(text@.subrange(at as int, at + s@.len()) =~= s@);
    true
}

/// What scanning the bracket pairs from index `k` finds around an empty
/// selection at `at`.
#[derive(Clone, Copy, PartialEq, Eq, Structural, Debug)]
pub enum PairScan {
    /// A pair whose closing text follows and whose opening text precedes:
    /// the selection that covers both.
    Found(usize, usize),
    /// A pair whose closing text follows and whose opening text, which is
    /// longer than the offset, starts the text.
    Underflow,
    /// No such pair.
    Missing,
}

/// The first enabled pair that closes automatically whose closing text
/// follows `at` and whose opening text precedes it, scanning from index `k`.
pub open spec fn pair_scan(text: Seq<u8>, at: usize, pairs: Seq<BracketPair>, flags: Seq<bool>, k: int) -> PairScan
    decreases pairs.len() - k,
{
    if k < 0 || k >= pairs.len() {
        PairScan::Missing
    } else {
        let p = pairs[k];
        let sb = encode_utf8(p.start@);
        let eb = encode_utf8(p.end@);
        if flags[k] && p.close && contains_at(text, at as int, eb) && contains_at(
            text,
            if at >= sb.len() { at - sb.len() } else { 0 },
            sb,
        ) {
            if at >= sb.len() {
                PairScan::Found((at - sb.len()) as usize, (at + eb.len()) as usize)
            } else {
                PairScan::Underflow
            }
        } else {
            pair_scan(text, at, pairs, flags, k + 1)
        }
    }
}

/// The region of text that was closed automatically around a selection,
/// with the pair that closed it.
pub struct AutocloseRegion {
    /// The byte range between the brackets.
    pub range: (usize, usize),
    /// The opening text of the pair.
    pub pair_start: String,
    /// The closing text of the pair.
    pub pair_end: String,
}

/// The selection that backspace first widens to, in `text` as bytes: an
/// empty selection at the start of an automatically closed region grows to
/// cover the region's brackets when both are still there; failing that,
/// where brackets count as closed automatically, it grows to cover the first
/// enabled pair of `scope` around it. Otherwise the selection is kept.
pub open spec fn autoclose_widening(
    text: Seq<u8>,
    sel: (usize, usize),
    region: Option<AutocloseRegion>,
    always_autoclosed: bool,
    scope: Option<LanguageScope>,
) -> PairScan {
    if sel.0 != sel.1 {
        PairScan::Found(sel.0, sel.1)
    } else {
        let from_region = match region {
            Some(r) => {
                let sb = encode_utf8(r.pair_start@);
                let eb = encode_utf8(r.pair_end@);
                sel.0 == r.range.0 && r.range.0 >= sb.len() && contains_at(text, r.range.0 - sb.len(), sb)
                    && contains_at(text, r.range.1 as int, eb)
            },
            None => false,
        };
        if from_region {
            let r = region->0;
            PairScan::Found(
                (r.range.0 - encode_utf8(r.pair_start@).len()) as usize,
                (r.range.1 + encode_utf8(r.pair_end@).len()) as usize,
            )
        } else if !always_autoclosed {
            PairScan::Found(sel.0, sel.1)
        } else {
            match scope {
                Some(sc) => match pair_scan(text, sel.0, sc.language.config.brackets.pairs@, sc.spec_bracket_flags(), 0) {
                    PairScan::Missing => PairScan::Found(sel.0, sel.1),
                    other => other,
                },
                None => PairScan::Found(sel.0, sel.1),
            }
        }
    }
}

/// The selection that backspace first widens `sel` to, in `text` as bytes
/// (see `autoclose_widening`), or `Underflow` where the opening text of the
/// pair around an empty selection would start before the text.
pub fn select_autoclose_pair(
    text: &[u8],
    sel: (usize, usize),
    region: Option<&AutocloseRegion>,
    always_autoclosed: bool,
    scope: Option<&LanguageScope>,
) -> (r: PairScan)
    ensures
        r == autoclose_widening(
            text@,
            sel,
            match region {
                Some(r) => Some(*r),
                None => None,
            },
            always_autoclosed,
            match scope {
                Some(s) => Some(*s),
                None => None,
            },
        ),
{
    if sel.0 != sel.1 {
        return PairScan::Found(sel.0, sel.1);
    }
    let n = text.len();
    assert(n == text@.len());
    if let Some(r) = region {
        let sb = r.pair_start.as_str().as_bytes();
        let eb = r.pair_end.as_str().as_bytes();
        assert(sb@ == encode_utf8(r.pair_start@));
        assert(eb@ == encode_utf8(r.pair_end@));
        if sel.0 == r.range.0 && r.range.0 >= sb.len() {
            let start = r.range.0 - sb.len();
            if contains_str_at(text, start, sb) && contains_str_at(text, r.range.1, eb) {
                return PairScan::Found(start, r.range.1 + eb.len());
            }
        }
    }
    if !always_autoclosed {
        return PairScan::Found(sel.0, sel.1);
    }
    let sc = match scope {
        Some(sc) => sc,
        None => return PairScan::Found(sel.0, sel.1),
    };
    let brackets = sc.brackets();
    let ghost pairs = sc.language.config.brackets.pairs@;
    let ghost flags = sc.spec_bracket_flags();
    let ghost widened = autoclose_widening(
        text@,
        sel,
        match region {
            Some(r) => Some(*r),
            None => None,
        },
        always_autoclosed,
        match scope {
            Some(s) => Some(*s),
            None => None,
        },
    );
    assert(widened == match pair_scan(text@, sel.0, pairs, flags, 0) {
        PairScan::Missing => PairScan::Found(sel.0, sel.1),
        other => other,
    });
    let mut k: usize = 0;
    while k < brackets.len()
        invariant
            widened == match pair_scan(text@, sel.0, pairs, flags, 0) {
                PairScan::Missing => PairScan::Found(sel.0, sel.1),
                other => other,
            },
            widened == autoclose_widening(
                text@,
                sel,
                match region {
                    Some(r) => Some(*r),
                    None => None,
                },
                always_autoclosed,
                match scope {
                    Some(s) => Some(*s),
                    None => None,
                },
            ),
            k <= brackets@.len(),
            brackets@.len() == pairs.len(),
            pairs == sc.language.config.brackets.pairs@,
            flags == sc.spec_bracket_flags(),
            forall|i: int|
                0 <= i < brackets@.len() ==> *(#[trigger] brackets@[i]).0 == pairs[i]
                    && brackets@[i].1 == flags[i],
            pair_scan(text@, sel.0, pairs, flags, 0) == pair_scan(text@, sel.0, pairs, flags, k as int),
            n == text@.len(),
            sel.0 == sel.1,
        decreases brackets.len() - k,
    {
        let (pair, enabled) = brackets[k];
        assert(*pair == pairs[k as int] && enabled == flags[k as int]);
        if enabled && pair.close {
            let sb = pair.start.as_str().as_bytes();
            let eb = pair.end.as_str().as_bytes();
            if contains_str_at(text, sel.0, eb) {
                let from = sel.0.saturating_sub(sb.len());
                if contains_str_at(text, from, sb) {
                    assert(sb@ == encode_utf8(pair.start@));
                    assert(eb@ == encode_utf8(pair.end@));
                    if sel.0 < sb.len() {
                        return PairScan::Underflow;
                    }
                    assert(pair_scan(text@, sel.0, pairs, flags, k as int) == PairScan::Found(
                        (sel.0 - sb@.len()) as usize,
                        (sel.0 + eb@.len()) as usize,
                    ));
                    return PairScan::Found(sel.0 - sb.len(), sel.1 + eb.len());
                }
            }
        }
        k = k + 1;
    }
    PairScan::Found(sel.0, sel.1)
}


/// A region closed automatically around a selection, by byte offsets, and
/// whether its anchors are still valid.
#[derive(Clone, Copy, PartialEq, Eq, Structural, Debug)]
pub struct RegionSpan {
    /// The selection the region belongs to.
    pub selection_id: usize,
    /// Where the region starts.
    pub start: usize,
    /// Where it ends.
    pub end: usize,
    /// Whether its anchors are still valid in the buffer.
    pub valid: bool,
}

/// A selection by byte offsets.
#[derive(Clone, Copy, PartialEq, Eq, Structural, Debug)]
pub struct OffsetSelection {
    /// The selection's id.
    pub id: usize,
    /// Where it starts.
    pub start: usize,
    /// Where it ends.
    pub end: usize,
}

/// Scans the selections from `s + i` for one that keeps `region`: a
/// selection that ends before the region drops the first selection still
/// considered (`s` moves on); one that starts after the region stops the
/// scan; one with the region's id keeps it. Gives whether the region is
/// kept and where the selections considered now start.
pub open spec fn region_scan(sels: Seq<OffsetSelection>, s: int, i: int, region: RegionSpan) -> (bool, int)
    decreases sels.len() - s - i,
{
    if s < 0 || i < 0 || s + i >= sels.len() {
        (false, s)
    } else {
        let sel = sels[s + i];
        if sel.end < region.start {
            region_scan(sels, s + 1, i, region)
        } else if sel.start > region.end {
            (false, s)
        } else if sel.id == region.selection_id {
            (true, s)
        } else {
            region_scan(sels, s, i + 1, region)
        }
    }
}

/// The regions kept, in order, and where the selections considered start
/// after them: an invalid region is dropped, and the start carries over
/// from one region to the next.
pub open spec fn regions_kept(sels: Seq<OffsetSelection>, regions: Seq<RegionSpan>) -> (Seq<RegionSpan>, int)
    decreases regions.len(),
{
    if regions.len() == 0 {
        (Seq::empty(), 0)
    } else {
        let (kept, s) = regions_kept(sels, regions.drop_last());
        let region = regions.last();
        if !region.valid {
            (kept, s)
        } else {
            let (keep, s2) = region_scan(sels, s, 0, region);
            (if keep { kept.push(region) } else { kept }, s2)
        }
    }
}

/// Drops the automatically closed regions that no longer belong to a
/// selection around them: the selections are scanned in order, as
/// `regions_kept` describes.
pub fn invalidate_autoclose_regions(regions: &mut Vec<RegionSpan>, selections: &Vec<OffsetSelection>)
    ensures
        final(regions)@ == regions_kept(selections@, old(regions)@).0,
{
    let mut kept: Vec<RegionSpan> = Vec::new();
    let mut s: usize = 0;
    let mut k: usize = 0;
    let n = selections.len();
    while k < regions.len()
        invariant
            k <= regions@.len(),
            n == selections@.len(),
            (kept@, s as int) == regions_kept(selections@, regions@.take(k as int)),
            regions@ == old(regions)@,
            s <= n,
        decreases regions@.len() - k,
    {
        let region = regions[k];
        assert(regions@.take(k as int + 1).drop_last() =~= regions@.take(k as int));
        if region.valid {
            let mut i: usize = 0;
            let mut keep = false;
            let ghost s0 = s as int;
            while s < n && i < n - s
                invariant_except_break
                    !keep,
                invariant
                    n == selections@.len(),
                    s <= n,
                    region_scan(selections@, s0, 0, region) == if keep {
                        (true, s as int)
                    } else {
                        region_scan(selections@, s as int, i as int, region)
                    },
                ensures
                    keep || s >= n || i >= n - s || region_scan(selections@, s0, 0, region) == (false, s as int),
                    region_scan(selections@, s0, 0, region) == if keep {
                        (true, s as int)
                    } else {
                        region_scan(selections@, s as int, i as int, region)
                    },
                decreases n - s - i,
            {
                let sel = selections[s + i];
                if sel.end < region.start {
                    s = s + 1;
                } else if sel.start > region.end {
                    break;
                } else if sel.id == region.selection_id {
                    keep = true;
                    break;
                } else {
                    i = i + 1;
                }
            }
            if keep {
                kept.push(region);
            }
        }
        k = k + 1;
    }
    assert(regions@.take(k as int) =~= regions@);
    *regions = kept;
}


/// Scans the regions from `b + i` for those around `sel`: a region that
/// ends before the selection drops every region up to it (`b` moves past
/// it and `i` starts again); one that starts after the selection stops the
/// scan; any other is stepped over, and the last one of the selection is
/// remembered in `found`. Gives the region found and where the scan stands.
pub open spec fn enclosing_scan(
    regions: Seq<RegionSpan>,
    b: int,
    i: int,
    sel: OffsetSelection,
    found: Option<int>,
) -> (Option<int>, int, int)
    decreases regions.len() - b - i,
{
    if b < 0 || i < 0 || b + i >= regions.len() {
        (found, b, i)
    } else {
        let reg = regions[b + i];
        if reg.end < sel.start {
            enclosing_scan(regions, b + i + 1, 0, sel, found)
        } else if reg.start > sel.end {
            (found, b, i)
        } else {
            enclosing_scan(regions, b, i + 1, sel, if reg.selection_id == sel.id { Some(b + i) } else { found })
        }
    }
}

/// For each selection, in order, the index of the region closed
/// automatically around it, if any; the scan carries over from one
/// selection to the next.
pub open spec fn enclosing_regions_of(sels: Seq<OffsetSelection>, regions: Seq<RegionSpan>) -> (Seq<Option<int>>, int, int)
    decreases sels.len(),
{
    if sels.len() == 0 {
        (Seq::empty(), 0, 0)
    } else {
        let (found, b, i) = enclosing_regions_of(sels.drop_last(), regions);
        let (f, b2, i2) = enclosing_scan(regions, b, i, sels.last(), None);
        (found.push(f), b2, i2)
    }
}

/// For each selection, in order, the index of the region closed
/// automatically around it, if any, as backspace and typing look it up.
pub fn selections_with_autoclose_regions(selections: &Vec<OffsetSelection>, regions: &Vec<RegionSpan>) -> (r: Vec<
    Option<usize>,
>)
    ensures
        r@.len() == selections@.len(),
        forall|k: int|
            0 <= k < r@.len() ==> match #[trigger] r@[k] {
                Some(x) => enclosing_regions_of(selections@, regions@).0[k] == Some(x as int),
                None => enclosing_regions_of(selections@, regions@).0[k] is None,
            },
{
    let n = regions.len();
    let mut out: Vec<Option<usize>> = Vec::new();
    let mut b: usize = 0;
    let mut i: usize = 0;
    let mut k: usize = 0;
    while k < selections.len()
        invariant
            k <= selections@.len(),
            n == regions@.len(),
            b + i <= n,
            out@.len() == k,
            enclosing_regions_of(selections@.take(k as int), regions@).1 == b as int,
            enclosing_regions_of(selections@.take(k as int), regions@).2 == i as int,
            enclosing_regions_of(selections@.take(k as int), regions@).0.len() == k,
            forall|x: int|
                0 <= x < k ==> match #[trigger] out@[x] {
                    Some(v) => enclosing_regions_of(selections@.take(k as int), regions@).0[x] == Some(v as int),
                    None => enclosing_regions_of(selections@.take(k as int), regions@).0[x] is None,
                },
        decreases selections@.len() - k,
    {
        let sel = selections[k];
        assert(selections@.take(k as int + 1).drop_last() =~= selections@.take(k as int));
        assert(selections@.take(k as int + 1).last() == sel);
        let ghost b0 = b as int;
        let ghost i0 = i as int;
        let mut found: Option<usize> = None;
        while b + i < n
            invariant
                n == regions@.len(),
                b + i <= n,
                enclosing_scan(regions@, b0, i0, sel, None) == enclosing_scan(
                    regions@,
                    b as int,
                    i as int,
                    sel,
                    match found {
                        Some(v) => Some(v as int),
                        None => None,
                    },
                ),
            ensures
                b + i <= n,
                enclosing_scan(regions@, b0, i0, sel, None) == (
                    match found {
                        Some(v) => Some(v as int),
                        None => None,
                    },
                    b as int,
                    i as int,
                ),
            decreases n - b - i,
        {
            let reg = regions[b + i];
            if reg.end < sel.start {
                b = b + i + 1;
                i = 0;
            } else if reg.start > sel.end {
                break;
            } else {
                if reg.selection_id == sel.id {
                    found = Some(b + i);
                }
                i = i + 1;
            }
        }
        out.push(found);
        k = k + 1;
    }
    assert(selections@.take(k as int) =~= selections@);
    out
}


/// A character before the cursor on its line, with what the scopes around
/// it say of the quote pair being typed: whether the pair is enabled where
/// the character stands, and whether it is disabled just after it (the
/// character then delimits a string).
#[derive(Clone, Copy, PartialEq, Eq, Structural, Debug)]
pub struct QuoteFact {
    /// The character.
    pub ch: char,
    /// Whether the pair is enabled at the character.
    pub enabled: bool,
    /// Whether the pair is disabled just after the character.
    pub is_delimiter: bool,
}

/// The number of characters among `facts` that are the quote `target`,
/// with the pair enabled there and not delimiting a string.
pub open spec fn quote_count(facts: Seq<QuoteFact>, target: char) -> nat
    decreases facts.len(),
{
    if facts.len() == 0 {
        0
    } else {
        quote_count(facts.drop_last(), target) + if facts.last().ch == target && facts.last().enabled
            && !facts.last().is_delimiter {
            1nat
        } else {
            0nat
        }
    }
}

/// What the editor knows of the region closed automatically around a cursor.
pub struct RegionFacts {
    /// Whether the cursor stands at the region's end.
    pub ends_at_selection: bool,
    /// The closing text of the region's pair.
    pub pair_end: String,
    /// Whether the typed text stands at the region's end.
    pub text_follows: bool,
}

/// What typing does at one selection.
#[derive(Clone, Copy, PartialEq, Eq, Structural, Debug)]
pub enum InputAction {
    /// Insert the text followed by the pair's closing text, put the cursor
    /// between them and remember the region.
    InsertWithClosing,
    /// Insert nothing and move the cursor past the `len` bytes of closing
    /// text that follow it.
    SkipClosing { len: usize },
    /// Put the text before the selection and the pair's closing text after it.
    Surround,
    /// Replace the selection with the text.
    Replace,
}

/// Whether typing a single-character quote closes a string: the quote
/// occurs an odd number of times before the cursor on its line, counting
/// only where the pair is enabled and not delimiting.
pub open spec fn closes_quote(p: BracketPair, facts: Seq<QuoteFact>) -> bool {
    p.end@ == p.start@ && p.start@.len() == 1 && p.start@[0] as u32 <= 0x7f && quote_count(facts, p.start@[0]) % 2 == 1
}

/// What typing `text` does at a selection, given the bracket pair it opens
/// or closes (as `bracket_pair_for_input` finds it) and the facts around the
/// selection: `next_char` follows the selection, `prev_char_is_word` tells
/// whether a word character precedes it (absent at the start of the text),
/// `quotes_before` lists the characters before it on its line, and the
/// settings `autoclose`, `auto_surround` and `always_autoclosed` apply.
pub open spec fn input_action_of(
    text: Seq<char>,
    pair: Option<(BracketPair, bool)>,
    selection_empty: bool,
    autoclose: bool,
    auto_surround: bool,
    next_char: Option<char>,
    scope: LanguageScope,
    at_line_start: bool,
    prev_char_is_word: Option<bool>,
    quotes_before: Seq<QuoteFact>,
    region: Option<RegionFacts>,
    always_autoclosed: bool,
    text_follows_selection: bool,
) -> InputAction {
    match pair {
        None => InputAction::Replace,
        Some((p, opens)) => if selection_empty {
            let following = match next_char {
                Some(c) => is_ws(c) || scope.language.config.autoclose_before@.contains(c),
                None => true,
            };
            let preceding = at_line_start || match prev_char_is_word {
                Some(w) => p.start@ != p.end@ || !w,
                None => true,
            };
            let skip_region = match region {
                Some(r) => r.ends_at_selection && text == r.pair_end@ && r.text_follows,
                None => false,
            };
            if opens && autoclose && p.close && following && preceding && !closes_quote(p, quotes_before) {
                InputAction::InsertWithClosing
            } else if skip_region {
                InputAction::SkipClosing { len: vstd::utf8::encode_utf8((region->0).pair_end@).len() as usize }
            } else if always_autoclosed && !opens && text_follows_selection {
                InputAction::SkipClosing { len: vstd::utf8::encode_utf8(text).len() as usize }
            } else {
                InputAction::Replace
            }
        } else if auto_surround && p.surround && opens && p.start@.len() == 1 {
            InputAction::Surround
        } else {
            InputAction::Replace
        },
    }
}

/// Typing the opening of a pair that closes into a cursor, with autoclose
/// on, inserts the closing text whenever the cursor is followed by
/// whitespace or by nothing, and nothing before it blocks: the cursor starts
/// its line, no word character precedes it, or the pair's two ends differ;
/// and the text does not close a quote already open on the line.
pub proof fn lemma_whitespace_after_cursor_autocloses(
    text: Seq<char>,
    p: BracketPair,
    auto_surround: bool,
    next_char: Option<char>,
    scope: LanguageScope,
    at_line_start: bool,
    prev_char_is_word: Option<bool>,
    quotes_before: Seq<QuoteFact>,
    region: Option<RegionFacts>,
    always_autoclosed: bool,
    text_follows_selection: bool,
)
    requires
        p.close,
        next_char matches Some(c) ==> is_ws(c),
        at_line_start || prev_char_is_word != Some(true) || p.start@ != p.end@,
        !closes_quote(p, quotes_before),
    ensures
        input_action_of(
            text,
            Some((p, true)),
            true,
            true,
            auto_surround,
            next_char,
            scope,
            at_line_start,
            prev_char_is_word,
            quotes_before,
            region,
            always_autoclosed,
            text_follows_selection,
        ) == InputAction::InsertWithClosing,
{
}

fn count_quotes(facts: &Vec<QuoteFact>, target: char) -> (r: u64)
    ensures
        r == quote_count(facts@, target),
{
    let mut n: u64 = 0;
    let mut i: usize = 0;
    while i < facts.len()
        invariant
            i <= facts@.len(),
            n == quote_count(facts@.take(i as int), target),
            n <= i,
        decreases facts@.len() - i,
    {
        assert(facts@.take(i as int + 1).drop_last() =~= facts@.take(i as int));
        let f = facts[i];
        if f.ch == target && f.enabled && !f.is_delimiter {
            n = n + 1;
        }
        i = i + 1;
    }
    assert(facts@.take(i as int) =~= facts@);
    n
}

/// What typing `text` does at a selection; see `input_action_of`.
pub fn input_action(
    text: &str,
    pair: Option<(&BracketPair, bool)>,
    selection_empty: bool,
    autoclose: bool,
    auto_surround: bool,
    next_char: Option<char>,
    scope: &LanguageScope,
    at_line_start: bool,
    prev_char_is_word: Option<bool>,
    quotes_before: &Vec<QuoteFact>,
    region: Option<&RegionFacts>,
    always_autoclosed: bool,
    text_follows_selection: bool,
) -> (r: InputAction)
    ensures
        r == input_action_of(
            text@,
            match pair {
                Some((p, o)) => Some((*p, o)),
                None => None,
            },
            selection_empty,
            autoclose,
            auto_surround,
            next_char,
            *scope,
            at_line_start,
            prev_char_is_word,
            quotes_before@,
            match region {
                Some(r) => Some(*r),
                None => None,
            },
            always_autoclosed,
            text_follows_selection,
        ),
{
    let (p, opens) = match pair {
        None => return InputAction::Replace,
        Some(x) => x,
    };
    let start = to_chars(p.start.as_str());
    if selection_empty {
        let following = match next_char {
            Some(c) => scope.should_autoclose_before(c),
            None => true,
        };
        let same_ends = str_eq(p.start.as_str(), p.end.as_str());
        let preceding = at_line_start || match prev_char_is_word {
            Some(w) => !same_ends || !w,
            None => true,
        };
        let mut closing_quote = false;
        if same_ends && start.len() == 1 && (start[0] as u32) <= 0x7f {
            let count = count_quotes(quotes_before, start[0]);
            closing_quote = count % 2 == 1;
        }
        if opens && autoclose && p.close && following && preceding && !closing_quote {
            return InputAction::InsertWithClosing;
        }
        if let Some(r) = region {
            if r.ends_at_selection && str_eq(text, r.pair_end.as_str()) && r.text_follows {
                return InputAction::SkipClosing { len: r.pair_end.as_str().as_bytes().len() };
            }
        }
        if always_autoclosed && !opens && text_follows_selection {
            return InputAction::SkipClosing { len: text.as_bytes().len() };
        }
        InputAction::Replace
    } else if auto_surround && p.surround && opens && start.len() == 1 {
        InputAction::Surround
    } else {
        InputAction::Replace
    }
}

} // verus!
