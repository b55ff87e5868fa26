//! What typing text does to the buffer and the selections: the edits, the
//! selections afterwards and the autoclose regions to remember, given what
//! typing does at each selection (see `autoclose::input_action`). Offsets
//! are in bytes; edits are given in the buffer as it was before typing, and
//! the selections after typing in the buffer as it is afterwards, each
//! selection moving by what the edits at the selections before it added or
//! removed.
use vstd::prelude::*;

use crate::autoclose::{
    bracket_pair_for_input, input_action, input_action_of, input_bracket_scan, spec_input_bracket, InputAction,
    QuoteFact, RegionFacts, RegionSpan,
};
use crate::language::{BracketPair, LanguageScope};
use crate::text::{chars_to_string, str_byte_len, to_chars, utf8_len};

verus! {

/// What typing reads of one selection.
pub struct InputStep {
    /// The selection's id.
    pub id: usize,
    /// Where it starts.
    pub start: usize,
    /// Where it ends.
    pub end: usize,
    /// Whether its head comes first.
    pub reversed: bool,
    /// Whether both its ends lie in editable buffers; a selection that does
    /// not is left out, and goes.
    pub editable: bool,
    /// What typing does there.
    pub action: InputAction,
    /// The closing text of the bracket pair typed, when there is one.
    pub pair_end: String,
}

/// One edit: the range it replaces and the text put there.
pub struct TypedEdit {
    /// Where the range starts.
    pub start: usize,
    /// Where it ends.
    pub end: usize,
    /// The text put there.
    pub text: String,
}

/// A selection after typing.
#[derive(Clone, Copy, PartialEq, Eq, Structural, Debug)]
pub struct TypedSelection {
    /// The selection's id.
    pub id: usize,
    /// Where it starts.
    pub start: usize,
    /// Where it ends.
    pub end: usize,
    /// Whether its head comes first.
    pub reversed: bool,
}

/// What typing does: the edits, the selections afterwards, and the
/// autoclose regions to remember, each as its selection's id and its offset.
pub struct InputOutcome {
    /// The edits, in the buffer as it was.
    pub edits: Vec<TypedEdit>,
    /// The selections, in the buffer as it is afterwards.
    pub selections: Vec<TypedSelection>,
    /// The new autoclose regions: the selection's id and where the region
    /// sits, between the opening text and its closing text.
    pub regions: Vec<(usize, usize)>,
}

/// An edit as values.
pub open spec fn edit_view(e: TypedEdit) -> (usize, usize, Seq<char>) {
    (e.start, e.end, e.text@)
}

/// How many bytes the edits at a selection add (negative when they remove
/// more than they add), for typed text of `t` bytes.
pub open spec fn growth(st: InputStep, t: int) -> int {
    if !st.editable {
        0
    } else {
        match st.action {
            InputAction::InsertWithClosing => t + utf8_len(st.pair_end@),
            InputAction::SkipClosing { .. } => 0,
            InputAction::Surround => t + utf8_len(st.pair_end@),
            InputAction::Replace => t - (st.end - st.start),
        }
    }
}

/// How far the edits at the first `i` selections move what follows them.
pub open spec fn shift_before(steps: Seq<InputStep>, t: int, i: int) -> int
    decreases i,
{
    if i <= 0 {
        0
    } else {
        shift_before(steps, t, i - 1) + growth(steps[i - 1], t)
    }
}

/// Where a selection lands after typing, given how far the edits before it
/// moved it: between the typed text and its closing text; past the closing
/// text it skips; around the text it surrounds (which stays selected); or
/// after the text that replaced it.
pub open spec fn landed(st: InputStep, t: int, sh: int) -> (int, int) {
    match st.action {
        InputAction::InsertWithClosing => (st.start + sh + t, st.start + sh + t),
        InputAction::SkipClosing { len } => (st.end + sh + len, st.end + sh + len),
        InputAction::Surround => (st.start + sh + t, st.end + sh + t),
        InputAction::Replace => (st.start + sh + t, st.start + sh + t),
    }
}

/// The edits at a selection: the typed text and its closing text in place
/// of the (empty) selection; nothing when skipping; the typed text before
/// the selection and the closing text after it; or the typed text in place
/// of the selection.
pub open spec fn step_edits(st: InputStep, text: Seq<char>) -> Seq<(usize, usize, Seq<char>)> {
    match st.action {
        InputAction::InsertWithClosing => seq![(st.start, st.end, text + st.pair_end@)],
        InputAction::SkipClosing { .. } => Seq::empty(),
        InputAction::Surround => seq![(st.start, st.start, text), (st.end, st.end, st.pair_end@)],
        InputAction::Replace => seq![(st.start, st.end, text)],
    }
}

/// The edits of the first `n` selections, in order; selections that are
/// not editable make none.
pub open spec fn plan_edits(steps: Seq<InputStep>, text: Seq<char>, n: int) -> Seq<(usize, usize, Seq<char>)>
    decreases n,
{
    if n <= 0 {
        Seq::empty()
    } else {
        plan_edits(steps, text, n - 1) + if steps[n - 1].editable {
            step_edits(steps[n - 1], text)
        } else {
            Seq::empty()
        }
    }
}

/// The selections after typing, of the first `n` selections, in order;
/// selections that are not editable go.
pub open spec fn plan_selections(steps: Seq<InputStep>, t: int, n: int) -> Seq<(usize, int, int, bool)>
    decreases n,
{
    if n <= 0 {
        Seq::empty()
    } else {
        let st = steps[n - 1];
        let (a, b) = landed(st, t, shift_before(steps, t, n - 1));
        plan_selections(steps, t, n - 1) + if st.editable {
            seq![(st.id, a, b, st.reversed)]
        } else {
            Seq::empty()
        }
    }
}

/// The autoclose regions to remember, of the first `n` selections: one
/// where each bracket was closed automatically, at the cursor.
pub open spec fn plan_regions(steps: Seq<InputStep>, t: int, n: int) -> Seq<(usize, int)>
    decreases n,
{
    if n <= 0 {
        Seq::empty()
    } else {
        let st = steps[n - 1];
        plan_regions(steps, t, n - 1) + if st.editable && st.action is InsertWithClosing {
            seq![(st.id, landed(st, t, shift_before(steps, t, n - 1)).0)]
        } else {
            Seq::empty()
        }
    }
}

/// Whether some selection is editable.
pub open spec fn any_editable(steps: Seq<InputStep>) -> bool {
    exists|i: int| 0 <= i < steps.len() && (#[trigger] steps[i]).editable
}

/// Whether every offset typing works with fits in a `usize`, as the
/// offsets of a buffer do: the shifts, and where each selection lands.
pub open spec fn plan_fits(steps: Seq<InputStep>, t: int) -> bool {
    &&& forall|i: int| 0 <= i <= steps.len() ==> -usize::MAX <= #[trigger] shift_before(steps, t, i) <= usize::MAX
    &&& forall|i: int|
        0 <= i < steps.len() ==> 0 <= #[trigger] landed(steps[i], t, shift_before(steps, t, i)).0 <= usize::MAX
            && 0 <= landed(steps[i], t, shift_before(steps, t, i)).1 <= usize::MAX
    &&& forall|i: int| 0 <= i < steps.len() ==> utf8_len((#[trigger] steps[i]).pair_end@) <= usize::MAX
    &&& t <= usize::MAX
}

/// The edits, as values.
pub open spec fn edits_view(s: Seq<TypedEdit>) -> Seq<(usize, usize, Seq<char>)> {
    s.map_values(|e: TypedEdit| edit_view(e))
}

/// Whether `o` is what typing `text` at `steps` does.
pub open spec fn outcome_of(o: InputOutcome, steps: Seq<InputStep>, text: Seq<char>) -> bool {
    &&& edits_view(o.edits@) == plan_edits(steps, text, steps.len() as int)
    &&& selections_view(o.selections@) == plan_selections(steps, utf8_len(text) as int, steps.len() as int)
    &&& regions_view(o.regions@) == plan_regions(steps, utf8_len(text) as int, steps.len() as int)
}

/// The selections after typing, as values.
pub open spec fn selections_view(s: Seq<TypedSelection>) -> Seq<(usize, int, int, bool)> {
    s.map_values(|x: TypedSelection| (x.id, x.start as int, x.end as int, x.reversed))
}

/// The regions, as values.
pub open spec fn regions_view(s: Seq<(usize, usize)>) -> Seq<(usize, int)> {
    s.map_values(|x: (usize, usize)| (x.0, x.1 as int))
}

/// The text of `a` followed by `b`.
fn concat(a: &str, b: &str) -> (r: String)
    ensures
        r@ == a@ + b@,
{
    let mut v = to_chars(a);
    let mut w = to_chars(b);
    v.append(&mut w);
    chars_to_string(&v)
}

/// A copy of `s`.
fn copy_str(s: &str) -> (r: String)
    ensures
        r@ == s@,
{
    let v = to_chars(s);
    chars_to_string(&v)
}

/// What typing `text` does at the selections `steps` (in order): nothing
/// (`None`) when the editor is read-only or no selection is editable;
/// otherwise the edits, the selections afterwards and the autoclose regions
/// to remember.
pub fn plan_input(read_only: bool, text: &str, steps: &Vec<InputStep>) -> (r: Option<InputOutcome>)
    requires
        !read_only ==> plan_fits(steps@, utf8_len(text@) as int),
    ensures
        (read_only || !any_editable(steps@)) ==> r is None,
        !(read_only || !any_editable(steps@)) ==> r is Some && outcome_of(r->0, steps@, text@),
{
    if read_only {
        return None;
    }
    let ghost t: int = utf8_len(text@) as int;
    let tl = str_byte_len(text) as i128;
    let mut edits: Vec<TypedEdit> = Vec::new();
    let mut sels: Vec<TypedSelection> = Vec::new();
    let mut regions: Vec<(usize, usize)> = Vec::new();
    let mut shift: i128 = 0;
    let mut any = false;
    let mut i: usize = 0;
    while i < steps.len()
        invariant
            i <= steps@.len(),
            plan_fits(steps@, t),
            tl == t,
            shift == shift_before(steps@, t, i as int),
            any == exists|j: int| 0 <= j < i && (#[trigger] steps@[j]).editable,
            edits_view(edits@) == plan_edits(steps@, text@, i as int),
            selections_view(sels@) == plan_selections(steps@, t, i as int),
            regions_view(regions@) == plan_regions(steps@, t, i as int),
        decreases steps@.len() - i,
    {
        let st = &steps[i];
        let ghost sh = shift as int;
        assert(-usize::MAX <= shift_before(steps@, t, i as int + 1) <= usize::MAX);
        assert(0 <= landed(steps@[i as int], t, sh).0 <= usize::MAX);
        assert(0 <= landed(steps@[i as int], t, sh).1 <= usize::MAX);
        assert(utf8_len(steps@[i as int].pair_end@) <= usize::MAX);
        let ghost e0 = edits_view(edits@);
        let ghost s0 = selections_view(sels@);
        let ghost r0 = regions_view(regions@);
        if st.editable {
            any = true;
            let el = str_byte_len(st.pair_end.as_str()) as i128;
            let s = st.start as i128;
            let e = st.end as i128;
            match st.action {
                InputAction::InsertWithClosing => {
                    let at = (s + shift + tl) as usize;
                    edits.push(TypedEdit { start: st.start, end: st.end, text: concat(text, st.pair_end.as_str()) });
                    sels.push(TypedSelection { id: st.id, start: at, end: at, reversed: st.reversed });
                    regions.push((st.id, at));
                    shift = shift + tl + el;
                },
                InputAction::SkipClosing { len } => {
                    let at = (e + shift + len as i128) as usize;
                    sels.push(TypedSelection { id: st.id, start: at, end: at, reversed: st.reversed });
                },
                InputAction::Surround => {
                    let a = (s + shift + tl) as usize;
                    let b = (e + shift + tl) as usize;
                    edits.push(TypedEdit { start: st.start, end: st.start, text: copy_str(text) });
                    edits.push(TypedEdit { start: st.end, end: st.end, text: copy_str(st.pair_end.as_str()) });
                    sels.push(TypedSelection { id: st.id, start: a, end: b, reversed: st.reversed });
                    shift = shift + tl + el;
                },
                InputAction::Replace => {
                    let at = (s + shift + tl) as usize;
                    edits.push(TypedEdit { start: st.start, end: st.end, text: copy_str(text) });
                    sels.push(TypedSelection { id: st.id, start: at, end: at, reversed: st.reversed });
                    shift = shift + tl - (e - s);
                },
            }
            assert(steps@[i as int].editable);
        }
        assert(edits_view(edits@) =~= plan_edits(steps@, text@, i as int + 1));
        assert(selections_view(sels@) =~= plan_selections(steps@, t, i as int + 1));
        assert(regions_view(regions@) =~= plan_regions(steps@, t, i as int + 1));
        i = i + 1;
    }
    if !any {
        return None;
    }
    Some(InputOutcome { edits, selections: sels, regions })
}

/// Where scanning the remembered regions from `i` stops for a new region
/// at `pos`: past every region that starts before `pos`, and every one that
/// starts at `pos` and ends after it.
pub open spec fn region_slot(regions: Seq<RegionSpan>, i: int, pos: usize) -> int
    decreases regions.len() - i,
{
    if i < 0 || i >= regions.len() {
        i
    } else if regions[i].start < pos || (regions[i].start == pos && pos < regions[i].end) {
        region_slot(regions, i + 1, pos)
    } else {
        i
    }
}

/// The remembered regions after the new ones (given in order) go in: each
/// at the slot the scan reaches, the scan going on from where the previous
/// one went in. Gives the regions and where the scan stands.
pub open spec fn remembered(regions: Seq<RegionSpan>, news: Seq<(usize, usize)>, n: int) -> (Seq<RegionSpan>, int)
    decreases n,
{
    if n <= 0 {
        (regions, 0)
    } else {
        let (rs, i) = remembered(regions, news, n - 1);
        let (id, pos) = news[n - 1];
        let k = region_slot(rs, i, pos);
        (rs.insert(k, RegionSpan { selection_id: id, start: pos, end: pos, valid: true }), k)
    }
}

/// Remembers the new autoclose regions: each, empty at its offset, goes in
/// among the regions (kept in order of their starts) where the scan from the
/// previous one reaches.
pub fn remember_regions(regions: &mut Vec<RegionSpan>, news: &Vec<(usize, usize)>)
    ensures
        final(regions)@ == remembered(old(regions)@, news@, news@.len() as int).0,
{
    let ghost r0 = regions@;
    let mut i: usize = 0;
    let mut k: usize = 0;
    while k < news.len()
        invariant
            k <= news@.len(),
            (regions@, i as int) == remembered(r0, news@, k as int),
            i <= regions@.len(),
        decreases news@.len() - k,
    {
        let (id, pos) = news[k];
        let ghost i0 = i as int;
        let ghost rs = regions@;
        loop
            invariant
                i0 <= i <= regions@.len(),
                regions@ == rs,
                region_slot(rs, i0, pos) == region_slot(rs, i as int, pos),
            ensures
                i <= regions@.len(),
                regions@ == rs,
                region_slot(rs, i0, pos) == i,
            decreases regions@.len() - i,
        {
            if i >= regions.len() {
                break;
            }
            let r = regions[i];
            if r.start < pos || (r.start == pos && pos < r.end) {
                i = i + 1;
            } else {
                break;
            }
        }
        regions.insert(i, RegionSpan { selection_id: id, start: pos, end: pos, valid: true });
        k = k + 1;
    }
}


/// What the editor reads at one selection before typing: the selection,
/// whether it can be edited, the language scope at its start (if any), the
/// line up to it, the settings that apply there, and the facts around it
/// that `input_action` weighs.
pub struct SelectionFacts<'a> {
    /// The selection's id.
    pub id: usize,
    /// Where it starts.
    pub start: usize,
    /// Where it ends.
    pub end: usize,
    /// Whether its head comes first.
    pub reversed: bool,
    /// Whether both its ends lie in editable buffers.
    pub editable: bool,
    /// The language scope at its start.
    pub scope: Option<LanguageScope<'a>>,
    /// Its line up to its start.
    pub before: String,
    /// Whether closing brackets are inserted automatically there.
    pub autoclose: bool,
    /// Whether a bracket typed over a selection surrounds it there.
    pub auto_surround: bool,
    /// The character after the selection.
    pub next_char: Option<char>,
    /// Whether the selection starts its line.
    pub at_line_start: bool,
    /// Whether a word character precedes it (absent at the start of the text).
    pub prev_char_is_word: Option<bool>,
    /// The characters before it on its line, nearest first.
    pub quotes_before: Vec<QuoteFact>,
    /// The region closed automatically around it, if any.
    pub region: Option<RegionFacts>,
    /// Whether closing brackets are skipped even outside a region.
    pub always_autoclosed: bool,
    /// Whether the typed text already follows the selection.
    pub text_follows_selection: bool,
}

/// The bracket pair that `text` typed at `f` opens or closes, with whether
/// it opens it; none without a language scope.
pub open spec fn facts_pair(text: Seq<char>, f: SelectionFacts) -> Option<(BracketPair, bool)> {
    match f.scope {
        None => None,
        Some(sc) => match spec_input_bracket(text, f.before@, sc) {
            Some((j, opens)) => Some((sc.language.config.brackets.pairs@[j], opens)),
            None => None,
        },
    }
}

/// What typing `text` does at `f`: a plain replacement without a language
/// scope, else as `input_action_of` decides.
pub open spec fn facts_action(text: Seq<char>, f: SelectionFacts) -> InputAction {
    match f.scope {
        None => InputAction::Replace,
        Some(sc) => input_action_of(
            text,
            facts_pair(text, f),
            f.start == f.end,
            f.autoclose,
            f.auto_surround,
            f.next_char,
            sc,
            f.at_line_start,
            f.prev_char_is_word,
            f.quotes_before@,
            f.region,
            f.always_autoclosed,
            f.text_follows_selection,
        ),
    }
}

/// Whether `st` is the step that typing `text` takes at `f`: the same
/// selection, the action `facts_action` gives, and the closing text of the
/// pair found (empty when none is).
pub open spec fn step_from_facts(text: Seq<char>, f: SelectionFacts, st: InputStep) -> bool {
    &&& st.id == f.id
    &&& st.start == f.start
    &&& st.end == f.end
    &&& st.reversed == f.reversed
    &&& st.editable == f.editable
    &&& st.action == facts_action(text, f)
    &&& st.pair_end@ == match facts_pair(text, f) {
        Some((p, _)) => p.end@,
        None => Seq::<char>::empty(),
    }
}

proof fn lemma_bracket_scan_in_range(
    pairs: Seq<BracketPair>,
    flags: Seq<bool>,
    k: int,
    text: Seq<char>,
    before: Seq<char>,
    end_match: Option<int>,
)
    requires
        0 <= k,
        end_match matches Some(e) ==> 0 <= e < pairs.len(),
    ensures
        input_bracket_scan(pairs, flags, k, text, before, end_match) matches Some((j, _)) ==> 0 <= j
            < pairs.len(),
    decreases pairs.len() - k,
{
    if k < pairs.len() {
        let p = pairs[k];
        let next_end = if p.end@ == text && end_match is None {
            Some(k)
        } else {
            end_match
        };
        lemma_bracket_scan_in_range(pairs, flags, k + 1, text, before, end_match);
        lemma_bracket_scan_in_range(pairs, flags, k + 1, text, before, next_end);
    }
}

/// The step that typing `text` takes at each selection, in order: the pair
/// it opens or closes (see `bracket_pair_for_input`) and what it does there
/// (see `input_action`), ready for `plan_input`.
pub fn input_steps(text: &str, facts: &Vec<SelectionFacts>) -> (r: Vec<InputStep>)
    ensures
        r@.len() == facts@.len(),
        forall|i: int| 0 <= i < facts@.len() ==> #[trigger] step_from_facts(text@, facts@[i], r@[i]),
{
    let mut r: Vec<InputStep> = Vec::new();
    let mut i: usize = 0;
    while i < facts.len()
        invariant
            i <= facts@.len(),
            r@.len() == i,
            forall|k: int| 0 <= k < i ==> #[trigger] step_from_facts(text@, facts@[k], r@[k]),
        decreases facts@.len() - i,
    {
        let f = &facts[i];
        let (action, pair_end) = match &f.scope {
            None => (InputAction::Replace, String::new()),
            Some(sc) => {
                let found = bracket_pair_for_input(text, f.before.as_str(), sc);
                let brackets = sc.brackets();
                proof {
                    lemma_bracket_scan_in_range(
                        sc.language.config.brackets.pairs@,
                        sc.spec_bracket_flags(),
                        0,
                        text@,
                        f.before@,
                        None,
                    );
                }
                let pair: Option<(&BracketPair, bool)> = match found {
                    Some((j, opens)) => {
                        assert(*brackets@[j as int].0 == sc.language.config.brackets.pairs@[j as int]);
                        Some((brackets[j].0, opens))
                    },
                    None => None,
                };
                assert(match pair {
                    Some((p, o)) => Some((*p, o)),
                    None => None,
                } == facts_pair(text@, *f));
                let region: Option<&RegionFacts> = match &f.region {
                    Some(rf) => Some(rf),
                    None => None,
                };
                let action = input_action(
                    text,
                    pair,
                    f.start == f.end,
                    f.autoclose,
                    f.auto_surround,
                    f.next_char,
                    sc,
                    f.at_line_start,
                    f.prev_char_is_word,
                    &f.quotes_before,
                    region,
                    f.always_autoclosed,
                    f.text_follows_selection,
                );
                let pair_end = match pair {
                    Some((p, _)) => p.end.clone(),
                    None => String::new(),
                };
                (action, pair_end)
            },
        };
        let st = InputStep {
            id: f.id,
            start: f.start,
            end: f.end,
            reversed: f.reversed,
            editable: f.editable,
            action,
            pair_end,
        };
        assert(step_from_facts(text@, facts@[i as int], st));
        r.push(st);
        i = i + 1;
    }
    r
}

} // verus!
