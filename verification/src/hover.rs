//! Hovered links: where a hover was triggered, whether the cached link
//! still applies, and the URL under the cursor.
use vstd::prelude::*;

use crate::text::{chars_to_string, is_whitespace, is_ws, len_utf8, utf8_len, utf8_width};

verus! {

/// A position in the buffer, resolved to its byte offset.
#[derive(Clone, Copy, PartialEq, Eq, Structural, Debug)]
pub struct Anchor {
    /// The byte offset.
    pub offset: usize,
}

/// Where a hover was triggered.
#[derive(Clone, Copy, PartialEq, Eq, Structural, Debug)]
pub enum TriggerPoint {
    /// A position in the text.
    Text(Anchor),
}

impl TriggerPoint {
    /// The position of the trigger.
    pub fn anchor(&self) -> (r: &Anchor)
        ensures
            *self == TriggerPoint::Text(*r),
    {
        match self {
            TriggerPoint::Text(anchor) => anchor,
        }
    }
}

/// A range of the editor's text.
#[derive(Clone, Copy, PartialEq, Eq, Structural, Debug)]
pub enum RangeInEditor {
    /// The text from `start` to `end`.
    Text { start: Anchor, end: Anchor },
}

impl RangeInEditor {
    /// Whether the trigger lies within the range, both ends included.
    pub fn point_within_range(&self, trigger_point: &TriggerPoint) -> (r: bool)
        ensures
            r == match (*self, *trigger_point) {
                (RangeInEditor::Text { start, end }, TriggerPoint::Text(p)) => start.offset <= p.offset
                    && p.offset <= end.offset,
            },
    {
        let RangeInEditor::Text { start, end } = self;
        let TriggerPoint::Text(point) = trigger_point;
        start.offset <= point.offset && end.offset >= point.offset
    }
}

/// A link shown on hover.
#[derive(Clone, PartialEq, Eq, Debug)]
pub enum HoverLink {
    /// A URL.
    Url(String),
}

/// The hovered link the editor remembers.
pub struct HoveredLinkState {
    /// Where the last hover was triggered.
    pub last_trigger_point: TriggerPoint,
    /// The range of the link found there, if any.
    pub link_range: Option<RangeInEditor>,
    /// The links found there.
    pub links: Vec<HoverLink>,
}

/// The hover popover, which this editor does not show.
#[derive(Clone, Copy, PartialEq, Eq, Structural, Debug)]
pub struct HoverState;

impl HoverState {
    /// Whether the popover has the focus: it never has.
    pub fn focused(&self) -> (r: bool)
        ensures
            !r,
    {
        false
    }
}

/// Whether a hover at `trigger` keeps the remembered link instead of
/// looking again: it does when a state was remembered and was triggered at
/// the same point, or when its link's range contains the trigger.
pub fn keeps_hovered_link(state: Option<&HoveredLinkState>, trigger: &TriggerPoint) -> (r: bool)
    ensures
        r == match state {
            Some(s) => s.last_trigger_point == *trigger || match s.link_range {
                Some(RangeInEditor::Text { start, end }) => match *trigger {
                    TriggerPoint::Text(p) => start.offset <= p.offset && p.offset <= end.offset,
                },
                None => false,
            },
            None => false,
        },
{
    match state {
        Some(s) => {
            if s.last_trigger_point == *trigger {
                return true;
            }
            match &s.link_range {
                Some(range) => range.point_within_range(trigger),
                None => false,
            }
        },
        None => false,
    }
}

/// The most characters scanned on each side of the cursor for a URL.
pub const URL_SCAN_LIMIT: usize = 2048;

/// The links that linkify finds in `text` when it looks for URLs only: for
/// each, its start and end byte offsets in `text` and its text.
pub uninterp spec fn url_links(text: Seq<char>) -> Seq<(usize, usize, Seq<char>)>;

/// The URLs in `text`, as linkify's `LinkFinder` finds them when restricted
/// to `LinkKind::Url`: each link's start and end byte offsets and its text.
/// The contract names the list and states of each link only that it lies
/// within `text`.
#[verifier::external_body]
fn find_url_links(text: &str) -> (r: Vec<(usize, usize, String)>)
    ensures
        r@.len() == url_links(text@).len(),
        forall|i: int|
            0 <= i < r@.len() ==> (#[trigger] r@[i]).0 == url_links(text@)[i].0 && r@[i].1
                == url_links(text@)[i].1 && r@[i].2@ == url_links(text@)[i].2,
        forall|i: int|
            0 <= i < r@.len() ==> (#[trigger] r@[i]).0 <= r@[i].1 && r@[i].1 <= utf8_len(text@),
{
    let mut finder = linkify::LinkFinder::new();
    finder.kinds(&[linkify::LinkKind::Url]);
    finder.links(text).map(|link| (link.start(), link.end(), link.as_str().to_string())).collect()
}

/// The number of characters at the end of `s` that are not whitespace.
pub open spec fn non_ws_suffix_len(s: Seq<char>) -> nat
    decreases s.len(),
{
    if s.len() == 0 || is_ws(s.last()) {
        0
    } else {
        1 + non_ws_suffix_len(s.drop_last())
    }
}

/// The number of characters at the start of `s` that are not whitespace.
pub open spec fn non_ws_prefix_len(s: Seq<char>) -> nat
    decreases s.len(),
{
    if s.len() == 0 || is_ws(s[0]) {
        0
    } else {
        1 + non_ws_prefix_len(s.drop_first())
    }
}

/// The smaller of `a` and `b`.
pub open spec fn min_of(a: int, b: int) -> int {
    if a <= b {
        a
    } else {
        b
    }
}

/// The characters before the cursor that belong to the token under it: at
/// most the scan limit.
pub open spec fn token_back(before: Seq<char>) -> nat {
    min_of(non_ws_suffix_len(before) as int, URL_SCAN_LIMIT as int) as nat
}

/// The bytes of the token before the cursor.
pub open spec fn token_back_bytes(before: Seq<char>) -> nat {
    utf8_len(before.skip(before.len() - token_back(before)))
}

/// The scan back reached its limit before the start of the text or a
/// whitespace.
pub open spec fn start_cut_off(before: Seq<char>) -> bool {
    non_ws_suffix_len(before) >= URL_SCAN_LIMIT && before.len() > URL_SCAN_LIMIT
}

/// How many characters the scan forward may take: the limit less the bytes
/// taken before the cursor.
pub open spec fn forward_budget(before: Seq<char>) -> int {
    URL_SCAN_LIMIT - token_back_bytes(before)
}

/// The characters after the cursor that belong to the token under it.
pub open spec fn token_forward(before: Seq<char>, after: Seq<char>) -> nat {
    min_of(non_ws_prefix_len(after) as int, forward_budget(before)) as nat
}

/// The scan forward stopped at its limit rather than at a whitespace, and
/// the token reached the limit in bytes.
pub open spec fn end_cut_off(before: Seq<char>, after: Seq<char>) -> bool {
    &&& !(non_ws_prefix_len(after) < min_of(forward_budget(before), after.len() as int))
    &&& token_back_bytes(before) + utf8_len(after.take(token_forward(before, after) as int)) >= URL_SCAN_LIMIT
}

/// The token under the cursor, where `before` is the text before the cursor
/// and `after` the text from it: the run of non-whitespace around the
/// cursor, unless a scan reached its limit first.
pub open spec fn url_token(before: Seq<char>, after: Seq<char>) -> Option<Seq<char>> {
    if start_cut_off(before) || end_cut_off(before, after) {
        None
    } else {
        Some(before.skip(before.len() - token_back(before)) + after.take(token_forward(before, after) as int))
    }
}

/// The first link that contains the byte offset `at`, ends included.
pub open spec fn covering_link(links: Seq<(usize, usize, Seq<char>)>, at: nat) -> Option<(usize, usize, Seq<char>)>
    decreases links.len(),
{
    if links.len() == 0 {
        None
    } else if links[0].0 <= at && links[0].1 >= at {
        Some(links[0])
    } else {
        covering_link(links.drop_first(), at)
    }
}

/// The URL under the cursor: its start and end byte offsets in the text and
/// its text.
pub open spec fn url_under_cursor(before: Seq<char>, after: Seq<char>) -> Option<(int, int, Seq<char>)> {
    match url_token(before, after) {
        None => None,
        Some(token) => match covering_link(url_links(token), token_back_bytes(before)) {
            None => None,
            Some(link) => {
                let token_start = utf8_len(before) - token_back_bytes(before);
                Some((token_start + link.0, token_start + link.1, link.2))
            },
        },
    }
}

/// The scans around the cursor stay within bounds: either the scan back is
/// cut off, or the token before the cursor takes no more bytes than the
/// scan limit.
pub open spec fn url_scan_ok(before: Seq<char>) -> bool {
    start_cut_off(before) || token_back_bytes(before) <= URL_SCAN_LIMIT
}

proof fn lemma_utf8_len_cons(c: char, s: Seq<char>)
    ensures
        utf8_len(seq![c] + s) == utf8_width(c) + utf8_len(s),
{
    assert((seq![c] + s).drop_first() =~= s);
    assert((seq![c] + s)[0] == c);
}

proof fn lemma_utf8_len_snoc(s: Seq<char>, c: char)
    ensures
        utf8_len(s.push(c)) == utf8_len(s) + utf8_width(c),
{
    crate::text::lemma_utf8_len_concat(s, seq![c]);
    assert(s + seq![c] =~= s.push(c));
    assert(seq![c].drop_first() =~= Seq::<char>::empty());
    assert(utf8_len(seq![c]) == utf8_width(c) + utf8_len(seq![c].drop_first()));
}

proof fn lemma_run_lens(s: Seq<char>)
    ensures
        non_ws_suffix_len(s) <= s.len(),
        non_ws_prefix_len(s) <= s.len(),
    decreases s.len(),
{
    if s.len() > 0 {
        lemma_run_lens(s.drop_last());
        lemma_run_lens(s.drop_first());
    }
}

proof fn lemma_suffix_len(s: Seq<char>, k: nat)
    requires
        k <= s.len(),
        forall|i: int| s.len() - k <= i < s.len() ==> !is_ws(#[trigger] s[i]),
    ensures
        non_ws_suffix_len(s) >= k,
        k < s.len() && is_ws(s[s.len() - 1 - k]) ==> non_ws_suffix_len(s) == k,
    decreases k,
{
    if k > 0 {
        lemma_suffix_len(s.drop_last(), (k - 1) as nat);
    } else if s.len() > 0 && is_ws(s[s.len() - 1]) {
    }
}

proof fn lemma_prefix_len(s: Seq<char>, k: nat)
    requires
        k <= s.len(),
        forall|i: int| 0 <= i < k ==> !is_ws(#[trigger] s[i]),
    ensures
        non_ws_prefix_len(s) >= k,
        k < s.len() && is_ws(s[k as int]) ==> non_ws_prefix_len(s) == k,
    decreases k,
{
    if k > 0 {
        assert forall|i: int| 0 <= i < k - 1 implies !is_ws(#[trigger] s.drop_first()[i]) by {
            assert(s.drop_first()[i] == s[i + 1]);
        }
        lemma_prefix_len(s.drop_first(), (k - 1) as nat);
    }
}

proof fn lemma_utf8_len_pos(s: Seq<char>)
    requires
        s.len() > 0,
    ensures
        utf8_len(s) > 0,
{
    assert(s =~= seq![s[0]] + s.drop_first());
    lemma_utf8_len_cons(s[0], s.drop_first());
}

/// Whether the scans around the cursor stay within bounds, so that
/// `find_url` may be called.
pub fn url_scan_in_bounds(before: &Vec<char>) -> (r: bool)
    ensures
        r == url_scan_ok(before@),
{
    let (back, back_bytes, _) = scan_back(before);
    let n = before.len();
    if back == URL_SCAN_LIMIT && n > URL_SCAN_LIMIT {
        return true;
    }
    back_bytes <= URL_SCAN_LIMIT as u128
}

/// Scans back from the end of `before` over at most the scan limit of
/// non-whitespace characters: their count, their bytes, and whether a
/// whitespace stopped the scan.
fn scan_back(before: &Vec<char>) -> (r: (usize, u128, bool))
    ensures
        r.0 == token_back(before@),
        r.1 == token_back_bytes(before@),
        start_cut_off(before@) <==> (!r.2 && r.0 < before@.len()),
        !r.2 ==> (r.0 == before@.len() || r.0 == URL_SCAN_LIMIT),
        r.1 <= 4 * r.0,
        r.0 <= before@.len(),
{
    let n = before.len();
    let mut back: usize = 0;
    let mut bytes: u128 = 0;
    let mut found = false;
    while back < n && back < URL_SCAN_LIMIT
        invariant_except_break
            !found,
        invariant
            n == before@.len(),
            back <= n,
            back <= URL_SCAN_LIMIT,
            bytes <= 4 * back,
            forall|i: int| n - back <= i < n ==> !is_ws(#[trigger] before@[i]),
            bytes == utf8_len(before@.skip(n - back)),
            found ==> back < n && back < URL_SCAN_LIMIT && is_ws(before@[n - 1 - back]),
        ensures
            found || back == n || back == URL_SCAN_LIMIT,
        decreases n - back,
    {
        let c = before[n - 1 - back];
        if is_whitespace(c) {
            found = true;
            break;
        }
        proof {
            assert(before@.skip(n - back - 1) =~= seq![c] + before@.skip(n - back));
            lemma_utf8_len_cons(c, before@.skip(n - back));
        }
        bytes = bytes + len_utf8(c) as u128;
        back = back + 1;
    }
    proof {
        lemma_run_lens(before@);
        lemma_suffix_len(before@, back as nat);
        if back < n && !found {
            assert(back == URL_SCAN_LIMIT);
        }
    }
    (back, bytes, found)
}

/// Scans forward from the start of `after` over at most `budget`
/// non-whitespace characters: their count, their bytes, and whether a
/// whitespace stopped the scan.
fn scan_forward(after: &Vec<char>, budget: usize) -> (r: (usize, u128, bool))
    ensures
        r.0 == min_of(non_ws_prefix_len(after@) as int, budget as int),
        r.1 == utf8_len(after@.take(r.0 as int)),
        r.2 <==> non_ws_prefix_len(after@) < min_of(budget as int, after@.len() as int),
        r.1 <= 4 * r.0,
        r.0 <= after@.len(),
        r.0 <= budget,
{
    let n = after.len();
    let mut fwd: usize = 0;
    let mut bytes: u128 = 0;
    let mut found = false;
    while fwd < n && fwd < budget
        invariant_except_break
            !found,
        invariant
            n == after@.len(),
            fwd <= n,
            fwd <= budget,
            bytes <= 4 * fwd,
            forall|i: int| 0 <= i < fwd ==> !is_ws(#[trigger] after@[i]),
            bytes == utf8_len(after@.take(fwd as int)),
            found ==> fwd < n && fwd < budget && is_ws(after@[fwd as int]),
        ensures
            found || fwd == n || fwd == budget,
        decreases n - fwd,
    {
        let c = after[fwd];
        if is_whitespace(c) {
            found = true;
            break;
        }
        proof {
            assert(after@.take(fwd + 1) =~= after@.take(fwd as int).push(c));
            lemma_utf8_len_snoc(after@.take(fwd as int), c);
        }
        bytes = bytes + len_utf8(c) as u128;
        fwd = fwd + 1;
    }
    proof {
        lemma_run_lens(after@);
        lemma_prefix_len(after@, fwd as nat);
    }
    (fwd, bytes, found)
}

/// The URL under the cursor, where `before` is the text before the cursor
/// and `after` the text from it: its start and end byte offsets in the
/// text, and its text.
pub fn find_url(before: &Vec<char>, after: &Vec<char>) -> (r: Option<(usize, usize, String)>)
    requires
        url_scan_ok(before@),
        utf8_len(before@) + utf8_len(after@) <= usize::MAX,
    ensures
        r == None::<(usize, usize, String)> <==> url_under_cursor(before@, after@) is None,
        r is Some ==> url_under_cursor(before@, after@) == Some(
            ((r->0).0 as int, (r->0).1 as int, (r->0).2@),
        ),
{
    let n = before.len();
    let (back, back_bytes, found_start) = scan_back(before);
    if !found_start && back < n {
        return None;
    }
    let offset = crate::text::byte_len(before);
    proof {
        assert(before@ =~= before@.take(n - back) + before@.skip(n - back));
        crate::text::lemma_utf8_len_concat(before@.take(n - back), before@.skip(n - back));
        if back < n {
            lemma_utf8_len_pos(before@.take(n - back));
        }
    }
    let budget: usize = URL_SCAN_LIMIT - back_bytes as usize;
    let (fwd, fwd_bytes, found_end) = scan_forward(after, budget);
    if !found_end && back_bytes + fwd_bytes >= URL_SCAN_LIMIT as u128 {
        return None;
    }
    let mut token: Vec<char> = Vec::new();
    let mut i: usize = n - back;
    while i < n
        invariant
            n == before@.len(),
            back <= n,
            n - back <= i <= n,
            token@ == before@.subrange(n - back, i as int),
        decreases n - i,
    {
        token.push(before[i]);
        i = i + 1;
    }
    let mut j: usize = 0;
    while j < fwd
        invariant
            n == before@.len(),
            back <= n,
            fwd <= after@.len(),
            j <= fwd,
            token@ == before@.skip(n - back) + after@.take(j as int),
        decreases fwd - j,
    {
        token.push(after[j]);
        j = j + 1;
        assert(token@ =~= before@.skip(n - back) + after@.take(j as int));
    }
    let ghost tok = before@.skip(n - back) + after@.take(fwd as int);
    assert(token@ =~= tok);
    assert(url_token(before@, after@) == Some(tok));
    let text = chars_to_string(&token);
    let links = find_url_links(text.as_str());
    let relative = back_bytes as usize;
    let token_start: usize = offset as usize - relative;
    proof {
        crate::text::lemma_utf8_len_concat(before@.skip(n - back), after@.take(fwd as int));
        crate::text::lemma_utf8_len_subrange(after@, 0, fwd as int);
        assert(after@.subrange(0, fwd as int) =~= after@.take(fwd as int));
    }
    let mut k: usize = 0;
    assert(url_links(tok).skip(0) =~= url_links(tok));
    while k < links.len()
        invariant
            k <= links@.len(),
            links@.len() == url_links(tok).len(),
            forall|x: int|
                0 <= x < links@.len() ==> (#[trigger] links@[x]).0 == url_links(tok)[x].0 && links@[x].1
                    == url_links(tok)[x].1 && links@[x].2@ == url_links(tok)[x].2,
            forall|x: int| 0 <= x < links@.len() ==> (#[trigger] links@[x]).0 <= links@[x].1 && links@[x].1 <= utf8_len(tok),
            covering_link(url_links(tok), relative as nat) == covering_link(url_links(tok).skip(k as int), relative as nat),
            token_start + utf8_len(tok) <= usize::MAX,
            url_under_cursor(before@, after@) == match covering_link(url_links(tok), relative as nat) {
                None => None,
                Some(link) => Some((token_start + link.0, token_start + link.1, link.2)),
            },
        decreases links@.len() - k,
    {
        let ghost rest = url_links(tok).skip(k as int);
        assert(rest[0] == url_links(tok)[k as int]);
        assert(rest.drop_first() =~= url_links(tok).skip(k as int + 1));
        if links[k].0 <= relative && links[k].1 >= relative {
            let url = links[k].2.clone();
            return Some((token_start + links[k].0, token_start + links[k].1, url));
        }
        k = k + 1;
    }
    assert(url_links(tok).skip(k as int) =~= Seq::<(usize, usize, Seq<char>)>::empty());
    None
}


proof fn lemma_covering_link_covers(links: Seq<(usize, usize, Seq<char>)>, at: nat)
    ensures
        covering_link(links, at) matches Some(l) ==> l.0 <= at && at <= l.1,
    decreases links.len(),
{
    if links.len() > 0 {
        lemma_covering_link_covers(links.drop_first(), at);
    }
}

/// The URL found under the cursor spans the cursor: it starts at or before
/// the cursor's byte offset and ends at or after it.
pub proof fn lemma_url_contains_cursor(before: Seq<char>, after: Seq<char>)
    ensures
        url_under_cursor(before, after) matches Some(u) ==> u.0 <= utf8_len(before) && utf8_len(before) <= u.1,
{
    if url_token(before, after) is Some {
        let back = token_back(before);
        lemma_run_lens(before);
        crate::text::lemma_utf8_len_subrange(before, before.len() - back, before.len() as int);
        assert(before.subrange(before.len() - back, before.len() as int) =~= before.skip(before.len() - back));
        lemma_covering_link_covers(url_links(url_token(before, after)->0), token_back_bytes(before));
    }
}

} // verus!
