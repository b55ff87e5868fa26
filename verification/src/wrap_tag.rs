//! Wrapping selections in a tag: each selection in a language that knows
//! how to wrap gets an opening tag before it and a closing tag after it, and
//! a cursor lands inside each tag, where its name goes.
use vstd::prelude::*;

use crate::text::{chars_to_string, str_byte_len, to_chars, utf8_len};

verus! {

/// How a language writes the tags that wrap a selection: the opening tag is
/// `start_prefix` then `start_suffix`, the closing one `end_prefix` then
/// `end_suffix`; the tag's name goes between each prefix and suffix.
pub struct WrapCharactersConfig {
    /// What opens the opening tag.
    pub start_prefix: String,
    /// What closes the opening tag.
    pub start_suffix: String,
    /// What opens the closing tag.
    pub end_prefix: String,
    /// What closes the closing tag.
    pub end_suffix: String,
}

/// A selection to wrap: its range and the wrap characters of the language at
/// its start, if that language has any.
pub struct WrapTarget {
    /// Where the selection starts.
    pub start: usize,
    /// Where it ends.
    pub end: usize,
    /// How the language there writes tags.
    pub config: Option<WrapCharactersConfig>,
}

/// One wrapped selection: the tag text put in at its start and at its end,
/// and how many bytes of each tag come before and after the cursor that goes
/// into it.
pub struct WrapPlan {
    /// Where the selection starts.
    pub start: usize,
    /// Where it ends.
    pub end: usize,
    /// The opening tag.
    pub open_tag: String,
    /// The closing tag.
    pub close_tag: String,
    /// The length in bytes of the opening tag's prefix.
    pub start_prefix_len: usize,
    /// The length in bytes of the closing tag's suffix.
    pub end_suffix_len: usize,
}

/// Whether the plan wraps the target `t` with the configuration `c`.
pub open spec fn plans_wrap(p: WrapPlan, t: WrapTarget, c: WrapCharactersConfig) -> bool {
    &&& p.start == t.start
    &&& p.end == t.end
    &&& p.open_tag@ == c.start_prefix@ + c.start_suffix@
    &&& p.close_tag@ == c.end_prefix@ + c.end_suffix@
    &&& p.start_prefix_len == utf8_len(c.start_prefix@)
    &&& p.end_suffix_len == utf8_len(c.end_suffix@)
}

/// The targets that get wrapped: those whose language has wrap characters,
/// in order.
pub open spec fn wrapped_targets(ts: Seq<WrapTarget>) -> Seq<WrapTarget>
    decreases ts.len(),
{
    if ts.len() == 0 {
        Seq::empty()
    } else {
        let rest = wrapped_targets(ts.drop_last());
        if ts.last().config is Some {
            rest.push(ts.last())
        } else {
            rest
        }
    }
}

/// Whether the command is offered: some selection lies in a language that
/// has wrap characters.
pub fn can_wrap_in_tag(has_wrap_characters: &Vec<bool>) -> (r: bool)
    ensures
        r == exists|i: int| 0 <= i < has_wrap_characters@.len() && #[trigger] has_wrap_characters@[i],
{
    let mut i: usize = 0;
    while i < has_wrap_characters.len()
        invariant
            i <= has_wrap_characters@.len(),
            forall|j: int| 0 <= j < i ==> !#[trigger] has_wrap_characters@[j],
        decreases has_wrap_characters@.len() - i,
    {
        if has_wrap_characters[i] {
            assert(has_wrap_characters@[i as int]);
            return true;
        }
        i = i + 1;
    }
    false
}

/// The text of `a` followed by `b`.
fn concat(a: &str, b: &str) -> (r: String)
    ensures
        r@ == a@ + b@,
{
    let mut v = to_chars(a);
    let mut w = to_chars(b);
    v.append(&mut w);
    chars_to_string(&v)
}

/// The wraps of the selections: one for each selection whose language has
/// wrap characters, in order, with the tags those characters make. Tag
/// parts are assumed shorter than the address space, as any string is.
pub fn plan_wraps(targets: &Vec<WrapTarget>) -> (r: Vec<WrapPlan>)
    requires
        forall|i: int|
            0 <= i < targets@.len() && (#[trigger] targets@[i]).config is Some ==> utf8_len(
                targets@[i].config->0.start_prefix@,
            ) <= usize::MAX && utf8_len(targets@[i].config->0.end_suffix@) <= usize::MAX,
    ensures
        r@.len() == wrapped_targets(targets@).len(),
        forall|k: int|
            0 <= k < r@.len() ==> plans_wrap(
                #[trigger] r@[k],
                wrapped_targets(targets@)[k],
                wrapped_targets(targets@)[k].config->0,
            ),
{
    let mut out: Vec<WrapPlan> = Vec::new();
    let mut i: usize = 0;
    while i < targets.len()
        invariant
            i <= targets@.len(),
            forall|j: int|
                0 <= j < targets@.len() && (#[trigger] targets@[j]).config is Some ==> utf8_len(
                    targets@[j].config->0.start_prefix@,
                ) <= usize::MAX && utf8_len(targets@[j].config->0.end_suffix@) <= usize::MAX,
            out@.len() == wrapped_targets(targets@.take(i as int)).len(),
            forall|k: int|
                0 <= k < out@.len() ==> plans_wrap(
                    #[trigger] out@[k],
                    wrapped_targets(targets@.take(i as int))[k],
                    wrapped_targets(targets@.take(i as int))[k].config->0,
                ),
        decreases targets@.len() - i,
    {
        let t = &targets[i];
        let ghost pre = wrapped_targets(targets@.take(i as int));
        assert(targets@.take(i as int + 1).drop_last() =~= targets@.take(i as int));
        assert(targets@.take(i as int + 1).last() == targets@[i as int]);
        match &t.config {
            Some(c) => {
                let spl = str_byte_len(c.start_prefix.as_str());
                let esl = str_byte_len(c.end_suffix.as_str());
                let plan = WrapPlan {
                    start: t.start,
                    end: t.end,
                    open_tag: concat(c.start_prefix.as_str(), c.start_suffix.as_str()),
                    close_tag: concat(c.end_prefix.as_str(), c.end_suffix.as_str()),
                    start_prefix_len: spl as usize,
                    end_suffix_len: esl as usize,
                };
                out.push(plan);
                let ghost now = wrapped_targets(targets@.take(i as int + 1));
                assert(now == pre.push(targets@[i as int]));
                assert forall|k: int| 0 <= k < out@.len() implies plans_wrap(
                    #[trigger] out@[k],
                    now[k],
                    now[k].config->0,
                ) by {
                    if k < out@.len() - 1 {
                        assert(now[k] == pre[k]);
                    }
                }
            },
            None => {
                assert(wrapped_targets(targets@.take(i as int + 1)) == pre);
            },
        }
        i = i + 1;
    }
    assert(targets@.take(i as int) =~= targets@);
    out
}

/// The cursors after the wrap, two per wrapped selection: given where each
/// opening tag's start and each closing tag's end lie once the tags are in
/// (with each tag's prefix and suffix lengths), one cursor after the
/// opening tag's prefix and one before the closing tag's suffix.
pub fn wrap_cursors(placed: &Vec<(usize, usize, usize, usize)>) -> (r: Vec<usize>)
    requires
        forall|i: int| 0 <= i < placed@.len() ==> (#[trigger] placed@[i]).0 + placed@[i].2 <= usize::MAX,
    ensures
        r@.len() == 2 * placed@.len(),
        forall|i: int|
            0 <= i < placed@.len() ==> r@[2 * i] == (#[trigger] placed@[i]).0 + placed@[i].2 && r@[2 * i + 1] == if placed@[i].1
                >= placed@[i].3 {
                placed@[i].1 - placed@[i].3
            } else {
                0
            },
{
    let mut out: Vec<usize> = Vec::new();
    let mut i: usize = 0;
    while i < placed.len()
        invariant
            i <= placed@.len(),
            out@.len() == 2 * i,
            forall|j: int| 0 <= j < placed@.len() ==> (#[trigger] placed@[j]).0 + placed@[j].2 <= usize::MAX,
            forall|j: int|
                0 <= j < i ==> out@[2 * j] == (#[trigger] placed@[j]).0 + placed@[j].2 && out@[2 * j + 1] == if placed@[j].1
                    >= placed@[j].3 {
                    placed@[j].1 - placed@[j].3
                } else {
                    0
                },
        decreases placed@.len() - i,
    {
        let (open_start, close_end, prefix_len, suffix_len) = placed[i];
        out.push(open_start + prefix_len);
        out.push(close_end.saturating_sub(suffix_len));
        i = i + 1;
    }
    out
}

} // verus!
