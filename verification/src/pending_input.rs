//! Keystrokes that are still pending (the start of a multi-key binding) are
//! shown in the buffer as typed text after each selection, underlined, and
//! taken out again when the keystrokes resolve.
use vstd::prelude::*;

use crate::text::{chars_to_string, to_chars};

verus! {

/// The characters the keystrokes type, one after the other.
pub open spec fn typed_chars(keys: Seq<Option<String>>) -> Seq<char>
    decreases keys.len(),
{
    if keys.len() == 0 {
        Seq::empty()
    } else {
        typed_chars(keys.drop_last()) + match keys.last() {
            Some(s) => s@,
            None => Seq::empty(),
        }
    }
}

/// The pending text: what the pending keystrokes type, or nothing when the
/// editor takes no input, is read-only, or is not focused.
pub open spec fn pending_of(input_enabled: bool, read_only: bool, focused: bool, keys: Seq<Option<String>>) -> Seq<
    char,
> {
    if !input_enabled || read_only || !focused {
        Seq::empty()
    } else {
        typed_chars(keys)
    }
}

/// The pending text, from the characters the pending keystrokes type
/// (`None` for a keystroke that types nothing).
pub fn pending_text(input_enabled: bool, read_only: bool, focused: bool, keys: &Vec<Option<String>>) -> (r:
    String)
    ensures
        r@ == pending_of(input_enabled, read_only, focused, keys@),
{
    let mut out: Vec<char> = Vec::new();
    if !input_enabled || read_only || !focused {
        return chars_to_string(&out);
    }
    let mut i: usize = 0;
    while i < keys.len()
        invariant
            i <= keys@.len(),
            out@ == typed_chars(keys@.take(i as int)),
        decreases keys@.len() - i,
    {
        assert(keys@.take(i as int + 1).drop_last() =~= keys@.take(i as int));
        match &keys[i] {
            Some(s) => {
                let mut cs = to_chars(s.as_str());
                out.append(&mut cs);
            },
            None => {
                assert(out@ + Seq::<char>::empty() =~= out@);
            },
        }
        i = i + 1;
    }
    assert(keys@.take(i as int) =~= keys@);
    chars_to_string(&out)
}

/// Whether the pending input changes the buffer: there is pending text, or
/// pending text shown before that has to go.
pub fn pending_input_changes(has_shown_pending: bool, pending_len: usize) -> (r: bool)
    ensures
        r == (has_shown_pending || pending_len > 0),
{
    has_shown_pending || pending_len > 0
}

/// The selections after pending text of `len` bytes goes in at the end of
/// each of `sels` (in order): each moves on by the text put in at the
/// selections before it.
pub fn selections_after_pending(sels: &Vec<(usize, usize)>, len: usize) -> (r: Vec<(usize, usize)>)
    requires
        forall|i: int|
            0 <= i < sels@.len() ==> (#[trigger] sels@[i]).0 + i * len <= usize::MAX && sels@[i].1 + i * len
                <= usize::MAX,
    ensures
        r@.len() == sels@.len(),
        forall|i: int|
            0 <= i < sels@.len() ==> #[trigger] r@[i] == ((sels@[i].0 + i * len) as usize, (sels@[i].1 + i
                * len) as usize),
{
    let mut out: Vec<(usize, usize)> = Vec::new();
    let mut i: usize = 0;
    let mut shift: usize = 0;
    while i < sels.len()
        invariant
            i <= sels@.len(),
            i < sels@.len() ==> shift == i * len,
            out@.len() == i,
            forall|j: int|
                0 <= j < sels@.len() ==> (#[trigger] sels@[j]).0 + j * len <= usize::MAX && sels@[j].1 + j * len
                    <= usize::MAX,
            forall|j: int|
                0 <= j < i ==> #[trigger] out@[j] == ((sels@[j].0 + j * len) as usize, (sels@[j].1 + j
                    * len) as usize),
        decreases sels@.len() - i,
    {
        let (s, e) = sels[i];
        assert(sels@[i as int].0 + i * len <= usize::MAX);
        out.push((s + shift, e + shift));
        if i + 1 < sels.len() {
            assert(sels@[i + 1].1 + (i + 1) * len <= usize::MAX);
            assert((i + 1) * len == i * len + len) by (nonlinear_arith);
            shift = shift + len;
        }
        i = i + 1;
    }
    out
}

/// Where the pending text shows, given the selections after it went in:
/// from each selection's end, `len` bytes on.
pub fn pending_ranges(sels: &Vec<(usize, usize)>, len: usize) -> (r: Vec<(usize, usize)>)
    requires
        forall|i: int| 0 <= i < sels@.len() ==> (#[trigger] sels@[i]).1 + len <= usize::MAX,
    ensures
        r@.len() == sels@.len(),
        forall|i: int| 0 <= i < sels@.len() ==> #[trigger] r@[i] == (sels@[i].1, (sels@[i].1 + len) as usize),
{
    let mut out: Vec<(usize, usize)> = Vec::new();
    let mut i: usize = 0;
    while i < sels.len()
        invariant
            i <= sels@.len(),
            out@.len() == i,
            forall|j: int| 0 <= j < sels@.len() ==> (#[trigger] sels@[j]).1 + len <= usize::MAX,
            forall|j: int| 0 <= j < i ==> #[trigger] out@[j] == (sels@[j].1, (sels@[j].1 + len) as usize),
        decreases sels@.len() - i,
    {
        let e = sels[i].1;
        out.push((e, e + len));
        i = i + 1;
    }
    out
}

} // verus!
