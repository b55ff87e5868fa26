//! Which creases the fold commands fold. A buffer's creases are read row by
//! row: the crease of a row, when there is one, starts at that row and ends
//! at a later or the same row. Each command answers with the start rows of
//! the creases to fold.
use vstd::prelude::*;

use crate::text::{lemma_utf8_len_concat, len_utf8, utf8_len, utf8_width};

verus! {

/// A table of creases, one entry per buffer row: the end row of the crease
/// that starts at that row, if any. It is well formed when it has at least
/// one row, its rows fit in `u32`, and every crease ends at or after its start
/// row and inside the buffer.
pub open spec fn creases_wf(c: Seq<Option<u32>>) -> bool {
    &&& 1 <= c.len() <= u32::MAX
    &&& forall|r: int| 0 <= r < c.len() && (#[trigger] c[r]) is Some ==> r <= c[r]->0 < c.len()
}

/// The end row of the crease at row `r`; rows outside the buffer have none.
pub open spec fn crease_at(c: Seq<Option<u32>>, r: int) -> Option<u32> {
    if 0 <= r < c.len() {
        c[r]
    } else {
        None
    }
}

/// The row after a crease that starts at `r` and ends at `e`.
pub open spec fn after_crease(r: int, e: u32) -> int {
    if e >= r {
        e + 1
    } else {
        r + 1
    }
}

/// How many rows lie from `row` up to `stop`.
pub open spec fn span(row: int, stop: int) -> nat {
    if row < stop {
        (stop - row) as nat
    } else {
        0
    }
}

/// The creases met by a walk from `row` to before `stop` that steps over each
/// crease it meets, by start row.
pub open spec fn hop_creases(c: Seq<Option<u32>>, row: int, stop: int) -> Seq<u32>
    decreases span(row, stop),
{
    if row >= stop {
        Seq::empty()
    } else {
        match crease_at(c, row) {
            Some(e) => seq![row as u32] + hop_creases(c, after_crease(row, e), stop),
            None => hop_creases(c, row + 1, stop),
        }
    }
}

/// Every crease that starts in the rows from `row` to before `stop`, by start
/// row.
pub open spec fn creases_from(c: Seq<Option<u32>>, row: int, stop: int) -> Seq<u32>
    decreases span(row, stop),
{
    if row >= stop {
        Seq::empty()
    } else {
        let here: Seq<u32> = if crease_at(c, row) is Some {
            seq![row as u32]
        } else {
            Seq::empty()
        };
        here + creases_from(c, row + 1, stop)
    }
}

/// The nearest crease at or above `row` that reaches `target`.
pub open spec fn enclosing_crease(c: Seq<Option<u32>>, row: int, target: int) -> Option<u32>
    decreases row + 1,
{
    if row < 0 {
        None
    } else {
        match crease_at(c, row) {
            Some(e) if e >= target => Some(row as u32),
            _ => enclosing_crease(c, row - 1, target),
        }
    }
}

/// The creases met going up from `row` while each reaches `target`; the first
/// one that does not stops the walk.
pub open spec fn chain_above(c: Seq<Option<u32>>, row: int, target: int) -> Seq<u32>
    decreases row + 1,
{
    if row < 0 {
        Seq::empty()
    } else {
        match crease_at(c, row) {
            Some(e) => if e >= target {
                seq![row as u32] + chain_above(c, row - 1, target)
            } else {
                Seq::empty()
            },
            None => chain_above(c, row - 1, target),
        }
    }
}

/// The smaller and the larger of two rows.
pub open spec fn sorted_rows(rows: (u32, u32)) -> (u32, u32) {
    if rows.0 <= rows.1 {
        rows
    } else {
        (rows.1, rows.0)
    }
}

/// What `fold` folds for a selection over the rows `rows`: a selection over
/// several rows folds the creases a walk over its rows meets; otherwise, or
/// when there are none, the nearest crease at or above its first row that
/// reaches that row.
pub open spec fn fold_rows_of(c: Seq<Option<u32>>, rows: (u32, u32)) -> Seq<u32> {
    let (s, e) = sorted_rows(rows);
    let inner = hop_creases(c, s as int, e + 1);
    if s != e && inner.len() > 0 {
        inner
    } else {
        match enclosing_crease(c, s as int, s as int) {
            Some(r) => seq![r],
            None => Seq::empty(),
        }
    }
}

/// What `fold_recursive` folds for a selection over the rows `rows`: a
/// selection over several rows folds every crease that starts in them;
/// otherwise, or when there are none, the creases above its first row that
/// reach it, up to the first that does not.
pub open spec fn fold_recursive_rows_of(c: Seq<Option<u32>>, rows: (u32, u32)) -> Seq<u32> {
    let (s, e) = sorted_rows(rows);
    let inner = creases_from(c, s as int, e + 1);
    if s != e && inner.len() > 0 {
        inner
    } else {
        chain_above(c, s as int, s as int)
    }
}

/// What `fold` folds for the selections over the rows `sels`, one selection
/// after the other.
pub open spec fn fold_selections_of(c: Seq<Option<u32>>, sels: Seq<(u32, u32)>) -> Seq<u32>
    decreases sels.len(),
{
    if sels.len() == 0 {
        Seq::empty()
    } else {
        fold_selections_of(c, sels.drop_last()) + fold_rows_of(c, sels.last())
    }
}

/// What `fold_recursive` folds for the selections over the rows `sels`, one
/// selection after the other.
pub open spec fn fold_recursive_selections_of(c: Seq<Option<u32>>, sels: Seq<(u32, u32)>) -> Seq<u32>
    decreases sels.len(),
{
    if sels.len() == 0 {
        Seq::empty()
    } else {
        fold_recursive_selections_of(c, sels.drop_last()) + fold_recursive_rows_of(c, sels.last())
    }
}

/// Whether a selection kept open covers part of the rows `s` to `e`.
pub open spec fn kept_open(keep: Seq<(u32, u32)>, s: int, e: int) -> bool {
    exists|i: int| 0 <= i < keep.len() && #[trigger] keep[i].1 >= s && keep[i].0 <= e
}

/// The creases `fold_at_level` folds in the rows from `row` to before `stop`,
/// at nesting `level`: the creases at level `target` that no kept selection
/// touches, in the order in which a last-in first-out walk meets them (the
/// creases inside a later crease come before those inside an earlier one).
pub open spec fn level_walk(
    c: Seq<Option<u32>>,
    row: int,
    stop: int,
    level: int,
    target: int,
    keep: Seq<(u32, u32)>,
) -> Seq<u32>
    decreases target - level, span(row, stop),
{
    if row >= stop {
        Seq::empty()
    } else {
        match crease_at(c, row) {
            None => level_walk(c, row + 1, stop, level, target, keep),
            Some(e) => {
                let next = after_crease(row, e);
                if level < target {
                    level_walk(c, next, stop, level, target, keep) + level_walk(
                        c,
                        row + 1,
                        e as int,
                        level + 1,
                        target,
                        keep,
                    )
                } else if level == target && !kept_open(keep, row + 1, e as int) {
                    seq![row as u32] + level_walk(c, next, stop, level, target, keep)
                } else {
                    level_walk(c, next, stop, level, target, keep)
                }
            },
        }
    }
}

/// Every crease that "fold at level" folds is a crease of the table, and no
/// kept selection touches the rows inside it.
pub proof fn lemma_level_walk_folds_untouched_creases(
    c: Seq<Option<u32>>,
    row: int,
    stop: int,
    level: int,
    target: int,
    keep: Seq<(u32, u32)>,
)
    requires
        creases_wf(c),
    ensures
        forall|k: int|
            0 <= k < level_walk(c, row, stop, level, target, keep).len() ==> {
                let r = #[trigger] level_walk(c, row, stop, level, target, keep)[k];
                &&& crease_at(c, r as int) is Some
                &&& !kept_open(keep, r + 1, crease_at(c, r as int)->0 as int)
            },
    decreases target - level, span(row, stop),
{
    if row < stop {
        match crease_at(c, row) {
            None => lemma_level_walk_folds_untouched_creases(c, row + 1, stop, level, target, keep),
            Some(e) => {
                let next = after_crease(row, e);
                lemma_level_walk_folds_untouched_creases(c, next, stop, level, target, keep);
                if level < target {
                    lemma_level_walk_folds_untouched_creases(c, row + 1, e as int, level + 1, target, keep);
                    let a = level_walk(c, next, stop, level, target, keep);
                    let b = level_walk(c, row + 1, e as int, level + 1, target, keep);
                    assert forall|k: int| 0 <= k < (a + b).len() implies {
                        let r = #[trigger] (a + b)[k];
                        &&& crease_at(c, r as int) is Some
                        &&& !kept_open(keep, r + 1, crease_at(c, r as int)->0 as int)
                    } by {
                        if k < a.len() {
                            assert((a + b)[k] == a[k]);
                        } else {
                            assert((a + b)[k] == b[k - a.len()]);
                        }
                    }
                } else if level == target && !kept_open(keep, row + 1, e as int) {
                    let a = level_walk(c, next, stop, level, target, keep);
                    assert forall|k: int| 0 <= k < (seq![row as u32] + a).len() implies {
                        let r = #[trigger] (seq![row as u32] + a)[k];
                        &&& crease_at(c, r as int) is Some
                        &&& !kept_open(keep, r + 1, crease_at(c, r as int)->0 as int)
                    } by {
                        if k > 0 {
                            assert((seq![row as u32] + a)[k] == a[k - 1]);
                        }
                    }
                }
            },
        }
    }
}

/// The outputs of the walks inside the creases `kids`, the last crease's
/// first.
pub open spec fn kids_walk(
    c: Seq<Option<u32>>,
    kids: Seq<u32>,
    level: int,
    target: int,
    keep: Seq<(u32, u32)>,
) -> Seq<u32>
    decreases kids.len(),
{
    if kids.len() == 0 {
        Seq::empty()
    } else {
        let k = kids.last();
        let e = crease_at(c, k as int)->0;
        level_walk(c, k + 1, e as int, level + 1, target, keep) + kids_walk(
            c,
            kids.drop_last(),
            level,
            target,
            keep,
        )
    }
}

/// The end row of the crease at `row`, if any.
fn crease_end(c: &Vec<Option<u32>>, row: u32) -> (r: Option<u32>)
    ensures
        r == crease_at(c@, row as int),
{
    if (row as usize) < c.len() {
        c[row as usize]
    } else {
        None
    }
}

/// The creases a walk over the rows `row` to `last` meets, stepping over each.
fn hop_scan(c: &Vec<Option<u32>>, row: u32, last: u32) -> (r: Vec<u32>)
    requires
        creases_wf(c@),
        last < c@.len(),
    ensures
        r@ == hop_creases(c@, row as int, last + 1),
{
    let mut out: Vec<u32> = Vec::new();
    let mut i: u32 = row;
    while i <= last
        invariant
            creases_wf(c@),
            last < c@.len(),
            hop_creases(c@, row as int, last + 1) == out@ + hop_creases(c@, i as int, last + 1),
        decreases span(i as int, last + 1),
    {
        match crease_end(c, i) {
            Some(e) => {
                out.push(i);
                assert(out@ + hop_creases(c@, e + 1, last + 1) =~= out@.drop_last() + (seq![i]
                    + hop_creases(c@, e + 1, last + 1)));
                i = e + 1;
            },
            None => {
                i = i + 1;
            },
        }
    }
    assert(out@ + hop_creases(c@, i as int, last + 1) =~= out@);
    out
}

/// Every crease that starts in the rows `row` to before `stop`.
fn scan_all(c: &Vec<Option<u32>>, row: u32, stop: u32) -> (r: Vec<u32>)
    requires
        creases_wf(c@),
        stop <= c@.len(),
    ensures
        r@ == creases_from(c@, row as int, stop as int),
{
    let mut out: Vec<u32> = Vec::new();
    let mut i: u32 = row;
    while i < stop
        invariant
            stop <= c@.len(),
            creases_from(c@, row as int, stop as int) == out@ + creases_from(c@, i as int, stop as int),
        decreases span(i as int, stop as int),
    {
        let here = crease_end(c, i);
        if here.is_some() {
            out.push(i);
        }
        let ghost h: Seq<u32> = if here is Some {
            seq![i]
        } else {
            Seq::empty()
        };
        assert(out@ + creases_from(c@, i + 1, stop as int) =~= out@.subrange(0, out@.len() - h.len())
            + (h + creases_from(c@, i + 1, stop as int)));
        i = i + 1;
    }
    assert(out@ + creases_from(c@, i as int, stop as int) =~= out@);
    out
}

/// The nearest crease at or above row `row` that reaches `row`.
fn find_enclosing(c: &Vec<Option<u32>>, row: u32) -> (r: Option<u32>)
    requires
        creases_wf(c@),
        row < c@.len(),
    ensures
        r == enclosing_crease(c@, row as int, row as int),
{
    let mut i: u32 = row + 1;
    while i > 0
        invariant
            i <= row + 1,
            enclosing_crease(c@, row as int, row as int) == enclosing_crease(c@, i - 1, row as int),
        decreases i,
    {
        let r = i - 1;
        match crease_end(c, r) {
            Some(e) => {
                if e >= row {
                    return Some(r);
                }
            },
            None => {},
        }
        i = i - 1;
    }
    None
}

/// The creases above row `row` that reach it, up to the first that does not.
fn scan_chain_above(c: &Vec<Option<u32>>, row: u32) -> (r: Vec<u32>)
    requires
        creases_wf(c@),
        row < c@.len(),
    ensures
        r@ == chain_above(c@, row as int, row as int),
{
    let mut out: Vec<u32> = Vec::new();
    let mut i: u32 = row + 1;
    while i > 0
        invariant
            i <= row + 1,
            chain_above(c@, row as int, row as int) == out@ + chain_above(c@, i - 1, row as int),
        decreases i,
    {
        let r = i - 1;
        match crease_end(c, r) {
            Some(e) => {
                if e >= row {
                    out.push(r);
                    assert(out@ + chain_above(c@, r - 1, row as int) =~= out@.drop_last() + (seq![r]
                        + chain_above(c@, r - 1, row as int)));
                } else {
                    assert(out@ + chain_above(c@, r as int, row as int) =~= out@);
                    return out;
                }
            },
            None => {},
        }
        i = i - 1;
    }
    assert(out@ + chain_above(c@, -1, row as int) =~= out@);
    out
}

/// What `fold` folds for one selection over the rows `rows`.
pub fn fold_rows(c: &Vec<Option<u32>>, rows: (u32, u32)) -> (r: Vec<u32>)
    requires
        creases_wf(c@),
        rows.0 < c@.len(),
        rows.1 < c@.len(),
    ensures
        r@ == fold_rows_of(c@, rows),
{
    let (s, e) = if rows.0 <= rows.1 {
        rows
    } else {
        (rows.1, rows.0)
    };
    if s != e {
        let inner = hop_scan(c, s, e);
        if inner.len() > 0 {
            return inner;
        }
    }
    match find_enclosing(c, s) {
        Some(r) => vec![r],
        None => Vec::new(),
    }
}

/// What `fold_recursive` folds for one selection over the rows `rows`.
pub fn fold_recursive_rows(c: &Vec<Option<u32>>, rows: (u32, u32)) -> (r: Vec<u32>)
    requires
        creases_wf(c@),
        rows.0 < c@.len(),
        rows.1 < c@.len(),
    ensures
        r@ == fold_recursive_rows_of(c@, rows),
{
    let (s, e) = if rows.0 <= rows.1 {
        rows
    } else {
        (rows.1, rows.0)
    };
    if s != e {
        let inner = scan_all(c, s, e + 1);
        if inner.len() > 0 {
            return inner;
        }
    }
    scan_chain_above(c, s)
}

/// What the fold command folds for the selections over the rows `sels`: the
/// creases of each selection, one selection after the other.
pub fn fold_selections(c: &Vec<Option<u32>>, sels: &Vec<(u32, u32)>) -> (r: Vec<u32>)
    requires
        creases_wf(c@),
        forall|i: int| 0 <= i < sels@.len() ==> (#[trigger] sels@[i]).0 < c@.len() && sels@[i].1 < c@.len(),
    ensures
        r@ == fold_selections_of(c@, sels@),
{
    let mut out: Vec<u32> = Vec::new();
    let mut i: usize = 0;
    while i < sels.len()
        invariant
            creases_wf(c@),
            i <= sels@.len(),
            forall|j: int| 0 <= j < sels@.len() ==> (#[trigger] sels@[j]).0 < c@.len() && sels@[j].1 < c@.len(),
            out@ == fold_selections_of(c@, sels@.take(i as int)),
        decreases sels@.len() - i,
    {
        let mut more = fold_rows(c, sels[i]);
        let ghost before = out@;
        let ghost added = more@;
        assert(sels@.take(i as int + 1).drop_last() =~= sels@.take(i as int));
        assert(sels@.take(i as int + 1).last() == sels@[i as int]);
        out.append(&mut more);
        assert(out@ == before + added);
        i = i + 1;
    }
    assert(sels@.take(i as int) =~= sels@);
    out
}

/// What the recursive fold command folds for the selections over the rows
/// `sels`: the creases of each selection, one selection after the other.
pub fn fold_recursive_selections(c: &Vec<Option<u32>>, sels: &Vec<(u32, u32)>) -> (r: Vec<u32>)
    requires
        creases_wf(c@),
        forall|i: int| 0 <= i < sels@.len() ==> (#[trigger] sels@[i]).0 < c@.len() && sels@[i].1 < c@.len(),
    ensures
        r@ == fold_recursive_selections_of(c@, sels@),
{
    let mut out: Vec<u32> = Vec::new();
    let mut i: usize = 0;
    while i < sels.len()
        invariant
            creases_wf(c@),
            i <= sels@.len(),
            forall|j: int| 0 <= j < sels@.len() ==> (#[trigger] sels@[j]).0 < c@.len() && sels@[j].1 < c@.len(),
            out@ == fold_recursive_selections_of(c@, sels@.take(i as int)),
        decreases sels@.len() - i,
    {
        let mut more = fold_recursive_rows(c, sels[i]);
        let ghost before = out@;
        let ghost added = more@;
        assert(sels@.take(i as int + 1).drop_last() =~= sels@.take(i as int));
        assert(sels@.take(i as int + 1).last() == sels@[i as int]);
        out.append(&mut more);
        assert(out@ == before + added);
        i = i + 1;
    }
    assert(sels@.take(i as int) =~= sels@);
    out
}

/// What "fold all" folds: every crease that starts before the last row.
pub fn fold_all_rows(c: &Vec<Option<u32>>) -> (r: Vec<u32>)
    requires
        creases_wf(c@),
    ensures
        r@ == creases_from(c@, 0, c@.len() - 1),
{
    let last = (c.len() - 1) as u32;
    scan_all(c, 0, last)
}

/// Whether a kept selection covers part of the rows `s` to `e`.
fn touches_kept(keep: &Vec<(u32, u32)>, s: u32, e: u32) -> (r: bool)
    ensures
        r == kept_open(keep@, s as int, e as int),
{
    let mut i: usize = 0;
    while i < keep.len()
        invariant
            i <= keep@.len(),
            forall|j: int| 0 <= j < i ==> !(#[trigger] keep@[j].1 >= s && keep@[j].0 <= e),
        decreases keep@.len() - i,
    {
        if keep[i].1 >= s && keep[i].0 <= e {
            assert(keep@[i as int].1 >= s && keep@[i as int].0 <= e);
            return true;
        }
        i = i + 1;
    }
    false
}

proof fn lemma_kids_walk_push(
    c: Seq<Option<u32>>,
    kids: Seq<u32>,
    k: u32,
    level: int,
    target: int,
    keep: Seq<(u32, u32)>,
)
    ensures
        kids_walk(c, kids.push(k), level, target, keep) == level_walk(
            c,
            k + 1,
            crease_at(c, k as int)->0 as int,
            level + 1,
            target,
            keep,
        ) + kids_walk(c, kids, level, target, keep),
{
    assert(kids.push(k).drop_last() =~= kids);
}

/// The creases `fold_at_level` folds inside the rows `row` to before `stop`
/// at nesting `level`.
fn walk_level(
    c: &Vec<Option<u32>>,
    row: u32,
    stop: u32,
    level: u32,
    target: u32,
    keep: &Vec<(u32, u32)>,
) -> (r: Vec<u32>)
    requires
        creases_wf(c@),
        stop <= c@.len(),
    ensures
        r@ == level_walk(c@, row as int, stop as int, level as int, target as int, keep@),
    decreases target - level,
{
    let ghost whole = level_walk(c@, row as int, stop as int, level as int, target as int, keep@);
    let mut i: u32 = row;
    if level < target {
        let mut kids: Vec<u32> = Vec::new();
        while i < stop
            invariant
                creases_wf(c@),
                stop <= c@.len(),
                level < target,
                forall|j: int| 0 <= j < kids@.len() ==> (#[trigger] kids@[j]) < c@.len() && crease_at(c@, kids@[j] as int) is Some,
                whole == level_walk(c@, i as int, stop as int, level as int, target as int, keep@)
                    + kids_walk(c@, kids@, level as int, target as int, keep@),
            decreases span(i as int, stop as int),
        {
            match crease_end(c, i) {
                Some(e) => {
                    proof {
                        lemma_kids_walk_push(c@, kids@, i, level as int, target as int, keep@);
                    }
                    kids.push(i);
                    i = e + 1;
                },
                None => {
                    i = i + 1;
                },
            }
        }
        assert(level_walk(c@, i as int, stop as int, level as int, target as int, keep@) =~= Seq::<u32>::empty());
        assert(kids@.take(kids@.len() as int) =~= kids@);
        let mut out: Vec<u32> = Vec::new();
        let mut n: usize = kids.len();
        while n > 0
            invariant
                creases_wf(c@),
                level < target,
                n <= kids@.len(),
                forall|j: int| 0 <= j < kids@.len() ==> (#[trigger] kids@[j]) < c@.len() && crease_at(c@, kids@[j] as int) is Some,
                whole == out@ + kids_walk(c@, kids@.take(n as int), level as int, target as int, keep@),
            decreases n,
        {
            let k = kids[n - 1];
            let e = c[k as usize].unwrap();
            assert(kids@.take(n as int).drop_last() =~= kids@.take(n - 1));
            let mut inner = walk_level(c, k + 1, e, level + 1, target, keep);
            assert(out@ + inner@ + kids_walk(c@, kids@.take(n - 1), level as int, target as int, keep@)
                =~= out@ + (inner@ + kids_walk(c@, kids@.take(n - 1), level as int, target as int, keep@)));
            out.append(&mut inner);
            n = n - 1;
        }
        assert(out@ + kids_walk(c@, kids@.take(0), level as int, target as int, keep@) =~= out@);
        out
    } else {
        let mut out: Vec<u32> = Vec::new();
        while i < stop
            invariant
                creases_wf(c@),
                stop <= c@.len(),
                level >= target,
                whole == out@ + level_walk(c@, i as int, stop as int, level as int, target as int, keep@),
            decreases span(i as int, stop as int),
        {
            match crease_end(c, i) {
                Some(e) => {
                    if level == target && !touches_kept(keep, i + 1, e) {
                        out.push(i);
                        assert(out@ + level_walk(c@, e + 1, stop as int, level as int, target as int, keep@)
                            =~= out@.drop_last() + (seq![i] + level_walk(
                            c@,
                            e + 1,
                            stop as int,
                            level as int,
                            target as int,
                            keep@,
                        )));
                    }
                    i = e + 1;
                },
                None => {
                    i = i + 1;
                },
            }
        }
        assert(out@ + level_walk(c@, i as int, stop as int, level as int, target as int, keep@) =~= out@);
        out
    }
}

/// What "fold at level" folds: walking the whole buffer, the creases nested
/// `target` deep (the outermost are at level one) that no selection in
/// `keep` (given by its first and last row) touches; `target` zero folds
/// nothing.
pub fn fold_at_level_rows(c: &Vec<Option<u32>>, target: u32, keep: &Vec<(u32, u32)>) -> (r: Vec<u32>)
    requires
        creases_wf(c@),
    ensures
        r@ == level_walk(c@, 0, c@.len() - 1, 1, target as int, keep@),
{
    let last = (c.len() - 1) as u32;
    walk_level(c, 0, last, 1, target, keep)
}

/// The byte ranges of the line breaks of `text`, each one byte long, in
/// order: what a single-line editor folds so that its text shows on one
/// line.
pub open spec fn newline_ranges(text: Seq<char>) -> Seq<(usize, usize)>
    decreases text.len(),
{
    if text.len() == 0 {
        Seq::empty()
    } else {
        let rest = newline_ranges(text.drop_last());
        if text.last() == '\n' {
            let at = utf8_len(text.drop_last());
            rest.push((at as usize, (at + 1) as usize))
        } else {
            rest
        }
    }
}

/// The byte ranges of the line breaks of `text`.
pub fn newline_fold_ranges(text: &Vec<char>) -> (r: Vec<(usize, usize)>)
    requires
        utf8_len(text@) <= usize::MAX,
    ensures
        r@ == newline_ranges(text@),
{
    let mut out: Vec<(usize, usize)> = Vec::new();
    let mut i: usize = 0;
    let mut at: usize = 0;
    assert(text@.take(0) =~= Seq::<char>::empty());
    while i < text.len()
        invariant
            i <= text@.len(),
            utf8_len(text@) <= usize::MAX,
            at == utf8_len(text@.take(i as int)),
            out@ == newline_ranges(text@.take(i as int)),
        decreases text@.len() - i,
    {
        let c = text[i];
        proof {
            assert(text@.take(i as int + 1) =~= text@.take(i as int) + seq![c]);
            assert(text@.take(i as int + 1).drop_last() =~= text@.take(i as int));
            lemma_utf8_len_concat(text@.take(i as int), seq![c]);
            let one = seq![c];
            assert(one.drop_first() =~= Seq::<char>::empty());
            assert(utf8_len(one.drop_first()) == 0);
            assert(one[0] == c);
            assert(utf8_len(one) == utf8_width(c));
            assert(text@ =~= text@.take(i as int + 1) + text@.skip(i as int + 1));
            lemma_utf8_len_concat(text@.take(i as int + 1), text@.skip(i as int + 1));
        }
        if c == '\n' {
            out.push((at, at + 1));
        }
        at = at + len_utf8(c);
        i = i + 1;
    }
    assert(text@.take(i as int) =~= text@);
    out
}

} // verus!
