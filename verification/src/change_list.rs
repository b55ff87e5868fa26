//! The list of places where the buffer was edited, and a position in it
//! that moves back and forth through those places.
use vstd::prelude::*;

verus! {

/// A direction through a list.
#[derive(Clone, Copy, PartialEq, Eq, Structural, Debug)]
pub enum Direction {
    /// Towards the start.
    Prev,
    /// Towards the end.
    Next,
}

/// The contents of a borrowed slice, if any.
pub open spec fn opt_seq<A>(r: Option<&[A]>) -> Option<Seq<A>> {
    match r {
        Some(s) => Some(s@),
        None => None,
    }
}

/// The carets of one edit: as first recorded, and as last regrouped.
pub struct ChangeLocation<A> {
    current: Option<Vec<A>>,
    original: Vec<A>,
}

/// The carets of one change, as values: as first recorded, and as last
/// regrouped.
pub closed spec fn change_view<A>(c: ChangeLocation<A>) -> (Seq<A>, Option<Seq<A>>) {
    (c.original@, match c.current {
        Some(v) => Some(v@),
        None => None,
    })
}

/// The carets a change stands for: the regrouped ones where there are, else
/// the first recorded.
pub open spec fn locations_of<A>(c: (Seq<A>, Option<Seq<A>>)) -> Seq<A> {
    match c.1 {
        Some(v) => v,
        None => c.0,
    }
}

/// The carets at which the editor was edited, and a position in that list.
pub struct ChangeList<A> {
    changes: Vec<ChangeLocation<A>>,
    position: Option<usize>,
}

/// Where `next_change` moves from `prev` by `count` in `direction`, in a list
/// of `len` changes: back by `count` but not before the start, or forward by
/// `count` but not past the last change.
pub open spec fn next_position(prev: int, count: int, direction: Direction, len: int) -> int {
    if direction == Direction::Prev {
        if prev >= count {
            prev - count
        } else {
            0
        }
    } else {
        if prev + count <= len - 1 {
            prev + count
        } else {
            len - 1
        }
    }
}

/// The changes after recording `positions`: with `group`, as the
/// regrouped carets of the last change, if there is one; otherwise as a new
/// change.
pub open spec fn pushed<A>(changes: Seq<(Seq<A>, Option<Seq<A>>)>, group: bool, positions: Seq<A>) -> Seq<
    (Seq<A>, Option<Seq<A>>),
> {
    if group && changes.len() > 0 {
        changes.update(changes.len() - 1, (changes.last().0, Some(positions)))
    } else {
        changes.push((positions, None))
    }
}

/// The changes with the first recorded and the regrouped carets of the last
/// change swapped, when it was regrouped.
pub open spec fn inverted<A>(changes: Seq<(Seq<A>, Option<Seq<A>>)>) -> Seq<(Seq<A>, Option<Seq<A>>)> {
    if changes.len() > 0 && changes.last().1 is Some {
        changes.update(changes.len() - 1, (changes.last().1->0, Some(changes.last().0)))
    } else {
        changes
    }
}

impl<A> ChangeLocation<A> {
    fn locations(&self) -> (r: &[A])
        ensures
            r@ == locations_of(change_view(*self)),
    {
        match &self.current {
            Some(v) => v.as_slice(),
            None => self.original.as_slice(),
        }
    }
}

impl<A> ChangeList<A> {
    /// The changes, oldest first.
    pub closed spec fn changes(&self) -> Seq<(Seq<A>, Option<Seq<A>>)> {
        self.changes@.map_values(|c: ChangeLocation<A>| change_view(c))
    }

    /// The selected change, if any.
    pub closed spec fn position(&self) -> Option<usize> {
        self.position
    }

    /// An empty list with no change selected.
    pub fn new() -> (r: ChangeList<A>)
        ensures
            r.changes() == Seq::<(Seq<A>, Option<Seq<A>>)>::empty(),
            r.position() is None,
    {
        let r = ChangeList { changes: Vec::new(), position: None };
        assert(r.changes() =~= Seq::<(Seq<A>, Option<Seq<A>>)>::empty());
        r
    }

    /// Moves `count` changes in `direction` from the selected change (from
    /// past the last one when none is selected), stopping at either end, and
    /// returns the carets of the change reached.
    pub fn next_change(&mut self, count: usize, direction: Direction) -> (r: Option<&[A]>)
        requires
            old(self).changes().len() == 0 || direction == Direction::Prev || match old(self).position() {
                Some(p) => p + count <= usize::MAX,
                None => old(self).changes().len() + count <= usize::MAX,
            },
        ensures
            final(self).changes() == old(self).changes(),
            old(self).changes().len() == 0 ==> opt_seq(r) is None && final(self).position() == old(self).position(),
            old(self).changes().len() > 0 ==> {
                let len = old(self).changes().len() as int;
                let prev = match old(self).position() {
                    Some(p) => p as int,
                    None => len,
                };
                let next = next_position(prev, count as int, direction, len);
                &&& final(self).position() == Some(next as usize)
                &&& opt_seq(r) == if next < len {
                    Some(locations_of(old(self).changes()[next]))
                } else {
                    None::<Seq<A>>
                }
            },
    {
        let len = self.changes.len();
        if len == 0 {
            return None;
        }
        let prev = match self.position {
            Some(p) => p,
            None => len,
        };
        let next = if direction == Direction::Prev {
            prev.saturating_sub(count)
        } else {
            let forward = prev + count;
            if forward < len - 1 {
                forward
            } else {
                len - 1
            }
        };
        self.position = Some(next);
        if next < self.changes.len() {
            let r = self.changes[next].locations();
            assert(self.changes()[next as int] == change_view(self.changes@[next as int]));
            Some(r)
        } else {
            None
        }
    }

    /// Records the carets of an edit and clears the selected change: with
    /// `group`, as the regrouped carets of the last change, if there is one;
    /// otherwise as a new change.
    pub fn push_to_change_list(&mut self, group: bool, new_positions: Vec<A>)
        ensures
            final(self).position() is None,
            final(self).changes() == pushed(old(self).changes(), group, new_positions@),
    {
        self.position = None;
        let n = self.changes.len();
        let ghost v = new_positions@;
        if group && n > 0 {
            self.changes[n - 1].current = Some(new_positions);
            assert(self.changes() =~= old(self).changes().update(
                old(self).changes().len() - 1,
                (old(self).changes().last().0, Some(v)),
            ));
        } else {
            self.changes.push(ChangeLocation { original: new_positions, current: None });
            assert(self.changes() =~= old(self).changes().push((v, None)));
        }
    }

    /// The carets of the last change.
    pub fn last(&self) -> (r: Option<&[A]>)
        ensures
            opt_seq(r) == if self.changes().len() > 0 {
                Some(locations_of(self.changes().last()))
            } else {
                None::<Seq<A>>
            },
    {
        let n = self.changes.len();
        if n > 0 {
            assert(self.changes()[n - 1] == change_view(self.changes@[n - 1]));
            Some(self.changes[n - 1].locations())
        } else {
            None
        }
    }

    /// The carets of the last change as first recorded.
    pub fn last_before_grouping(&self) -> (r: Option<&[A]>)
        ensures
            opt_seq(r) == if self.changes().len() > 0 {
                Some(self.changes().last().0)
            } else {
                None::<Seq<A>>
            },
    {
        let n = self.changes.len();
        if n > 0 {
            assert(self.changes()[n - 1] == change_view(self.changes@[n - 1]));
            Some(self.changes[n - 1].original.as_slice())
        } else {
            None
        }
    }

    /// Swaps the first recorded and the regrouped carets of the last change,
    /// when it was regrouped.
    pub fn invert_last_group(&mut self)
        ensures
            final(self).position() == old(self).position(),
            final(self).changes() == inverted(old(self).changes()),
    {
        let n = self.changes.len();
        if n > 0 {
            assert(old(self).changes().last() == change_view(self.changes@[n - 1]));
            let current = self.changes[n - 1].current.take();
            match current {
                Some(cur) => {
                    let mut other = cur;
                    std::mem::swap(&mut self.changes[n - 1].original, &mut other);
                    self.changes[n - 1].current = Some(other);
                    assert(self.changes() =~= old(self).changes().update(
                        old(self).changes().len() - 1,
                        (old(self).changes().last().1->0, Some(old(self).changes().last().0)),
                    ));
                },
                None => {
                    assert(self.changes() =~= old(self).changes());
                },
            }
        }
    }
}

/// Recording carets makes them the carets of the last change, whether they
/// start a new change or regroup the last one.
pub proof fn lemma_push_then_last<A>(changes: Seq<(Seq<A>, Option<Seq<A>>)>, group: bool, positions: Seq<A>)
    ensures
        pushed(changes, group, positions).len() > 0,
        locations_of(pushed(changes, group, positions).last()) == positions,
{
}

/// Regrouping keeps the number of changes and the carets first recorded
/// for the last one; a new change adds one to the number of changes.
pub proof fn lemma_grouping_keeps_original<A>(changes: Seq<(Seq<A>, Option<Seq<A>>)>, group: bool, positions: Seq<A>)
    ensures
        group && changes.len() > 0 ==> pushed(changes, group, positions).len() == changes.len()
            && pushed(changes, group, positions).last().0 == changes.last().0,
        !(group && changes.len() > 0) ==> pushed(changes, group, positions).len() == changes.len() + 1,
        forall|i: int| 0 <= i < changes.len() - 1 ==> #[trigger] pushed(changes, group, positions)[i] == changes[i],
{
}

/// Inverting the last group twice restores the changes.
pub proof fn lemma_invert_twice<A>(changes: Seq<(Seq<A>, Option<Seq<A>>)>)
    ensures
        inverted(inverted(changes)) == changes,
{
    if changes.len() > 0 && changes.last().1 is Some {
        assert(inverted(inverted(changes)) =~= changes);
    }
}

/// Whether an edit groups its cursor positions with the last change-list
/// entry: when the last entry had as many cursors, on the same display rows
/// one for one (`last_rows`, if there is a last entry), as the edit's
/// cursors (`rows`).
pub fn edit_groups_with_last(last_rows: Option<&Vec<u32>>, rows: &Vec<u32>) -> (r: bool)
    ensures
        r == match last_rows {
            Some(prev) => prev@ == rows@,
            None => false,
        },
{
    match last_rows {
        None => false,
        Some(prev) => {
            if prev.len() != rows.len() {
                return false;
            }
            let mut i: usize = 0;
            while i < prev.len()
                invariant
                    i <= prev@.len(),
                    last_rows == Some(prev),
                    prev@.len() == rows@.len(),
                    forall|j: int| 0 <= j < i ==> prev@[j] == rows@[j],
                decreases prev@.len() - i,
            {
                if prev[i] != rows[i] {
                    assert(prev@[i as int] != rows@[i as int]);
                    return false;
                }
                i = i + 1;
            }
            assert(prev@ =~= rows@);
            true
        },
    }
}

} // verus!
