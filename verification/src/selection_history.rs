//! The history of selections: the selections before and after each
//! transaction, and a bounded stack of past selections to go back to.
use std::collections::HashMap;
use std::collections::VecDeque;
use vstd::prelude::*;

verus! {

broadcast use vstd::std_specs::hash::group_hash_axioms;

/// The most selection sets the undo stack keeps.
pub const MAX_SELECTION_HISTORY_LEN: usize = 1024;

/// A selection as the history records it: its id, its end points as
/// offsets, and whether its head is at the start.
#[derive(Clone, Copy, PartialEq, Eq, Structural, Debug)]
pub struct HistorySelection {
    /// The selection's id.
    pub id: usize,
    /// Where it starts.
    pub start: usize,
    /// Where it ends.
    pub end: usize,
    /// Whether its head is at the start.
    pub reversed: bool,
}

/// Whether past selections are recorded.
#[derive(Clone, Copy, PartialEq, Eq, Structural, Debug, Default)]
pub enum SelectionHistoryMode {
    /// Recorded.
    #[default]
    Normal,
    /// Not recorded, while moving through the history.
    Skipping,
}

/// The selections before a transaction, and after it once known.
pub type TransactionSelections = (Vec<HistorySelection>, Option<Vec<HistorySelection>>);

/// The selection history of an editor.
pub struct SelectionHistory {
    selections_by_transaction: HashMap<u64, TransactionSelections>,
    mode: SelectionHistoryMode,
    undo_stack: VecDeque<Vec<HistorySelection>>,
}

/// The undo stack after pushing `entry`: unchanged when `entry` equals its
/// top, else with `entry` on top and, past the bound, without its bottom.
pub open spec fn pushed_undo(stack: Seq<Seq<HistorySelection>>, entry: Seq<HistorySelection>) -> Seq<Seq<HistorySelection>> {
    if stack.len() > 0 && stack.last() == entry {
        stack
    } else if stack.len() + 1 > MAX_SELECTION_HISTORY_LEN {
        stack.push(entry).drop_first()
    } else {
        stack.push(entry)
    }
}

/// The undo stack is within its bound and no two neighbours are equal.
pub open spec fn undo_stack_ok(stack: Seq<Seq<HistorySelection>>) -> bool {
    &&& stack.len() <= MAX_SELECTION_HISTORY_LEN
    &&& forall|i: int| 0 <= i < stack.len() - 1 ==> #[trigger] stack[i] != stack[i + 1]
}

fn same_selections(a: &Vec<HistorySelection>, b: &Vec<HistorySelection>) -> (r: bool)
    ensures
        r == (a@ == b@),
{
    if a.len() != b.len() {
        return false;
    }
    let mut i: usize = 0;
    while i < a.len()
        invariant
            a@.len() == b@.len(),
            i <= a@.len(),
            forall|k: int| 0 <= k < i ==> a@[k] == b@[k],
        decreases a@.len() - i,
    {
        if a[i] != b[i] {
            return false;
        }
        i = i + 1;
    }
    assert(a@ =~= b@);
    true
}

impl SelectionHistory {
    /// The selections recorded for each transaction.
    pub closed spec fn transactions(&self) -> Map<u64, TransactionSelections> {
        self.selections_by_transaction@
    }

    /// Whether past selections are recorded.
    pub closed spec fn spec_mode(&self) -> SelectionHistoryMode {
        self.mode
    }

    /// The past selections, oldest first.
    pub closed spec fn undo_stack(&self) -> Seq<Seq<HistorySelection>> {
        self.undo_stack@.map_values(|v: Vec<HistorySelection>| v@)
    }

    /// An empty history that records.
    pub fn new() -> (r: SelectionHistory)
        ensures
            r.transactions() == Map::<u64, TransactionSelections>::empty(),
            r.spec_mode() == SelectionHistoryMode::Normal,
            r.undo_stack() == Seq::<Seq<HistorySelection>>::empty(),
    {
        let r = SelectionHistory {
            selections_by_transaction: HashMap::new(),
            mode: SelectionHistoryMode::Normal,
            undo_stack: VecDeque::new(),
        };
        assert(r.undo_stack() =~= Seq::<Seq<HistorySelection>>::empty());
        r
    }

    /// Records, or stops recording, past selections.
    pub fn set_mode(&mut self, mode: SelectionHistoryMode)
        ensures
            final(self).spec_mode() == mode,
            final(self).transactions() == old(self).transactions(),
            final(self).undo_stack() == old(self).undo_stack(),
    {
        self.mode = mode;
    }

    /// Records the selections before transaction `transaction_id`; an empty
    /// set of selections is not recorded.
    pub fn insert_transaction(&mut self, transaction_id: u64, selections: Vec<HistorySelection>)
        ensures
            final(self).spec_mode() == old(self).spec_mode(),
            final(self).undo_stack() == old(self).undo_stack(),
            final(self).transactions() == if selections@.len() == 0 {
                old(self).transactions()
            } else {
                old(self).transactions().insert(transaction_id, (selections, None))
            },
    {
        if selections.len() == 0 {
            return;
        }
        self.selections_by_transaction.insert(transaction_id, (selections, None));
    }

    /// The selections recorded for transaction `transaction_id`.
    pub fn transaction(&self, transaction_id: u64) -> (r: Option<&TransactionSelections>)
        ensures
            match r {
                Some(t) => self.transactions().contains_key(transaction_id) && *t == self.transactions()[transaction_id],
                None => !self.transactions().contains_key(transaction_id),
            },
    {
        self.selections_by_transaction.get(&transaction_id)
    }

    /// Records the selections after transaction `transaction_id`, when the
    /// transaction is known; returns whether it was.
    pub fn set_end_selections(&mut self, transaction_id: u64, selections: Vec<HistorySelection>) -> (r: bool)
        ensures
            r == old(self).transactions().contains_key(transaction_id),
            final(self).spec_mode() == old(self).spec_mode(),
            final(self).undo_stack() == old(self).undo_stack(),
            final(self).transactions() == if r {
                old(self).transactions().insert(
                    transaction_id,
                    (old(self).transactions()[transaction_id].0, Some(selections)),
                )
            } else {
                old(self).transactions()
            },
    {
        match self.selections_by_transaction.remove(&transaction_id) {
            Some(entry) => {
                let (start, _) = entry;
                self.selections_by_transaction.insert(transaction_id, (start, Some(selections)));
                proof {
                    assert(self.transactions() =~= old(self).transactions().insert(
                        transaction_id,
                        (old(self).transactions()[transaction_id].0, Some(selections)),
                    ));
                }
                true
            },
            None => false,
        }
    }

    /// The number of selection sets on the undo stack.
    pub fn undo_len(&self) -> (r: usize)
        ensures
            r == self.undo_stack().len(),
    {
        self.undo_stack.len()
    }

    /// Pushes past selections on the undo stack, unless they equal its top;
    /// past the bound the oldest are dropped.
    pub fn push_undo(&mut self, entry: Vec<HistorySelection>)
        ensures
            final(self).spec_mode() == old(self).spec_mode(),
            final(self).transactions() == old(self).transactions(),
            final(self).undo_stack() == pushed_undo(old(self).undo_stack(), entry@),
    {
        let n = self.undo_stack.len();
        let ghost e = entry@;
        if n > 0 && same_selections(&self.undo_stack[n - 1], &entry) {
            return;
        }
        self.undo_stack.push_back(entry);
        let ghost pushed = old(self).undo_stack().push(e);
        assert(self.undo_stack() =~= pushed);
        if self.undo_stack.len() > MAX_SELECTION_HISTORY_LEN {
            let _ = self.undo_stack.pop_front();
            assert(self.undo_stack() =~= pushed.drop_first());
        }
    }

    /// Records past selections when recording and when there are any.
    pub fn push(&mut self, entry: Vec<HistorySelection>)
        ensures
            final(self).spec_mode() == old(self).spec_mode(),
            final(self).transactions() == old(self).transactions(),
            final(self).undo_stack() == if entry@.len() > 0 && old(self).spec_mode() == SelectionHistoryMode::Normal {
                pushed_undo(old(self).undo_stack(), entry@)
            } else {
                old(self).undo_stack()
            },
    {
        if entry.len() > 0 {
            match self.mode {
                SelectionHistoryMode::Normal => self.push_undo(entry),
                SelectionHistoryMode::Skipping => {},
            }
        }
    }
}

/// Pushing keeps the undo stack within its bound with no two equal
/// neighbours, and leaves the pushed selections on top.
pub proof fn lemma_push_undo_keeps_stack_ok(stack: Seq<Seq<HistorySelection>>, entry: Seq<HistorySelection>)
    requires
        undo_stack_ok(stack),
    ensures
        undo_stack_ok(pushed_undo(stack, entry)),
        pushed_undo(stack, entry).len() > 0,
        pushed_undo(stack, entry).last() == entry,
{
    let r = pushed_undo(stack, entry);
    if !(stack.len() > 0 && stack.last() == entry) {
        let p = stack.push(entry);
        assert forall|i: int| 0 <= i < p.len() - 1 implies #[trigger] p[i] != p[i + 1] by {
            if i < stack.len() - 1 {
                assert(p[i] == stack[i] && p[i + 1] == stack[i + 1]);
            } else {
                assert(p[i] == stack.last());
            }
        }
        if stack.len() + 1 > MAX_SELECTION_HISTORY_LEN {
            assert forall|i: int| 0 <= i < r.len() - 1 implies #[trigger] r[i] != r[i + 1] by {
                assert(r[i] == p[i + 1] && r[i + 1] == p[i + 2]);
            }
        }
    }
}

/// Pushing the selections already on top changes nothing.
pub proof fn lemma_push_undo_idempotent(stack: Seq<Seq<HistorySelection>>, entry: Seq<HistorySelection>)
    ensures
        pushed_undo(pushed_undo(stack, entry), entry) == pushed_undo(stack, entry),
{
    if !(stack.len() > 0 && stack.last() == entry) {
        if stack.len() + 1 > MAX_SELECTION_HISTORY_LEN {
            assert(stack.push(entry).drop_first().last() == entry);
        }
    }
}

} // verus!
