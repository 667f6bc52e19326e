//! Undo and redo stacks of editor snapshots.
use vstd::prelude::*;

verus! {

/// At most this many snapshots are kept across the undo and redo stacks.
pub const EDITOR_HISTORY_ENTRY_LIMIT: usize = 100;

/// The editor state that an undo or a redo brings back.
pub struct Snapshot {
    pub text: String,
    pub cursor: usize,
    pub anchor: Option<usize>,
    pub preferred_column: Option<usize>,
}

/// Undo and redo stacks; the last element of each is the next one to come back.
pub struct History {
    undo: Vec<Snapshot>,
    redo: Vec<Snapshot>,
}

/// The undo stack after recording `before`: when it is full, the entry after the
/// oldest one leaves, so that the oldest state stays reachable.
pub open spec fn recorded_undo(undo: Seq<Snapshot>, before: Snapshot) -> Seq<Snapshot> {
    if undo.len() >= EDITOR_HISTORY_ENTRY_LIMIT {
        undo.remove(1).push(before)
    } else {
        undo.push(before)
    }
}

impl History {
    /// The undo stack.
    pub closed spec fn undo_stack(&self) -> Seq<Snapshot> {
        self.undo@
    }

    /// The redo stack.
    pub closed spec fn redo_stack(&self) -> Seq<Snapshot> {
        self.redo@
    }

    /// The stacks together never hold more than the limit.
    pub open spec fn wf(&self) -> bool {
        self.undo_stack().len() + self.redo_stack().len() <= EDITOR_HISTORY_ENTRY_LIMIT
    }

    /// An empty history.
    pub fn new() -> (history: Self)
        ensures
            history.undo_stack() == Seq::<Snapshot>::empty(),
            history.redo_stack() == Seq::<Snapshot>::empty(),
            history.wf(),
    {
        History { undo: Vec::new(), redo: Vec::new() }
    }

    /// The number of snapshots held.
    pub fn entry_count(&self) -> (count: usize)
        requires
            self.wf(),
        ensures
            count == self.undo_stack().len() + self.redo_stack().len(),
    {
        self.undo.len() + self.redo.len()
    }

    /// Records the state before an edit; the redo stack empties.
    pub fn record(&mut self, before: Snapshot)
        requires
            old(self).wf(),
        ensures
            final(self).undo_stack() == recorded_undo(old(self).undo_stack(), before),
            final(self).redo_stack() == Seq::<Snapshot>::empty(),
            final(self).wf(),
    {
        if self.undo.len() >= EDITOR_HISTORY_ENTRY_LIMIT {
            self.undo.remove(1);
        }
        self.undo.push(before);
        self.redo.clear();
    }

    /// Takes the last undo snapshot, keeping `current` for redo; `None` when there is none.
    pub fn undo(&mut self, current: Snapshot) -> (previous: Option<Snapshot>)
        requires
            old(self).wf(),
        ensures
            final(self).wf(),
            old(self).undo_stack().len() == 0 ==> previous is None && final(self).undo_stack()
                == old(self).undo_stack() && final(self).redo_stack() == old(self).redo_stack(),
            old(self).undo_stack().len() > 0 ==> {
                &&& previous == Some(old(self).undo_stack().last())
                &&& final(self).undo_stack() == old(self).undo_stack().drop_last()
                &&& final(self).redo_stack() == old(self).redo_stack().push(current)
            },
    {
        match self.undo.pop() {
            Some(previous) => {
                self.redo.push(current);
                Some(previous)
            },
            None => None,
        }
    }

    /// Takes the last redo snapshot, keeping `current` for undo; `None` when there is none.
    pub fn redo(&mut self, current: Snapshot) -> (next: Option<Snapshot>)
        requires
            old(self).wf(),
        ensures
            final(self).wf(),
            old(self).redo_stack().len() == 0 ==> next is None && final(self).undo_stack()
                == old(self).undo_stack() && final(self).redo_stack() == old(self).redo_stack(),
            old(self).redo_stack().len() > 0 ==> {
                &&& next == Some(old(self).redo_stack().last())
                &&& final(self).redo_stack() == old(self).redo_stack().drop_last()
                &&& final(self).undo_stack() == old(self).undo_stack().push(current)
            },
    {
        match self.redo.pop() {
            Some(next) => {
                self.undo.push(current);
                Some(next)
            },
            None => None,
        }
    }
}

} // verus!
