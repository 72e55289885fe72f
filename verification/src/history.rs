//! Snapshot-based undo / redo, each side capped at `HISTORY_LIMIT` texts.

use vstd::prelude::*;

verus! {

/// Most snapshots kept on each stack.
pub const HISTORY_LIMIT: usize = 100;

pub struct UndoHistory {
    pub undo_stack: Vec<String>,
    pub redo_stack: Vec<String>,
}

pub open spec fn texts(v: Seq<String>) -> Seq<Seq<char>> {
    Seq::new(v.len(), |i: int| v[i]@)
}

/// `stack` with `s` pushed on top, after dropping the oldest entry when the
/// stack is already at the limit.
pub open spec fn bounded_push(stack: Seq<Seq<char>>, s: Seq<char>) -> Seq<Seq<char>> {
    if stack.len() >= HISTORY_LIMIT {
        stack.drop_first().push(s)
    } else {
        stack.push(s)
    }
}

fn push_bounded(stack: &mut Vec<String>, s: String)
    ensures
        texts(final(stack)@) == bounded_push(texts(old(stack)@), s@),
        old(stack).len() <= HISTORY_LIMIT ==> final(stack).len() <= HISTORY_LIMIT,
{
    let ghost before = texts(stack@);
    let ghost sv = s@;
    if stack.len() >= HISTORY_LIMIT {
        stack.remove(0);
        assert(texts(stack@) =~= before.drop_first());
    }
    let ghost mid = texts(stack@);
    stack.push(s);
    assert(texts(stack@) =~= mid.push(sv));
}

impl UndoHistory {
    pub open spec fn undo_view(&self) -> Seq<Seq<char>> {
        texts(self.undo_stack@)
    }

    pub open spec fn redo_view(&self) -> Seq<Seq<char>> {
        texts(self.redo_stack@)
    }

    /// Neither stack holds more than `HISTORY_LIMIT` snapshots.
    pub open spec fn wf(&self) -> bool {
        self.undo_stack.len() <= HISTORY_LIMIT && self.redo_stack.len() <= HISTORY_LIMIT
    }

    /// Empty history.
    pub fn new() -> (r: Self)
        ensures
            r.undo_stack.len() == 0,
            r.redo_stack.len() == 0,
            r.wf(),
    {
        UndoHistory { undo_stack: Vec::new(), redo_stack: Vec::new() }
    }

    /// Forgets every snapshot (a different document was loaded).
    pub fn clear(&mut self)
        ensures
            final(self).undo_stack.len() == 0,
            final(self).redo_stack.len() == 0,
    {
        self.undo_stack.clear();
        self.redo_stack.clear();
    }

    /// Records the text as it was before an edit; a new edit discards what
    /// could be redone.
    pub fn push_undo(&mut self, snapshot: String)
        ensures
            final(self).undo_view() == bounded_push(old(self).undo_view(), snapshot@),
            final(self).redo_stack.len() == 0,
            old(self).wf() ==> final(self).wf(),
    {
        push_bounded(&mut self.undo_stack, snapshot);
        self.redo_stack.clear();
    }

    /// Steps back: returns the latest snapshot to restore, moving the
    /// `current` text onto the redo stack; `None` and no change when there is
    /// nothing to undo.
    pub fn undo(&mut self, current: String) -> (r: Option<String>)
        ensures
            old(self).undo_stack.len() == 0 ==> r is None && final(self).undo_view() == old(
                self,
            ).undo_view() && final(self).redo_view() == old(self).redo_view(),
            old(self).undo_stack.len() > 0 ==> (r matches Some(p) && p@ == old(
                self,
            ).undo_view().last() && final(self).undo_view() == old(self).undo_view().drop_last()
                && final(self).redo_view() == bounded_push(old(self).redo_view(), current@)),
            old(self).wf() ==> final(self).wf(),
    {
        let ghost before = self.undo_view();
        match self.undo_stack.pop() {
            Some(prev) => {
                assert(self.undo_view() =~= before.drop_last());
                push_bounded(&mut self.redo_stack, current);
                Some(prev)
            },
            None => None,
        }
    }

    /// Steps forward again: returns the snapshot undone last, moving the
    /// `current` text back onto the undo stack; `None` and no change when
    /// there is nothing to redo.
    pub fn redo(&mut self, current: String) -> (r: Option<String>)
        ensures
            old(self).redo_stack.len() == 0 ==> r is None && final(self).undo_view() == old(
                self,
            ).undo_view() && final(self).redo_view() == old(self).redo_view(),
            old(self).redo_stack.len() > 0 ==> (r matches Some(p) && p@ == old(
                self,
            ).redo_view().last() && final(self).redo_view() == old(self).redo_view().drop_last()
                && final(self).undo_view() == bounded_push(old(self).undo_view(), current@)),
            old(self).wf() ==> final(self).wf(),
    {
        let ghost before = self.redo_view();
        match self.redo_stack.pop() {
            Some(next) => {
                assert(self.redo_view() =~= before.drop_last());
                push_bounded(&mut self.undo_stack, current);
                Some(next)
            },
            None => None,
        }
    }
}

/// Undoing right after recording a snapshot gives that snapshot back.
pub proof fn law_undo_returns_last_snapshot(undo: Seq<Seq<char>>, snapshot: Seq<char>)
    ensures
        bounded_push(undo, snapshot).last() == snapshot,
        bounded_push(undo, snapshot).len() > 0,
{
}

/// Undo followed by redo (of the text that undo restored) gives back the
/// text that was current and restores both stacks, when the redo stack was
/// below the limit and the undo stack within it.
pub proof fn law_redo_undoes_undo(
    undo: Seq<Seq<char>>,
    redo: Seq<Seq<char>>,
    current: Seq<char>,
)
    requires
        undo.len() > 0,
        undo.len() <= HISTORY_LIMIT,
        redo.len() < HISTORY_LIMIT,
    ensures
        ({
            let restored = undo.last();
            let undo1 = undo.drop_last();
            let redo1 = bounded_push(redo, current);
            &&& redo1.last() == current
            &&& redo1.drop_last() == redo
            &&& bounded_push(undo1, restored) == undo
        }),
{
    assert(redo.push(current).drop_last() =~= redo);
    assert(undo.drop_last().push(undo.last()) =~= undo);
}


/// Neither history stack ever grows past `HISTORY_LIMIT`: pushing onto a
/// full stack first drops its oldest snapshot (index 0).
pub proof fn law_history_limit(stack: Seq<Seq<char>>, s: Seq<char>)
    requires
        stack.len() <= HISTORY_LIMIT,
    ensures
        bounded_push(stack, s).len() <= HISTORY_LIMIT,
        bounded_push(stack, s).last() == s,
        stack.len() == HISTORY_LIMIT ==> bounded_push(stack, s) == stack.drop_first().push(s),
        stack.len() < HISTORY_LIMIT ==> bounded_push(stack, s) == stack.push(s),
{
}

} // verus!
