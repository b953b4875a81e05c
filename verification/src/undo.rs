//! The undo engine: two stacks of events and the policy that merges typing.

use vstd::prelude::*;
use crate::document::Document;
use crate::event::{Event, EventKind};
use crate::row_store::EditError;

verus! {

/// Whether `ev` continues the typing that `last` records: both are typed
/// insertions, `ev` is one character that is neither a terminator nor a
/// space, it went in where `last` ended, `last` lies on one row and has not
/// reached the limit.
pub open spec fn can_merge(last: Event, ev: Event, limit: usize) -> bool {
    &&& last.kind == EventKind::Insertion
    &&& ev.kind == EventKind::Insertion
    &&& last.typed
    &&& ev.typed
    &&& ev.text@.len() == 1
    &&& ev.text@[0] != '\n'
    &&& ev.text@[0] != ' '
    &&& last.at.row == last.end.row
    &&& ev.at == last.end
    &&& last.text@.len() < limit
}

/// `m` is `a` lengthened by `b`: it begins where `a` began, ends where `b`
/// ended and holds the text of both.
pub open spec fn is_merge_of(m: Event, a: Event, b: Event) -> bool {
    &&& m.kind == EventKind::Insertion
    &&& m.typed
    &&& m.at == a.at
    &&& m.end == b.end
    &&& m.text@ == a.text@ + b.text@
    &&& m.seq == a.seq
    &&& m.old_end == a.old_end
    &&& m.removed == a.removed
}

/// The newest `cap` events of `s`, or all of them where there are no more.
pub open spec fn trimmed(s: Seq<Event>, cap: usize) -> Seq<Event> {
    if s.len() > cap {
        s.skip(s.len() - cap)
    } else {
        s
    }
}

/// The history of one document: what can be undone, newest last, and what
/// can be redone.
pub struct UndoEngine {
    pub undo: Vec<Event>,
    pub redo: Vec<Event>,
    /// The most events that the undo stack keeps.
    pub cap: usize,
    /// The most characters that typing gathers in one event.
    pub merge_limit: usize,
}

fn mergeable(last: &Event, ev: &Event, limit: usize) -> (res: bool)
    ensures
        res == can_merge(*last, *ev, limit),
{
    last.kind == EventKind::Insertion && ev.kind == EventKind::Insertion && last.typed && ev.typed
        && ev.text.len() == 1 && ev.text[0] != '\n' && ev.text[0] != ' ' && last.at.row
        == last.end.row && ev.at.row == last.end.row && ev.at.col == last.end.col
        && last.text.len() < limit
}

impl UndoEngine {
    /// An engine with empty stacks.
    pub fn new(cap: usize, merge_limit: usize) -> (res: UndoEngine)
        ensures
            res.undo@.len() == 0,
            res.redo@.len() == 0,
            res.cap == cap,
            res.merge_limit == merge_limit,
    {
        UndoEngine { undo: Vec::new(), redo: Vec::new(), cap, merge_limit }
    }

    /// The number of events that can be undone.
    pub fn undo_len(&self) -> (n: usize)
        ensures
            n == self.undo@.len(),
    {
        self.undo.len()
    }

    /// The number of events that can be redone.
    pub fn redo_len(&self) -> (n: usize)
        ensures
            n == self.redo@.len(),
    {
        self.redo.len()
    }

    /// What `record` does: `after` is this engine once `ev` was recorded.
    pub open spec fn records(&self, ev: Event, after: UndoEngine) -> bool {
        let merges = self.undo@.len() > 0 && can_merge(self.undo@.last(), ev, self.merge_limit);
        &&& after.redo@.len() == 0
        &&& after.cap == self.cap
        &&& after.merge_limit == self.merge_limit
        &&& merges ==> after.undo@.len() == self.undo@.len() && after.undo@.drop_last()
            == self.undo@.drop_last() && is_merge_of(after.undo@.last(), self.undo@.last(), ev)
        &&& !merges ==> after.undo@ == trimmed(self.undo@.push(ev), self.cap)
    }

    /// Records a new edit. Nothing can be redone afterwards. An event that
    /// continues the typing of the newest one is merged into it; any other is
    /// pushed, and the oldest events go where the stack outgrows its cap.
    pub fn record(&mut self, ev: Event)
        ensures
            old(self).records(ev, *final(self)),
    {
        self.redo.clear();
        let n = self.undo.len();
        if n > 0 && mergeable(&self.undo[n - 1], &ev, self.merge_limit) {
            let ghost b = ev.text@;
            match self.undo.pop() {
                Some(last) => {
                    let mut last = last;
                    let ghost a = last.text@;
                    last.text.push(ev.text[0]);
                    last.end = ev.end;
                    assert(last.text@ =~= a + b);
                    self.undo.push(last);
                    assert(self.undo@.drop_last() =~= old(self).undo@.drop_last());
                },
                None => {},
            }
        } else {
            self.undo.push(ev);
            let ghost full = self.undo@;
            assert(full.skip(0) =~= full);
            while self.undo.len() > self.cap
                invariant
                    self.undo@.len() <= full.len(),
                    self.undo@.len() == full.len() || self.undo@.len() >= self.cap,
                    full == old(self).undo@.push(ev),
                    self.undo@ == full.skip(full.len() - self.undo@.len()),
                    self.cap == old(self).cap,
                    self.merge_limit == old(self).merge_limit,
                    self.redo@.len() == 0,
                decreases self.undo@.len(),
            {
                self.undo.remove(0);
                assert(self.undo@ =~= full.skip(full.len() - self.undo@.len()));
            }
        }
    }

    /// What `undo` does: `after`, `doc_after` and `res` are the engine, the
    /// document and the answer that undoing on `doc` gives.
    pub open spec fn undoes(
        &self,
        doc: Document,
        after: UndoEngine,
        doc_after: Document,
        res: Result<(), EditError>,
    ) -> bool {
        &&& after.cap == self.cap
        &&& after.merge_limit == self.merge_limit
        &&& self.undo@.len() == 0 ==> res == Err::<(), EditError>(EditError::NothingToUndo)
        &&& self.undo@.len() > 0 ==> ({
            let ev = self.undo@.last();
            &&& res is Ok <==> !doc.read_only && ev.can_revert(doc.store@)
            &&& res is Ok ==> doc_after.store@ == ev.backward(doc.store@) && ev.reverted_cursor(
                doc_after.cursor,
            ) && doc_after.anchor is None && doc_after.dirty && doc_after.edits == doc.edits
                && doc_after.ending == doc.ending && doc_after.read_only == doc.read_only
                && doc_after.path == doc.path
                && after.undo@ == self.undo@.drop_last() && after.redo@ == self.redo@.push(ev)
            &&& res is Err ==> res->Err_0 == (if doc.read_only {
                EditError::ReadOnly
            } else {
                ev.revert_error()
            })
        })
        &&& res is Err ==> doc_after.same_as(&doc) && after.undo@ == self.undo@ && after.redo@
            == self.redo@
    }

    /// Takes back the newest event: applies its inverse to `doc` and moves it
    /// to the redo stack. With nothing to undo it says so and changes nothing.
    pub fn undo(&mut self, doc: &mut Document) -> (res: Result<(), EditError>)
        requires
            old(doc).wf(),
        ensures
            final(doc).wf(),
            old(self).undoes(*old(doc), *final(self), *final(doc), res),
    {
        let n = self.undo.len();
        if n == 0 {
            return Err(EditError::NothingToUndo);
        }
        match doc.revert(&self.undo[n - 1]) {
            Ok(()) => {
                match self.undo.pop() {
                    Some(ev) => {
                        self.redo.push(ev);
                    },
                    None => {},
                }
                Ok(())
            },
            Err(e) => Err(e),
        }
    }

    /// What `redo` does: `after`, `doc_after` and `res` are the engine, the
    /// document and the answer that redoing on `doc` gives.
    pub open spec fn redoes(
        &self,
        doc: Document,
        after: UndoEngine,
        doc_after: Document,
        res: Result<(), EditError>,
    ) -> bool {
        &&& after.cap == self.cap
        &&& after.merge_limit == self.merge_limit
        &&& self.redo@.len() == 0 ==> res == Err::<(), EditError>(EditError::NothingToRedo)
        &&& self.redo@.len() > 0 ==> ({
            let ev = self.redo@.last();
            &&& res is Ok <==> !doc.read_only && ev.can_replay(doc.store@)
            &&& res is Ok ==> doc_after.store@ == ev.forward(doc.store@) && ev.replayed_cursor(
                doc_after.cursor,
            ) && doc_after.anchor is None && doc_after.dirty && doc_after.edits == doc.edits
                && doc_after.ending == doc.ending && doc_after.read_only == doc.read_only
                && doc_after.path == doc.path
                && after.redo@ == self.redo@.drop_last() && after.undo@ == self.undo@.push(ev)
            &&& res is Err ==> res->Err_0 == (if doc.read_only {
                EditError::ReadOnly
            } else {
                ev.replay_error()
            })
        })
        &&& res is Err ==> doc_after.same_as(&doc) && after.undo@ == self.undo@ && after.redo@
            == self.redo@
    }

    /// Makes the newest undone event again: applies it to `doc` and moves it
    /// back to the undo stack. With nothing to redo it says so and changes
    /// nothing.
    pub fn redo(&mut self, doc: &mut Document) -> (res: Result<(), EditError>)
        requires
            old(doc).wf(),
        ensures
            final(doc).wf(),
            old(self).redoes(*old(doc), *final(self), *final(doc), res),
    {
        let n = self.redo.len();
        if n == 0 {
            return Err(EditError::NothingToRedo);
        }
        match doc.replay(&self.redo[n - 1]) {
            Ok(()) => {
                match self.redo.pop() {
                    Some(ev) => {
                        self.undo.push(ev);
                    },
                    None => {},
                }
                Ok(())
            },
            Err(e) => Err(e),
        }
    }
}

} // verus!
