//! Events: the literal record of one edit, enough to take it back and to
//! make it again.

use vstd::prelude::*;
use crate::row_store::{
    is_insert_end, pos_le, spec_delete, spec_insert, spec_text_between, valid_pos, EditError,
    Position,
};

verus! {

/// What an event did to the text.
#[derive(Clone, Copy, Debug, PartialEq, Eq, Structural)]
pub enum EventKind {
    Insertion,
    Deletion,
    /// A deletion and an insertion at its place, as one edit.
    Replacement,
}

/// One recorded edit. `text` is what went in (an insertion) or what came out
/// (a deletion), from `at` up to `end`. A replacement took `removed` out from
/// `at` up to `old_end` and put `text` in, from `at` up to `end`. The event
/// owns its copies of the texts.
#[derive(Debug)]
pub struct Event {
    pub kind: EventKind,
    pub at: Position,
    pub end: Position,
    pub text: Vec<char>,
    /// Where the text that a replacement removed had ended.
    pub old_end: Position,
    /// The text that a replacement removed.
    pub removed: Vec<char>,
    /// The number of edits that the document had seen before this one.
    pub seq: u64,
    /// Whether the edit came from typing, one key at a time.
    pub typed: bool,
}

impl Event {
    /// The event describes an edit that can be made on `rows`, and its record
    /// of it is exact.
    pub open spec fn applies_to(&self, rows: Seq<Seq<char>>) -> bool {
        match self.kind {
            EventKind::Insertion => valid_pos(rows, self.at) && is_insert_end(
                self.at,
                self.text@,
                self.end,
            ),
            EventKind::Deletion => pos_le(self.at, self.end) && valid_pos(rows, self.at)
                && valid_pos(rows, self.end) && self.text@ == spec_text_between(
                rows,
                self.at,
                self.end,
            ),
            EventKind::Replacement => pos_le(self.at, self.old_end) && valid_pos(rows, self.at)
                && valid_pos(rows, self.old_end) && self.removed@ == spec_text_between(
                rows,
                self.at,
                self.old_end,
            ) && is_insert_end(self.at, self.text@, self.end),
        }
    }

    /// The positions of the event lie in `rows`, so that it can be made there.
    pub open spec fn can_replay(&self, rows: Seq<Seq<char>>) -> bool {
        match self.kind {
            EventKind::Insertion => valid_pos(rows, self.at),
            EventKind::Deletion => pos_le(self.at, self.end) && valid_pos(rows, self.at)
                && valid_pos(rows, self.end),
            EventKind::Replacement => pos_le(self.at, self.old_end) && valid_pos(rows, self.at)
                && valid_pos(rows, self.old_end),
        }
    }

    /// The positions of the event lie in `rows`, so that it can be taken back
    /// there.
    pub open spec fn can_revert(&self, rows: Seq<Seq<char>>) -> bool {
        match self.kind {
            EventKind::Insertion | EventKind::Replacement => pos_le(self.at, self.end)
                && valid_pos(rows, self.at) && valid_pos(rows, self.end),
            EventKind::Deletion => valid_pos(rows, self.at),
        }
    }

    /// The rows after the edit.
    pub open spec fn forward(&self, rows: Seq<Seq<char>>) -> Seq<Seq<char>> {
        match self.kind {
            EventKind::Insertion => spec_insert(rows, self.at, self.text@),
            EventKind::Deletion => spec_delete(rows, self.at, self.end),
            EventKind::Replacement => spec_insert(
                spec_delete(rows, self.at, self.old_end),
                self.at,
                self.text@,
            ),
        }
    }

    /// The rows after the inverse of the edit.
    pub open spec fn backward(&self, rows: Seq<Seq<char>>) -> Seq<Seq<char>> {
        match self.kind {
            EventKind::Insertion => spec_delete(rows, self.at, self.end),
            EventKind::Deletion => spec_insert(rows, self.at, self.text@),
            EventKind::Replacement => spec_insert(
                spec_delete(rows, self.at, self.end),
                self.at,
                self.removed@,
            ),
        }
    }

    /// `c` is where the cursor stands once the edit was taken back: where an
    /// insertion began, or behind the text that a deletion had removed.
    pub open spec fn reverted_cursor(&self, c: Position) -> bool {
        match self.kind {
            EventKind::Insertion => c == self.at,
            EventKind::Deletion => is_insert_end(self.at, self.text@, c),
            EventKind::Replacement => is_insert_end(self.at, self.removed@, c),
        }
    }

    /// `c` is where the cursor stands once the edit was made again.
    pub open spec fn replayed_cursor(&self, c: Position) -> bool {
        match self.kind {
            EventKind::Insertion | EventKind::Replacement => is_insert_end(self.at, self.text@, c),
            EventKind::Deletion => c == self.at,
        }
    }

    /// The error with which taking the edit back fails where it cannot be done.
    pub open spec fn revert_error(&self) -> EditError {
        match self.kind {
            EventKind::Insertion | EventKind::Replacement => if pos_le(self.at, self.end) {
                EditError::OutOfBounds
            } else {
                EditError::InvalidRange
            },
            EventKind::Deletion => EditError::OutOfBounds,
        }
    }

    /// The error with which making the edit again fails where it cannot be done.
    pub open spec fn replay_error(&self) -> EditError {
        match self.kind {
            EventKind::Insertion => EditError::OutOfBounds,
            EventKind::Deletion => if pos_le(self.at, self.end) {
                EditError::OutOfBounds
            } else {
                EditError::InvalidRange
            },
            EventKind::Replacement => if pos_le(self.at, self.old_end) {
                EditError::OutOfBounds
            } else {
                EditError::InvalidRange
            },
        }
    }

    /// The first and the last row whose content is new once the edit was
    /// made (`undone` false) or taken back (`undone` true): the rows that the
    /// text which went in fills, or the one row that is left of a range.
    pub open spec fn spec_dirty_rows(&self, undone: bool) -> (usize, usize) {
        match self.kind {
            EventKind::Insertion => (self.at.row, if undone {
                self.at.row
            } else {
                self.end.row
            }),
            EventKind::Deletion => (self.at.row, if undone {
                self.end.row
            } else {
                self.at.row
            }),
            EventKind::Replacement => (self.at.row, if undone {
                self.old_end.row
            } else {
                self.end.row
            }),
        }
    }

    /// The rows to highlight anew after the edit was made or taken back.
    pub fn dirty_rows(&self, undone: bool) -> (res: (usize, usize))
        ensures
            res == self.spec_dirty_rows(undone),
    {
        let last = match self.kind {
            EventKind::Insertion => if undone {
                self.at.row
            } else {
                self.end.row
            },
            EventKind::Deletion => if undone {
                self.end.row
            } else {
                self.at.row
            },
            EventKind::Replacement => if undone {
                self.old_end.row
            } else {
                self.end.row
            },
        };
        (self.at.row, last)
    }

    /// Where the cursor stands after the edit.
    pub open spec fn cursor_after(&self) -> Position {
        match self.kind {
            EventKind::Insertion | EventKind::Replacement => self.end,
            EventKind::Deletion => self.at,
        }
    }
}

} // verus!
