//! The document: a row store with a cursor, a selection and its flags.

use vstd::prelude::*;
use crate::event::{Event, EventKind};
use crate::inverse::lemma_insert_undoes_delete;
use crate::render::{render_width, spec_width};
use crate::row_store::{pos_le, valid_pos, EditError, Position, RowStore};
use crate::text::{spec_ending, spec_load, spec_save, LineEnding};

verus! {

/// A change asked of a document.
#[derive(Debug)]
pub enum Effect {
    /// Put `text` in at `at`; `typed` says that it came from one key press.
    Insert { at: Position, text: Vec<char>, typed: bool },
    /// Take out what stands from `start` up to `end`.
    Delete { start: Position, end: Position },
    /// Take out what stands from `start` up to `end` and put `text` in its place.
    Replace { start: Position, end: Position, text: Vec<char> },
}

/// One open buffer.
pub struct Document {
    pub store: RowStore,
    pub cursor: Position,
    /// The other end of the selection, if there is one.
    pub anchor: Option<Position>,
    /// Whether the text changed since it was last saved.
    pub dirty: bool,
    pub read_only: bool,
    /// The number of edits made so far; it stops at the largest `u64`.
    pub edits: u64,
    /// The terminator style that saving writes.
    pub ending: LineEnding,
    /// The file that the text belongs to, if it has one.
    pub path: Option<Vec<char>>,
}

/// The position one step to the left; the end of the row above at a row's
/// start; unchanged at the start of the buffer.
pub open spec fn spec_left(rows: Seq<Seq<char>>, p: Position) -> Position {
    if p.col > 0 {
        Position { row: p.row, col: (p.col - 1) as usize }
    } else if p.row > 0 {
        Position { row: (p.row - 1) as usize, col: rows[p.row - 1].len() as usize }
    } else {
        p
    }
}

/// The position one step to the right; the start of the row below at a row's
/// end; unchanged at the end of the buffer.
pub open spec fn spec_right(rows: Seq<Seq<char>>, p: Position) -> Position {
    if p.col < rows[p.row as int].len() {
        Position { row: p.row, col: (p.col + 1) as usize }
    } else if p.row + 1 < rows.len() {
        Position { row: (p.row + 1) as usize, col: 0 }
    } else {
        p
    }
}

/// The column `col` on row `row`, or the row's end where the row is shorter.
pub open spec fn clamp_to_row(rows: Seq<Seq<char>>, row: int, col: usize) -> Position {
    Position {
        row: row as usize,
        col: if col <= rows[row].len() {
            col
        } else {
            rows[row].len() as usize
        },
    }
}

/// The position one row up, unchanged on the first row.
pub open spec fn spec_up(rows: Seq<Seq<char>>, p: Position) -> Position {
    if p.row > 0 {
        clamp_to_row(rows, p.row - 1, p.col)
    } else {
        p
    }
}

/// The position one row down, unchanged on the last row.
pub open spec fn spec_down(rows: Seq<Seq<char>>, p: Position) -> Position {
    if p.row + 1 < rows.len() {
        clamp_to_row(rows, p.row + 1, p.col)
    } else {
        p
    }
}

/// Space and tab stand between words.
pub open spec fn is_blank(c: char) -> bool {
    c == ' ' || c == '\t'
}

/// A word begins at column `c` of `row`.
pub open spec fn word_start(row: Seq<char>, c: int) -> bool {
    0 < c < row.len() && is_blank(row[c - 1]) && !is_blank(row[c])
}

/// `c` is the first column behind `col` at which a word begins, or the
/// row's end where none does.
pub open spec fn is_next_word(row: Seq<char>, col: int, c: int) -> bool {
    &&& col < c <= row.len()
    &&& c == row.len() || word_start(row, c)
    &&& forall|k: int| col < k < c ==> !word_start(row, k)
}

/// `c` is the last column before `col` at which a word begins, or the row's
/// start where none does.
pub open spec fn is_prev_word(row: Seq<char>, col: int, c: int) -> bool {
    &&& 0 <= c < col
    &&& c == 0 || word_start(row, c)
    &&& forall|k: int| c < k < col ==> !word_start(row, k)
}

/// The column of the next word's start in `row` behind `col`.
pub fn next_word(row: &Vec<char>, col: usize) -> (res: usize)
    requires
        col < row.len(),
    ensures
        is_next_word(row@, col as int, res as int),
{
    let mut c: usize = col + 1;
    while c < row.len()
        invariant
            col < c <= row.len(),
            forall|k: int| col < k < c ==> !word_start(row@, k),
        decreases row.len() - c,
    {
        let before = row[c - 1];
        let here = row[c];
        if (before == ' ' || before == '\t') && !(here == ' ' || here == '\t') {
            return c;
        }
        c += 1;
    }
    c
}

/// The column of the last word's start in `row` before `col`.
pub fn prev_word(row: &Vec<char>, col: usize) -> (res: usize)
    requires
        0 < col <= row.len(),
    ensures
        is_prev_word(row@, col as int, res as int),
{
    let mut c: usize = col - 1;
    while c > 0
        invariant
            c < col <= row.len(),
            forall|k: int| c < k < col ==> !word_start(row@, k),
        decreases c,
    {
        let before = row[c - 1];
        let here = row[c];
        if (before == ' ' || before == '\t') && !(here == ' ' || here == '\t') {
            return c;
        }
        c -= 1;
    }
    c
}

/// The two positions in document order.
pub open spec fn ordered(a: Position, b: Position) -> (Position, Position) {
    if pos_le(a, b) {
        (a, b)
    } else {
        (b, a)
    }
}

impl Document {
    /// The store is well formed, and cursor and anchor lie in it.
    pub open spec fn wf(&self) -> bool {
        &&& self.store.wf()
        &&& valid_pos(self.store@, self.cursor)
        &&& self.anchor is Some ==> valid_pos(self.store@, self.anchor->Some_0)
    }

    /// Everything but the cursor and the anchor is as in `other`.
    pub open spec fn same_content(&self, other: &Document) -> bool {
        &&& self.store@ == other.store@
        &&& self.dirty == other.dirty
        &&& self.read_only == other.read_only
        &&& self.edits == other.edits
        &&& self.ending == other.ending
        &&& self.path == other.path
    }

    /// Text, cursor, anchor and flags are as in `other`.
    pub open spec fn same_as(&self, other: &Document) -> bool {
        &&& self.same_content(other)
        &&& self.cursor == other.cursor
        &&& self.anchor == other.anchor
    }

    /// Whether the document is well formed, found out by looking at it.
    pub fn is_well_formed(&self) -> (res: bool)
        ensures
            res == self.wf(),
    {
        self.store.is_well_formed() && self.store.contains(self.cursor) && match self.anchor {
            Some(a) => self.store.contains(a),
            None => true,
        }
    }

    /// An empty document: one empty row, the cursor at its start.
    pub fn new() -> (res: Document)
        ensures
            res.wf(),
            res.store@ == seq![Seq::<char>::empty()],
            res.cursor == (Position { row: 0, col: 0 }),
            res.anchor is None,
            !res.dirty,
            !res.read_only,
            res.edits == 0,
            res.ending == LineEnding::Lf,
            res.path is None,
    {
        Document {
            store: RowStore::new(),
            cursor: Position { row: 0, col: 0 },
            anchor: None,
            dirty: false,
            read_only: false,
            edits: 0,
            ending: LineEnding::Lf,
            path: None,
        }
    }

    /// The document of a loaded text, one row per line, the cursor at its
    /// start. The terminator style of the text is kept for saving.
    pub fn open(text: &Vec<char>, read_only: bool) -> (res: Document)
        ensures
            res.wf(),
            res.store@ == spec_load(text@),
            res.ending == spec_ending(text@),
            res.cursor == (Position { row: 0, col: 0 }),
            res.anchor is None,
            !res.dirty,
            res.read_only == read_only,
            res.edits == 0,
            res.path is None,
    {
        let (store, ending) = RowStore::load(text);
        Document {
            store,
            cursor: Position { row: 0, col: 0 },
            anchor: None,
            dirty: false,
            read_only,
            edits: 0,
            ending,
            path: None,
        }
    }

    /// The text to write out: the rows joined by terminators of the
    /// document's style. The document counts as saved from then on.
    pub fn save(&mut self) -> (res: Vec<char>)
        requires
            old(self).wf(),
        ensures
            res@ == spec_save(old(self).store@, old(self).ending),
            !final(self).dirty,
            final(self).ending == old(self).ending,
            final(self).path == old(self).path,
            final(self).store@ == old(self).store@,
            final(self).cursor == old(self).cursor,
            final(self).anchor == old(self).anchor,
            final(self).read_only == old(self).read_only,
            final(self).edits == old(self).edits,
    {
        self.dirty = false;
        self.store.save(self.ending)
    }

    fn count_edit(&mut self) -> (seq: u64)
        ensures
            seq == old(self).edits,
            final(self).edits == if old(self).edits < u64::MAX {
                (old(self).edits + 1) as u64
            } else {
                u64::MAX
            },
            final(self).store == old(self).store,
            final(self).cursor == old(self).cursor,
            final(self).anchor == old(self).anchor,
            final(self).read_only == old(self).read_only,
            final(self).dirty == old(self).dirty,
            final(self).ending == old(self).ending,
            final(self).path == old(self).path,
    {
        let seq = self.edits;
        if self.edits < u64::MAX {
            self.edits = self.edits + 1;
        }
        seq
    }

    /// What `apply` does: `after` and `res` are the document and the answer
    /// that applying `effect` to this document gives.
    pub open spec fn applied(&self, effect: Effect, after: Document, res: Result<Event, EditError>) -> bool {
        &&& after.read_only == self.read_only
        &&& after.ending == self.ending
        &&& after.path == self.path
        &&& res is Ok <==> !self.read_only && match effect {
            Effect::Insert { at, .. } => valid_pos(self.store@, at),
            Effect::Delete { start, end } | Effect::Replace { start, end, .. } => pos_le(start, end)
                && valid_pos(self.store@, start) && valid_pos(self.store@, end),
        }
        &&& res is Ok ==> ({
            let ev = res->Ok_0;
            &&& ev.applies_to(self.store@)
            &&& after.store@ == ev.forward(self.store@)
            &&& after.cursor == ev.cursor_after()
            &&& after.anchor is None
            &&& after.dirty
            &&& ev.seq == self.edits
            &&& after.edits == (if self.edits < u64::MAX {
                (self.edits + 1) as u64
            } else {
                u64::MAX
            })
            &&& match effect {
                Effect::Insert { at, text, typed } => ev.kind == EventKind::Insertion && ev.at
                    == at && ev.text@ == text@ && ev.typed == typed,
                Effect::Delete { start, end } => ev.kind == EventKind::Deletion && ev.at
                    == start && ev.end == end && !ev.typed,
                Effect::Replace { start, end, text } => ev.kind == EventKind::Replacement && ev.at
                    == start && ev.old_end == end && ev.text@ == text@ && !ev.typed,
            }
        })
        &&& res is Err ==> after.same_as(self) && res->Err_0 == (if self.read_only {
            EditError::ReadOnly
        } else {
            match effect {
                Effect::Insert { .. } => EditError::OutOfBounds,
                Effect::Delete { start, end } | Effect::Replace { start, end, .. } => if pos_le(
                    start,
                    end,
                ) {
                    EditError::OutOfBounds
                } else {
                    EditError::InvalidRange
                },
            }
        })
    }

    /// Makes the change. On success the text is changed, the cursor stands
    /// behind an insertion or where a deletion began, the selection is gone,
    /// the document is dirty, and the event returned records the edit exactly.
    /// A read-only document refuses every change.
    pub fn apply(&mut self, effect: Effect) -> (res: Result<Event, EditError>)
        requires
            old(self).wf(),
        ensures
            final(self).wf(),
            old(self).applied(effect, *final(self), res),
    {
        if self.read_only {
            return Err(EditError::ReadOnly);
        }
        match effect {
            Effect::Insert { at, text, typed } => {
                match self.store.insert_at(at, &text) {
                    Ok(end) => {
                        let seq = self.count_edit();
                        self.cursor = end;
                        self.anchor = None;
                        self.dirty = true;
                        Ok(
                            Event {
                                kind: EventKind::Insertion,
                                at,
                                end,
                                text,
                                old_end: at,
                                removed: Vec::new(),
                                seq,
                                typed,
                            },
                        )
                    },
                    Err(e) => Err(e),
                }
            },
            Effect::Delete { start, end } => {
                match self.store.delete_range(start, end) {
                    Ok(text) => {
                        let seq = self.count_edit();
                        self.cursor = start;
                        self.anchor = None;
                        self.dirty = true;
                        Ok(
                            Event {
                                kind: EventKind::Deletion,
                                at: start,
                                end,
                                text,
                                old_end: start,
                                removed: Vec::new(),
                                seq,
                                typed: false,
                            },
                        )
                    },
                    Err(e) => Err(e),
                }
            },
            Effect::Replace { start, end, text } => {
                let ghost rows = self.store@;
                match self.store.delete_range(start, end) {
                    Ok(removed) => {
                        proof {
                            lemma_insert_undoes_delete(
                                rows,
                                start.row as int,
                                start.col as int,
                                end.row as int,
                                end.col as int,
                            );
                        }
                        match self.store.insert_at(start, &text) {
                            Ok(new_end) => {
                                let seq = self.count_edit();
                                self.cursor = new_end;
                                self.anchor = None;
                                self.dirty = true;
                                Ok(
                                    Event {
                                        kind: EventKind::Replacement,
                                        at: start,
                                        end: new_end,
                                        text,
                                        old_end: end,
                                        removed,
                                        seq,
                                        typed: false,
                                    },
                                )
                            },
                            Err(e) => Err(e),
                        }
                    },
                    Err(e) => Err(e),
                }
            },
        }
    }

    fn insert_raw(&mut self, at: Position, text: &Vec<char>) -> (res: Result<(), EditError>)
        requires
            old(self).wf(),
            !old(self).read_only,
        ensures
            final(self).wf(),
            final(self).read_only == old(self).read_only,
            final(self).edits == old(self).edits,
            final(self).ending == old(self).ending,
            final(self).path == old(self).path,
            res is Ok <==> valid_pos(old(self).store@, at),
            res is Ok ==> final(self).store@ == crate::row_store::spec_insert(
                old(self).store@,
                at,
                text@,
            ) && crate::row_store::is_insert_end(at, text@, final(self).cursor)
                && final(self).anchor is None && final(self).dirty,
            res is Err ==> final(self).same_as(old(self)) && res->Err_0 == EditError::OutOfBounds,
    {
        match self.store.insert_at(at, text) {
            Ok(end) => {
                self.cursor = end;
                self.anchor = None;
                self.dirty = true;
                Ok(())
            },
            Err(e) => Err(e),
        }
    }

    fn delete_raw(&mut self, start: Position, end: Position) -> (res: Result<(), EditError>)
        requires
            old(self).wf(),
            !old(self).read_only,
        ensures
            final(self).wf(),
            final(self).read_only == old(self).read_only,
            final(self).edits == old(self).edits,
            final(self).ending == old(self).ending,
            final(self).path == old(self).path,
            res is Ok <==> pos_le(start, end) && valid_pos(old(self).store@, start) && valid_pos(
                old(self).store@,
                end,
            ),
            res is Ok ==> final(self).store@ == crate::row_store::spec_delete(
                old(self).store@,
                start,
                end,
            ) && final(self).cursor == start && final(self).anchor is None && final(self).dirty,
            res is Err ==> final(self).same_as(old(self)) && res->Err_0 == (if pos_le(start, end) {
                EditError::OutOfBounds
            } else {
                EditError::InvalidRange
            }),
    {
        match self.store.delete_range(start, end) {
            Ok(_) => {
                self.cursor = start;
                self.anchor = None;
                self.dirty = true;
                Ok(())
            },
            Err(e) => Err(e),
        }
    }

    fn replace_raw(&mut self, start: Position, end: Position, text: &Vec<char>) -> (res: Result<
        (),
        EditError,
    >)
        requires
            old(self).wf(),
            !old(self).read_only,
        ensures
            final(self).wf(),
            final(self).read_only == old(self).read_only,
            final(self).edits == old(self).edits,
            final(self).ending == old(self).ending,
            final(self).path == old(self).path,
            res is Ok <==> pos_le(start, end) && valid_pos(old(self).store@, start) && valid_pos(
                old(self).store@,
                end,
            ),
            res is Ok ==> final(self).store@ == crate::row_store::spec_insert(
                crate::row_store::spec_delete(old(self).store@, start, end),
                start,
                text@,
            ) && crate::row_store::is_insert_end(start, text@, final(self).cursor)
                && final(self).anchor is None && final(self).dirty,
            res is Err ==> final(self).same_as(old(self)) && res->Err_0 == (if pos_le(start, end) {
                EditError::OutOfBounds
            } else {
                EditError::InvalidRange
            }),
    {
        let ghost rows = self.store@;
        match self.delete_raw(start, end) {
            Ok(()) => {
                proof {
                    lemma_insert_undoes_delete(
                        rows,
                        start.row as int,
                        start.col as int,
                        end.row as int,
                        end.col as int,
                    );
                }
                self.insert_raw(start, text)
            },
            Err(e) => Err(e),
        }
    }

    /// Takes back the edit that `ev` records: removes what it inserted, or
    /// puts back what it deleted, and moves the cursor to the edit's place.
    pub fn revert(&mut self, ev: &Event) -> (res: Result<(), EditError>)
        requires
            old(self).wf(),
        ensures
            final(self).wf(),
            final(self).read_only == old(self).read_only,
            final(self).edits == old(self).edits,
            final(self).ending == old(self).ending,
            final(self).path == old(self).path,
            res is Ok <==> !old(self).read_only && ev.can_revert(old(self).store@),
            res is Ok ==> final(self).store@ == ev.backward(old(self).store@) && ev.reverted_cursor(
                final(self).cursor,
            ) && final(self).anchor is None && final(self).dirty,
            res is Err ==> final(self).same_as(old(self)) && res->Err_0 == (if old(self).read_only {
                EditError::ReadOnly
            } else {
                ev.revert_error()
            }),
    {
        if self.read_only {
            return Err(EditError::ReadOnly);
        }
        match ev.kind {
            EventKind::Insertion => self.delete_raw(ev.at, ev.end),
            EventKind::Deletion => self.insert_raw(ev.at, &ev.text),
            EventKind::Replacement => self.replace_raw(ev.at, ev.end, &ev.removed),
        }
    }

    /// Makes the edit that `ev` records once more.
    pub fn replay(&mut self, ev: &Event) -> (res: Result<(), EditError>)
        requires
            old(self).wf(),
        ensures
            final(self).wf(),
            final(self).read_only == old(self).read_only,
            final(self).edits == old(self).edits,
            final(self).ending == old(self).ending,
            final(self).path == old(self).path,
            res is Ok <==> !old(self).read_only && ev.can_replay(old(self).store@),
            res is Ok ==> final(self).store@ == ev.forward(old(self).store@) && ev.replayed_cursor(
                final(self).cursor,
            ) && final(self).anchor is None && final(self).dirty,
            res is Err ==> final(self).same_as(old(self)) && res->Err_0 == (if old(self).read_only {
                EditError::ReadOnly
            } else {
                ev.replay_error()
            }),
    {
        if self.read_only {
            return Err(EditError::ReadOnly);
        }
        match ev.kind {
            EventKind::Insertion => self.insert_raw(ev.at, &ev.text),
            EventKind::Deletion => self.delete_raw(ev.at, ev.end),
            EventKind::Replacement => self.replace_raw(ev.at, ev.old_end, &ev.text),
        }
    }

    /// Moves the cursor one step left, to the end of the row above from a
    /// row's start, and not at all at the start of the buffer.
    pub fn move_left(&mut self)
        requires
            old(self).wf(),
        ensures
            final(self).wf(),
            final(self).cursor == spec_left(old(self).store@, old(self).cursor),
            final(self).same_content(old(self)),
            final(self).anchor == old(self).anchor,
    {
        if self.cursor.col > 0 {
            self.cursor.col = self.cursor.col - 1;
        } else if self.cursor.row > 0 {
            match self.store.row_len(self.cursor.row - 1) {
                Ok(n) => {
                    self.cursor = Position { row: self.cursor.row - 1, col: n };
                },
                Err(_) => {},
            }
        }
    }

    /// Moves the cursor one step right, to the start of the row below from a
    /// row's end, and not at all at the end of the buffer.
    pub fn move_right(&mut self)
        requires
            old(self).wf(),
        ensures
            final(self).wf(),
            final(self).cursor == spec_right(old(self).store@, old(self).cursor),
            final(self).same_content(old(self)),
            final(self).anchor == old(self).anchor,
    {
        match self.store.row_len(self.cursor.row) {
            Ok(n) => {
                if self.cursor.col < n {
                    self.cursor.col = self.cursor.col + 1;
                } else if self.cursor.row < self.store.len() - 1 {
                    self.cursor = Position { row: self.cursor.row + 1, col: 0 };
                }
            },
            Err(_) => {},
        }
    }

    /// Moves the cursor one row up, to the row's end where the row is
    /// shorter, and not at all on the first row.
    pub fn move_up(&mut self)
        requires
            old(self).wf(),
        ensures
            final(self).wf(),
            final(self).cursor == spec_up(old(self).store@, old(self).cursor),
            final(self).same_content(old(self)),
            final(self).anchor == old(self).anchor,
    {
        if self.cursor.row > 0 {
            match self.store.row_len(self.cursor.row - 1) {
                Ok(n) => {
                    let col = if self.cursor.col <= n {
                        self.cursor.col
                    } else {
                        n
                    };
                    self.cursor = Position { row: self.cursor.row - 1, col };
                },
                Err(_) => {},
            }
        }
    }

    /// Moves the cursor one row down, to the row's end where the row is
    /// shorter, and not at all on the last row.
    pub fn move_down(&mut self)
        requires
            old(self).wf(),
        ensures
            final(self).wf(),
            final(self).cursor == spec_down(old(self).store@, old(self).cursor),
            final(self).same_content(old(self)),
            final(self).anchor == old(self).anchor,
    {
        if self.cursor.row < self.store.len() - 1 {
            match self.store.row_len(self.cursor.row + 1) {
                Ok(n) => {
                    let col = if self.cursor.col <= n {
                        self.cursor.col
                    } else {
                        n
                    };
                    self.cursor = Position { row: self.cursor.row + 1, col };
                },
                Err(_) => {},
            }
        }
    }

    /// Moves the cursor to the start of the next word of its row, to the
    /// row's end where no word follows, and as one step right does from
    /// the row's end.
    pub fn move_word_right(&mut self)
        requires
            old(self).wf(),
        ensures
            final(self).wf(),
            final(self).same_content(old(self)),
            final(self).anchor == old(self).anchor,
            old(self).cursor.col == old(self).store@[old(self).cursor.row as int].len()
                ==> final(self).cursor == spec_right(old(self).store@, old(self).cursor),
            old(self).cursor.col < old(self).store@[old(self).cursor.row as int].len()
                ==> final(self).cursor.row == old(self).cursor.row && is_next_word(
                old(self).store@[old(self).cursor.row as int],
                old(self).cursor.col as int,
                final(self).cursor.col as int,
            ),
    {
        let col = self.cursor.col;
        let target = match self.store.row(self.cursor.row) {
            Ok(row) => if col < row.len() {
                Some(next_word(row, col))
            } else {
                None
            },
            Err(_) => None,
        };
        match target {
            Some(c) => {
                self.cursor.col = c;
            },
            None => {
                self.move_right();
            },
        }
    }

    /// Moves the cursor to the start of the word before it in its row, to
    /// the row's start where none begins before it, and as one step left
    /// does from the row's start.
    pub fn move_word_left(&mut self)
        requires
            old(self).wf(),
        ensures
            final(self).wf(),
            final(self).same_content(old(self)),
            final(self).anchor == old(self).anchor,
            old(self).cursor.col == 0 ==> final(self).cursor == spec_left(
                old(self).store@,
                old(self).cursor,
            ),
            old(self).cursor.col > 0 ==> final(self).cursor.row == old(self).cursor.row
                && is_prev_word(
                old(self).store@[old(self).cursor.row as int],
                old(self).cursor.col as int,
                final(self).cursor.col as int,
            ),
    {
        let col = self.cursor.col;
        let target = match self.store.row(self.cursor.row) {
            Ok(row) => if col > 0 {
                Some(prev_word(row, col))
            } else {
                None
            },
            Err(_) => None,
        };
        match target {
            Some(c) => {
                self.cursor.col = c;
            },
            None => {
                self.move_left();
            },
        }
    }

    /// Moves the cursor to the start of its row.
    pub fn move_line_start(&mut self)
        requires
            old(self).wf(),
        ensures
            final(self).wf(),
            final(self).cursor == (Position { row: old(self).cursor.row, col: 0 }),
            final(self).same_content(old(self)),
            final(self).anchor == old(self).anchor,
    {
        self.cursor.col = 0;
    }

    /// Moves the cursor behind the last character of its row.
    pub fn move_line_end(&mut self)
        requires
            old(self).wf(),
        ensures
            final(self).wf(),
            final(self).cursor.row == old(self).cursor.row,
            final(self).cursor.col == old(self).store@[old(self).cursor.row as int].len(),
            final(self).same_content(old(self)),
            final(self).anchor == old(self).anchor,
    {
        match self.store.row_len(self.cursor.row) {
            Ok(n) => {
                self.cursor.col = n;
            },
            Err(_) => {},
        }
    }

    /// Moves the cursor to `pos`, or as near to it as the text reaches: the
    /// last row where `pos.row` lies behind it, the row's end where `pos.col` does.
    pub fn move_to(&mut self, pos: Position)
        requires
            old(self).wf(),
        ensures
            final(self).wf(),
            final(self).cursor == clamp_to_row(
                old(self).store@,
                if pos.row < old(self).store@.len() {
                    pos.row as int
                } else {
                    old(self).store@.len() - 1
                },
                pos.col,
            ),
            final(self).same_content(old(self)),
            final(self).anchor == old(self).anchor,
    {
        let n = self.store.len();
        let row = if pos.row < n {
            pos.row
        } else {
            n - 1
        };
        match self.store.row_len(row) {
            Ok(w) => {
                let col = if pos.col <= w {
                    pos.col
                } else {
                    w
                };
                self.cursor = Position { row, col };
            },
            Err(_) => {},
        }
    }

    /// Names the file that the text belongs to.
    pub fn set_path(&mut self, path: Vec<char>)
        ensures
            final(self).path == Some(path),
            final(self).store@ == old(self).store@,
            final(self).cursor == old(self).cursor,
            final(self).anchor == old(self).anchor,
            final(self).dirty == old(self).dirty,
            final(self).read_only == old(self).read_only,
            final(self).edits == old(self).edits,
            final(self).ending == old(self).ending,
    {
        self.path = Some(path);
    }

    /// The screen column of the cursor with tab stops every `tab` columns.
    pub fn screen_column(&self, tab: usize) -> (res: usize)
        requires
            self.wf(),
            self.store@[self.cursor.row as int].len() * tab <= usize::MAX,
        ensures
            res == spec_width(
                self.store@[self.cursor.row as int].take(self.cursor.col as int),
                tab as int,
            ),
    {
        match self.store.row(self.cursor.row) {
            Ok(row) => render_width(row, self.cursor.col, tab),
            Err(_) => 0,
        }
    }

    /// Starts a selection at the cursor.
    pub fn start_selection(&mut self)
        ensures
            final(self).anchor == Some(old(self).cursor),
            final(self).cursor == old(self).cursor,
            final(self).same_content(old(self)),
    {
        self.anchor = Some(self.cursor);
    }

    /// Gives up the selection; the text and the cursor stay.
    pub fn collapse_selection(&mut self)
        ensures
            final(self).anchor is None,
            final(self).cursor == old(self).cursor,
            final(self).same_content(old(self)),
    {
        self.anchor = None;
    }

    /// The selected range in document order, if there is a selection.
    pub fn selection(&self) -> (res: Option<(Position, Position)>)
        ensures
            res == match self.anchor {
                Some(a) => Some(ordered(a, self.cursor)),
                None => None,
            },
    {
        match self.anchor {
            Some(a) => {
                if a.row < self.cursor.row || (a.row == self.cursor.row && a.col
                    <= self.cursor.col) {
                    Some((a, self.cursor))
                } else {
                    Some((self.cursor, a))
                }
            },
            None => None,
        }
    }

    /// The deletion of the selected range, in document order, if there is a
    /// selection.
    pub fn selection_effect(&self) -> (res: Option<Effect>)
        ensures
            self.anchor is Some <==> res is Some,
            res is Some ==> res->Some_0 == (Effect::Delete {
                start: ordered(self.anchor->Some_0, self.cursor).0,
                end: ordered(self.anchor->Some_0, self.cursor).1,
            }),
    {
        match self.selection() {
            Some((start, end)) => Some(Effect::Delete { start, end }),
            None => None,
        }
    }
}

} // verus!
