//! The row store: the document's text as an ordered sequence of rows.

use vstd::prelude::*;
use crate::text::{
    add_cr, are_lines, ends_with_cr, is_crlf, is_line, join_lines, lemma_join_push_last,
    lemma_split_are_lines, spec_ending, spec_load, spec_save, split_lines, strip_cr, LineEnding,
};

verus! {

/// An address in the buffer: a row and a column within it.
#[derive(Clone, Copy, Debug, PartialEq, Eq, Structural)]
pub struct Position {
    pub row: usize,
    pub col: usize,
}

/// Everything that an operation of the editor core can answer instead of a result.
#[derive(Clone, Copy, Debug, PartialEq, Eq, Structural)]
pub enum EditError {
    OutOfBounds,
    InvalidRange,
    ReadOnly,
    NothingToUndo,
    NothingToRedo,
    UnknownCommand,
    ArgumentError,
    UndefinedVariable,
    RecursionLimit,
    IoFailure,
}

/// The position names a row of `rows` and a column in or just behind it.
pub open spec fn valid_pos(rows: Seq<Seq<char>>, pos: Position) -> bool {
    pos.row < rows.len() && pos.col <= rows[pos.row as int].len()
}

/// `a` stands at or before `b` in document order.
pub open spec fn pos_le(a: Position, b: Position) -> bool {
    a.row < b.row || (a.row == b.row && a.col <= b.col)
}

/// The rows after `lines` went in at (`row`, `col`): the first line joins what
/// stood before the column, the last line what stood behind it.
pub open spec fn insert_lines(rows: Seq<Seq<char>>, row: int, col: int, lines: Seq<Seq<char>>) -> Seq<
    Seq<char>,
> {
    let head = rows[row].take(col);
    let tail = rows[row].skip(col);
    let first = lines.update(0, head + lines[0]);
    let all = first.update(first.len() - 1, first.last() + tail);
    rows.take(row) + all + rows.skip(row + 1)
}

/// The row on which an insertion of `lines` at row `row` ends.
pub open spec fn insert_end_row(row: int, lines: Seq<Seq<char>>) -> int {
    row + lines.len() - 1
}

/// The column at which an insertion of `lines` at column `col` ends.
pub open spec fn insert_end_col(col: int, lines: Seq<Seq<char>>) -> int {
    if lines.len() == 1 {
        col + lines[0].len()
    } else {
        lines.last().len() as int
    }
}

/// The lines between two positions: the rest of the first row, the rows in
/// between, and the start of the last row.
pub open spec fn extract_lines(rows: Seq<Seq<char>>, sr: int, sc: int, er: int, ec: int) -> Seq<
    Seq<char>,
> {
    if sr == er {
        seq![rows[sr].subrange(sc, ec)]
    } else {
        seq![rows[sr].skip(sc)] + rows.subrange(sr + 1, er) + seq![rows[er].take(ec)]
    }
}

/// The rows without what stands between two positions: the two boundary rows
/// become one.
pub open spec fn delete_lines(rows: Seq<Seq<char>>, sr: int, sc: int, er: int, ec: int) -> Seq<
    Seq<char>,
> {
    rows.take(sr) + seq![rows[sr].take(sc) + rows[er].skip(ec)] + rows.skip(er + 1)
}

/// `insert_lines` at a `Position`, of the lines of a text.
pub open spec fn spec_insert(rows: Seq<Seq<char>>, pos: Position, text: Seq<char>) -> Seq<Seq<char>> {
    insert_lines(rows, pos.row as int, pos.col as int, split_lines(text))
}

/// `delete_lines` between two `Position`s.
pub open spec fn spec_delete(rows: Seq<Seq<char>>, start: Position, end: Position) -> Seq<Seq<char>> {
    delete_lines(rows, start.row as int, start.col as int, end.row as int, end.col as int)
}

/// The text between two `Position`s, rows joined by terminators.
pub open spec fn spec_text_between(rows: Seq<Seq<char>>, start: Position, end: Position) -> Seq<char> {
    join_lines(extract_lines(rows, start.row as int, start.col as int, end.row as int, end.col as int))
}

/// `end` is where an insertion of `text` at `pos` ends.
pub open spec fn is_insert_end(pos: Position, text: Seq<char>, end: Position) -> bool {
    &&& end.row == insert_end_row(pos.row as int, split_lines(text))
    &&& end.col == insert_end_col(pos.col as int, split_lines(text))
}

/// The text of a document, one row per line.
pub struct RowStore {
    rows: Vec<Vec<char>>,
}

impl View for RowStore {
    type V = Seq<Seq<char>>;

    closed spec fn view(&self) -> Seq<Seq<char>> {
        Seq::new(self.rows@.len(), |i: int| self.rows@[i]@)
    }
}

impl RowStore {
    /// There is at least one row, and no row holds a line terminator.
    pub open spec fn wf(&self) -> bool {
        are_lines(self@)
    }

    /// An empty document: one empty row.
    pub fn new() -> (res: RowStore)
        ensures
            res.wf(),
            res@ == seq![Seq::<char>::empty()],
    {
        let mut rows: Vec<Vec<char>> = Vec::new();
        rows.push(Vec::new());
        let res = RowStore { rows };
        assert(res@ =~~= seq![Seq::<char>::empty()]);
        res
    }

    /// Whether the store is well formed, found out by looking at every row.
    pub fn is_well_formed(&self) -> (res: bool)
        ensures
            res == self.wf(),
    {
        if self.rows.len() == 0 {
            return false;
        }
        let mut i: usize = 0;
        while i < self.rows.len()
            invariant
                i <= self.rows.len(),
                self@.len() >= 1,
                forall|k: int| 0 <= k < i ==> is_line(#[trigger] self@[k]),
            decreases self.rows.len() - i,
        {
            let row = &self.rows[i];
            let mut j: usize = 0;
            while j < row.len()
                invariant
                    j <= row.len(),
                    i < self.rows.len(),
                    row@ == self@[i as int],
                    forall|k: int| 0 <= k < j ==> row@[k] != '\n',
                decreases row.len() - j,
            {
                if row[j] == '\n' {
                    assert(!is_line(self@[i as int]));
                    return false;
                }
                j += 1;
            }
            i += 1;
        }
        true
    }

    /// The number of rows.
    pub fn len(&self) -> (n: usize)
        ensures
            n == self@.len(),
    {
        self.rows.len()
    }

    /// The row at `index`, or `OutOfBounds` behind the last row.
    pub fn row(&self, index: usize) -> (res: Result<&Vec<char>, EditError>)
        ensures
            index < self@.len() ==> res is Ok && res->Ok_0@ == self@[index as int],
            index >= self@.len() ==> res == Err::<&Vec<char>, EditError>(EditError::OutOfBounds),
    {
        if index < self.rows.len() {
            Ok(&self.rows[index])
        } else {
            Err(EditError::OutOfBounds)
        }
    }

    /// The length of the row at `index`, or `OutOfBounds` behind the last row.
    pub fn row_len(&self, index: usize) -> (res: Result<usize, EditError>)
        ensures
            index < self@.len() ==> res is Ok && res->Ok_0 == self@[index as int].len(),
            index >= self@.len() ==> res == Err::<usize, EditError>(EditError::OutOfBounds),
    {
        if index < self.rows.len() {
            Ok(self.rows[index].len())
        } else {
            Err(EditError::OutOfBounds)
        }
    }

    /// Whether `pos` addresses a place in this store.
    pub fn contains(&self, pos: Position) -> (res: bool)
        ensures
            res == valid_pos(self@, pos),
    {
        pos.row < self.rows.len() && pos.col <= self.rows[pos.row].len()
    }

    /// Puts `text` in at `pos`. A text without terminator is spliced into the
    /// row; each terminator in it splits the row once more. Returns the
    /// position just behind what went in.
    pub fn insert_at(&mut self, pos: Position, text: &Vec<char>) -> (res: Result<Position, EditError>)
        requires
            old(self).wf(),
        ensures
            final(self).wf(),
            res is Ok <==> valid_pos(old(self)@, pos),
            res is Ok ==> final(self)@ == spec_insert(old(self)@, pos, text@) && is_insert_end(
                pos,
                text@,
                res->Ok_0,
            ) && valid_pos(final(self)@, res->Ok_0),
            res is Err ==> res == Err::<Position, EditError>(EditError::OutOfBounds) && final(self)@
                == old(self)@,
    {
        if !self.contains(pos) {
            return Err(EditError::OutOfBounds);
        }
        let ghost old_rows = self@;
        let mut cur = self.rows.remove(pos.row);
        let mut tail = cur.split_off(pos.col);
        let ghost head = cur@;
        let ghost before = old_rows.take(pos.row as int);
        let ghost after = old_rows.skip(pos.row + 1);
        assert(head == old_rows[pos.row as int].take(pos.col as int));
        assert(tail@ == old_rows[pos.row as int].skip(pos.col as int));
        let mut at: usize = pos.row;
        let mut i: usize = 0;
        assert(text@.take(0) =~= Seq::<char>::empty());
        assert(split_lines(text@.take(0)) =~= seq![Seq::<char>::empty()]);
        assert(head + Seq::<char>::empty() =~= head);
        assert(self@ =~~= before + after);
        while i < text.len()
            invariant
                i <= text.len(),
                at <= self.rows.len(),
                before.len() == pos.row,
                ({
                    let s = split_lines(text@.take(i as int));
                    let s2 = s.update(0, head + s[0]);
                    &&& at == pos.row + s.len() - 1
                    &&& cur@ == s2.last()
                    &&& self@ =~~= before + s2.drop_last() + after
                }),
            decreases text.len() - i,
        {
            let ch = text[i];
            proof {
                lemma_split_are_lines(text@.take(i as int));
                assert(text@.take(i + 1).drop_last() =~= text@.take(i as int));
            }
            let ghost s = split_lines(text@.take(i as int));
            let ghost s2 = s.update(0, head + s[0]);
            let ghost t = split_lines(text@.take(i + 1));
            let ghost t2 = t.update(0, head + t[0]);
            if ch == '\n' {
                let ghost pre = self@;
                let ghost line = cur@;
                self.rows.insert(at, cur);
                assert(at < self.rows.len());
                assert(self@ =~~= pre.insert(at as int, line));
                assert(pre.insert(at as int, line) =~~= before + s2 + after);
                at = at + 1;
                cur = Vec::new();
                assert(t == s.push(Seq::empty()));
                assert(t2.drop_last() =~~= s2);
                assert(self@ =~~= before + t2.drop_last() + after);
            } else {
                cur.push(ch);
                assert(t == s.drop_last().push(s.last().push(ch)));
                assert(t2.drop_last() =~~= s2.drop_last());
                assert(cur@ =~= t2.last());
            }
            i += 1;
        }
        assert(text@.take(text@.len() as int) =~= text@);
        let ghost s = split_lines(text@);
        let ghost s2 = s.update(0, head + s[0]);
        proof {
            lemma_split_are_lines(text@);
        }
        let end = Position { row: at, col: cur.len() };
        let ghost pre = self@;
        let ghost rest = tail@;
        cur.append(&mut tail);
        let ghost line = cur@;
        self.rows.insert(at, cur);
        assert(self@ =~~= pre.insert(at as int, line));
        assert(line == s2.last() + rest);
        let ghost all = s2.update(s2.len() - 1, s2.last() + rest);
        assert(pre.insert(at as int, line) =~~= before + all + after);
        assert(self@ =~~= spec_insert(old_rows, pos, text@));
        assert(self.wf()) by {
            assert forall|k: int| 0 <= k < self@.len() implies is_line(#[trigger] self@[k]) by {
                if k < pos.row {
                    assert(self@[k] == old_rows[k]);
                } else if k >= pos.row + s.len() {
                    assert(self@[k] == old_rows[k - s.len() + 1]);
                } else {
                    assert(is_line(s[k - pos.row]));
                    assert(is_line(old_rows[pos.row as int]));
                }
            }
        }
        Ok(end)
    }

    /// Takes out what stands from `start` up to `end` and returns it, rows
    /// joined by terminators. Rows that lie wholly inside go; the two boundary
    /// rows become one.
    pub fn delete_range(&mut self, start: Position, end: Position) -> (res: Result<
        Vec<char>,
        EditError,
    >)
        requires
            old(self).wf(),
        ensures
            final(self).wf(),
            !pos_le(start, end) ==> res is Err && res->Err_0 == EditError::InvalidRange,
            pos_le(start, end) && !(valid_pos(old(self)@, start) && valid_pos(old(self)@, end))
                ==> res is Err && res->Err_0 == EditError::OutOfBounds,
            pos_le(start, end) && valid_pos(old(self)@, start) && valid_pos(old(self)@, end)
                ==> res is Ok && final(self)@ == spec_delete(old(self)@, start, end)
                && res->Ok_0@ == spec_text_between(old(self)@, start, end),
            res is Err ==> final(self)@ == old(self)@,
    {
        if start.row > end.row || (start.row == end.row && start.col > end.col) {
            return Err(EditError::InvalidRange);
        }
        if !self.contains(start) || !self.contains(end) {
            return Err(EditError::OutOfBounds);
        }
        let ghost old_rows = self@;
        let ghost sr = start.row as int;
        let ghost sc = start.col as int;
        let ghost er = end.row as int;
        let ghost ec = end.col as int;
        if start.row == end.row {
            let mut row = self.rows.remove(start.row);
            let ghost pre = self@;
            assert(pre =~~= old_rows.remove(sr));
            let mut tail = row.split_off(end.col);
            let removed = row.split_off(start.col);
            row.append(&mut tail);
            let ghost line = row@;
            self.rows.insert(start.row, row);
            assert(self@ =~~= pre.insert(sr, line));
            assert(line =~= old_rows[sr].take(sc) + old_rows[sr].skip(ec));
            assert(self@ =~~= spec_delete(old_rows, start, end));
            assert(removed@ =~= old_rows[sr].subrange(sc, ec));
            assert(is_line(line)) by {
                assert(is_line(old_rows[sr]));
            }
            assert(self.wf());
            Ok(removed)
        } else {
            let mut first = self.rows.remove(start.row);
            let mut removed = first.split_off(start.col);
            let ghost lead = seq![old_rows[sr].skip(sc)];
            let mut k: usize = start.row + 1;
            assert(lead + old_rows.subrange(sr + 1, k as int) =~~= lead);
            assert(self@ =~~= old_rows.take(sr) + old_rows.skip(k as int));
            while k < end.row
                invariant
                    start.row < k <= end.row,
                    end.row < old_rows.len(),
                    sr == start.row,
                    sc == start.col,
                    lead == seq![old_rows[sr].skip(sc)],
                    first@ == old_rows[sr].take(sc),
                    self@.len() == sr + old_rows.len() - k,
                    self@ =~~= old_rows.take(sr) + old_rows.skip(k as int),
                    removed@ == join_lines(lead + old_rows.subrange(sr + 1, k as int)),
                decreases end.row - k,
            {
                let ghost pre = self@;
                let mut mid = self.rows.remove(start.row);
                assert(self@ =~~= pre.remove(sr));
                assert(mid@ == pre[sr]);
                assert(pre[sr] == (old_rows.take(sr) + old_rows.skip(k as int))[sr]);
                assert(mid@ == old_rows[k as int]);
                removed.push('\n');
                removed.append(&mut mid);
                proof {
                    let x = lead + old_rows.subrange(sr + 1, k + 1);
                    assert(x.drop_last() =~~= lead + old_rows.subrange(sr + 1, k as int));
                    assert(x.last() == old_rows[k as int]);
                }
                k += 1;
            }
            let ghost pre = self@;
            assert(start.row < self.rows.len());
            let mut last = self.rows.remove(start.row);
            assert(self@ =~~= pre.remove(sr));
            assert(last@ == pre[sr]);
            assert(pre[sr] == (old_rows.take(sr) + old_rows.skip(k as int))[sr]);
            assert(last@ == old_rows[er]);
            let ghost mid_rows = self@;
            let mut tail = last.split_off(end.col);
            removed.push('\n');
            removed.append(&mut last);
            first.append(&mut tail);
            let ghost line = first@;
            self.rows.insert(start.row, first);
            assert(self@ =~~= mid_rows.insert(sr, line));
            assert(self@ =~~= spec_delete(old_rows, start, end));
            proof {
                let x = extract_lines(old_rows, sr, sc, er, ec);
                assert(x.drop_last() =~~= lead + old_rows.subrange(sr + 1, er));
                assert(x.last() == old_rows[er].take(ec));
                assert(is_line(old_rows[sr]));
                assert(is_line(old_rows[er]));
                assert(is_line(line));
                assert forall|j: int| 0 <= j < self@.len() implies is_line(#[trigger] self@[j]) by {
                    if j < sr {
                        assert(self@[j] == old_rows[j]);
                    } else if j > sr {
                        assert(self@[j] == old_rows[j + er - sr]);
                    }
                }
            }
            Ok(removed)
        }
    }

    /// The whole text: the rows joined by terminators.
    pub fn text(&self) -> (res: Vec<char>)
        requires
            self.wf(),
        ensures
            res@ == join_lines(self@),
    {
        let mut out: Vec<char> = Vec::new();
        append_chars(&mut out, &self.rows[0]);
        let mut k: usize = 1;
        assert(self@.take(1) =~~= seq![self@[0]]);
        while k < self.rows.len()
            invariant
                1 <= k <= self.rows.len(),
                out@ == join_lines(self@.take(k as int)),
            decreases self.rows.len() - k,
        {
            out.push('\n');
            append_chars(&mut out, &self.rows[k]);
            proof {
                let x = self@.take(k + 1);
                assert(x.drop_last() =~~= self@.take(k as int));
                assert(x.last() == self@[k as int]);
            }
            k += 1;
        }
        assert(self@.take(self@.len() as int) =~~= self@);
        out
    }

    fn ends_in_returns(&self) -> (res: bool)
        ensures
            res == is_crlf(self@),
    {
        let n = self.rows.len();
        if n < 2 {
            return false;
        }
        let mut i: usize = 0;
        while i < n - 1
            invariant
                i <= n - 1,
                n == self.rows.len(),
                n >= 2,
                forall|k: int| 0 <= k < i ==> ends_with_cr(#[trigger] self@[k]),
            decreases n - 1 - i,
        {
            let row = &self.rows[i];
            let w = row.len();
            if w == 0 || row[w - 1] != '\r' {
                assert(!ends_with_cr(self@[i as int]));
                return false;
            }
            i += 1;
        }
        true
    }

    fn strip_returns(&mut self)
        requires
            old(self).wf(),
            is_crlf(old(self)@),
        ensures
            final(self).wf(),
            final(self)@ == strip_cr(old(self)@),
    {
        let ghost before = self@;
        let n = self.rows.len();
        let mut i: usize = 0;
        while i < n - 1
            invariant
                i <= n - 1,
                n == self.rows.len(),
                n == before.len(),
                is_crlf(before),
                are_lines(before),
                forall|k: int| 0 <= k < i ==> self@[k] == before[k].drop_last(),
                forall|k: int| i <= k < n ==> self@[k] == before[k],
            decreases n - 1 - i,
        {
            let ghost pre = self@;
            let mut row = self.rows.remove(i);
            assert(row@ == pre[i as int]);
            assert(ends_with_cr(before[i as int]));
            row.pop();
            assert(row@ =~= before[i as int].drop_last());
            let ghost without = self@;
            assert(without =~~= pre.remove(i as int));
            let ghost line = row@;
            self.rows.insert(i, row);
            assert(self@ =~~= without.insert(i as int, line));
            i += 1;
        }
        assert(self@ =~~= strip_cr(before));
        assert forall|k: int| 0 <= k < self@.len() implies is_line(#[trigger] self@[k]) by {
            assert(is_line(before[k]));
        }
    }

    /// The store of a loaded text and the terminator style found in it. Where
    /// a carriage return stands before every terminator, it belongs to the
    /// terminator and not to the row.
    pub fn load(text: &Vec<char>) -> (res: (RowStore, LineEnding))
        ensures
            res.0.wf(),
            res.0@ == spec_load(text@),
            res.1 == spec_ending(text@),
    {
        let mut store = RowStore::from_text(text);
        if store.ends_in_returns() {
            store.strip_returns();
            (store, LineEnding::CrLf)
        } else {
            (store, LineEnding::Lf)
        }
    }

    /// The text to write out for this store in a terminator style.
    pub fn save(&self, ending: LineEnding) -> (res: Vec<char>)
        requires
            self.wf(),
        ensures
            res@ == spec_save(self@, ending),
    {
        match ending {
            LineEnding::Lf => self.text(),
            LineEnding::CrLf => {
                let mut out: Vec<char> = Vec::new();
                append_chars(&mut out, &self.rows[0]);
                let mut k: usize = 1;
                assert(add_cr(self@.take(1)) =~~= seq![self@[0]]);
                while k < self.rows.len()
                    invariant
                        1 <= k <= self.rows.len(),
                        out@ == join_lines(add_cr(self@.take(k as int))),
                    decreases self.rows.len() - k,
                {
                    let ghost shorter = add_cr(self@.take(k as int));
                    out.push('\r');
                    out.push('\n');
                    append_chars(&mut out, &self.rows[k]);
                    proof {
                        let x = add_cr(self@.take(k + 1));
                        lemma_join_push_last(shorter, '\r');
                        assert(x.drop_last() =~~= shorter.update(
                            shorter.len() - 1,
                            shorter.last().push('\r'),
                        ));
                        assert(x.last() == self@[k as int]);
                    }
                    k += 1;
                }
                assert(self@.take(self@.len() as int) =~~= self@);
                out
            },
        }
    }

    /// The store that holds `text`, one row for each of its lines.
    pub fn from_text(text: &Vec<char>) -> (res: RowStore)
        ensures
            res.wf(),
            res@ == split_lines(text@),
    {
        let mut store = RowStore::new();
        let ghost empty = store@;
        let r = store.insert_at(Position { row: 0, col: 0 }, text);
        proof {
            lemma_split_are_lines(text@);
            let lines = split_lines(text@);
            let none = Seq::<char>::empty();
            assert(empty[0].take(0) =~= none);
            assert(empty[0].skip(0) =~= none);
            let first = lines.update(0, none + lines[0]);
            assert(first =~~= lines);
            assert(first.update(first.len() - 1, first.last() + none) =~~= lines);
            assert(store@ =~~= lines);
        }
        store
    }
}

/// Copies the characters of `src` to the end of `out`.
pub fn append_chars(out: &mut Vec<char>, src: &Vec<char>)
    ensures
        final(out)@ == old(out)@ + src@,
{
    let ghost start = out@;
    let mut i: usize = 0;
    while i < src.len()
        invariant
            i <= src.len(),
            out@ == start + src@.take(i as int),
        decreases src.len() - i,
    {
        out.push(src[i]);
        assert(src@.take(i + 1) =~= src@.take(i as int).push(src@[i as int]));
        i += 1;
    }
    assert(src@.take(src@.len() as int) =~= src@);
}

} // verus!
