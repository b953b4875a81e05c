//! Search: the next place at or behind a position where a text stands.

use vstd::prelude::*;
use crate::document::Document;
use crate::row_store::{pos_le, Position, RowStore};

verus! {

/// `needle` stands in `row` at column `col`.
pub open spec fn matches_at(row: Seq<char>, col: int, needle: Seq<char>) -> bool {
    0 <= col && col + needle.len() <= row.len() && row.subrange(col, col + needle.len()) == needle
}

/// `needle` stands at `p`, and nowhere from `from` up to `p`.
pub open spec fn is_first_match(rows: Seq<Seq<char>>, needle: Seq<char>, from: Position, p: Position) -> bool {
    &&& p.row < rows.len()
    &&& pos_le(from, p)
    &&& matches_at(rows[p.row as int], p.col as int, needle)
    &&& forall|q: Position|
        pos_le(from, q) && pos_le(q, p) && q != p ==> !matches_at(
            #[trigger] rows[q.row as int],
            q.col as int,
            needle,
        )
}

/// `needle` stands nowhere at or behind `from`.
pub open spec fn no_match(rows: Seq<Seq<char>>, needle: Seq<char>, from: Position) -> bool {
    forall|q: Position|
        pos_le(from, q) && q.row < rows.len() ==> !matches_at(
            #[trigger] rows[q.row as int],
            q.col as int,
            needle,
        )
}

/// Whether `needle` stands in `row` at column `col`.
pub fn row_matches(row: &Vec<char>, col: usize, needle: &Vec<char>) -> (res: bool)
    ensures
        res == matches_at(row@, col as int, needle@),
{
    let n = needle.len();
    if col > row.len() || n > row.len() - col {
        return false;
    }
    let mut i: usize = 0;
    while i < n
        invariant
            i <= n,
            n == needle@.len(),
            col + n <= row.len(),
            forall|k: int| 0 <= k < i ==> row@[col + k] == needle@[k],
        decreases n - i,
    {
        if row[col + i] != needle[i] {
            assert(row@.subrange(col as int, col + n)[i as int] != needle@[i as int]);
            return false;
        }
        i += 1;
    }
    assert(row@.subrange(col as int, col + n) =~= needle@);
    true
}

/// The first column from `from` on at which `needle` stands in `row`.
pub fn find_in_row(row: &Vec<char>, from: usize, needle: &Vec<char>) -> (res: Option<usize>)
    ensures
        match res {
            Some(c) => from <= c && matches_at(row@, c as int, needle@) && forall|k: int|
                from <= k < c ==> !matches_at(row@, k, needle@),
            None => forall|k: int| from <= k ==> !matches_at(row@, k, needle@),
        },
{
    let mut c: usize = from;
    while c <= row.len()
        invariant
            from <= c,
            forall|k: int| from <= k < c ==> !matches_at(row@, k, needle@),
        decreases row.len() + 1 - c,
    {
        if row_matches(row, c, needle) {
            return Some(c);
        }
        if c == row.len() {
            return None;
        }
        c += 1;
    }
    None
}

impl RowStore {
    /// The first place at or behind `from` where `needle` stands within a
    /// row. To walk through all the places, ask again from one column
    /// further; each call stands alone.
    pub fn find_from(&self, needle: &Vec<char>, from: Position) -> (res: Option<Position>)
        ensures
            match res {
                Some(p) => is_first_match(self@, needle@, from, p),
                None => no_match(self@, needle@, from),
            },
    {
        let n = self.len();
        if from.row >= n {
            return None;
        }
        let mut r: usize = from.row;
        let mut start: usize = from.col;
        while r < n
            invariant
                from.row <= r <= n,
                n == self@.len(),
                start == (if r == from.row {
                    from.col
                } else {
                    0
                }),
                forall|q: Position|
                    pos_le(from, q) && q.row < r ==> !matches_at(
                        #[trigger] self@[q.row as int],
                        q.col as int,
                        needle@,
                    ),
            decreases n - r,
        {
            match self.row(r) {
                Ok(row) => {
                    match find_in_row(row, start, needle) {
                        Some(c) => {
                            return Some(Position { row: r, col: c });
                        },
                        None => {},
                    }
                },
                Err(_) => {},
            }
            r += 1;
            start = 0;
        }
        None
    }
}

/// The position one column behind `p`, from which a search for the next
/// match sets out.
pub open spec fn just_behind(p: Position) -> Position {
    if p.col < usize::MAX {
        Position { row: p.row, col: (p.col + 1) as usize }
    } else {
        p
    }
}

impl Document {
    /// The next place where `needle` stands: the first behind the cursor,
    /// or, where none follows, the first from the start of the text.
    pub fn find_next(&self, needle: &Vec<char>) -> (res: Option<Position>)
        ensures
            match res {
                Some(p) => is_first_match(self.store@, needle@, just_behind(self.cursor), p) || (
                no_match(self.store@, needle@, just_behind(self.cursor)) && is_first_match(
                    self.store@,
                    needle@,
                    Position { row: 0, col: 0 },
                    p,
                )),
                None => no_match(self.store@, needle@, Position { row: 0, col: 0 }),
            },
    {
        let from = if self.cursor.col < usize::MAX {
            Position { row: self.cursor.row, col: self.cursor.col + 1 }
        } else {
            self.cursor
        };
        match self.store.find_from(needle, from) {
            Some(p) => Some(p),
            None => self.store.find_from(needle, Position { row: 0, col: 0 }),
        }
    }
}

} // verus!
