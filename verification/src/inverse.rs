//! Insertion and deletion undo each other: the facts on which the history rests.

use vstd::prelude::*;
use crate::row_store::{delete_lines, extract_lines, insert_end_col, insert_end_row, insert_lines};

verus! {

/// Deleting from where lines went in to where they ended gives the rows as
/// they were, and what is taken out there is those lines.
pub proof fn lemma_delete_undoes_insert(rows: Seq<Seq<char>>, row: int, col: int, lines: Seq<Seq<char>>)
    requires
        0 <= row < rows.len(),
        0 <= col <= rows[row].len(),
        lines.len() >= 1,
    ensures
        ({
            let after = insert_lines(rows, row, col, lines);
            let er = insert_end_row(row, lines);
            let ec = insert_end_col(col, lines);
            &&& after.len() == rows.len() + lines.len() - 1
            &&& row <= er < after.len()
            &&& 0 <= ec <= after[er].len()
            &&& col <= after[row].len()
            &&& row == er ==> col <= ec
            &&& delete_lines(after, row, col, er, ec) == rows
            &&& extract_lines(after, row, col, er, ec) == lines
        }),
{
    let head = rows[row].take(col);
    let tail = rows[row].skip(col);
    let first = lines.update(0, head + lines[0]);
    let all = first.update(first.len() - 1, first.last() + tail);
    let after = insert_lines(rows, row, col, lines);
    let er = insert_end_row(row, lines);
    let ec = insert_end_col(col, lines);
    assert(after[row] == all[0]);
    assert(after[er] == all[er - row]);
    assert(head + tail =~= rows[row]);
    if lines.len() == 1 {
        assert(after[row] =~= head + lines[0] + tail);
        assert(after[row].take(col) =~= head);
        assert(after[er].skip(ec) =~= tail);
        assert(after[row].subrange(col, ec) =~= lines[0]);
    } else {
        assert(after[row] =~= head + lines[0]);
        assert(after[er] =~= lines.last() + tail);
        assert(after[row].take(col) =~= head);
        assert(after[row].skip(col) =~= lines[0]);
        assert(after[er].skip(ec) =~= tail);
        assert(after[er].take(ec) =~= lines.last());
        assert(after.subrange(row + 1, er) =~~= lines.subrange(1, lines.len() - 1));
    }
    assert(after.take(row) =~~= rows.take(row));
    assert(after.skip(er + 1) =~~= rows.skip(row + 1));
    assert(delete_lines(after, row, col, er, ec) =~~= rows);
    assert(extract_lines(after, row, col, er, ec) =~~= lines);
}

/// Putting back at the start of a range what was taken out of it gives the
/// rows as they were, and the insertion ends where the range ended.
pub proof fn lemma_insert_undoes_delete(rows: Seq<Seq<char>>, sr: int, sc: int, er: int, ec: int)
    requires
        0 <= sr <= er < rows.len(),
        0 <= sc <= rows[sr].len(),
        0 <= ec <= rows[er].len(),
        sr == er ==> sc <= ec,
    ensures
        ({
            let taken = extract_lines(rows, sr, sc, er, ec);
            let after = delete_lines(rows, sr, sc, er, ec);
            &&& taken.len() >= 1
            &&& sr < after.len()
            &&& sc <= after[sr].len()
            &&& insert_lines(after, sr, sc, taken) == rows
            &&& insert_end_row(sr, taken) == er
            &&& insert_end_col(sc, taken) == ec
        }),
{
    let taken = extract_lines(rows, sr, sc, er, ec);
    let after = delete_lines(rows, sr, sc, er, ec);
    let head = rows[sr].take(sc);
    let tail = rows[er].skip(ec);
    assert(after[sr] == head + tail);
    assert(after[sr].take(sc) =~= head);
    assert(after[sr].skip(sc) =~= tail);
    let first = taken.update(0, head + taken[0]);
    let all = first.update(first.len() - 1, first.last() + tail);
    if sr == er {
        assert(all[0] =~= rows[sr]);
        assert(all =~~= seq![rows[sr]]);
    } else {
        assert(all[0] =~= rows[sr]);
        assert(all.last() =~= rows[er]);
        assert(all =~~= rows.subrange(sr, er + 1));
    }
    assert(after.take(sr) =~~= rows.take(sr));
    assert(after.skip(sr + 1) =~~= rows.skip(er + 1));
    assert(insert_lines(after, sr, sc, taken) =~~= rows);
}

/// Deleting all of a one-row document leaves one empty row, never none.
pub proof fn lemma_delete_all_leaves_one_row(rows: Seq<Seq<char>>)
    requires
        rows.len() == 1,
    ensures
        delete_lines(rows, 0, 0, 0, rows[0].len() as int) == seq![Seq::<char>::empty()],
{
    assert(delete_lines(rows, 0, 0, 0, rows[0].len() as int) =~~= seq![Seq::<char>::empty()]);
}

} // verus!
