//! What the history promises: undoing every recorded edit restores the text
//! exactly, and redoing them brings the edited text back.

use vstd::prelude::*;
use crate::event::{Event, EventKind};
use crate::inverse::{lemma_delete_undoes_insert, lemma_insert_undoes_delete};
use crate::row_store::{delete_lines, extract_lines, insert_lines};
use crate::text::{
    are_lines, is_line, join_lines, lemma_split_are_lines, lemma_split_join, split_lines,
};
use crate::undo::{can_merge, is_merge_of};

verus! {

/// The rows after the edits of `events`, oldest first, were made on `rows`.
pub open spec fn run(rows: Seq<Seq<char>>, events: Seq<Event>) -> Seq<Seq<char>>
    decreases events.len(),
{
    if events.len() == 0 {
        rows
    } else {
        events.last().forward(run(rows, events.drop_last()))
    }
}

/// The rows after the edits of `events` were taken back from `rows`, newest
/// first.
pub open spec fn unrun(rows: Seq<Seq<char>>, events: Seq<Event>) -> Seq<Seq<char>>
    decreases events.len(),
{
    if events.len() == 0 {
        rows
    } else {
        unrun(events.last().backward(rows), events.drop_last())
    }
}

/// Each event of `events` records exactly an edit of the rows that the
/// events before it had left.
pub open spec fn consistent(rows: Seq<Seq<char>>, events: Seq<Event>) -> bool
    decreases events.len(),
{
    events.len() == 0 || (consistent(rows, events.drop_last()) && events.last().applies_to(
        run(rows, events.drop_last()),
    ))
}

/// Each event of `events`, newest first, can be taken back from what the
/// newer ones left of `rows`.
pub open spec fn revertible(rows: Seq<Seq<char>>, events: Seq<Event>) -> bool
    decreases events.len(),
{
    events.len() == 0 || (events.last().can_revert(rows) && revertible(
        events.last().backward(rows),
        events.drop_last(),
    ))
}

/// Lines put into rows of lines give rows of lines.
pub proof fn lemma_insert_keeps_lines(rows: Seq<Seq<char>>, row: int, col: int, lines: Seq<Seq<char>>)
    requires
        are_lines(rows),
        are_lines(lines),
        0 <= row < rows.len(),
        0 <= col <= rows[row].len(),
    ensures
        are_lines(insert_lines(rows, row, col, lines)),
{
    let after = insert_lines(rows, row, col, lines);
    assert(is_line(rows[row]));
    assert forall|k: int| 0 <= k < after.len() implies is_line(#[trigger] after[k]) by {
        if k < row {
            assert(after[k] == rows[k]);
        } else if k >= row + lines.len() {
            assert(after[k] == rows[k - lines.len() + 1]);
        } else {
            assert(is_line(lines[k - row]));
        }
    }
}

/// Rows of lines with a range taken out are rows of lines, and so is what
/// was taken.
pub proof fn lemma_delete_keeps_lines(rows: Seq<Seq<char>>, sr: int, sc: int, er: int, ec: int)
    requires
        are_lines(rows),
        0 <= sr <= er < rows.len(),
        0 <= sc <= rows[sr].len(),
        0 <= ec <= rows[er].len(),
        sr == er ==> sc <= ec,
    ensures
        are_lines(delete_lines(rows, sr, sc, er, ec)),
        are_lines(extract_lines(rows, sr, sc, er, ec)),
{
    let after = delete_lines(rows, sr, sc, er, ec);
    let taken = extract_lines(rows, sr, sc, er, ec);
    assert(is_line(rows[sr]));
    assert(is_line(rows[er]));
    assert forall|k: int| 0 <= k < after.len() implies is_line(#[trigger] after[k]) by {
        if k < sr {
            assert(after[k] == rows[k]);
        } else if k > sr {
            assert(after[k] == rows[k + er - sr]);
        }
    }
    assert forall|k: int| 0 <= k < taken.len() implies is_line(#[trigger] taken[k]) by {
        if 0 < k < er - sr {
            assert(taken[k] == rows[sr + k]);
        }
    }
}

/// An event that records an edit of `rows` exactly can be taken back from
/// the edited rows, and taking it back gives `rows` again.
pub proof fn lemma_event_inverse(ev: Event, rows: Seq<Seq<char>>)
    requires
        are_lines(rows),
        ev.applies_to(rows),
    ensures
        are_lines(ev.forward(rows)),
        ev.can_revert(ev.forward(rows)),
        ev.backward(ev.forward(rows)) == rows,
{
    let sr = ev.at.row as int;
    let sc = ev.at.col as int;
    let er = ev.end.row as int;
    let ec = ev.end.col as int;
    match ev.kind {
        EventKind::Insertion => {
            let lines = split_lines(ev.text@);
            lemma_split_are_lines(ev.text@);
            lemma_insert_keeps_lines(rows, sr, sc, lines);
            lemma_delete_undoes_insert(rows, sr, sc, lines);
        },
        EventKind::Deletion => {
            let taken = extract_lines(rows, sr, sc, er, ec);
            lemma_delete_keeps_lines(rows, sr, sc, er, ec);
            lemma_split_join(taken);
            lemma_insert_undoes_delete(rows, sr, sc, er, ec);
        },
        EventKind::Replacement => {
            let or = ev.old_end.row as int;
            let oc = ev.old_end.col as int;
            let taken = extract_lines(rows, sr, sc, or, oc);
            let without = delete_lines(rows, sr, sc, or, oc);
            let lines = split_lines(ev.text@);
            lemma_delete_keeps_lines(rows, sr, sc, or, oc);
            lemma_split_join(taken);
            lemma_insert_undoes_delete(rows, sr, sc, or, oc);
            lemma_split_are_lines(ev.text@);
            lemma_insert_keeps_lines(without, sr, sc, lines);
            lemma_delete_undoes_insert(without, sr, sc, lines);
        },
    }
}

/// Undoing every event of a consistent history, newest first, restores the
/// rows exactly; each undo on the way can be made; and redoing them all
/// afterwards gives the edited rows again.
pub proof fn lemma_undo_all_restores(rows: Seq<Seq<char>>, events: Seq<Event>)
    requires
        are_lines(rows),
        consistent(rows, events),
    ensures
        are_lines(run(rows, events)),
        revertible(run(rows, events), events),
        unrun(run(rows, events), events) == rows,
        run(unrun(run(rows, events), events), events) == run(rows, events),
    decreases events.len(),
{
    if events.len() > 0 {
        let front = events.drop_last();
        lemma_undo_all_restores(rows, front);
        lemma_event_inverse(events.last(), run(rows, front));
    }
}

/// A text without terminator is one line.
pub proof fn lemma_split_of_line(t: Seq<char>)
    requires
        is_line(t),
    ensures
        split_lines(t) == seq![t],
{
    let one = seq![t];
    assert(are_lines(one));
    assert(join_lines(one) == t);
    lemma_split_join(one);
}

/// Merging keeps the history true: where `a` records an edit of `rows`, `b`
/// the edit that followed, and `b` continues the typing of `a`, the merged
/// event records an edit of `rows` exactly, and that one edit gives what the
/// two gave.
pub proof fn lemma_merge_keeps_history(a: Event, b: Event, m: Event, rows: Seq<Seq<char>>, limit: usize)
    requires
        are_lines(rows),
        a.applies_to(rows),
        b.applies_to(a.forward(rows)),
        can_merge(a, b, limit),
        is_merge_of(m, a, b),
    ensures
        m.applies_to(rows),
        m.forward(rows) == b.forward(a.forward(rows)),
{
    let r = a.at.row as int;
    let c = a.at.col as int;
    let la = split_lines(a.text@);
    lemma_split_are_lines(a.text@);
    crate::text::lemma_join_split(a.text@);
    assert(la.len() == 1);
    assert(join_lines(la) == la[0]);
    assert(is_line(a.text@));
    assert(is_line(b.text@));
    assert(is_line(m.text@));
    lemma_split_of_line(a.text@);
    lemma_split_of_line(b.text@);
    lemma_split_of_line(m.text@);
    let mid = a.forward(rows);
    let head = rows[r].take(c);
    let tail = rows[r].skip(c);
    assert(mid[r] =~= head + a.text@ + tail);
    let c2 = b.at.col as int;
    assert(c2 == c + a.text@.len());
    assert(mid[r].take(c2) =~= head + a.text@);
    assert(mid[r].skip(c2) =~= tail);
    assert(head + a.text@ + b.text@ =~= head + m.text@);
    assert(m.forward(rows) =~~= b.forward(mid));
}

} // verus!
