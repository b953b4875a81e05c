//! Screen columns: how wide a row is once its tabs are expanded. Only the
//! screen uses this; the text is always addressed by characters.

use vstd::prelude::*;

verus! {

/// The screen width of `row` with tab stops every `tab` columns: a tab
/// reaches to the next stop, any other character takes one column.
pub open spec fn spec_width(row: Seq<char>, tab: int) -> int
    decreases row.len(),
{
    if row.len() == 0 {
        0
    } else {
        let w = spec_width(row.drop_last(), tab);
        if row.last() != '\t' {
            w + 1
        } else if tab > 0 {
            w + tab - w % tab
        } else {
            w
        }
    }
}

/// A row is never wider than if each character filled a whole tab stop.
pub proof fn lemma_width_bound(row: Seq<char>, tab: int)
    requires
        tab >= 1,
    ensures
        0 <= spec_width(row, tab) <= row.len() * tab,
    decreases row.len(),
{
    if row.len() > 0 {
        lemma_width_bound(row.drop_last(), tab);
        let w = spec_width(row.drop_last(), tab);
        let n = row.len() as int;
        assert((n - 1) * tab + tab == n * tab) by (nonlinear_arith);
        assert(0 <= w % tab < tab) by (nonlinear_arith)
            requires
                tab >= 1,
                w >= 0,
        ;
    }
}

/// The screen column at which the character of index `upto` of `row` begins.
pub fn render_width(row: &Vec<char>, upto: usize, tab: usize) -> (res: usize)
    requires
        upto <= row.len(),
        row.len() * tab <= usize::MAX,
    ensures
        res == spec_width(row@.take(upto as int), tab as int),
{
    let mut w: usize = 0;
    let mut i: usize = 0;
    assert(row@.take(0) =~= Seq::<char>::empty());
    while i < upto
        invariant
            i <= upto <= row.len(),
            row.len() * tab <= usize::MAX,
            w == spec_width(row@.take(i as int), tab as int),
            tab >= 1 ==> w <= i * tab,
            tab == 0 ==> w <= i,
        decreases upto - i,
    {
        proof {
            assert(row@.take(i + 1).drop_last() =~= row@.take(i as int));
            assert(row@.take(i + 1).last() == row@[i as int]);
            if tab >= 1 {
                lemma_width_bound(row@.take(i + 1), tab as int);
                assert((i + 1) * tab <= row.len() * tab) by (nonlinear_arith)
                    requires
                        i + 1 <= row.len(),
                        tab >= 1,
                ;
            }
        }
        if row[i] != '\t' {
            w = w + 1;
        } else if tab > 0 {
            w = w + (tab - w % tab);
        }
        i += 1;
    }
    w
}

/// The first visible row after scrolling as little as shows row `row` in a
/// window of `height` rows whose first row was `top`.
pub open spec fn spec_scroll(top: usize, height: usize, row: usize) -> usize {
    if row < top || height == 0 {
        row
    } else if row - top >= height {
        (row - height + 1) as usize
    } else {
        top
    }
}

/// Scrolls a window so that it shows row `row`.
pub fn scroll_to(top: usize, height: usize, row: usize) -> (res: usize)
    ensures
        res == spec_scroll(top, height, row),
        res <= row,
        height > 0 ==> row - res < height,
{
    if row < top || height == 0 {
        row
    } else if row - top >= height {
        row - height + 1
    } else {
        top
    }
}

} // verus!
