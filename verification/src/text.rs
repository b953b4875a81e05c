//! Lines and line terminators: how a flat text splits into rows and back.

use vstd::prelude::*;

verus! {

/// A line is a text without a line terminator in it.
pub open spec fn is_line(s: Seq<char>) -> bool {
    forall|i: int| 0 <= i < s.len() ==> s[i] != '\n'
}

/// Every element is a line, and there is at least one.
pub open spec fn are_lines(lines: Seq<Seq<char>>) -> bool {
    &&& lines.len() >= 1
    &&& forall|i: int| 0 <= i < lines.len() ==> is_line(#[trigger] lines[i])
}

/// The lines written one after another with a terminator between neighbours.
pub open spec fn join_lines(lines: Seq<Seq<char>>) -> Seq<char>
    decreases lines.len(),
{
    if lines.len() == 0 {
        Seq::empty()
    } else if lines.len() == 1 {
        lines[0]
    } else {
        join_lines(lines.drop_last()).push('\n') + lines.last()
    }
}

/// The lines of a text: one more than it has terminators.
pub open spec fn split_lines(text: Seq<char>) -> Seq<Seq<char>>
    decreases text.len(),
{
    if text.len() == 0 {
        seq![Seq::empty()]
    } else {
        let before = split_lines(text.drop_last());
        if text.last() == '\n' {
            before.push(Seq::empty())
        } else {
            before.drop_last().push(before.last().push(text.last()))
        }
    }
}

/// Splitting always gives at least one line, and none holds a terminator.
pub proof fn lemma_split_are_lines(text: Seq<char>)
    ensures
        are_lines(split_lines(text)),
    decreases text.len(),
{
    if text.len() > 0 {
        lemma_split_are_lines(text.drop_last());
    }
}

/// Joining what was split gives the text back.
pub proof fn lemma_join_split(text: Seq<char>)
    ensures
        join_lines(split_lines(text)) == text,
    decreases text.len(),
{
    if text.len() == 0 {
        assert(join_lines(split_lines(text)) =~= text);
    } else {
        let front = text.drop_last();
        let before = split_lines(front);
        lemma_join_split(front);
        lemma_split_are_lines(front);
        if text.last() == '\n' {
            let now = before.push(Seq::empty());
            assert(now.drop_last() =~= before);
            assert(join_lines(now) =~= join_lines(before).push('\n'));
            assert(front.push('\n') =~= text);
        } else {
            let now = before.drop_last().push(before.last().push(text.last()));
            if before.len() == 1 {
                assert(join_lines(now) =~= before[0].push(text.last()));
                assert(join_lines(before) == before[0]);
            } else {
                assert(now.drop_last() =~= before.drop_last());
                assert(join_lines(now) =~= join_lines(before).push(text.last()));
            }
            assert(front.push(text.last()) =~= text);
        }
    }
}

/// Appending a line to a text lengthens its last line and touches no other.
pub proof fn lemma_split_append_line(a: Seq<char>, b: Seq<char>)
    requires
        is_line(b),
    ensures
        split_lines(a + b) == split_lines(a).drop_last().push(split_lines(a).last() + b),
    decreases b.len(),
{
    lemma_split_are_lines(a);
    let sa = split_lines(a);
    if b.len() == 0 {
        assert(a + b =~= a);
        assert(sa.last() + b =~= sa.last());
        assert(sa.drop_last().push(sa.last()) =~= sa);
    } else {
        let bf = b.drop_last();
        lemma_split_append_line(a, bf);
        assert((a + b).drop_last() =~= a + bf);
        assert((a + b).last() == b.last());
        let before = split_lines(a + bf);
        assert(before.drop_last() =~= sa.drop_last());
        assert(before.last().push(b.last()) =~= sa.last() + b);
    }
}

/// Splitting what was joined gives the lines back.
pub proof fn lemma_split_join(lines: Seq<Seq<char>>)
    requires
        are_lines(lines),
    ensures
        split_lines(join_lines(lines)) == lines,
    decreases lines.len(),
{
    let none = Seq::<char>::empty();
    if lines.len() == 1 {
        lemma_split_append_line(none, lines[0]);
        assert(none + lines[0] =~= lines[0]);
        assert(split_lines(none) =~= seq![none]);
        assert(split_lines(none).drop_last().push(none + lines[0]) =~= lines);
    } else {
        let front = lines.drop_last();
        lemma_split_join(front);
        let x = join_lines(front);
        let xn = x.push('\n');
        assert(xn.drop_last() =~= x);
        assert(split_lines(xn) == front.push(none));
        lemma_split_append_line(xn, lines.last());
        assert(front.push(none).drop_last() =~= front);
        assert(none + lines.last() =~= lines.last());
        assert(front.push(lines.last()) =~= lines);
    }
}

/// How the lines of a file are terminated.
#[derive(Clone, Copy, Debug, PartialEq, Eq, Structural)]
pub enum LineEnding {
    /// A line feed alone.
    Lf,
    /// A carriage return before each line feed.
    CrLf,
}

/// The line ends with a carriage return.
pub open spec fn ends_with_cr(line: Seq<char>) -> bool {
    line.len() > 0 && line.last() == '\r'
}

/// There are terminators, and a carriage return stands before each.
pub open spec fn is_crlf(lines: Seq<Seq<char>>) -> bool {
    lines.len() >= 2 && forall|i: int| 0 <= i < lines.len() - 1 ==> ends_with_cr(#[trigger] lines[i])
}

/// The lines without the last character of each but the last.
pub open spec fn strip_cr(lines: Seq<Seq<char>>) -> Seq<Seq<char>> {
    Seq::new(
        lines.len(),
        |i: int|
            if i < lines.len() - 1 {
                lines[i].drop_last()
            } else {
                lines[i]
            },
    )
}

/// The lines with a carriage return behind each but the last.
pub open spec fn add_cr(lines: Seq<Seq<char>>) -> Seq<Seq<char>> {
    Seq::new(
        lines.len(),
        |i: int|
            if i < lines.len() - 1 {
                lines[i].push('\r')
            } else {
                lines[i]
            },
    )
}

/// The terminator style of a text.
pub open spec fn spec_ending(text: Seq<char>) -> LineEnding {
    if is_crlf(split_lines(text)) {
        LineEnding::CrLf
    } else {
        LineEnding::Lf
    }
}

/// The rows of a loaded text: its lines, without the carriage returns that
/// belong to the terminators.
pub open spec fn spec_load(text: Seq<char>) -> Seq<Seq<char>> {
    if is_crlf(split_lines(text)) {
        strip_cr(split_lines(text))
    } else {
        split_lines(text)
    }
}

/// The text that saving rows in a terminator style writes.
pub open spec fn spec_save(rows: Seq<Seq<char>>, ending: LineEnding) -> Seq<char> {
    match ending {
        LineEnding::Lf => join_lines(rows),
        LineEnding::CrLf => join_lines(add_cr(rows)),
    }
}

/// Loading a text and saving it unchanged writes the same text, terminators
/// and a missing or present last terminator included.
pub proof fn lemma_load_save_round_trip(text: Seq<char>)
    ensures
        spec_save(spec_load(text), spec_ending(text)) == text,
        are_lines(spec_load(text)),
{
    let lines = split_lines(text);
    lemma_join_split(text);
    lemma_split_are_lines(text);
    if is_crlf(lines) {
        assert forall|i: int| 0 <= i < lines.len() implies add_cr(strip_cr(lines))[i] == lines[i] by {
            if i < lines.len() - 1 {
                assert(ends_with_cr(lines[i]));
                assert(lines[i].drop_last().push('\r') =~= lines[i]);
            }
        }
        assert(add_cr(strip_cr(lines)) =~= lines);
        assert forall|i: int| 0 <= i < lines.len() implies is_line(#[trigger] strip_cr(lines)[i]) by {
            assert(is_line(lines[i]));
        }
    }
}

/// A character more at the end of the last line is a character more at the
/// end of the joined text.
pub proof fn lemma_join_push_last(lines: Seq<Seq<char>>, c: char)
    requires
        lines.len() >= 1,
    ensures
        join_lines(lines.update(lines.len() - 1, lines.last().push(c))) == join_lines(lines).push(c),
{
    let longer = lines.update(lines.len() - 1, lines.last().push(c));
    if lines.len() == 1 {
        assert(join_lines(longer) == longer[0]);
    } else {
        assert(longer.drop_last() =~= lines.drop_last());
        assert(join_lines(longer) =~= join_lines(lines).push(c));
    }
}

} // verus!
