//! Lines of a text: what they are, and how a scan finds the next one.

use vstd::prelude::*;

verus! {

/// The number of characters of `text` that stand before its first line feed,
/// or the length of `text` where it holds no line feed.
pub open spec fn line_length(text: Seq<char>) -> nat
    decreases text.len(),
{
    if text.len() == 0 || text[0] == '\n' {
        0
    } else {
        1 + line_length(text.drop_first())
    }
}

/// `line` without the carriage return at its end, if it ends in one.
pub open spec fn without_cr(line: Seq<char>) -> Seq<char> {
    if line.len() > 0 && line.last() == '\r' {
        line.drop_last()
    } else {
        line
    }
}

/// The lines of `text`, in order.
///
/// A line ends at a line feed; a carriage return directly before that line
/// feed belongs to the line ending too. Neither is part of the line. What
/// follows the last line feed is a line of its own unless it is empty, so a
/// text that ends in a line feed has no empty line after it, and the empty
/// text has no lines. A carriage return that no line feed follows stays in
/// its line.
pub open spec fn lines(text: Seq<char>) -> Seq<Seq<char>>
    decreases text.len(),
{
    if text.len() == 0 {
        Seq::empty()
    } else {
        let end = line_length(text);
        if end < text.len() {
            seq![without_cr(text.take(end as int))] + lines(text.skip(end as int + 1))
        } else {
            seq![text]
        }
    }
}

/// Where no line feed stands before `end`, and `end` is the end of the text
/// or holds a line feed, the first line of the text has `end` characters.
proof fn lemma_line_length(text: Seq<char>, end: int)
    requires
        0 <= end <= text.len(),
        forall|k: int| 0 <= k < end ==> text[k] != '\n',
        end == text.len() || text[end] == '\n',
    ensures
        line_length(text) == end,
    decreases end,
{
    if end > 0 {
        lemma_line_length(text.drop_first(), end - 1);
    }
}

/// The first line of a text ends within the text, at a line feed if it ends
/// before the end of the text, and holds no line feed.
proof fn lemma_line_length_bounds(text: Seq<char>)
    ensures
        line_length(text) <= text.len(),
        line_length(text) < text.len() ==> text[line_length(text) as int] == '\n',
        forall|k: int| 0 <= k < line_length(text) ==> text[k] != '\n',
    decreases text.len(),
{
    if !(text.len() == 0 || text[0] == '\n') {
        let rest = text.drop_first();
        lemma_line_length_bounds(rest);
        assert forall|k: int| 0 <= k < line_length(text) implies text[k] != '\n' by {
            if k > 0 {
                assert(text[k] == rest[k - 1]);
            }
        }
    }
}

/// No line holds a line feed.
pub proof fn lemma_line_has_no_line_feed(text: Seq<char>, k: int, j: int)
    requires
        0 <= k < lines(text).len(),
        0 <= j < lines(text)[k].len(),
    ensures
        lines(text)[k][j] != '\n',
    decreases text.len(),
{
    lemma_line_length_bounds(text);
    let end = line_length(text);
    if end < text.len() && k > 0 {
        lemma_line_has_no_line_feed(text.skip(end as int + 1), k - 1, j);
    }
}

/// Cuts the first line off the part of `text` that starts at `start`.
/// Returns where that line stops and where the part after its line ending
/// starts: the line is `text[start..stop]`, the rest `text[next..]`.
pub(crate) fn first_line(text: &[char], start: usize) -> (cut: (usize, usize))
    requires
        start < text.len(),
    ensures
        start <= cut.0 <= cut.1 <= text.len(),
        start < cut.1,
        lines(text@.skip(start as int)) == seq![text@.subrange(start as int, cut.0 as int)]
            + lines(text@.skip(cut.1 as int)),
{
    let mut end: usize = start;
    while end < text.len() && text[end] != '\n'
        invariant
            start <= end <= text.len(),
            forall|k: int| start <= k < end ==> text@[k] != '\n',
        decreases text.len() - end,
    {
        end += 1;
    }
    let ghost part = text@.skip(start as int);
    proof {
        lemma_line_length(part, end - start);
    }
    if end < text.len() {
        let stop: usize = if end > start && text[end - 1] == '\r' {
            end - 1
        } else {
            end
        };
        proof {
            assert(without_cr(part.take(end - start)) =~= text@.subrange(start as int, stop as int));
            assert(part.skip(end - start + 1) =~= text@.skip(end + 1));
        }
        (stop, end + 1)
    } else {
        (end, end)
    }
}

} // verus!
