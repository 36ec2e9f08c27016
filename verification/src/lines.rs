//! Text read line by line.

use crate::bytes::push_all;
use vstd::prelude::*;

verus! {

/// Where the line that begins at `start` ends: at its line feed, or at the end
/// of the text.
pub open spec fn line_end(text: Seq<u8>, start: int) -> int
    decreases text.len() - start,
{
    if start >= text.len() || text[start] == 10u8 {
        start
    } else {
        line_end(text, start + 1)
    }
}

/// A line without the carriage return before its line feed.
pub open spec fn trimmed_line(text: Seq<u8>, start: int) -> Seq<u8> {
    let end = line_end(text, start);
    if end < text.len() && start < end && text[end - 1] == 13u8 {
        text.subrange(start, end - 1)
    } else {
        text.subrange(start, end)
    }
}

/// The lines from `start` on. A line feed ends a line and begins none.
pub open spec fn lines_from(text: Seq<u8>, start: int) -> Seq<Seq<u8>>
    decreases text.len() + 1 - start,
    when 0 <= start via lines_from_ends
{
    if start >= text.len() {
        Seq::empty()
    } else {
        seq![trimmed_line(text, start)] + lines_from(text, line_end(text, start) + 1)
    }
}

#[via_fn]
proof fn lines_from_ends(text: Seq<u8>, start: int) {
    lemma_line_end(text, start);
}

/// All lines of a text.
pub open spec fn lines_of(text: Seq<u8>) -> Seq<Seq<u8>> {
    lines_from(text, 0)
}

pub proof fn lemma_line_end(text: Seq<u8>, start: int)
    requires
        0 <= start,
    ensures
        start <= line_end(text, start),
        start <= text.len() ==> line_end(text, start) <= text.len(),
        line_end(text, start) < text.len() ==> text[line_end(text, start)] == 10u8,
    decreases text.len() - start,
{
    if start < text.len() && text[start] != 10u8 {
        lemma_line_end(text, start + 1);
    }
}

fn find_line_end(text: &[u8], start: usize) -> (end: usize)
    requires
        start <= text@.len(),
    ensures
        end == line_end(text@, start as int),
        start <= end <= text@.len(),
{
    let mut i: usize = start;
    while i < text.len() && text[i] != 10u8
        invariant
            start <= i <= text@.len(),
            line_end(text@, i as int) == line_end(text@, start as int),
        decreases text@.len() - i,
    {
        i += 1;
    }
    i
}

/// The lines as the texts they are.
pub open spec fn line_views(lines: Seq<Vec<u8>>) -> Seq<Seq<u8>> {
    Seq::new(lines.len(), |i: int| lines[i]@)
}

pub fn split_lines(text: &[u8]) -> (lines: Vec<Vec<u8>>)
    ensures
        line_views(lines@) == lines_of(text@),
{
    let mut lines: Vec<Vec<u8>> = Vec::new();
    let mut start: usize = 0;
    assert(line_views(lines@) + lines_from(text@, 0) =~= lines_of(text@));
    while start < text.len()
        invariant
            start <= text@.len(),
            line_views(lines@) + lines_from(text@, start as int) == lines_of(text@),
        decreases text@.len() - start,
    {
        let end: usize = find_line_end(text, start);
        let mut stop: usize = end;
        if end < text.len() && start < end && text[end - 1] == 13u8 {
            stop = end - 1;
        }
        let mut line: Vec<u8> = Vec::new();
        push_all(&mut line, vstd::slice::slice_subrange(text, start, stop));
        let ghost before = lines@;
        assert(line@ =~= trimmed_line(text@, start as int));
        lines.push(line);
        let ghost next = line_end(text@, start as int) + 1;
        assert(line_views(lines@) =~= line_views(before) + seq![trimmed_line(text@, start as int)]);
        assert(line_views(lines@) + lines_from(text@, next) =~= line_views(before) + (seq![
            trimmed_line(text@, start as int),
        ] + lines_from(text@, next)));
        if end < text.len() {
            start = end + 1;
        } else {
            assert(lines_from(text@, next) =~= lines_from(text@, end as int));
            start = end;
        }
    }
    assert(lines_from(text@, start as int) =~= Seq::<Seq<u8>>::empty());
    assert(line_views(lines@) =~= lines_of(text@));
    lines
}

proof fn lemma_line_end_at(text: Seq<u8>, start: int, end: int)
    requires
        0 <= start <= end < text.len(),
        forall|i: int| start <= i < end ==> #[trigger] text[i] != 10u8,
        text[end] == 10u8,
    ensures
        line_end(text, start) == end,
    decreases end - start,
{
    if start < end {
        assert(text[start] != 10u8);
        lemma_line_end_at(text, start + 1, end);
    }
}

proof fn lemma_line_end_within(text: Seq<u8>, longer: Seq<u8>, start: int)
    requires
        0 <= start <= text.len() <= longer.len(),
        forall|i: int| 0 <= i < text.len() ==> text[i] == longer[i],
        line_end(text, start) < text.len(),
    ensures
        line_end(longer, start) == line_end(text, start),
    decreases text.len() - start,
{
    if start < text.len() && text[start] != 10u8 {
        lemma_line_end_within(text, longer, start + 1);
    }
}

proof fn lemma_lines_from_append(text: Seq<u8>, line: Seq<u8>, start: int)
    requires
        0 <= start <= text.len(),
        text.len() > 0 ==> text.last() == 10u8,
        forall|i: int| 0 <= i < line.len() ==> #[trigger] line[i] != 10u8,
        line.len() > 0 ==> line.last() != 13u8,
    ensures
        lines_from(text + line + seq![10u8], start) == lines_from(text, start).push(line),
    decreases text.len() - start,
{
    let longer = text + line + seq![10u8];
    if start == text.len() {
        let end = start + line.len();
        assert forall|i: int| start <= i < end implies #[trigger] longer[i] != 10u8 by {
            assert(longer[i] == line[i - start]);
        }
        lemma_line_end_at(longer, start, end);
        assert(longer.subrange(start, end) =~= line);
        if start < end {
            assert(longer[end - 1] == line.last());
        }
        assert(trimmed_line(longer, start) == line);
        assert(lines_from(longer, end + 1) =~= Seq::<Seq<u8>>::empty());
        assert(lines_from(longer, start) =~= seq![line]);
        assert(lines_from(text, start).push(line) =~= seq![line]);
    } else {
        lemma_line_end(text, start);
        let end = line_end(text, start);
        assert(end < text.len()) by {
            if end == text.len() {
                lemma_no_end(text, start);
            }
        }
        lemma_line_end_within(text, longer, start);
        assert(trimmed_line(longer, start) =~= trimmed_line(text, start));
        lemma_lines_from_append(text, line, end + 1);
        assert(lines_from(longer, start) =~= lines_from(text, start).push(line));
    }
}

proof fn lemma_no_end(text: Seq<u8>, start: int)
    requires
        0 <= start < text.len(),
        line_end(text, start) == text.len(),
    ensures
        text.last() != 10u8,
    decreases text.len() - start,
{
    if start + 1 < text.len() {
        lemma_no_end(text, start + 1);
    }
}

/// A line behind complete lines is one more line.
pub proof fn lemma_lines_append(text: Seq<u8>, line: Seq<u8>)
    requires
        text.len() > 0 ==> text.last() == 10u8,
        forall|i: int| 0 <= i < line.len() ==> #[trigger] line[i] != 10u8,
        line.len() > 0 ==> line.last() != 13u8,
    ensures
        lines_of(text + line + seq![10u8]) == lines_of(text).push(line),
{
    lemma_lines_from_append(text, line, 0);
}

} // verus!
