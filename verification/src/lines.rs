//! The line of source text around a byte position.

use std::ops::Range;
use vstd::prelude::*;

verus! {

/// The byte that ends a line.
pub const NEWLINE: u8 = 10;

/// Whether no byte of `source` from `from` up to, not including, `to` ends a line.
pub open spec fn no_newline_between(source: Seq<u8>, from: int, to: int) -> bool {
    forall|i: int| from <= i < to ==> #[trigger] source[i] != NEWLINE
}

/// Whether `start..end` is the line of `source` that holds position `pos`:
/// it reaches back to just after the previous newline, or to the start of the
/// source, and forward to the next newline, or to the end of the source, and
/// holds no newline itself.
pub open spec fn is_line_around(source: Seq<u8>, pos: int, start: int, end: int) -> bool {
    &&& 0 <= start <= pos <= end <= source.len()
    &&& no_newline_between(source, start, end)
    &&& (start == 0 || source[start - 1] == NEWLINE)
    &&& (end == source.len() || source[end] == NEWLINE)
}

/// Where the line that holds position `pos` starts.
pub open spec fn line_start(source: Seq<u8>, pos: int) -> int
    decreases pos,
{
    if pos <= 0 {
        0
    } else if source[pos - 1] == NEWLINE {
        pos
    } else {
        line_start(source, pos - 1)
    }
}

/// Where the line that holds position `pos` ends: at its newline, or at the
/// end of the source.
pub open spec fn line_end(source: Seq<u8>, pos: int) -> int
    decreases source.len() - pos,
{
    if pos >= source.len() {
        source.len() as int
    } else if source[pos] == NEWLINE {
        pos
    } else {
        line_end(source, pos + 1)
    }
}

/// `line_start` and `line_end` give the line around a position.
pub proof fn lemma_line_bounds(source: Seq<u8>, pos: int)
    requires
        0 <= pos <= source.len(),
    ensures
        is_line_around(source, pos, line_start(source, pos), line_end(source, pos)),
{
    lemma_line_start(source, pos);
    lemma_line_end(source, pos);
}

proof fn lemma_line_start(source: Seq<u8>, pos: int)
    requires
        0 <= pos <= source.len(),
    ensures
        0 <= line_start(source, pos) <= pos,
        no_newline_between(source, line_start(source, pos), pos),
        line_start(source, pos) == 0 || source[line_start(source, pos) - 1] == NEWLINE,
    decreases pos,
{
    if pos > 0 && source[pos - 1] != NEWLINE {
        lemma_line_start(source, pos - 1);
    }
}

proof fn lemma_line_end(source: Seq<u8>, pos: int)
    requires
        0 <= pos <= source.len(),
    ensures
        pos <= line_end(source, pos) <= source.len(),
        no_newline_between(source, pos, line_end(source, pos)),
        line_end(source, pos) == source.len() || source[line_end(source, pos)] == NEWLINE,
    decreases source.len() - pos,
{
    if pos < source.len() && source[pos] != NEWLINE {
        lemma_line_end(source, pos + 1);
    }
}

/// A position has one line around it.
pub proof fn lemma_line_is_unique(source: Seq<u8>, pos: int, start: int, end: int)
    requires
        is_line_around(source, pos, start, end),
    ensures
        start == line_start(source, pos),
        end == line_end(source, pos),
{
    lemma_line_bounds(source, pos);
    let s = line_start(source, pos);
    let e = line_end(source, pos);
    if start < s {
        assert(source[s - 1] != NEWLINE);
    }
    if s < start {
        assert(source[start - 1] != NEWLINE);
    }
    if end < e {
        assert(source[end] != NEWLINE);
    }
    if e < end {
        assert(source[e] != NEWLINE);
    }
}

/// The line of `source` that holds byte position `pos`, without the newline
/// that ends it.
pub fn line_range(source: &[u8], pos: usize) -> (line: Range<usize>)
    requires
        pos <= source@.len(),
    ensures
        line.start == line_start(source@, pos as int),
        line.end == line_end(source@, pos as int),
        is_line_around(source@, pos as int, line.start as int, line.end as int),
{
    let mut start: usize = pos;
    while start > 0 && source[start - 1] != NEWLINE
        invariant
            start <= pos <= source@.len(),
            line_start(source@, pos as int) == line_start(source@, start as int),
        decreases start,
    {
        start = start - 1;
    }
    let mut end: usize = pos;
    while end < source.len() && source[end] != NEWLINE
        invariant
            pos <= end <= source@.len(),
            line_end(source@, pos as int) == line_end(source@, end as int),
        decreases source@.len() - end,
    {
        end = end + 1;
    }
    proof {
        lemma_line_bounds(source@, pos as int);
    }
    start..end
}

} // verus!
