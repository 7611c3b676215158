//! Positions in the source text.
//!
//! The scanner counts the characters it has read. Line and column are
//! functions of that count and of the text, stated here once and for all.

use vstd::prelude::*;

verus! {

/// A line and a column. Lines count from one. The column is the number of
/// characters read on the line so far, so the first character of a line has
/// column one and a line break itself has column zero.
#[derive(Debug, Clone, Copy, PartialEq, Eq, Structural)]
pub struct SourceSpan {
    pub line: usize,
    pub column: usize,
}

/// The line the scanner is on after `position` reads: one more than the
/// number of line breaks among the characters read. Reads past the end of the
/// text change nothing.
pub open spec fn line_at(source: Seq<char>, position: nat) -> nat
    decreases position,
{
    if position == 0 {
        1
    } else if position <= source.len() && source[position - 1] == '\n' {
        line_at(source, (position - 1) as nat) + 1
    } else {
        line_at(source, (position - 1) as nat)
    }
}

/// The column the scanner is at after `position` reads: the number of
/// characters read since the last line break. Reads past the end of the text
/// change nothing.
pub open spec fn column_at(source: Seq<char>, position: nat) -> nat
    decreases position,
{
    if position == 0 {
        0
    } else if position > source.len() {
        column_at(source, (position - 1) as nat)
    } else if source[position - 1] == '\n' {
        0
    } else {
        column_at(source, (position - 1) as nat) + 1
    }
}

/// Line and column after `position` reads, as the scanner reports them.
pub open spec fn span_at(source: Seq<char>, position: nat) -> SourceSpan {
    SourceSpan {
        line: line_at(source, position) as usize,
        column: column_at(source, position) as usize,
    }
}

/// Line and column never exceed what has been read.
pub proof fn lemma_span_bounds(source: Seq<char>, position: nat)
    ensures
        1 <= line_at(source, position) <= position + 1,
        line_at(source, position) <= source.len() + 1,
        column_at(source, position) <= position,
        column_at(source, position) <= source.len(),
    decreases position,
{
    if position > 0 {
        lemma_span_bounds(source, (position - 1) as nat);
    }
}

/// Reading past the end of the text leaves line and column where they were
/// when the last character had been read.
pub proof fn lemma_span_past_end(source: Seq<char>, position: nat)
    requires
        position >= source.len(),
    ensures
        line_at(source, position) == line_at(source, source.len()),
        column_at(source, position) == column_at(source, source.len()),
        span_at(source, position) == span_at(source, source.len()),
    decreases position,
{
    if position > source.len() {
        lemma_span_past_end(source, (position - 1) as nat);
    }
}

/// A line break starts a new line at column zero; any other character stays
/// on the line and moves one column on.
pub proof fn lemma_span_after_read(source: Seq<char>, position: nat)
    requires
        position < source.len(),
    ensures
        source[position as int] == '\n' ==> line_at(source, position + 1) == line_at(
            source,
            position,
        ) + 1 && column_at(source, position + 1) == 0,
        source[position as int] != '\n' ==> line_at(source, position + 1) == line_at(
            source,
            position,
        ) && column_at(source, position + 1) == column_at(source, position) + 1,
{
}

} // verus!
