use vstd::prelude::*;

verus! {

/// A position in a buffer: a zero-based row and a column within that row.
#[derive(Clone, Copy, Debug, PartialEq, Eq, Structural)]
pub struct Point {
    pub row: u32,
    pub column: u32,
}

/// The resolved start and end of a selection.
#[derive(Clone, Copy, Debug, PartialEq, Eq, Structural)]
pub struct SelectionRange {
    pub start: Point,
    pub end: Point,
}

/// The range a comment addresses: an empty selection stands for the whole line
/// under the cursor, which is `start_line_len` characters long, and any other
/// selection for itself.
pub open spec fn expanded_range(range: SelectionRange, start_line_len: u32) -> SelectionRange {
    if range.start == range.end {
        SelectionRange {
            start: Point { row: range.start.row, column: 0 },
            end: Point { row: range.start.row, column: start_line_len },
        }
    } else {
        range
    }
}

/// Expands an empty selection to the full line under the cursor, the same
/// convention that queueing a selection into a thread uses; `start_line_len`
/// is the length of the line where `range` starts.
pub fn expand_empty_selection_comment_range(
    range: SelectionRange,
    start_line_len: u32,
) -> (expanded: SelectionRange)
    ensures
        expanded == expanded_range(range, start_line_len),
{
    if range.start == range.end {
        let row = range.start.row;
        SelectionRange {
            start: Point { row, column: 0 },
            end: Point { row, column: start_line_len },
        }
    } else {
        range
    }
}

/// A selection endpoint resolved to a buffer and an offset in it.
#[derive(Clone, Copy, Debug, PartialEq, Eq, Structural)]
pub struct BufferPosition {
    pub buffer_id: u64,
    pub offset: usize,
}

/// A quotable range of one buffer, from `start` to `end`.
#[derive(Clone, Copy, Debug, PartialEq, Eq, Structural)]
pub struct QueuedRange {
    pub buffer_id: u64,
    pub start: usize,
    pub end: usize,
}

/// The quotable range between two resolved endpoints: none when either endpoint
/// does not resolve, when they lie in different buffers, or when they coincide.
pub open spec fn queued_range(
    start: Option<BufferPosition>,
    end: Option<BufferPosition>,
) -> Option<QueuedRange> {
    match (start, end) {
        (Some(s), Some(e)) => if s.buffer_id == e.buffer_id && s.offset != e.offset {
            Some(QueuedRange { buffer_id: s.buffer_id, start: s.offset, end: e.offset })
        } else {
            None
        },
        _ => None,
    }
}

} // verus!
