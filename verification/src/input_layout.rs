use crate::input_rows::{
    active_input_end_column, input_end_spec, input_start_column, input_start_spec, rows_valid,
    InputRows,
};
use crate::mouse::MouseGridPosition;
use crate::terminal_grid::{
    cells_before, char_offset, character_offset, chars_before, lemma_cells_before_monotone,
    lemma_char_offset_monotone, lemma_significant_len, line, line_significant_len, meta,
    metadata_at, row_count, significant_len, uses_visual_character_offsets, visual_offsets,
    TerminalContent,
};
use vstd::prelude::*;

verus! {

/// The cursor row, when the cursor row is not negative.
pub open spec fn cursor_row_of(c: TerminalContent) -> Option<int> {
    if c.cursor_line >= 0 {
        Some(c.cursor_line as int)
    } else {
        None
    }
}

/// The cursor column, when it is not negative.
pub open spec fn cursor_col_of(c: TerminalContent) -> Option<int> {
    if c.cursor_col >= 0 {
        Some(c.cursor_col as int)
    } else {
        None
    }
}

pub fn cursor_row_usize(content: &TerminalContent) -> (r: Option<usize>)
    ensures
        match r {
            Some(v) => cursor_row_of(*content) == Some(v as int),
            None => cursor_row_of(*content) is None,
        },
{
    if content.cursor_line >= 0 {
        Some(content.cursor_line as usize)
    } else {
        None
    }
}

pub fn cursor_col_usize(content: &TerminalContent) -> (r: Option<usize>)
    ensures
        match r {
            Some(v) => cursor_col_of(*content) == Some(v as int),
            None => cursor_col_of(*content) is None,
        },
{
    if content.cursor_col >= 0 {
        Some(content.cursor_col as usize)
    } else {
        None
    }
}

/// The width a row takes in the input: all of a soft-wrapped row; else its
/// significant cells, or up to the cursor (capped at the row length) when the
/// cursor sits on this row past them.
pub open spec fn line_width(c: TerminalContent, row: int) -> int {
    let l = line(c, row);
    if meta(c, row).wrapped {
        l.len() as int
    } else {
        let significant = significant_len(l) as int;
        let col = c.cursor_col as int;
        if c.cursor_line >= 0 && c.cursor_line as int == row && col >= 0 && col > significant {
            if col < l.len() {
                col
            } else {
                l.len() as int
            }
        } else {
            significant
        }
    }
}

pub proof fn lemma_line_width(c: TerminalContent, row: int)
    ensures
        0 <= line_width(c, row) <= line(c, row).len(),
{
    lemma_significant_len(line(c, row));
}

/// One column between two input rows that the terminal did not soft-wrap
/// (a hard newline in the input), none otherwise and after the last row.
pub open spec fn separator(c: TerminalContent, row: int, end_row: int) -> int {
    if row >= end_row {
        0
    } else if meta(c, row).wrapped || meta(c, row + 1).wrap_continuation {
        0
    } else {
        1
    }
}

/// The absolute input column where `row` begins: the widths and separators of
/// the input rows above it.
pub open spec fn span(c: TerminalContent, rows: InputRows, row: int) -> int
    decreases row - rows.start,
{
    if row <= rows.start {
        0
    } else {
        span(c, rows, row - 1) + line_width(c, row - 1) + separator(c, row - 1, rows.end as int)
    }
}

/// The position of a cell in the input counted across rows, with the column
/// capped at the row's width; none outside the input rows.
pub open spec fn absolute_spec(c: TerminalContent, rows: InputRows, row: int, column: int) -> Option<
    int,
> {
    if rows.has(row) {
        let width = line_width(c, row);
        Some(
            span(c, rows, row) + if column < width {
                column
            } else {
                width
            },
        )
    } else {
        None
    }
}

pub proof fn lemma_span_bound(c: TerminalContent, rows: InputRows, row: int)
    requires
        rows.start <= row,
    ensures
        0 <= span(c, rows, row) <= cells_before(c, row) - cells_before(c, rows.start as int),
    decreases row - rows.start,
{
    if row > rows.start {
        lemma_span_bound(c, rows, row - 1);
        lemma_line_width(c, row - 1);
    }
}

pub proof fn lemma_span_monotone(c: TerminalContent, rows: InputRows, a: int, b: int)
    requires
        rows.start <= a <= b,
    ensures
        span(c, rows, a) + (if a < b {
            line_width(c, a)
        } else {
            0
        }) <= span(c, rows, b),
    decreases b - a,
{
    if a < b {
        lemma_span_monotone(c, rows, a, b - 1);
        lemma_line_width(c, b - 1);
        lemma_line_width(c, a);
        if a < b - 1 {
            assert(span(c, rows, a) + line_width(c, a) <= span(c, rows, b - 1));
        }
    }
}

/// Everything an absolute column can reach stays below the cell count of the
/// snapshot.
pub proof fn lemma_absolute_bound(c: TerminalContent, rows: InputRows, row: int, column: int)
    requires
        rows_valid(c, rows),
        c.fits(),
        rows.has(row),
        0 <= column,
    ensures
        absolute_spec(c, rows, row, column) matches Some(a) && 0 <= a && a + 1 < usize::MAX && a
            <= cells_before(c, row_count(c)),
{
    lemma_span_bound(c, rows, row);
    lemma_line_width(c, row);
    lemma_cells_before_monotone(c, 0, rows.start as int);
    lemma_cells_before_monotone(c, row + 1, row_count(c));
}

pub fn input_line_len(content: &TerminalContent, row: usize) -> (r: usize)
    requires
        row < row_count(*content),
    ensures
        r == line_width(*content, row as int),
{
    let l = content.lines[row].as_slice();
    if metadata_at(content, row).wrapped {
        l.len()
    } else {
        let significant = line_significant_len(l);
        let cursor_row = cursor_row_usize(content);
        let cursor_col = cursor_col_usize(content);
        match (cursor_row, cursor_col) {
            (Some(cr), Some(cc)) => {
                if cr == row && cc > significant {
                    if cc < l.len() {
                        cc
                    } else {
                        l.len()
                    }
                } else {
                    significant
                }
            },
            _ => significant,
        }
    }
}

pub fn input_row_separator_width(content: &TerminalContent, row: usize, end_row: usize) -> (r: usize)
    requires
        end_row < row_count(*content),
    ensures
        r == separator(*content, row as int, end_row as int),
{
    if row >= end_row {
        return 0;
    }
    let current = metadata_at(content, row);
    let next = metadata_at(content, row + 1);
    if current.wrapped || next.wrap_continuation {
        0
    } else {
        1
    }
}

/// The absolute input column of a cell; none outside the input rows.
pub fn input_absolute_column(content: &TerminalContent, rows: InputRows, row: usize, column: usize) -> (r:
    Option<usize>)
    requires
        rows_valid(*content, rows),
        content.fits(),
    ensures
        match r {
            Some(a) => absolute_spec(*content, rows, row as int, column as int) == Some(a as int),
            None => absolute_spec(*content, rows, row as int, column as int) is None,
        },
        r matches Some(a) ==> a <= cells_before(*content, row_count(*content)),
{
    if row < rows.start || row > rows.end {
        return None;
    }
    proof {
        lemma_absolute_bound(*content, rows, row as int, column as int);
        lemma_span_bound(*content, rows, row as int);
        lemma_cells_before_monotone(*content, 0, rows.start as int);
        lemma_cells_before_monotone(*content, row as int, row_count(*content));
    }
    let mut absolute: usize = 0;
    let mut line_row = rows.start;
    while line_row < row
        invariant
            rows_valid(*content, rows),
            content.fits(),
            rows.start <= line_row <= row <= rows.end,
            absolute == span(*content, rows, line_row as int),
            span(*content, rows, row as int) < usize::MAX,
        decreases row - line_row,
    {
        let width = input_line_len(content, line_row);
        let sep = input_row_separator_width(content, line_row, rows.end);
        proof {
            lemma_span_monotone(*content, rows, line_row + 1, row as int);
        }
        absolute = absolute + width + sep;
        line_row = line_row + 1;
    }
    let width = input_line_len(content, row);
    let capped = if column < width {
        column
    } else {
        width
    };
    Some(absolute + capped)
}

/// The characters a shell counts for one input row up to `end_column`: from
/// the input start (on the first row) or the row start.
pub open spec fn char_piece(c: TerminalContent, rows: InputRows, row: int, end_column: int) -> int {
    let l = line(c, row);
    let start_column = if row == rows.start {
        input_start_spec(l)
    } else {
        0
    };
    let lower = if start_column < end_column {
        start_column
    } else {
        end_column
    };
    char_offset(l, end_column) - char_offset(l, lower)
}

/// The character offset where `row` begins in the shell's edit buffer.
pub open spec fn char_span(c: TerminalContent, rows: InputRows, row: int) -> int
    decreases row - rows.start,
{
    if row <= rows.start {
        0
    } else {
        char_span(c, rows, row - 1) + char_piece(c, rows, row - 1, line_width(c, row - 1))
            + separator(c, row - 1, rows.end as int)
    }
}

/// The shell's edit-buffer offset of a cell, counted in characters; none
/// outside the input rows.
pub open spec fn buffer_offset_spec(c: TerminalContent, rows: InputRows, row: int, column: int) -> Option<
    int,
> {
    if rows.has(row) {
        let width = line_width(c, row);
        Some(
            char_span(c, rows, row) + char_piece(
                c,
                rows,
                row,
                if column < width {
                    column
                } else {
                    width
                },
            ),
        )
    } else {
        None
    }
}

proof fn lemma_char_piece(c: TerminalContent, rows: InputRows, row: int, end_column: int)
    requires
        0 <= end_column <= line(c, row).len(),
    ensures
        0 <= char_piece(c, rows, row, end_column) <= char_offset(line(c, row), line(c, row).len() as int),
{
    let l = line(c, row);
    let start_column = if row == rows.start {
        input_start_spec(l)
    } else {
        0
    };
    let lower = if start_column < end_column {
        start_column
    } else {
        end_column
    };
    lemma_char_offset_monotone(l, lower, end_column);
    lemma_char_offset_monotone(l, end_column, l.len() as int);
    lemma_char_offset_monotone(l, 0, lower);
}

proof fn lemma_char_span_bound(c: TerminalContent, rows: InputRows, row: int)
    requires
        rows_valid(c, rows),
        rows.start <= row <= rows.end + 1,
    ensures
        0 <= char_span(c, rows, row) <= chars_before(c, row) - chars_before(c, rows.start as int),
    decreases row - rows.start,
{
    if row > rows.start {
        lemma_char_span_bound(c, rows, row - 1);
        lemma_line_width(c, row - 1);
        lemma_char_piece(c, rows, row - 1, line_width(c, row - 1));
    }
}

fn input_char_piece(content: &TerminalContent, rows: InputRows, row: usize, end_column: usize) -> (r: usize)
    requires
        rows_valid(*content, rows),
        rows.has(row as int),
        end_column <= line(*content, row as int).len(),
        content.fits(),
    ensures
        r == char_piece(*content, rows, row as int, end_column as int),
{
    let l = content.lines[row].as_slice();
    let start_column = if row == rows.start {
        input_start_column(l)
    } else {
        0
    };
    let lower = if start_column < end_column {
        start_column
    } else {
        end_column
    };
    proof {
        lemma_char_piece(*content, rows, row as int, end_column as int);
        lemma_char_offset_monotone(l@, lower as int, end_column as int);
        lemma_char_offset_monotone(l@, end_column as int, l@.len() as int);
        lemma_cells_before_monotone(*content, row + 1, row_count(*content));
        lemma_cells_before_monotone(*content, 0, row as int);
    }
    let high = character_offset(l, end_column);
    let low = character_offset(l, lower);
    high - low
}

/// The shell's edit-buffer offset of a cell; none outside the input rows.
pub fn input_buffer_character_offset(
    content: &TerminalContent,
    rows: InputRows,
    row: usize,
    column: usize,
) -> (r: Option<usize>)
    requires
        rows_valid(*content, rows),
        content.fits(),
    ensures
        match r {
            Some(a) => buffer_offset_spec(*content, rows, row as int, column as int) == Some(a as int),
            None => buffer_offset_spec(*content, rows, row as int, column as int) is None,
        },
        r matches Some(a) ==> a <= chars_before(*content, row_count(*content)),
{
    if row < rows.start || row > rows.end {
        return None;
    }
    proof {
        lemma_char_span_bound(*content, rows, row + 1);
        lemma_cells_before_monotone(*content, 0, rows.start as int);
        lemma_cells_before_monotone(*content, row + 1, row_count(*content));
        lemma_line_width(*content, row as int);
    }
    let mut offset: usize = 0;
    let mut line_row = rows.start;
    while line_row < row
        invariant
            rows_valid(*content, rows),
            content.fits(),
            rows.start <= line_row <= row <= rows.end,
            offset == char_span(*content, rows, line_row as int),
            char_span(*content, rows, row + 1) < usize::MAX,
        decreases row - line_row,
    {
        let width = input_line_len(content, line_row);
        proof {
            lemma_line_width(*content, line_row as int);
            lemma_char_span_bound(*content, rows, line_row + 1);
            lemma_char_span_mono(*content, rows, line_row + 1, row + 1);
        }
        let piece = input_char_piece(content, rows, line_row, width);
        let sep = input_row_separator_width(content, line_row, rows.end);
        offset = offset + piece + sep;
        line_row = line_row + 1;
    }
    let width = input_line_len(content, row);
    let capped = if column < width {
        column
    } else {
        width
    };
    proof {
        lemma_char_piece(*content, rows, row as int, capped as int);
        lemma_char_piece(*content, rows, row as int, width as int);
        lemma_char_piece_mono(*content, rows, row as int, capped as int, width as int);
    }
    let piece = input_char_piece(content, rows, row, capped);
    Some(offset + piece)
}

proof fn lemma_char_span_mono(c: TerminalContent, rows: InputRows, a: int, b: int)
    requires
        rows_valid(c, rows),
        rows.start <= a <= b <= rows.end + 1,
    ensures
        char_span(c, rows, a) <= char_span(c, rows, b),
    decreases b - a,
{
    if a < b {
        lemma_char_span_mono(c, rows, a, b - 1);
        lemma_line_width(c, b - 1);
        lemma_char_piece(c, rows, b - 1, line_width(c, b - 1));
    }
}

proof fn lemma_char_piece_mono(c: TerminalContent, rows: InputRows, row: int, a: int, b: int)
    requires
        0 <= a <= b <= line(c, row).len(),
    ensures
        char_piece(c, rows, row, a) <= char_piece(c, rows, row, b),
{
    let l = line(c, row);
    let start_column = if row == rows.start {
        input_start_spec(l)
    } else {
        0
    };
    lemma_char_offset_monotone(l, a, b);
    lemma_char_offset_monotone(l, 0, start_column);
    lemma_char_offset_monotone(l, 0, a);
    lemma_char_offset_monotone(l, start_column, a);
    lemma_char_offset_monotone(l, start_column, b);
    lemma_char_offset_monotone(l, a, start_column);
    lemma_char_offset_monotone(l, b, start_column);
}

/// Whether every input row has one character per column.
pub open spec fn rows_visual(c: TerminalContent, rows: InputRows) -> bool {
    forall|r: int| rows.start <= r <= rows.end ==> visual_offsets(#[trigger] line(c, r))
}

pub fn input_uses_visual_character_offsets(content: &TerminalContent, rows: InputRows) -> (r: bool)
    requires
        rows_valid(*content, rows),
    ensures
        r == rows_visual(*content, rows),
{
    let n = content.lines.len();
    let mut row = rows.start;
    while row <= rows.end
        invariant
            rows_valid(*content, rows),
            n == row_count(*content),
            rows.start <= row <= rows.end + 1,
            forall|r: int| rows.start <= r < row ==> visual_offsets(#[trigger] line(*content, r)),
        decreases rows.end + 1 - row,
    {
        if !uses_visual_character_offsets(content.lines[row].as_slice()) {
            assert(!visual_offsets(line(*content, row as int)));
            return false;
        }
        row = row + 1;
    }
    true
}

/// The input range (absolute columns) from the input start on the first input
/// row to the end of the typed input on the last row.
pub open spec fn wrapped_bounds_spec(c: TerminalContent, rows: InputRows) -> Option<(int, int)> {
    let start_row = rows.start as int;
    let end_row = rows.end as int;
    let end_column = if cursor_row_of(c) == Some(end_row) {
        input_end_spec(line(c, end_row), cursor_col_of(c))
    } else {
        significant_len(line(c, end_row)) as int
    };
    match (
        absolute_spec(c, rows, start_row, input_start_spec(line(c, start_row))),
        absolute_spec(c, rows, end_row, end_column),
    ) {
        (Some(start), Some(end)) => if end >= start {
            Some((start, end))
        } else {
            None
        },
        _ => None,
    }
}

/// Like the input range, but ending at the last significant cell of the last
/// row, so that suggested text past the cursor can be clicked.
pub open spec fn cursor_bounds_spec(c: TerminalContent, rows: InputRows) -> Option<(int, int)> {
    let start_row = rows.start as int;
    let end_row = rows.end as int;
    match (
        absolute_spec(c, rows, start_row, input_start_spec(line(c, start_row))),
        absolute_spec(c, rows, end_row, significant_len(line(c, end_row)) as int),
    ) {
        (Some(start), Some(end)) => if end >= start {
            Some((start, end))
        } else {
            None
        },
        _ => None,
    }
}

pub fn wrapped_input_bounds(content: &TerminalContent, rows: InputRows) -> (r: Option<(usize, usize)>)
    requires
        rows_valid(*content, rows),
        content.fits(),
    ensures
        match r {
            Some((s, e)) => wrapped_bounds_spec(*content, rows) == Some((s as int, e as int)),
            None => wrapped_bounds_spec(*content, rows) is None,
        },
{
    let start_line = content.lines[rows.start].as_slice();
    let start = input_absolute_column(content, rows, rows.start, input_start_column(start_line));
    let end_line = content.lines[rows.end].as_slice();
    let end_column = match cursor_row_usize(content) {
        Some(cr) if cr == rows.end => active_input_end_column(end_line, cursor_col_usize(content)),
        _ => line_significant_len(end_line),
    };
    let end = input_absolute_column(content, rows, rows.end, end_column);
    match (start, end) {
        (Some(start), Some(end)) => if end >= start {
            Some((start, end))
        } else {
            None
        },
        _ => None,
    }
}

pub fn input_cursor_bounds(content: &TerminalContent, rows: InputRows) -> (r: Option<(usize, usize)>)
    requires
        rows_valid(*content, rows),
        content.fits(),
    ensures
        match r {
            Some((s, e)) => cursor_bounds_spec(*content, rows) == Some((s as int, e as int)),
            None => cursor_bounds_spec(*content, rows) is None,
        },
{
    let start_line = content.lines[rows.start].as_slice();
    let start = input_absolute_column(content, rows, rows.start, input_start_column(start_line));
    let end_line = content.lines[rows.end].as_slice();
    let end = input_absolute_column(content, rows, rows.end, line_significant_len(end_line));
    match (start, end) {
        (Some(start), Some(end)) => if end >= start {
            Some((start, end))
        } else {
            None
        },
        _ => None,
    }
}

/// A grid position from a row and column, each capped at the largest `u16`.
pub open spec fn grid_position(row: int, column: int) -> MouseGridPosition {
    MouseGridPosition {
        row: (if row < u16::MAX {
            row
        } else {
            u16::MAX as int
        }) as u16,
        column: (if column < u16::MAX {
            column
        } else {
            u16::MAX as int
        }) as u16,
    }
}

pub fn grid_position_of(row: usize, column: usize) -> (r: MouseGridPosition)
    ensures
        r == grid_position(row as int, column as int),
{
    MouseGridPosition {
        row: if row < 65535 {
            row as u16
        } else {
            65535
        },
        column: if column < 65535 {
            column as u16
        } else {
            65535
        },
    }
}

/// The cell of the input at an absolute column, searching rows from `row`:
/// the first row whose end reaches the column.
pub open spec fn position_from(c: TerminalContent, rows: InputRows, row: int, absolute: int) -> Option<
    (int, int),
>
    decreases rows.end + 1 - row,
{
    if row > rows.end {
        None
    } else if absolute <= span(c, rows, row) + line_width(c, row) {
        Some((row, absolute - span(c, rows, row)))
    } else {
        position_from(c, rows, row + 1, absolute)
    }
}

/// A cell found from `row` on lies on an input row at or below `row`, within
/// that row's width.
pub proof fn lemma_position_from(c: TerminalContent, rows: InputRows, row: int, absolute: int)
    requires
        rows.start <= row,
        absolute >= span(c, rows, row),
    ensures
        position_from(c, rows, row, absolute) matches Some((r, col)) ==> {
            &&& row <= r <= rows.end
            &&& 0 <= col <= line_width(c, r)
            &&& col == absolute - span(c, rows, r)
        },
    decreases rows.end + 1 - row,
{
    if row <= rows.end && !(absolute <= span(c, rows, row) + line_width(c, row)) {
        lemma_position_from(c, rows, row + 1, absolute);
    }
}

/// The grid position of an absolute input column; none past the input.
pub open spec fn position_spec(c: TerminalContent, rows: InputRows, absolute: int) -> Option<
    MouseGridPosition,
> {
    match position_from(c, rows, rows.start as int, absolute) {
        Some((row, column)) => Some(grid_position(row, column)),
        None => None,
    }
}

pub fn input_position_for_absolute_column(content: &TerminalContent, rows: InputRows, absolute: usize) -> (r:
    Option<MouseGridPosition>)
    requires
        rows_valid(*content, rows),
        content.fits(),
    ensures
        r == position_spec(*content, rows, absolute as int),
{
    let n = content.lines.len();
    let mut offset: usize = 0;
    let mut row = rows.start;
    proof {
        lemma_span_bound(*content, rows, rows.end + 1);
        lemma_cells_before_monotone(*content, 0, rows.start as int);
        lemma_cells_before_monotone(*content, rows.end + 1, row_count(*content));
    }
    while row <= rows.end
        invariant
            rows_valid(*content, rows),
            content.fits(),
            rows.start <= row <= rows.end + 1,
            n == row_count(*content),
            offset == span(*content, rows, row as int),
            absolute >= offset,
            span(*content, rows, rows.end + 1) < usize::MAX,
            position_from(*content, rows, rows.start as int, absolute as int) == position_from(
                *content,
                rows,
                row as int,
                absolute as int,
            ),
        decreases rows.end + 1 - row,
    {
        let width = input_line_len(content, row);
        proof {
            lemma_span_monotone(*content, rows, row + 1, rows.end + 1);
        }
        if absolute <= offset + width {
            return Some(grid_position_of(row, absolute - offset));
        }
        let sep = input_row_separator_width(content, row, rows.end);
        offset = offset + width + sep;
        row = row + 1;
    }
    None
}

} // verus!
