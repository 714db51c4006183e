use crate::input_layout::{
    input_line_len, input_position_for_absolute_column, input_row_separator_width,
    lemma_line_width, lemma_position_from, lemma_span_bound, lemma_span_monotone, line_width,
    position_from, position_spec, separator, span,
};
use crate::input_rows::{is_word_cell, is_word_spec, rows_valid, InputRows};
use crate::input::CursorDirection;
use crate::terminal_grid::{
    cells_before, lemma_cells_before_monotone, line, row_count, TerminalContent,
};
use vstd::prelude::*;

verus! {

/// A cursor boundary inside the input while stepping over it: the row and
/// column it sits at, its absolute input column, and the width of its row.
#[derive(Clone, Copy, Debug, PartialEq, Eq, Structural)]
pub struct Boundary {
    pub row: usize,
    pub column: usize,
    pub absolute: usize,
    pub line_width: usize,
}

/// A boundary on a row of the snapshot, its column at most one past the row
/// and its width that of the row.
pub open spec fn boundary_shape(c: TerminalContent, b: Boundary) -> bool {
    &&& b.row < row_count(c)
    &&& b.column <= line(c, b.row as int).len() + 1
    &&& b.line_width == line_width(c, b.row as int)
}

/// Whether the cell at `(row, column)` is the right half of a wide character.
pub open spec fn spacer_at(c: TerminalContent, row: int, column: int) -> bool {
    0 <= row < row_count(c) && 0 <= column < line(c, row).len() && line(c, row)[column].wide_spacer
}

/// Whether the cell at `(row, column)` exists and is a word cell.
pub open spec fn word_at(c: TerminalContent, row: int, column: int) -> Option<bool> {
    if 0 <= row < row_count(c) && 0 <= column < line(c, row).len() {
        Some(is_word_spec(line(c, row)[column]))
    } else {
        None
    }
}

/// Whether the character before the boundary belongs to a word; none at the
/// input start or across an empty row. A hard newline between rows is no
/// word character.
pub open spec fn word_before_spec(c: TerminalContent, rows: InputRows, b: Boundary) -> Option<bool> {
    if b.column > 0 {
        word_at(c, b.row as int, b.column - 1)
    } else if b.row <= rows.start {
        None
    } else if separator(c, b.row - 1, rows.end as int) > 0 {
        Some(false)
    } else {
        let previous_width = line_width(c, b.row - 1);
        if previous_width == 0 {
            None
        } else {
            word_at(c, b.row - 1, previous_width - 1)
        }
    }
}

/// Whether the character after the boundary belongs to a word; none at the
/// input end or across an empty row.
pub open spec fn word_after_spec(c: TerminalContent, rows: InputRows, b: Boundary) -> Option<bool> {
    if b.column < b.line_width {
        word_at(c, b.row as int, b.column as int)
    } else if b.row >= rows.end {
        None
    } else if separator(c, b.row as int, rows.end as int) > 0 {
        Some(false)
    } else {
        let next_width = line_width(c, b.row + 1);
        if next_width == 0 {
            None
        } else {
            word_at(c, b.row + 1, 0)
        }
    }
}

/// One step to the left: within the row, or to the end of the row above
/// (after the hard newline, or onto its last cell when the row above wraps
/// into this one). A boundary at absolute column 0 or at the very first row's
/// start does not move.
pub open spec fn step_left(c: TerminalContent, rows: InputRows, b: Boundary) -> Boundary {
    if b.absolute == 0 || (b.column == 0 && b.row == 0) {
        b
    } else if b.column > 0 {
        Boundary { column: (b.column - 1) as usize, absolute: (b.absolute - 1) as usize, ..b }
    } else {
        let row = (b.row - 1) as usize;
        let width = line_width(c, row as int);
        let column = if separator(c, row as int, rows.end as int) > 0 {
            width
        } else if width > 0 {
            width - 1
        } else {
            0
        };
        Boundary {
            row,
            column: column as usize,
            absolute: (b.absolute - 1) as usize,
            line_width: width as usize,
        }
    }
}

/// One step to the right: within the row, or onto the row below (before its
/// first cell after a hard newline, else past its first cell). A boundary at
/// the end of the snapshot's last row does not move.
pub open spec fn step_right(c: TerminalContent, rows: InputRows, b: Boundary) -> Boundary {
    if b.column < b.line_width {
        Boundary { column: (b.column + 1) as usize, absolute: (b.absolute + 1) as usize, ..b }
    } else if b.row + 1 >= row_count(c) {
        b
    } else {
        let row = (b.row + 1) as usize;
        let width = line_width(c, row as int);
        Boundary {
            row,
            column: if separator(c, b.row as int, rows.end as int) > 0 {
                0
            } else {
                1
            },
            absolute: (b.absolute + 1) as usize,
            line_width: width as usize,
        }
    }
}

/// Moves left one character: steps left, then on over the right halves of
/// wide characters.
pub open spec fn move_left_spec(c: TerminalContent, rows: InputRows, b: Boundary) -> Boundary
    decreases b.absolute,
{
    let next = step_left(c, rows, b);
    if next.absolute >= b.absolute {
        b
    } else if spacer_at(c, next.row as int, next.column as int) {
        move_left_spec(c, rows, next)
    } else {
        next
    }
}

/// Moves right one character: steps right, then on over the right halves of
/// wide characters. A boundary already at the snapshot's total cell count
/// does not move.
pub open spec fn move_right_spec(c: TerminalContent, rows: InputRows, b: Boundary) -> Boundary
    decreases cells_before(c, row_count(c)) - b.absolute,
{
    if b.absolute >= cells_before(c, row_count(c)) || b.absolute >= usize::MAX {
        b
    } else {
        let next = step_right(c, rows, b);
        if next == b {
            b
        } else if spacer_at(c, next.row as int, next.column as int) {
            move_right_spec(c, rows, next)
        } else {
            next
        }
    }
}

/// The boundary at an absolute input column: on the first input row whose
/// end reaches it.
pub open spec fn boundary_at(c: TerminalContent, rows: InputRows, absolute: int) -> Option<Boundary> {
    match position_from(c, rows, rows.start as int, absolute) {
        Some((row, column)) => Some(
            Boundary {
                row: row as usize,
                column: column as usize,
                absolute: absolute as usize,
                line_width: line_width(c, row) as usize,
            },
        ),
        None => None,
    }
}

/// Walks left over non-word characters, then over word characters, not past
/// `start`.
pub open spec fn skip_left_spec(c: TerminalContent, rows: InputRows, b: Boundary, start: int, in_word: bool) -> Boundary
    decreases b.absolute,
{
    let before = match word_before_spec(c, rows, b) {
        Some(w) => w,
        None => false,
    };
    if b.absolute > start && before == in_word {
        let next = move_left_spec(c, rows, b);
        if next.absolute >= b.absolute {
            b
        } else {
            skip_left_spec(c, rows, next, start, in_word)
        }
    } else {
        b
    }
}

/// Walks right over non-word characters, then over word characters, not past
/// `end`.
pub open spec fn skip_right_spec(c: TerminalContent, rows: InputRows, b: Boundary, end: int, in_word: bool) -> Boundary
    decreases end - b.absolute,
{
    let after = match word_after_spec(c, rows, b) {
        Some(w) => w,
        None => false,
    };
    if b.absolute < end && after == in_word {
        let next = move_right_spec(c, rows, b);
        if next.absolute <= b.absolute {
            b
        } else if next.absolute >= end {
            next
        } else {
            skip_right_spec(c, rows, next, end, in_word)
        }
    } else {
        b
    }
}

/// The start of the word before `cursor` (capped at `end`): back over
/// non-word characters, then over the word.
pub open spec fn previous_word_spec(c: TerminalContent, rows: InputRows, cursor: int, start: int, end: int) -> int {
    let from = if cursor < end {
        cursor
    } else {
        end
    };
    match boundary_at(c, rows, from) {
        Some(b) => skip_left_spec(c, rows, skip_left_spec(c, rows, b, start, false), start, true).absolute as int,
        None => from,
    }
}

/// The end of the word after `cursor` (capped at `end`): over non-word
/// characters, then over the word.
pub open spec fn next_word_spec(c: TerminalContent, rows: InputRows, cursor: int, end: int) -> int {
    let from = if cursor < end {
        cursor
    } else {
        end
    };
    match boundary_at(c, rows, from) {
        Some(b) => skip_right_spec(c, rows, skip_right_spec(c, rows, b, end, false), end, true).absolute as int,
        None => from,
    }
}

fn cell_word_at(content: &TerminalContent, row: usize, column: usize) -> (r: Option<bool>)
    ensures
        r == word_at(*content, row as int, column as int),
{
    if row < content.lines.len() && column < content.lines[row].len() {
        Some(is_word_cell(&content.lines[row][column]))
    } else {
        None
    }
}

fn word_before(content: &TerminalContent, rows: InputRows, b: Boundary) -> (r: Option<bool>)
    requires
        rows_valid(*content, rows),
        boundary_shape(*content, b),
    ensures
        r == word_before_spec(*content, rows, b),
{
    if b.column > 0 {
        return cell_word_at(content, b.row, b.column - 1);
    }
    if b.row <= rows.start {
        return None;
    }
    if input_row_separator_width(content, b.row - 1, rows.end) > 0 {
        return Some(false);
    }
    let previous_width = input_line_len(content, b.row - 1);
    if previous_width == 0 {
        return None;
    }
    cell_word_at(content, b.row - 1, previous_width - 1)
}

fn word_after(content: &TerminalContent, rows: InputRows, b: Boundary) -> (r: Option<bool>)
    requires
        rows_valid(*content, rows),
        boundary_shape(*content, b),
    ensures
        r == word_after_spec(*content, rows, b),
{
    if b.column < b.line_width {
        return cell_word_at(content, b.row, b.column);
    }
    if b.row >= rows.end {
        return None;
    }
    if input_row_separator_width(content, b.row, rows.end) > 0 {
        return Some(false);
    }
    let next_width = input_line_len(content, b.row + 1);
    if next_width == 0 {
        return None;
    }
    cell_word_at(content, b.row + 1, 0)
}

fn at_wide_spacer(content: &TerminalContent, row: usize, column: usize) -> (r: bool)
    ensures
        r == spacer_at(*content, row as int, column as int),
{
    row < content.lines.len() && column < content.lines[row].len()
        && content.lines[row][column].wide_spacer
}

proof fn lemma_row_len(c: TerminalContent, row: int)
    requires
        c.fits(),
        0 <= row < row_count(c),
    ensures
        line(c, row).len() + 1 < usize::MAX,
        line_width(c, row) <= line(c, row).len(),
        0 <= line_width(c, row),
        row_count(c) < usize::MAX,
{
    lemma_cells_before_monotone(c, 0, row_count(c));
    lemma_cells_before_monotone(c, 0, row);
    lemma_cells_before_monotone(c, row + 1, row_count(c));
    lemma_line_width(c, row);
}

proof fn lemma_step_left_shape(c: TerminalContent, rows: InputRows, b: Boundary)
    requires
        rows_valid(c, rows),
        c.fits(),
        boundary_shape(c, b),
    ensures
        boundary_shape(c, step_left(c, rows, b)),
{
    lemma_row_len(c, b.row as int);
    if !(b.absolute == 0 || (b.column == 0 && b.row == 0)) && b.column == 0 {
        lemma_row_len(c, b.row - 1);
    }
}

proof fn lemma_step_right(c: TerminalContent, rows: InputRows, b: Boundary)
    requires
        rows_valid(c, rows),
        c.fits(),
        boundary_shape(c, b),
    ensures
        boundary_shape(c, step_right(c, rows, b)),
{
    lemma_row_len(c, b.row as int);
    let next = step_right(c, rows, b);
    if b.column < b.line_width {
        assert(next.row == b.row && next.column == b.column + 1);
    } else if b.row + 1 < row_count(c) {
        lemma_row_len(c, b.row + 1);
        assert(next.row as int == b.row + 1);
        assert(next.column <= 1);
        assert(next.line_width as int == line_width(c, b.row + 1));
    }
}

fn move_left(content: &TerminalContent, rows: InputRows, b: Boundary) -> (r: Boundary)
    requires
        rows_valid(*content, rows),
        content.fits(),
        boundary_shape(*content, b),
    ensures
        r == move_left_spec(*content, rows, b),
        boundary_shape(*content, r),
    decreases b.absolute,
{
    proof {
        lemma_step_left_shape(*content, rows, b);
    }
    if b.absolute == 0 || (b.column == 0 && b.row == 0) {
        return b;
    }
    let next = if b.column > 0 {
        Boundary { column: b.column - 1, absolute: b.absolute - 1, ..b }
    } else {
        let row = b.row - 1;
        let width = input_line_len(content, row);
        let column = if input_row_separator_width(content, row, rows.end) > 0 {
            width
        } else if width > 0 {
            width - 1
        } else {
            0
        };
        Boundary { row, column, absolute: b.absolute - 1, line_width: width }
    };
    assert(next == step_left(*content, rows, b));
    if at_wide_spacer(content, next.row, next.column) {
        move_left(content, rows, next)
    } else {
        next
    }
}

fn move_right(content: &TerminalContent, rows: InputRows, b: Boundary, limit: usize) -> (r: Boundary)
    requires
        rows_valid(*content, rows),
        content.fits(),
        boundary_shape(*content, b),
        limit == cells_before(*content, row_count(*content)),
    ensures
        r == move_right_spec(*content, rows, b),
        boundary_shape(*content, r),
    decreases limit - b.absolute,
{
    proof {
        lemma_step_right(*content, rows, b);
    }
    if b.absolute >= limit {
        return b;
    }
    let n = content.lines.len();
    let next = if b.column < b.line_width {
        Boundary { column: b.column + 1, absolute: b.absolute + 1, ..b }
    } else if b.row + 1 >= n {
        return b;
    } else {
        let row = b.row + 1;
        let width = input_line_len(content, row);
        Boundary {
            row,
            column: if input_row_separator_width(content, b.row, rows.end) > 0 {
                0
            } else {
                1
            },
            absolute: b.absolute + 1,
            line_width: width,
        }
    };
    assert(next == step_right(*content, rows, b));
    if at_wide_spacer(content, next.row, next.column) {
        move_right(content, rows, next, limit)
    } else {
        next
    }
}

/// The total cell count of the snapshot, one more per row.
fn total_cells(content: &TerminalContent) -> (r: usize)
    requires
        content.fits(),
    ensures
        r == cells_before(*content, row_count(*content)),
{
    let n = content.lines.len();
    let mut total: usize = 0;
    let mut row: usize = 0;
    while row < n
        invariant
            n == row_count(*content),
            content.fits(),
            row <= n,
            total == cells_before(*content, row as int),
        decreases n - row,
    {
        proof {
            lemma_cells_before_monotone(*content, row + 1, n as int);
        }
        total = total + content.lines[row].len() + 1;
        row = row + 1;
    }
    total
}

/// The boundary at an absolute input column; none past the input.
fn boundary_for_absolute(content: &TerminalContent, rows: InputRows, absolute: usize) -> (r: Option<Boundary>)
    requires
        rows_valid(*content, rows),
        content.fits(),
    ensures
        r == boundary_at(*content, rows, absolute as int),
        r matches Some(b) ==> boundary_shape(*content, b),
{
    let n = content.lines.len();
    let mut offset: usize = 0;
    let mut row = rows.start;
    proof {
        lemma_span_bound(*content, rows, rows.end + 1);
        lemma_cells_before_monotone(*content, 0, rows.start as int);
        lemma_cells_before_monotone(*content, rows.end + 1, row_count(*content));
        lemma_position_from(*content, rows, rows.start as int, absolute as int);
    }
    while row <= rows.end
        invariant
            rows_valid(*content, rows),
            content.fits(),
            rows.start <= row <= rows.end + 1,
            n == row_count(*content),
            offset == span(*content, rows, row as int),
            absolute >= offset,
            span(*content, rows, rows.end + 1) < usize::MAX,
            position_from(*content, rows, rows.start as int, absolute as int) == position_from(
                *content,
                rows,
                row as int,
                absolute as int,
            ),
        decreases rows.end + 1 - row,
    {
        let width = input_line_len(content, row);
        proof {
            lemma_span_monotone(*content, rows, row + 1, rows.end + 1);
            lemma_row_len(*content, row as int);
        }
        if absolute <= offset + width {
            return Some(Boundary { row, column: absolute - offset, absolute, line_width: width });
        }
        let sep = input_row_separator_width(content, row, rows.end);
        offset = offset + width + sep;
        row = row + 1;
    }
    None
}

/// Walks left while the character before the boundary is (`in_word`) or is
/// not (`!in_word`) a word character, not past `start`.
fn skip_left(content: &TerminalContent, rows: InputRows, b: Boundary, start: usize, in_word: bool) -> (r: Boundary)
    requires
        rows_valid(*content, rows),
        content.fits(),
        boundary_shape(*content, b),
    ensures
        r == skip_left_spec(*content, rows, b, start as int, in_word),
        boundary_shape(*content, r),
    decreases b.absolute,
{
    let before = match word_before(content, rows, b) {
        Some(w) => w,
        None => false,
    };
    if b.absolute > start && before == in_word {
        let next = move_left(content, rows, b);
        if next.absolute >= b.absolute {
            b
        } else {
            skip_left(content, rows, next, start, in_word)
        }
    } else {
        b
    }
}

/// Walks right while the character after the boundary is (`in_word`) or is
/// not (`!in_word`) a word character, not past `end`.
fn skip_right(
    content: &TerminalContent,
    rows: InputRows,
    b: Boundary,
    end: usize,
    in_word: bool,
    limit: usize,
) -> (r: Boundary)
    requires
        rows_valid(*content, rows),
        content.fits(),
        boundary_shape(*content, b),
        limit == cells_before(*content, row_count(*content)),
    ensures
        r == skip_right_spec(*content, rows, b, end as int, in_word),
        boundary_shape(*content, r),
    decreases end - b.absolute,
{
    let after = match word_after(content, rows, b) {
        Some(w) => w,
        None => false,
    };
    if b.absolute < end && after == in_word {
        let next = move_right(content, rows, b, limit);
        if next.absolute <= b.absolute {
            b
        } else if next.absolute >= end {
            next
        } else {
            skip_right(content, rows, next, end, in_word, limit)
        }
    } else {
        b
    }
}

/// The start of the word before `cursor` in the input.
pub fn previous_wrapped_word_boundary(
    content: &TerminalContent,
    rows: InputRows,
    cursor: usize,
    start: usize,
    end: usize,
) -> (r: usize)
    requires
        rows_valid(*content, rows),
        content.fits(),
    ensures
        r == previous_word_spec(*content, rows, cursor as int, start as int, end as int),
{
    let from = if cursor < end {
        cursor
    } else {
        end
    };
    match boundary_for_absolute(content, rows, from) {
        Some(b) => {
            let past_gap = skip_left(content, rows, b, start, false);
            skip_left(content, rows, past_gap, start, true).absolute
        },
        None => from,
    }
}

/// The end of the word after `cursor` in the input.
pub fn next_wrapped_word_boundary(content: &TerminalContent, rows: InputRows, cursor: usize, end: usize) -> (r:
    usize)
    requires
        rows_valid(*content, rows),
        content.fits(),
    ensures
        r == next_word_spec(*content, rows, cursor as int, end as int),
{
    let from = if cursor < end {
        cursor
    } else {
        end
    };
    let limit = total_cells(content);
    match boundary_for_absolute(content, rows, from) {
        Some(b) => {
            let past_gap = skip_right(content, rows, b, end, false, limit);
            skip_right(content, rows, past_gap, end, true, limit).absolute
        },
        None => from,
    }
}

/// Whether the cell at an absolute input column is the right half of a wide
/// character.
pub open spec fn boundary_spacer(c: TerminalContent, rows: InputRows, absolute: int) -> bool {
    match position_spec(c, rows, absolute) {
        Some(p) => spacer_at(c, p.row as int, p.column as int),
        None => false,
    }
}

/// Steps left off the right halves of wide characters, not past `start`.
pub open spec fn nearest_left_spec(c: TerminalContent, rows: InputRows, absolute: nat, start: nat) -> nat
    decreases (if absolute >= start {
        absolute - start
    } else {
        1
    }),
{
    if boundary_spacer(c, rows, absolute as int) {
        let lowered: nat = if absolute > 0 {
            (absolute - 1) as nat
        } else {
            0
        };
        let next: nat = if lowered > start {
            lowered
        } else {
            start
        };
        if next == absolute {
            absolute
        } else {
            nearest_left_spec(c, rows, next, start)
        }
    } else {
        absolute
    }
}

/// Steps right off the right halves of wide characters, not past `end`.
pub open spec fn nearest_right_spec(c: TerminalContent, rows: InputRows, absolute: nat, end: nat) -> nat
    decreases (if absolute <= end {
        end - absolute
    } else {
        1
    }),
{
    if boundary_spacer(c, rows, absolute as int) {
        let next: nat = if absolute + 1 < end {
            absolute + 1
        } else {
            end
        };
        if next == absolute {
            absolute
        } else {
            nearest_right_spec(c, rows, next, end)
        }
    } else {
        absolute
    }
}

/// The cursor boundary nearest to `absolute` in `direction` that is not the
/// right half of a wide character.
pub open spec fn nearest_boundary_spec(
    c: TerminalContent,
    rows: InputRows,
    absolute: nat,
    direction: CursorDirection,
    start: nat,
    end: nat,
) -> nat {
    match direction {
        CursorDirection::Left => nearest_left_spec(c, rows, absolute, start),
        CursorDirection::Right => nearest_right_spec(c, rows, absolute, end),
    }
}

fn cursor_boundary_is_wide_spacer(content: &TerminalContent, rows: InputRows, absolute: usize) -> (r: bool)
    requires
        rows_valid(*content, rows),
        content.fits(),
    ensures
        r == boundary_spacer(*content, rows, absolute as int),
{
    match input_position_for_absolute_column(content, rows, absolute) {
        Some(p) => at_wide_spacer(content, p.row as usize, p.column as usize),
        None => false,
    }
}

fn nearest_left(content: &TerminalContent, rows: InputRows, absolute: usize, start: usize) -> (r: usize)
    requires
        rows_valid(*content, rows),
        content.fits(),
    ensures
        r == nearest_left_spec(*content, rows, absolute as nat, start as nat),
    decreases (if absolute >= start {
        absolute - start
    } else {
        1
    }),
{
    if cursor_boundary_is_wide_spacer(content, rows, absolute) {
        let lowered = if absolute > 0 {
            absolute - 1
        } else {
            0
        };
        let next = if lowered > start {
            lowered
        } else {
            start
        };
        if next == absolute {
            absolute
        } else {
            nearest_left(content, rows, next, start)
        }
    } else {
        absolute
    }
}

fn nearest_right(content: &TerminalContent, rows: InputRows, absolute: usize, end: usize) -> (r: usize)
    requires
        rows_valid(*content, rows),
        content.fits(),
    ensures
        r == nearest_right_spec(*content, rows, absolute as nat, end as nat),
    decreases (if absolute <= end {
        end - absolute
    } else {
        1
    }),
{
    if cursor_boundary_is_wide_spacer(content, rows, absolute) {
        let next = if absolute < end && absolute + 1 < end {
            absolute + 1
        } else {
            end
        };
        if next == absolute {
            absolute
        } else {
            nearest_right(content, rows, next, end)
        }
    } else {
        absolute
    }
}

/// The cursor boundary nearest to `absolute` in `direction` that is not the
/// right half of a wide character, within `start..=end`.
pub fn nearest_cursor_boundary(
    content: &TerminalContent,
    rows: InputRows,
    absolute: usize,
    direction: CursorDirection,
    start: usize,
    end: usize,
) -> (r: usize)
    requires
        rows_valid(*content, rows),
        content.fits(),
    ensures
        r == nearest_boundary_spec(*content, rows, absolute as nat, direction, start as nat, end as nat),
{
    match direction {
        CursorDirection::Left => nearest_left(content, rows, absolute, start),
        CursorDirection::Right => nearest_right(content, rows, absolute, end),
    }
}

} // verus!
