use crate::input::{CursorDirection, CursorUnit};
use crate::input_layout::{
    absolute_spec, buffer_offset_spec, cursor_bounds_spec, cursor_col_of, cursor_col_usize,
    cursor_row_of, cursor_row_usize, grid_position, grid_position_of, input_absolute_column,
    input_buffer_character_offset, input_cursor_bounds, input_position_for_absolute_column,
    input_uses_visual_character_offsets, lemma_absolute_bound, position_spec, rows_visual,
    wrapped_bounds_spec, wrapped_input_bounds,
};
use crate::input_motion::{
    nearest_boundary_spec, nearest_cursor_boundary, next_word_spec, next_wrapped_word_boundary,
    previous_word_spec, previous_wrapped_word_boundary,
};
use crate::input_rows::{
    active_input_end_column, active_input_rows, input_end_spec, input_rows_spec,
    input_start_spec, is_word_cell, is_word_spec, rows_valid, InputRows,
};
use crate::mouse::MouseGridPosition;
use crate::selection::{
    point_le, point_le_spec, viewport_point_for_display, viewport_point_spec,
    viewport_range_for_display, viewport_range_spec, GridPoint, SelectionRange,
};
use crate::interaction::{
    arrow_step, arrows_spec, bytes_view, content_movement_spec, cursor_movement_bytes_between_editable_input_points,
    cursor_movement_bytes_for_content, editable_points_movement_spec, push_arrows, raw_absolute,
    repeat_bytes,
};
use crate::terminal_grid::{
    cells_before, chars_before, lemma_cells_before_monotone, lemma_significant_len, line, line_significant_len, row_count, significant_len, TerminalCell,
    TerminalContent,
};
use vstd::prelude::*;

pub use crate::input_rows::input_start_column;

verus! {

/// A selection made from the keyboard: it grows from `anchor`, and `focus`
/// is where the cursor now stands. Both are absolute grid points.
#[derive(Clone, Copy, Debug, PartialEq, Eq, Structural)]
pub struct DirectedSelectionRange {
    pub anchor: GridPoint,
    pub focus: GridPoint,
}

impl DirectedSelectionRange {
    /// Where the focus is on screen, when its row is in the viewport.
    pub fn viewport_focus(self, display_offset: usize, viewport_rows: usize) -> (r: Option<GridPoint>)
        ensures
            r == viewport_point_spec(self.focus, display_offset as int, viewport_rows as int),
    {
        viewport_point_for_display(self.focus, display_offset, viewport_rows)
    }

    /// The cells between anchor and focus; none when they coincide.
    pub fn range(self) -> (r: Option<SelectionRange>)
        ensures
            r == (if self.anchor == self.focus {
                None
            } else {
                Some(SelectionRange::new_spec(self.anchor, self.focus))
            }),
    {
        if self.anchor.row == self.focus.row && self.anchor.column == self.focus.column {
            None
        } else {
            Some(SelectionRange::new(self.anchor, self.focus))
        }
    }
}

/// The input rows around the cursor row, when the cursor row is not negative.
pub open spec fn cursor_rows_spec(c: TerminalContent) -> Option<InputRows> {
    match cursor_row_of(c) {
        Some(row) => input_rows_spec(c, row),
        None => None,
    }
}

fn cursor_input_rows(content: &TerminalContent) -> (r: Option<InputRows>)
    ensures
        r == cursor_rows_spec(*content),
        r matches Some(rows) ==> rows_valid(*content, rows),
{
    match cursor_row_usize(content) {
        Some(row) => active_input_rows(content, row),
        None => None,
    }
}

/// The cells of the shell input around the cursor: from the input start on
/// the first input row to the end of the typed input on the last one; none
/// when that is empty or there is no input.
pub open spec fn input_line_range_spec(c: TerminalContent) -> Option<SelectionRange> {
    match cursor_row_of(c) {
        None => None,
        Some(row) => match input_rows_spec(c, row) {
            None => None,
            Some(rows) => {
                let start = input_start_spec(line(c, rows.start as int));
                let cursor = if rows.end == row {
                    cursor_col_of(c)
                } else {
                    None
                };
                let end = input_end_spec(line(c, rows.end as int), cursor);
                let range = SelectionRange::new_spec(
                    GridPoint { row: rows.start, column: start as usize },
                    GridPoint { row: rows.end, column: end as usize },
                );
                if range.start == range.end {
                    None
                } else {
                    Some(range)
                }
            },
        },
    }
}

pub fn active_input_line_range(content: &TerminalContent) -> (r: Option<SelectionRange>)
    ensures
        r == input_line_range_spec(*content),
{
    let row = match cursor_row_usize(content) {
        Some(row) => row,
        None => return None,
    };
    let rows = match active_input_rows(content, row) {
        Some(rows) => rows,
        None => return None,
    };
    let start = input_start_column(content.lines[rows.start].as_slice());
    let cursor = if rows.end == row {
        cursor_col_usize(content)
    } else {
        None
    };
    let end = active_input_end_column(content.lines[rows.end].as_slice(), cursor);
    let range = SelectionRange::new(
        GridPoint { row: rows.start, column: start },
        GridPoint { row: rows.end, column: end },
    );
    if range.is_empty() {
        None
    } else {
        Some(range)
    }
}

/// Whether a selection lies inside the active input.
pub open spec fn within_input_spec(c: TerminalContent, selection: SelectionRange) -> bool {
    match input_line_range_spec(c) {
        Some(input) => point_le_spec(input.start, selection.start) && point_le_spec(
            selection.end,
            input.end,
        ),
        None => false,
    }
}

pub fn selection_within_active_input(content: &TerminalContent, selection: SelectionRange) -> (r: bool)
    ensures
        r == within_input_spec(*content, selection),
{
    match active_input_line_range(content) {
        Some(input) => point_le(input.start, selection.start) && point_le(selection.end, input.end),
        None => false,
    }
}

/// The edit-buffer offset of a cell inside `bounds`: its distance from the
/// input start when every input row has one character per column, else its
/// character count; none outside the input or the bounds.
pub open spec fn offset_within_spec(
    c: TerminalContent,
    rows: InputRows,
    bounds: Option<(int, int)>,
    row: int,
    column: int,
) -> Option<int> {
    match (absolute_spec(c, rows, row, column), bounds) {
        (Some(a), Some((s, e))) => if a < s || a > e {
            None
        } else if rows_visual(c, rows) {
            Some(a - s)
        } else {
            buffer_offset_spec(c, rows, row, column)
        },
        _ => None,
    }
}

/// The edit-buffer offset of a grid position inside the typed input.
pub open spec fn buffer_offset_for_position_spec(c: TerminalContent, target: MouseGridPosition) -> Option<
    int,
> {
    match cursor_rows_spec(c) {
        Some(rows) => offset_within_spec(
            c,
            rows,
            wrapped_bounds_spec(c, rows),
            target.row as int,
            target.column as int,
        ),
        None => None,
    }
}

/// The edit-buffer offset of a grid position inside the input including any
/// suggested text after the cursor.
pub open spec fn cursor_offset_for_position_spec(c: TerminalContent, target: MouseGridPosition) -> Option<
    int,
> {
    match cursor_rows_spec(c) {
        Some(rows) => offset_within_spec(
            c,
            rows,
            cursor_bounds_spec(c, rows),
            target.row as int,
            target.column as int,
        ),
        None => None,
    }
}

fn offset_within(
    content: &TerminalContent,
    rows: InputRows,
    bounds: Option<(usize, usize)>,
    row: usize,
    column: usize,
) -> (r: Option<usize>)
    requires
        rows_valid(*content, rows),
        content.fits(),
    ensures
        r matches Some(v) ==> offset_within_spec(
            *content,
            rows,
            match bounds {
                Some((s, e)) => Some((s as int, e as int)),
                None => None,
            },
            row as int,
            column as int,
        ) == Some(v as int),
        r is None ==> offset_within_spec(
            *content,
            rows,
            match bounds {
                Some((s, e)) => Some((s as int, e as int)),
                None => None,
            },
            row as int,
            column as int,
        ) is None,
        r matches Some(v) ==> v <= cells_before(*content, row_count(*content)) + chars_before(
            *content,
            row_count(*content),
        ),
{
    proof {
        lemma_cells_before_monotone(*content, 0, row_count(*content));
    }
    let absolute = match input_absolute_column(content, rows, row, column) {
        Some(a) => a,
        None => return None,
    };
    let (start, end) = match bounds {
        Some(b) => b,
        None => return None,
    };
    if absolute < start || absolute > end {
        return None;
    }
    if input_uses_visual_character_offsets(content, rows) {
        return Some(absolute - start);
    }
    input_buffer_character_offset(content, rows, row, column)
}

/// The shell edit-buffer offset of a grid position inside the typed input.
pub fn input_buffer_offset_for_position(content: &TerminalContent, target: MouseGridPosition) -> (r:
    Option<usize>)
    requires
        content.fits(),
    ensures
        match r {
            Some(v) => buffer_offset_for_position_spec(*content, target) == Some(v as int),
            None => buffer_offset_for_position_spec(*content, target) is None,
        },
        r matches Some(v) ==> v <= cells_before(*content, row_count(*content)) + chars_before(
            *content,
            row_count(*content),
        ),
{
    let rows = match cursor_input_rows(content) {
        Some(rows) => rows,
        None => return None,
    };
    let bounds = wrapped_input_bounds(content, rows);
    offset_within(content, rows, bounds, target.row as usize, target.column as usize)
}

/// The shell edit-buffer offset of a grid position inside the input, the
/// suggested text after the cursor included.
pub fn input_cursor_offset_for_position(content: &TerminalContent, target: MouseGridPosition) -> (r:
    Option<usize>)
    requires
        content.fits(),
    ensures
        match r {
            Some(v) => cursor_offset_for_position_spec(*content, target) == Some(v as int),
            None => cursor_offset_for_position_spec(*content, target) is None,
        },
        r matches Some(v) ==> v <= cells_before(*content, row_count(*content)) + chars_before(
            *content,
            row_count(*content),
        ),
{
    let rows = match cursor_input_rows(content) {
        Some(rows) => rows,
        None => return None,
    };
    let bounds = input_cursor_bounds(content, rows);
    offset_within(content, rows, bounds, target.row as usize, target.column as usize)
}

/// The edit-buffer range a selection covers inside the typed input: by
/// column distance when every input row has one character per column, else
/// by character counts; none when the selection reaches outside the input
/// or runs backwards.
pub open spec fn buffer_range_spec(c: TerminalContent, selection: SelectionRange) -> Option<(int, int)> {
    match cursor_rows_spec(c) {
        None => None,
        Some(rows) => match wrapped_bounds_spec(c, rows) {
            None => None,
            Some((s, e)) => match (
                absolute_spec(c, rows, selection.start.row as int, selection.start.column as int),
                absolute_spec(c, rows, selection.end.row as int, selection.end.column as int),
            ) {
                (Some(a), Some(b)) => if a < s || b > e || a > b {
                    None
                } else if rows_visual(c, rows) {
                    Some((a - s, b - s))
                } else {
                    match (
                        buffer_offset_spec(
                            c,
                            rows,
                            selection.start.row as int,
                            selection.start.column as int,
                        ),
                        buffer_offset_spec(
                            c,
                            rows,
                            selection.end.row as int,
                            selection.end.column as int,
                        ),
                    ) {
                        (Some(x), Some(y)) => Some((x, y)),
                        _ => None,
                    }
                },
                _ => None,
            },
        },
    }
}

pub fn input_buffer_range_for_selection(content: &TerminalContent, selection: SelectionRange) -> (r:
    Option<std::ops::Range<usize>>)
    requires
        content.fits(),
    ensures
        match r {
            Some(range) => buffer_range_spec(*content, selection) == Some(
                (range.start as int, range.end as int),
            ),
            None => buffer_range_spec(*content, selection) is None,
        },
{
    let rows = match cursor_input_rows(content) {
        Some(rows) => rows,
        None => return None,
    };
    let (bound_start, bound_end) = match wrapped_input_bounds(content, rows) {
        Some(b) => b,
        None => return None,
    };
    let start = match input_absolute_column(content, rows, selection.start.row, selection.start.column) {
        Some(a) => a,
        None => return None,
    };
    let end = match input_absolute_column(content, rows, selection.end.row, selection.end.column) {
        Some(a) => a,
        None => return None,
    };
    if start < bound_start || end > bound_end || start > end {
        return None;
    }
    if input_uses_visual_character_offsets(content, rows) {
        return Some(std::ops::Range { start: start - bound_start, end: end - bound_start });
    }
    let start_offset = match input_buffer_character_offset(
        content,
        rows,
        selection.start.row,
        selection.start.column,
    ) {
        Some(v) => v,
        None => return None,
    };
    let end_offset = match input_buffer_character_offset(
        content,
        rows,
        selection.end.row,
        selection.end.column,
    ) {
        Some(v) => v,
        None => return None,
    };
    Some(std::ops::Range { start: start_offset, end: end_offset })
}

/// The cursor as a grid point, when neither coordinate is negative.
pub open spec fn cursor_point_spec(c: TerminalContent) -> Option<GridPoint> {
    if c.cursor_line >= 0 && c.cursor_col >= 0 {
        Some(GridPoint { row: c.cursor_line as usize, column: c.cursor_col as usize })
    } else {
        None
    }
}

pub fn active_cursor_point(content: &TerminalContent) -> (r: Option<GridPoint>)
    ensures
        r == cursor_point_spec(*content),
{
    match (cursor_row_usize(content), cursor_col_usize(content)) {
        (Some(row), Some(column)) => Some(GridPoint { row, column }),
        _ => None,
    }
}

/// One cell to the left, not before `start`.
pub open spec fn cell_left(source: int, start: int) -> int {
    let lowered = if source > 0 {
        source - 1
    } else {
        0
    };
    if lowered > start {
        lowered
    } else {
        start
    }
}

/// One cell to the right, not past `end`.
pub open spec fn cell_right(source: int, end: int) -> int {
    if source + 1 < end {
        source + 1
    } else {
        end
    }
}

fn step_cell_left(source: usize, start: usize) -> (r: usize)
    ensures
        r == cell_left(source as int, start as int),
{
    let lowered = if source > 0 {
        source - 1
    } else {
        0
    };
    if lowered > start {
        lowered
    } else {
        start
    }
}

fn step_cell_right(source: usize, end: usize) -> (r: usize)
    ensures
        r == cell_right(source as int, end as int),
{
    if source < end && source + 1 < end {
        source + 1
    } else {
        end
    }
}

/// The move inside the input rows, counted in absolute input columns, then
/// turned back into a grid position; none when the row is not an input row.
pub open spec fn active_target_spec(
    c: TerminalContent,
    direction: CursorDirection,
    unit: CursorUnit,
    current: Option<GridPoint>,
) -> Option<MouseGridPosition> {
    match cursor_row_of(c) {
        None => None,
        Some(cursor_row) => match input_rows_spec(c, cursor_row) {
            None => None,
            Some(rows) => {
                let row = match current {
                    Some(p) => p.row as int,
                    None => cursor_row,
                };
                let cursor = match current {
                    Some(p) => Some(p.column as int),
                    None => cursor_col_of(c),
                };
                if !rows.has(row) {
                    None
                } else {
                    match cursor {
                        None => None,
                        Some(column) => match (
                            absolute_spec(c, rows, row, column),
                            wrapped_bounds_spec(c, rows),
                        ) {
                            (Some(source), Some((s, e))) => {
                                let moved = match (direction, unit) {
                                    (CursorDirection::Left, CursorUnit::Cell) => cell_left(source, s),
                                    (CursorDirection::Right, CursorUnit::Cell) => cell_right(source, e),
                                    (CursorDirection::Left, CursorUnit::Word) => previous_word_spec(
                                        c,
                                        rows,
                                        source,
                                        s,
                                        e,
                                    ),
                                    (CursorDirection::Right, CursorUnit::Word) => next_word_spec(
                                        c,
                                        rows,
                                        source,
                                        e,
                                    ),
                                };
                                let target = match unit {
                                    CursorUnit::Cell => nearest_boundary_spec(
                                        c,
                                        rows,
                                        moved as nat,
                                        direction,
                                        s as nat,
                                        e as nat,
                                    ) as int,
                                    CursorUnit::Word => moved,
                                };
                                position_spec(c, rows, target)
                            },
                            _ => None,
                        },
                    }
                }
            },
        },
    }
}

/// Back over the cells before `column` that are (`in_word`) or are not word
/// cells, not before `start`.
pub open spec fn back_over(l: Seq<TerminalCell>, column: int, start: int, in_word: bool) -> int
    decreases column,
{
    if column > start && 0 < column <= l.len() && is_word_spec(l[column - 1]) == in_word {
        back_over(l, column - 1, start, in_word)
    } else {
        column
    }
}

/// On over the cells from `column` that are (`in_word`) or are not word
/// cells, not past `end`.
pub open spec fn forward_over(l: Seq<TerminalCell>, column: int, end: int, in_word: bool) -> int
    decreases end - column,
{
    if column < end && 0 <= column < l.len() && is_word_spec(l[column]) == in_word {
        forward_over(l, column + 1, end, in_word)
    } else {
        column
    }
}

/// The start of the word before `cursor` on one row.
pub open spec fn line_previous_word(l: Seq<TerminalCell>, cursor: int, start: int) -> int {
    let significant = significant_len(l) as int;
    let from = if cursor < significant {
        cursor
    } else {
        significant
    };
    back_over(l, back_over(l, from, start, false), start, true)
}

/// The end of the word after `cursor` on one row.
pub open spec fn line_next_word(l: Seq<TerminalCell>, cursor: int, end: int) -> int {
    let from = if cursor < end {
        cursor
    } else {
        end
    };
    forward_over(l, forward_over(l, from, end, false), end, true)
}

proof fn lemma_back_over(l: Seq<TerminalCell>, column: int, start: int, in_word: bool)
    ensures
        back_over(l, column, start, in_word) <= column,
        column >= 0 ==> back_over(l, column, start, in_word) >= 0,
    decreases column,
{
    if column > start && 0 < column <= l.len() && is_word_spec(l[column - 1]) == in_word {
        lemma_back_over(l, column - 1, start, in_word);
    }
}

proof fn lemma_forward_over(l: Seq<TerminalCell>, column: int, end: int, in_word: bool)
    ensures
        forward_over(l, column, end, in_word) >= column,
        column <= l.len() ==> forward_over(l, column, end, in_word) <= l.len(),
    decreases end - column,
{
    if column < end && 0 <= column < l.len() && is_word_spec(l[column]) == in_word {
        lemma_forward_over(l, column + 1, end, in_word);
    }
}

fn skip_cells_left(l: &[TerminalCell], column: usize, start: usize, in_word: bool) -> (r: usize)
    requires
        column <= l@.len(),
    ensures
        r == back_over(l@, column as int, start as int, in_word),
{
    let mut col = column;
    while col > start && is_word_cell(&l[col - 1]) == in_word
        invariant
            col <= column <= l@.len(),
            back_over(l@, column as int, start as int, in_word) == back_over(
                l@,
                col as int,
                start as int,
                in_word,
            ),
        decreases col,
    {
        col = col - 1;
    }
    col
}

fn skip_cells_right(l: &[TerminalCell], column: usize, end: usize, in_word: bool) -> (r: usize)
    requires
        end <= l@.len(),
    ensures
        r == forward_over(l@, column as int, end as int, in_word),
{
    let mut col = column;
    while col < end && is_word_cell(&l[col]) == in_word
        invariant
            end <= l@.len(),
            column <= col,
            col > column ==> col <= end,
            forward_over(l@, column as int, end as int, in_word) == forward_over(
                l@,
                col as int,
                end as int,
                in_word,
            ),
        decreases end - col,
    {
        col = col + 1;
    }
    col
}

fn previous_word_boundary(l: &[TerminalCell], cursor: usize, start: usize) -> (r: usize)
    ensures
        r == line_previous_word(l@, cursor as int, start as int),
{
    let significant = line_significant_len(l);
    proof {
        lemma_significant_len(l@);
    }
    let from = if cursor < significant {
        cursor
    } else {
        significant
    };
    let past_gap = skip_cells_left(l, from, start, false);
    proof {
        lemma_back_over(l@, from as int, start as int, false);
    }
    skip_cells_left(l, past_gap, start, true)
}

fn next_word_boundary(l: &[TerminalCell], cursor: usize, end: usize) -> (r: usize)
    requires
        end <= l@.len(),
    ensures
        r == line_next_word(l@, cursor as int, end as int),
{
    let from = if cursor < end {
        cursor
    } else {
        end
    };
    let past_gap = skip_cells_right(l, from, end, false);
    skip_cells_right(l, past_gap, end, true)
}

/// The move on the cursor's own row when it is not inside the input rows:
/// between the input start and the end of the typed input (or the last
/// significant cell on another row).
pub open spec fn line_target_spec(
    c: TerminalContent,
    direction: CursorDirection,
    unit: CursorUnit,
    current: Option<GridPoint>,
) -> Option<MouseGridPosition> {
    let row = match current {
        Some(p) => Some(p.row as int),
        None => cursor_row_of(c),
    };
    let cursor = match current {
        Some(p) => Some(p.column as int),
        None => cursor_col_of(c),
    };
    match (row, cursor) {
        (Some(row), Some(cursor)) => if row >= row_count(c) {
            None
        } else {
            let l = line(c, row);
            let start = input_start_spec(l);
            let end = if cursor_row_of(c) == Some(row) {
                input_end_spec(l, cursor_col_of(c))
            } else {
                significant_len(l) as int
            };
            let column = match (direction, unit) {
                (CursorDirection::Left, CursorUnit::Cell) => cell_left(cursor, start),
                (CursorDirection::Right, CursorUnit::Cell) => cell_right(cursor, end),
                (CursorDirection::Left, CursorUnit::Word) => line_previous_word(l, cursor, start),
                (CursorDirection::Right, CursorUnit::Word) => line_next_word(l, cursor, end),
            };
            Some(grid_position(row, column))
        },
        _ => None,
    }
}

/// Where a cursor key moves the cursor: inside the input rows when the
/// cursor is in them, else along its row.
pub open spec fn keyboard_target_spec(
    c: TerminalContent,
    direction: CursorDirection,
    unit: CursorUnit,
    current: Option<GridPoint>,
) -> Option<MouseGridPosition> {
    match active_target_spec(c, direction, unit, current) {
        Some(target) => Some(target),
        None => line_target_spec(c, direction, unit, current),
    }
}

fn keyboard_cursor_target_in_active_input(
    content: &TerminalContent,
    direction: CursorDirection,
    unit: CursorUnit,
    current: Option<GridPoint>,
) -> (r: Option<MouseGridPosition>)
    requires
        content.fits(),
    ensures
        r == active_target_spec(*content, direction, unit, current),
{
    let cursor_row = match cursor_row_usize(content) {
        Some(row) => row,
        None => return None,
    };
    let rows = match active_input_rows(content, cursor_row) {
        Some(rows) => rows,
        None => return None,
    };
    let row = match current {
        Some(p) => p.row,
        None => cursor_row,
    };
    if row < rows.start || row > rows.end {
        return None;
    }
    let cursor = match current {
        Some(p) => p.column,
        None => match cursor_col_usize(content) {
            Some(col) => col,
            None => return None,
        },
    };
    let source = match input_absolute_column(content, rows, row, cursor) {
        Some(a) => a,
        None => return None,
    };
    let (start, end) = match wrapped_input_bounds(content, rows) {
        Some(b) => b,
        None => return None,
    };
    proof {
        lemma_absolute_bound(*content, rows, row as int, cursor as int);
    }
    let moved = match (direction, unit) {
        (CursorDirection::Left, CursorUnit::Cell) => step_cell_left(source, start),
        (CursorDirection::Right, CursorUnit::Cell) => step_cell_right(source, end),
        (CursorDirection::Left, CursorUnit::Word) => previous_wrapped_word_boundary(
            content,
            rows,
            source,
            start,
            end,
        ),
        (CursorDirection::Right, CursorUnit::Word) => next_wrapped_word_boundary(
            content,
            rows,
            source,
            end,
        ),
    };
    let target = match unit {
        CursorUnit::Cell => nearest_cursor_boundary(content, rows, moved, direction, start, end),
        CursorUnit::Word => moved,
    };
    input_position_for_absolute_column(content, rows, target)
}

/// The grid position a cursor key moves the cursor to.
pub fn keyboard_cursor_target(
    content: &TerminalContent,
    direction: CursorDirection,
    unit: CursorUnit,
    current: Option<GridPoint>,
) -> (r: Option<MouseGridPosition>)
    requires
        content.fits(),
    ensures
        r == keyboard_target_spec(*content, direction, unit, current),
{
    let in_input = keyboard_cursor_target_in_active_input(content, direction, unit, current);
    if in_input.is_some() {
        return in_input;
    }
    let row = match current {
        Some(p) => p.row,
        None => match cursor_row_usize(content) {
            Some(row) => row,
            None => return None,
        },
    };
    let cursor = match current {
        Some(p) => p.column,
        None => match cursor_col_usize(content) {
            Some(col) => col,
            None => return None,
        },
    };
    if row >= content.lines.len() {
        return None;
    }
    let l = content.lines[row].as_slice();
    let start = input_start_column(l);
    proof {
        lemma_significant_len(l@);
    }
    let end = match cursor_row_usize(content) {
        Some(cr) if cr == row => active_input_end_column(l, cursor_col_usize(content)),
        _ => line_significant_len(l),
    };
    let column = match (direction, unit) {
        (CursorDirection::Left, CursorUnit::Cell) => step_cell_left(cursor, start),
        (CursorDirection::Right, CursorUnit::Cell) => step_cell_right(cursor, end),
        (CursorDirection::Left, CursorUnit::Word) => previous_word_boundary(l, cursor, start),
        (CursorDirection::Right, CursorUnit::Word) => next_word_boundary(l, cursor, end),
    };
    Some(grid_position_of(row, column))
}

/// Where a collapsing cursor key lands on a selection: its start for left,
/// its end for right, in viewport rows; none when there is no selection or
/// it is not wholly on screen.
pub open spec fn collapse_target_spec(
    selection: Option<SelectionRange>,
    display_offset: int,
    viewport_rows: int,
    direction: CursorDirection,
) -> Option<GridPoint> {
    match selection {
        None => None,
        Some(s) => match viewport_range_spec(s, display_offset, viewport_rows) {
            None => None,
            Some(range) => Some(
                match direction {
                    CursorDirection::Left => range.start,
                    CursorDirection::Right => range.end,
                },
            ),
        },
    }
}

pub fn keyboard_selection_collapse_target(
    selection: Option<SelectionRange>,
    display_offset: usize,
    viewport_rows: usize,
    direction: CursorDirection,
) -> (r: Option<GridPoint>)
    ensures
        r == collapse_target_spec(selection, display_offset as int, viewport_rows as int, direction),
{
    let s = match selection {
        Some(s) => s,
        None => return None,
    };
    let range = match viewport_range_for_display(s, display_offset, viewport_rows) {
        Some(range) => range,
        None => return None,
    };
    Some(
        match direction {
            CursorDirection::Left => range.start,
            CursorDirection::Right => range.end,
        },
    )
}

/// The end of a selection opposite the cursor, when the cursor sits on one
/// of its ends.
pub open spec fn selection_anchor_spec(selection: Option<SelectionRange>, cursor: GridPoint) -> Option<
    GridPoint,
> {
    match selection {
        None => None,
        Some(range) => if cursor == range.start {
            Some(range.end)
        } else if cursor == range.end {
            Some(range.start)
        } else {
            None
        },
    }
}

pub fn keyboard_selection_anchor(selection: Option<SelectionRange>, cursor: GridPoint) -> (r: Option<
    GridPoint,
>)
    ensures
        r == selection_anchor_spec(selection, cursor),
{
    let range = match selection {
        Some(range) => range,
        None => return None,
    };
    if cursor.row == range.start.row && cursor.column == range.start.column {
        Some(range.end)
    } else if cursor.row == range.end.row && cursor.column == range.end.column {
        Some(range.start)
    } else {
        None
    }
}

/// The keyboard selection after the cursor moves to `target`: anchored where
/// the current directed selection is anchored, else at the end of the
/// current selection opposite the cursor, else at the cursor; its focus is
/// the target. All points are absolute rows (viewport row plus the display
/// offset). None when the cursor is off-screen.
pub open spec fn directed_selection_spec(
    c: TerminalContent,
    target: MouseGridPosition,
    existing_directed: Option<DirectedSelectionRange>,
    existing_selection: Option<SelectionRange>,
) -> Option<DirectedSelectionRange> {
    match cursor_point_spec(c) {
        None => None,
        Some(p) => {
            let cursor = GridPoint { row: (p.row + c.display_offset) as usize, column: p.column };
            let focus = GridPoint {
                row: (target.row + c.display_offset) as usize,
                column: target.column as usize,
            };
            let anchor = match existing_directed {
                Some(range) => range.anchor,
                None => match selection_anchor_spec(existing_selection, cursor) {
                    Some(a) => a,
                    None => cursor,
                },
            };
            Some(DirectedSelectionRange { anchor, focus })
        },
    }
}

/// A keyboard selection keeps its anchor while its focus moves: after any
/// number of shift-moves, in either direction and whatever the selection
/// then covers, the anchor is the one the first move set, and the focus is
/// the last move's target.
pub proof fn law_keyboard_anchor_stays_fixed(
    c: TerminalContent,
    existing: DirectedSelectionRange,
    first: MouseGridPosition,
    second: MouseGridPosition,
    selection_then: Option<SelectionRange>,
    selection_after: Option<SelectionRange>,
)
    requires
        cursor_point_spec(c) is Some,
    ensures
        directed_selection_spec(c, first, Some(existing), selection_then) is Some,
        directed_selection_spec(c, first, Some(existing), selection_then).unwrap().anchor
            == existing.anchor,
        directed_selection_spec(
            c,
            second,
            directed_selection_spec(c, first, Some(existing), selection_then),
            selection_after,
        ) is Some,
        directed_selection_spec(
            c,
            second,
            directed_selection_spec(c, first, Some(existing), selection_then),
            selection_after,
        ).unwrap().anchor == existing.anchor,
        directed_selection_spec(
            c,
            second,
            directed_selection_spec(c, first, Some(existing), selection_then),
            selection_after,
        ).unwrap().focus == (GridPoint {
            row: (second.row + c.display_offset) as usize,
            column: second.column as usize,
        }),
{
}

/// The first shift-move with nothing selected anchors the keyboard
/// selection at the cursor.
pub proof fn law_first_shift_move_anchors_at_cursor(c: TerminalContent, target: MouseGridPosition)
    requires
        cursor_point_spec(c) is Some,
    ensures
        directed_selection_spec(c, target, None, None) is Some,
        directed_selection_spec(c, target, None, None).unwrap().anchor == (GridPoint {
            row: (c.cursor_line + c.display_offset) as usize,
            column: c.cursor_col as usize,
        }),
{
}

pub fn directed_selection_for_target(
    content: &TerminalContent,
    target: MouseGridPosition,
    existing_directed: Option<DirectedSelectionRange>,
    existing_selection: Option<SelectionRange>,
) -> (r: Option<DirectedSelectionRange>)
    requires
        cursor_point_spec(*content) is Some ==> content.cursor_line + content.display_offset
            <= usize::MAX && target.row + content.display_offset <= usize::MAX,
    ensures
        r == directed_selection_spec(*content, target, existing_directed, existing_selection),
{
    let p = match active_cursor_point(content) {
        Some(p) => p,
        None => return None,
    };
    let cursor = GridPoint { row: p.row + content.display_offset, column: p.column };
    let focus = GridPoint {
        row: target.row as usize + content.display_offset,
        column: target.column as usize,
    };
    let anchor = match existing_directed {
        Some(range) => range.anchor,
        None => match keyboard_selection_anchor(existing_selection, cursor) {
            Some(a) => a,
            None => cursor,
        },
    };
    Some(DirectedSelectionRange { anchor, focus })
}

/// The arrow keys that move the cursor from `source` to `target` on one row:
/// the column difference taken in `i32`, as many left or right keys (none
/// for no difference); none across rows.
pub open spec fn points_movement_spec(source: GridPoint, target: GridPoint) -> Option<Seq<u8>> {
    if source.row != target.row {
        None
    } else {
        Some(arrows_spec((target.column as i32) - (source.column as i32)))
    }
}

/// Moving the cursor from one cell to another on the same row and back
/// takes the same number of arrow keys each way, in opposite directions;
/// moving to the same cell takes none.
pub proof fn law_movement_back_undoes_movement(a: GridPoint, b: GridPoint)
    requires
        a.row == b.row,
        a.column <= i32::MAX,
        b.column <= i32::MAX,
    ensures
        points_movement_spec(a, b) == Some(
            repeat_bytes(
                arrow_step(b.column < a.column),
                (if b.column < a.column {
                    a.column - b.column
                } else {
                    b.column - a.column
                }) as nat,
            ),
        ),
        points_movement_spec(b, a) == Some(
            repeat_bytes(
                arrow_step(a.column < b.column),
                (if b.column < a.column {
                    a.column - b.column
                } else {
                    b.column - a.column
                }) as nat,
            ),
        ),
        a.column == b.column ==> points_movement_spec(a, b) == Some(Seq::<u8>::empty()),
{
    assert((a.column as i32) as int == a.column as int);
    assert((b.column as i32) as int == b.column as int);
}

pub fn cursor_movement_bytes_between_points(source: GridPoint, target: GridPoint) -> (r: Option<Vec<u8>>)
    requires
        source.row == target.row ==> i32::MIN <= (target.column as i32) - (source.column as i32)
            <= i32::MAX,
    ensures
        bytes_view(r) == points_movement_spec(source, target),
{
    if source.row != target.row {
        return None;
    }
    let delta: i32 = target.column as i32 - source.column as i32;
    let mut bytes = Vec::new();
    if delta < 0 {
        let count: i64 = 0 - (delta as i64);
        push_arrows(&mut bytes, true, count as u64);
    } else {
        push_arrows(&mut bytes, false, delta as u64);
    }
    proof {
        assert(bytes@ =~= arrows_spec(delta as int));
    }
    Some(bytes)
}

/// Some bytes only when there are any.
pub open spec fn nonempty(bytes: Seq<u8>) -> Option<Seq<u8>> {
    if bytes.len() > 0 {
        Some(bytes)
    } else {
        None
    }
}

/// The bytes a cursor key writes to move the shell cursor to `target`:
/// first by edit-buffer offsets inside the input, else along the row of the
/// current keyboard position, else between editable input points, else from
/// the terminal cursor. Whichever way first applies decides, and an empty
/// move writes nothing.
pub open spec fn keyboard_bytes_spec(c: TerminalContent, current: Option<GridPoint>, target: MouseGridPosition) -> Option<
    Seq<u8>,
> {
    let source = match current {
        Some(p) => Some(p),
        None => cursor_point_spec(c),
    };
    let by_offset = match source {
        Some(s) => match (
            cursor_offset_for_position_spec(c, grid_position(s.row as int, s.column as int)),
            cursor_offset_for_position_spec(c, target),
        ) {
            (Some(a), Some(b)) => points_movement_spec(
                GridPoint { row: 0, column: a as usize },
                GridPoint { row: 0, column: b as usize },
            ),
            _ => None,
        },
        None => None,
    };
    match by_offset {
        Some(bytes) => nonempty(bytes),
        None => {
            let along_row = match current {
                Some(p) => points_movement_spec(
                    GridPoint { row: (p.row + c.display_offset) as usize, column: p.column },
                    GridPoint {
                        row: (target.row + c.display_offset) as usize,
                        column: target.column as usize,
                    },
                ),
                None => None,
            };
            match along_row {
                Some(bytes) => nonempty(bytes),
                None => {
                    let editable = match current {
                        Some(p) => editable_points_movement_spec(
                            c,
                            grid_position(p.row as int, p.column as int),
                            target,
                        ),
                        None => None,
                    };
                    match editable {
                        Some(bytes) => nonempty(bytes),
                        None => match content_movement_spec(c, target) {
                            Some(bytes) => nonempty(bytes),
                            None => None,
                        },
                    }
                },
            }
        },
    }
}

/// One or more presses of a single arrow key, left or right.
pub open spec fn arrow_run(bytes: Seq<u8>) -> bool {
    exists|left: bool, k: nat| k >= 1 && bytes == #[trigger] repeat_bytes(arrow_step(left), k)
}

proof fn lemma_arrows_run(d: int)
    ensures
        arrows_spec(d).len() > 0 ==> arrow_run(arrows_spec(d)),
{
    let left = d < 0;
    let k: nat = (if d < 0 {
        -d
    } else {
        d
    }) as nat;
    if k == 0 {
        assert(arrows_spec(d) =~= Seq::<u8>::empty());
    } else {
        assert(arrows_spec(d) == repeat_bytes(arrow_step(left), k));
    }
}

/// A cursor key's bytes are never an empty write: either nothing is sent,
/// or one or more presses of a single arrow key, left or right.
pub proof fn law_keyboard_bytes_are_arrow_runs(
    c: TerminalContent,
    current: Option<GridPoint>,
    target: MouseGridPosition,
)
    ensures
        keyboard_bytes_spec(c, current, target) matches Some(bytes) ==> bytes.len() > 0 && arrow_run(
            bytes,
        ),
{
    let source = match current {
        Some(p) => Some(p),
        None => cursor_point_spec(c),
    };
    match source {
        Some(s) => match (
            cursor_offset_for_position_spec(c, grid_position(s.row as int, s.column as int)),
            cursor_offset_for_position_spec(c, target),
        ) {
            (Some(a), Some(b)) => lemma_arrows_run(((b as usize) as i32) - ((a as usize) as i32)),
            _ => {},
        },
        None => {},
    }
    match current {
        Some(p) => {
            lemma_arrows_run(
                (target.column as usize as i32) - (p.column as i32),
            );
        },
        None => {},
    }
    match cursor_row_of(c) {
        Some(cursor_row) => match input_rows_spec(c, cursor_row) {
            Some(rows) => {
                match current {
                    Some(p) => {
                        let src = grid_position(p.row as int, p.column as int);
                        match (
                            raw_absolute(c, rows, src.row as int, src.column as int),
                            raw_absolute(c, rows, target.row as int, target.column as int),
                        ) {
                            (Some(from), Some(to)) => lemma_arrows_run(to - from),
                            _ => {},
                        }
                    },
                    None => {},
                }
                match (cursor_row_of(c), cursor_col_of(c)) {
                    (Some(cr), Some(cc)) => match (
                        raw_absolute(c, rows, cr, cc),
                        raw_absolute(c, rows, target.row as int, target.column as int),
                    ) {
                        (Some(from), Some(to)) => lemma_arrows_run(to - from),
                        _ => {},
                    },
                    _ => {},
                }
            },
            None => {},
        },
        None => {},
    }
}

fn keep_nonempty(bytes: Vec<u8>) -> (r: Option<Vec<u8>>)
    ensures
        bytes_view(r) == nonempty(bytes@),
{
    if bytes.len() > 0 {
        Some(bytes)
    } else {
        None
    }
}

/// The bytes that move the shell cursor to `target` for a cursor key.
pub fn keyboard_cursor_bytes(content: &TerminalContent, current: Option<GridPoint>, target: MouseGridPosition) -> (r:
    Option<Vec<u8>>)
    requires
        content.fits(),
        content.fits_i32(),
        current matches Some(p) ==> p.column <= i32::MAX && p.row + content.display_offset
            <= usize::MAX,
        target.row + content.display_offset <= usize::MAX,
    ensures
        bytes_view(r) == keyboard_bytes_spec(*content, current, target),
        r matches Some(v) ==> v@.len() > 0 && arrow_run(v@),
{
    proof {
        law_keyboard_bytes_are_arrow_runs(*content, current, target);
    }
    let source = match current {
        Some(p) => Some(p),
        None => active_cursor_point(content),
    };
    if let Some(s) = source {
        let from = input_cursor_offset_for_position(content, grid_position_of(s.row, s.column));
        let to = input_cursor_offset_for_position(content, target);
        if let (Some(a), Some(b)) = (from, to) {
            if let Some(bytes) = cursor_movement_bytes_between_points(
                GridPoint { row: 0, column: a },
                GridPoint { row: 0, column: b },
            ) {
                return keep_nonempty(bytes);
            }
        }
    }
    if let Some(p) = current {
        if let Some(bytes) = cursor_movement_bytes_between_points(
            GridPoint { row: p.row + content.display_offset, column: p.column },
            GridPoint { row: target.row as usize + content.display_offset, column: target.column as usize },
        ) {
            return keep_nonempty(bytes);
        }
    }
    if let Some(p) = current {
        if let Some(bytes) = cursor_movement_bytes_between_editable_input_points(
            content,
            grid_position_of(p.row, p.column),
            target,
        ) {
            return keep_nonempty(bytes);
        }
    }
    match cursor_movement_bytes_for_content(content, target) {
        Some(bytes) => keep_nonempty(bytes),
        None => None,
    }
}

} // verus!
