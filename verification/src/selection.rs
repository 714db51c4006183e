use crate::mouse::MouseGridPosition;
use vstd::prelude::*;

verus! {

/// A cell position on the terminal grid, counted from zero.
#[derive(Clone, Copy, Debug, PartialEq, Eq, Structural)]
pub struct GridPoint {
    pub row: usize,
    pub column: usize,
}

/// Whether `left` comes no later than `right` in reading order.
pub open spec fn point_le_spec(left: GridPoint, right: GridPoint) -> bool {
    left.row < right.row || (left.row == right.row && left.column <= right.column)
}

/// Whether `left` comes strictly before `right` in reading order.
pub open spec fn point_lt_spec(left: GridPoint, right: GridPoint) -> bool {
    left.row < right.row || (left.row == right.row && left.column < right.column)
}

pub fn point_le(left: GridPoint, right: GridPoint) -> (r: bool)
    ensures
        r == point_le_spec(left, right),
{
    left.row < right.row || (left.row == right.row && left.column <= right.column)
}

pub fn point_lt(left: GridPoint, right: GridPoint) -> (r: bool)
    ensures
        r == point_lt_spec(left, right),
{
    left.row < right.row || (left.row == right.row && left.column < right.column)
}

impl GridPoint {
    /// The cell to the right on the same row.
    pub fn next_cell(self) -> (r: Self)
        requires
            self.column < usize::MAX,
        ensures
            r.row == self.row,
            r.column == self.column + 1,
    {
        GridPoint { row: self.row, column: self.column + 1 }
    }

    /// The grid point under a pointer position.
    pub fn from_position(position: MouseGridPosition) -> (r: Self)
        ensures
            r.row == position.row as usize,
            r.column == position.column as usize,
    {
        GridPoint { row: position.row as usize, column: position.column as usize }
    }
}

impl From<MouseGridPosition> for GridPoint {
    fn from(position: MouseGridPosition) -> (r: Self) {
        GridPoint { row: position.row as usize, column: position.column as usize }
    }
}

impl vstd::std_specs::convert::FromSpecImpl<MouseGridPosition> for GridPoint {
    open spec fn obeys_from_spec() -> bool {
        true
    }

    open spec fn from_spec(position: MouseGridPosition) -> Self {
        GridPoint { row: position.row as usize, column: position.column as usize }
    }
}

/// A half-open run of cells in reading order, from `start` up to but not
/// including `end`.
#[derive(Clone, Copy, Debug, PartialEq, Eq, Structural)]
pub struct SelectionRange {
    pub start: GridPoint,
    pub end: GridPoint,
}

impl SelectionRange {
    /// Whether the range is in order, `start` no later than `end`.
    pub open spec fn normalized(self) -> bool {
        point_le_spec(self.start, self.end)
    }

    pub open spec fn contains_spec(self, point: GridPoint) -> bool {
        point_le_spec(self.start, point) && point_lt_spec(point, self.end)
    }

    /// The range between two points, in reading order.
    pub open spec fn new_spec(start: GridPoint, end: GridPoint) -> SelectionRange {
        if point_le_spec(start, end) {
            SelectionRange { start, end }
        } else {
            SelectionRange { start: end, end: start }
        }
    }

    /// The range between two points, whichever comes first.
    pub fn new(start: GridPoint, end: GridPoint) -> (r: Self)
        ensures
            r == Self::new_spec(start, end),
            r.normalized(),
    {
        if point_le(start, end) {
            SelectionRange { start, end }
        } else {
            SelectionRange { start: end, end: start }
        }
    }

    /// The range covering the cells of a drag from `anchor` to `focus`, both
    /// cells included.
    pub open spec fn between_cells_spec(anchor: GridPoint, focus: GridPoint) -> SelectionRange {
        if point_le_spec(anchor, focus) {
            Self::new_spec(anchor, GridPoint { row: focus.row, column: (focus.column + 1) as usize })
        } else {
            Self::new_spec(focus, GridPoint { row: anchor.row, column: (anchor.column + 1) as usize })
        }
    }

    pub fn between_cells(anchor: GridPoint, focus: GridPoint) -> (r: Self)
        requires
            anchor.column < usize::MAX,
            focus.column < usize::MAX,
        ensures
            r == Self::between_cells_spec(anchor, focus),
            r.normalized(),
    {
        if point_le(anchor, focus) {
            Self::new(anchor, focus.next_cell())
        } else {
            Self::new(focus, anchor.next_cell())
        }
    }

    pub fn is_empty(self) -> (r: bool)
        ensures
            r == (self.start == self.end),
    {
        self.start.row == self.end.row && self.start.column == self.end.column
    }

    pub fn contains(self, point: GridPoint) -> (r: bool)
        ensures
            r == self.contains_spec(point),
    {
        point_le(self.start, point) && point_lt(point, self.end)
    }
}

/// A drag selection holds exactly the cells from the earlier to the later of
/// its two end cells, both included.
pub proof fn law_between_cells_covers_both_end_cells(
    anchor: GridPoint,
    focus: GridPoint,
    point: GridPoint,
)
    requires
        anchor.column < usize::MAX,
        focus.column < usize::MAX,
    ensures
        SelectionRange::between_cells_spec(anchor, focus).contains_spec(point) <==> (if point_le_spec(
            anchor,
            focus,
        ) {
            point_le_spec(anchor, point) && point_le_spec(point, focus)
        } else {
            point_le_spec(focus, point) && point_le_spec(point, anchor)
        }),
{
}

/// A range in order is empty exactly when it holds no cell.
pub proof fn law_empty_iff_no_cell(range: SelectionRange)
    requires
        range.normalized(),
    ensures
        (range.start == range.end) <==> (forall|p: GridPoint| !range.contains_spec(p)),
{
    if range.start != range.end {
        assert(range.contains_spec(range.start));
    }
}

/// Building a range does not depend on the order of its two points.
pub proof fn law_new_is_symmetric(a: GridPoint, b: GridPoint)
    ensures
        SelectionRange::new_spec(a, b) == SelectionRange::new_spec(b, a),
{
}

/// The viewport position of an absolute point, when that row is on screen.
pub open spec fn viewport_point_spec(point: GridPoint, display_offset: int, viewport_rows: int) -> Option<
    GridPoint,
> {
    if point.row < display_offset || point.row >= display_offset + viewport_rows {
        None
    } else {
        Some(GridPoint { row: (point.row - display_offset) as usize, column: point.column })
    }
}

pub fn viewport_point_for_display(point: GridPoint, display_offset: usize, viewport_rows: usize) -> (r:
    Option<GridPoint>)
    ensures
        r == viewport_point_spec(point, display_offset as int, viewport_rows as int),
{
    if point.row < display_offset || point.row - display_offset >= viewport_rows {
        return None;
    }
    Some(GridPoint { row: point.row - display_offset, column: point.column })
}

/// The viewport form of a range held in absolute rows, when both of its ends
/// are on screen.
pub open spec fn viewport_range_spec(range: SelectionRange, display_offset: int, viewport_rows: int) -> Option<
    SelectionRange,
> {
    match (
        viewport_point_spec(range.start, display_offset, viewport_rows),
        viewport_point_spec(range.end, display_offset, viewport_rows),
    ) {
        (Some(start), Some(end)) => Some(SelectionRange { start, end }),
        _ => None,
    }
}

pub fn viewport_range_for_display(range: SelectionRange, display_offset: usize, viewport_rows: usize) -> (r:
    Option<SelectionRange>)
    ensures
        r == viewport_range_spec(range, display_offset as int, viewport_rows as int),
{
    let start = viewport_point_for_display(range.start, display_offset, viewport_rows);
    let end = viewport_point_for_display(range.end, display_offset, viewport_rows);
    match (start, end) {
        (Some(start), Some(end)) => Some(SelectionRange { start, end }),
        _ => None,
    }
}

/// What text extraction reads of a cell of the character grid: its base
/// character, whether combining characters follow it, and whether any
/// attribute flag is set.
#[derive(Clone, Copy, Debug, PartialEq, Eq, Structural)]
pub struct PlainCell {
    pub c: char,
    pub has_zerowidth: bool,
    pub has_flags: bool,
}

pub open spec fn plain_cell_significant(cell: PlainCell) -> bool {
    cell.c != ' ' || cell.has_zerowidth || cell.has_flags
}

/// The row length up to its last cell that is not a plain space.
pub open spec fn plain_significant_len(line: Seq<PlainCell>) -> nat
    decreases line.len(),
{
    if line.len() == 0 {
        0
    } else if plain_cell_significant(line.last()) {
        line.len()
    } else {
        plain_significant_len(line.drop_last())
    }
}

proof fn lemma_plain_significant_len(line: Seq<PlainCell>)
    ensures
        plain_significant_len(line) <= line.len(),
        plain_significant_len(line) > 0 ==> plain_cell_significant(line[plain_significant_len(line) - 1]),
    decreases line.len(),
{
    if line.len() > 0 && !plain_cell_significant(line.last()) {
        lemma_plain_significant_len(line.drop_last());
        if plain_significant_len(line) > 0 {
            assert(line[plain_significant_len(line) - 1] == line.drop_last()[plain_significant_len(line)
                - 1]);
        }
    }
}

fn plain_line_significant_len(line: &[PlainCell]) -> (n: usize)
    ensures
        n == plain_significant_len(line@),
{
    let mut n = line.len();
    assert(line@.subrange(0, n as int) =~= line@);
    while n > 0
        invariant
            n <= line@.len(),
            plain_significant_len(line@) == plain_significant_len(line@.subrange(0, n as int)),
        decreases n,
    {
        let c = line[n - 1];
        if c.c != ' ' || c.has_zerowidth || c.has_flags {
            return n;
        }
        assert(line@.subrange(0, n as int).drop_last() =~= line@.subrange(0, n - 1));
        n = n - 1;
    }
    0
}

/// The base characters of the cells from `from` up to `to` (none when
/// `from >= to`).
pub open spec fn cell_chars(line: Seq<PlainCell>, from: int, to: int) -> Seq<char> {
    if from >= to {
        Seq::empty()
    } else {
        line.subrange(from, to).map_values(|cell: PlainCell| cell.c)
    }
}

/// The text a selection takes from one row: from the start column (or the
/// row start) to the end column (or the last significant cell), then a
/// newline unless this is the range's last row or the grid's last row.
pub open spec fn selected_row_text(lines: Seq<Seq<PlainCell>>, range: SelectionRange, row: int) -> Seq<char> {
    let line = lines[row];
    let start_column = if row == range.start.row {
        range.start.column as int
    } else {
        0
    };
    let end_column = if row == range.end.row {
        range.end.column as int
    } else {
        plain_significant_len(line) as int
    };
    let stop = if end_column < line.len() {
        end_column
    } else {
        line.len() as int
    };
    let newline = if row != range.end.row && row + 1 < lines.len() {
        seq!['\n']
    } else {
        Seq::empty()
    };
    cell_chars(line, start_column, stop) + newline
}

/// The text of rows `range.start.row` up to (not including) `upto`.
pub open spec fn selected_rows_text(lines: Seq<Seq<PlainCell>>, range: SelectionRange, upto: int) -> Seq<
    char,
>
    decreases upto - range.start.row,
{
    if upto <= range.start.row {
        Seq::empty()
    } else {
        selected_rows_text(lines, range, upto - 1) + selected_row_text(lines, range, upto - 1)
    }
}

/// The text of a selection: empty for an empty range, else the row pieces of
/// every row from the start row to the end row that the grid has.
pub open spec fn selected_text_spec(lines: Seq<Seq<PlainCell>>, range: SelectionRange) -> Seq<char> {
    if range.start == range.end {
        Seq::empty()
    } else {
        let last = if range.end.row < lines.len() {
            range.end.row as int
        } else {
            lines.len() - 1
        };
        selected_rows_text(lines, range, last + 1)
    }
}

/// The text a selection covers on a grid of plain cells.
pub fn selected_text(lines: &[Vec<PlainCell>], range: SelectionRange) -> (s: String)
    ensures
        s@ == selected_text_spec(lines@.map_values(|l: Vec<PlainCell>| l@), range),
{
    let ghost all = lines@.map_values(|l: Vec<PlainCell>| l@);
    if range.is_empty() {
        return String::new();
    }
    let mut out = String::new();
    let mut row = range.start.row;
    while row <= range.end.row && row < lines.len()
        invariant
            all == lines@.map_values(|l: Vec<PlainCell>| l@),
            range.start.row <= row,
            row > range.start.row ==> row <= range.end.row + 1 && row <= lines@.len(),
            out@ == selected_rows_text(all, range, row as int),
        decreases lines@.len() - row,
    {
        let line = &lines[row];
        let start_column = if row == range.start.row {
            range.start.column
        } else {
            0
        };
        let end_column = if row == range.end.row {
            range.end.column
        } else {
            plain_line_significant_len(line.as_slice())
        };
        let stop = if end_column < line.len() {
            end_column
        } else {
            line.len()
        };
        let ghost before = out@;
        let mut column = start_column;
        while column < stop
            invariant
                line@.len() >= stop,
                start_column <= column,
                column > start_column ==> column <= stop,
                out@ == before + cell_chars(line@, start_column as int, column as int),
            decreases stop - column,
        {
            crate::text::push_char(&mut out, line[column].c);
            assert(cell_chars(line@, start_column as int, column + 1) =~= cell_chars(
                line@,
                start_column as int,
                column as int,
            ).push(line@[column as int].c));
            column = column + 1;
        }
        if row != range.end.row && row + 1 < lines.len() {
            crate::text::push_char(&mut out, '\n');
        }
        proof {
            assert(all[row as int] == line@);
            if start_column >= stop {
                assert(cell_chars(line@, start_column as int, column as int) =~= cell_chars(
                    line@,
                    start_column as int,
                    stop as int,
                ));
            }
            assert(out@ =~= selected_rows_text(all, range, row + 1));
        }
        row = row + 1;
    }
    proof {
        let last = if range.end.row < all.len() {
            range.end.row as int
        } else {
            all.len() - 1
        };
        if row == range.start.row {
            assert(last + 1 <= row);
            assert(selected_rows_text(all, range, last + 1) =~= Seq::<char>::empty());
            assert(out@ =~= Seq::<char>::empty());
        } else {
            assert(row == last + 1);
        }
    }
    out
}

/// Cells as a terminal grid holds them: no line feed in a cell, and a blank
/// is plain (no combining characters, no attributes).
pub open spec fn plain_grid(lines: Seq<Seq<PlainCell>>) -> bool {
    forall|r: int, i: int|
        0 <= r < lines.len() && 0 <= i < lines[r].len() ==> (#[trigger] lines[r][i]).c != '\n'
            && !lines[r][i].has_zerowidth && !lines[r][i].has_flags
}

proof fn lemma_rows_text_no_blank_before_newline(
    lines: Seq<Seq<PlainCell>>,
    range: SelectionRange,
    upto: int,
)
    requires
        plain_grid(lines),
        range.start.row <= upto <= lines.len(),
        upto - 1 <= range.end.row,
    ensures
        ({
            let t = selected_rows_text(lines, range, upto);
            &&& forall|k: int| 0 < k < t.len() && t[k] == '\n' ==> #[trigger] t[k - 1] != ' '
            &&& (t.len() > 0 && upto - 1 != range.end.row && upto < lines.len()) ==> t.last() == '\n'
        }),
    decreases upto - range.start.row,
{
    if upto > range.start.row {
        let row = upto - 1;
        lemma_rows_text_no_blank_before_newline(lines, range, row);
        let t = selected_rows_text(lines, range, row);
        let line = lines[row];
        let start_column = if row == range.start.row {
            range.start.column as int
        } else {
            0
        };
        let end_column = if row == range.end.row {
            range.end.column as int
        } else {
            plain_significant_len(line) as int
        };
        let stop = if end_column < line.len() {
            end_column
        } else {
            line.len() as int
        };
        let piece = cell_chars(line, start_column, stop);
        let nl = if row != range.end.row && row + 1 < lines.len() {
            seq!['\n']
        } else {
            Seq::<char>::empty()
        };
        let t2 = selected_rows_text(lines, range, upto);
        assert(t2 == t + piece + nl);
        lemma_plain_significant_len(line);
        assert forall|k: int| 0 < k < t2.len() && t2[k] == '\n' implies #[trigger] t2[k - 1] != ' ' by {
            if k < t.len() {
                assert(t2[k] == t[k] && t2[k - 1] == t[k - 1]);
            } else if k < t.len() + piece.len() {
                let j = k - t.len();
                assert(t2[k] == piece[j]);
                assert(piece[j] == line[start_column + j].c);
                assert(lines[row][start_column + j].c != '\n');
            } else {
                if piece.len() > 0 {
                    assert(t2[k - 1] == piece[piece.len() - 1]);
                    assert(piece[piece.len() - 1] == line[stop - 1].c);
                    assert(stop == plain_significant_len(line));
                    let cell = lines[row][stop - 1];
                    assert(!cell.has_zerowidth && !cell.has_flags);
                } else {
                    assert(t2[k - 1] == t[k - 1]);
                    assert(t.len() > 0);
                    assert(t.last() == '\n');
                }
            }
        }
    }
}

/// Copied text never holds a plain blank right before a line break: every
/// row but the last one copied stops at its last significant cell (on a
/// grid whose blanks are plain and whose cells hold no line feed).
pub proof fn law_copied_rows_drop_trailing_blanks(lines: Seq<Seq<PlainCell>>, range: SelectionRange)
    requires
        plain_grid(lines),
    ensures
        forall|k: int|
            0 < k < selected_text_spec(lines, range).len() && selected_text_spec(lines, range)[k] == '\n'
                ==> #[trigger] selected_text_spec(lines, range)[k - 1] != ' ',
{
    if range.start != range.end {
        let last = if range.end.row < lines.len() {
            range.end.row as int
        } else {
            lines.len() - 1
        };
        if last + 1 >= range.start.row {
            lemma_rows_text_no_blank_before_newline(lines, range, last + 1);
        } else {
            assert(selected_rows_text(lines, range, last + 1) =~= Seq::<char>::empty());
        }
    }
}

} // verus!
