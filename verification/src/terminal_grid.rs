use vstd::prelude::*;
use vstd::string::*;

verus! {

/// The OSC 133 semantic-prompt mark the terminal recorded for a row.
#[derive(Clone, Copy, Debug, PartialEq, Eq, Structural)]
pub enum TerminalSemanticPrompt {
    Unmarked,
    Prompt,
    Continuation,
}

impl Default for TerminalSemanticPrompt {
    fn default() -> (r: Self)
        ensures
            r == TerminalSemanticPrompt::Unmarked,
    {
        TerminalSemanticPrompt::Unmarked
    }
}

/// Per-row facts recorded by the terminal next to the cells.
#[derive(Clone, Copy, Debug, PartialEq, Eq, Structural)]
pub struct TerminalLineMetadata {
    pub semantic_prompt: TerminalSemanticPrompt,
    /// The row's text continues on the next row (soft wrap).
    pub wrapped: bool,
    /// The row continues the text of the previous row.
    pub wrap_continuation: bool,
}

pub open spec fn default_metadata() -> TerminalLineMetadata {
    TerminalLineMetadata {
        semantic_prompt: TerminalSemanticPrompt::Unmarked,
        wrapped: false,
        wrap_continuation: false,
    }
}

impl Default for TerminalLineMetadata {
    fn default() -> (r: Self)
        ensures
            r == default_metadata(),
    {
        TerminalLineMetadata {
            semantic_prompt: TerminalSemanticPrompt::Unmarked,
            wrapped: false,
            wrap_continuation: false,
        }
    }
}

/// Which mouse events the application running in the terminal asked for.
#[derive(Clone, Copy, Debug, PartialEq, Eq, Structural)]
pub struct MouseMode {
    pub click: bool,
    pub drag: bool,
    pub motion: bool,
    pub sgr: bool,
    pub utf8: bool,
}

impl Default for MouseMode {
    fn default() -> (r: Self)
        ensures
            !r.click && !r.drag && !r.motion && !r.sgr && !r.utf8,
    {
        MouseMode { click: false, drag: false, motion: false, sgr: false, utf8: false }
    }
}

impl MouseMode {
    pub open spec fn reports_press_release(self) -> bool {
        self.click || self.drag || self.motion
    }

    pub open spec fn reports_drag(self) -> bool {
        self.drag || self.motion
    }

    /// Whether button presses and releases go to the application.
    pub fn sends_press_release(self) -> (r: bool)
        ensures
            r == self.reports_press_release(),
    {
        self.click || self.drag || self.motion
    }

    /// Whether pointer motion with a button held goes to the application.
    pub fn sends_drag(self) -> (r: bool)
        ensures
            r == self.reports_drag(),
    {
        self.drag || self.motion
    }
}

/// One grid cell: its text (a grapheme, possibly with combining marks) and
/// its attributes. Colors are `#rrggbb` strings.
#[derive(Clone, Debug, PartialEq, Eq)]
pub struct TerminalCell {
    pub text: String,
    pub fg: Option<String>,
    pub bg: Option<String>,
    pub bold: bool,
    pub italic: bool,
    pub underline: bool,
    pub inverse: bool,
    pub strikeout: bool,
    /// The cell holds a double-width character.
    pub wide: bool,
    /// The cell is the right half of the double-width character before it.
    pub wide_spacer: bool,
}

pub open spec fn is_blank_cell(cell: TerminalCell) -> bool {
    &&& cell.text@ == seq![' ']
    &&& cell.fg is None
    &&& cell.bg is None
    &&& !cell.bold
    &&& !cell.italic
    &&& !cell.underline
    &&& !cell.inverse
    &&& !cell.strikeout
    &&& !cell.wide
    &&& !cell.wide_spacer
}

fn copy_color(o: &Option<String>) -> (r: Option<String>)
    ensures
        r == *o,
{
    match o {
        Some(s) => Some(s.clone()),
        None => None,
    }
}

impl TerminalCell {
    /// The same cell, field by field.
    pub fn duplicate(&self) -> (r: Self)
        ensures
            r == *self,
    {
        TerminalCell {
            text: self.text.clone(),
            fg: copy_color(&self.fg),
            bg: copy_color(&self.bg),
            bold: self.bold,
            italic: self.italic,
            underline: self.underline,
            inverse: self.inverse,
            strikeout: self.strikeout,
            wide: self.wide,
            wide_spacer: self.wide_spacer,
        }
    }

    /// A space with no attributes.
    pub fn blank() -> (cell: Self)
        ensures
            is_blank_cell(cell),
    {
        let mut text = String::new();
        crate::text::push_char(&mut text, ' ');
        assert(text@ =~= seq![' ']);
        TerminalCell {
            text,
            fg: None,
            bg: None,
            bold: false,
            italic: false,
            underline: false,
            inverse: false,
            strikeout: false,
            wide: false,
            wide_spacer: false,
        }
    }
}

/// The terminal's default foreground and background (`#rrggbb`) and its
/// cursor color, when it has one.
#[derive(Clone, Debug, PartialEq, Eq)]
pub struct TerminalColors {
    pub foreground: String,
    pub background: String,
    pub cursor: Option<String>,
}

impl Default for TerminalColors {
    fn default() -> (r: Self)
        ensures
            r.foreground@.len() == 0 && r.background@.len() == 0 && r.cursor is None,
    {
        TerminalColors { foreground: String::new(), background: String::new(), cursor: None }
    }
}

/// A snapshot of the visible terminal: rows of cells, per-row metadata, the
/// cursor (row and column inside the snapshot; negative when off-screen) and
/// the number of rows scrolled back.
#[derive(Clone, Debug, PartialEq, Eq)]
pub struct TerminalContent {
    pub lines: Vec<Vec<TerminalCell>>,
    pub line_metadata: Vec<TerminalLineMetadata>,
    pub cursor_line: i32,
    pub cursor_col: i32,
    pub cursor_visible: bool,
    pub display_offset: usize,
    pub colors: TerminalColors,
    pub mouse: MouseMode,
}

/// The metadata of a row, or the default where the snapshot records none.
pub open spec fn meta(content: TerminalContent, row: int) -> TerminalLineMetadata {
    if 0 <= row < content.line_metadata@.len() {
        content.line_metadata@[row]
    } else {
        default_metadata()
    }
}

pub fn metadata_at(content: &TerminalContent, row: usize) -> (m: TerminalLineMetadata)
    ensures
        m == meta(*content, row as int),
{
    if row < content.line_metadata.len() {
        content.line_metadata[row]
    } else {
        TerminalLineMetadata::default()
    }
}

/// The cells of a row.
pub open spec fn line(content: TerminalContent, row: int) -> Seq<TerminalCell> {
    content.lines@[row]@
}

/// The number of rows in the snapshot.
pub open spec fn row_count(content: TerminalContent) -> int {
    content.lines@.len() as int
}

/// The length of a row once trailing plain blanks are dropped.
pub open spec fn significant_len(cells: Seq<TerminalCell>) -> nat
    decreases cells.len(),
{
    if cells.len() == 0 {
        0
    } else if !is_blank_cell(cells.last()) {
        cells.len()
    } else {
        significant_len(cells.drop_last())
    }
}

pub proof fn lemma_significant_len(cells: Seq<TerminalCell>)
    ensures
        significant_len(cells) <= cells.len(),
        forall|i: int| significant_len(cells) <= i < cells.len() ==> is_blank_cell(#[trigger] cells[i]),
        significant_len(cells) > 0 ==> !is_blank_cell(cells[significant_len(cells) - 1]),
    decreases cells.len(),
{
    if cells.len() > 0 && is_blank_cell(cells.last()) {
        lemma_significant_len(cells.drop_last());
        assert forall|i: int| significant_len(cells) <= i < cells.len() implies is_blank_cell(
            #[trigger] cells[i],
        ) by {
            if i < cells.len() - 1 {
                assert(cells[i] == cells.drop_last()[i]);
            }
        }
        if significant_len(cells) > 0 {
            assert(cells[significant_len(cells) - 1] == cells.drop_last()[significant_len(cells) - 1]);
        }
    }
}

/// Whether a cell's text is exactly one space.
pub fn text_is_space(text: &String) -> (r: bool)
    ensures
        r == (text@ == seq![' ']),
{
    let s = text.as_str();
    if s.unicode_len() != 1 {
        return false;
    }
    let r = s.get_char(0) == ' ';
    proof {
        if r {
            assert(s@ =~= seq![' ']);
        }
    }
    r
}

/// Whether a cell is a space with no attributes.
pub fn is_trimmable_blank(cell: &TerminalCell) -> (r: bool)
    ensures
        r == is_blank_cell(*cell),
{
    text_is_space(&cell.text) && cell.fg.is_none() && cell.bg.is_none() && !cell.bold
        && !cell.italic && !cell.underline && !cell.inverse && !cell.strikeout && !cell.wide
        && !cell.wide_spacer
}

/// The row length without its trailing plain blanks.
pub fn line_significant_len(cells: &[TerminalCell]) -> (n: usize)
    ensures
        n == significant_len(cells@),
{
    let mut n = cells.len();
    assert(cells@.subrange(0, n as int) =~= cells@);
    while n > 0
        invariant
            n <= cells@.len(),
            significant_len(cells@) == significant_len(cells@.subrange(0, n as int)),
        decreases n,
    {
        let ghost prefix = cells@.subrange(0, n as int);
        if !is_trimmable_blank(&cells[n - 1]) {
            return n;
        }
        assert(prefix.drop_last() =~= cells@.subrange(0, n - 1));
        n = n - 1;
    }
    assert(cells@.subrange(0, 0) =~= Seq::<TerminalCell>::empty());
    0
}

/// The number of characters of a cell that count toward text offsets: none
/// for the right half of a double-width character.
pub open spec fn cell_char_count(cell: TerminalCell) -> nat {
    if cell.wide_spacer {
        0
    } else {
        cell.text@.len()
    }
}

/// The number of characters (Unicode scalar values) before `column`, which
/// is how a shell counts positions in its edit buffer.
pub open spec fn char_offset(cells: Seq<TerminalCell>, column: int) -> nat
    decreases column,
{
    if column <= 0 || cells.len() == 0 {
        0
    } else if column > cells.len() {
        char_offset(cells, cells.len() as int)
    } else {
        char_offset(cells, column - 1) + cell_char_count(cells[column - 1])
    }
}

pub proof fn lemma_char_offset_monotone(cells: Seq<TerminalCell>, a: int, b: int)
    ensures
        a <= b ==> char_offset(cells, a) <= char_offset(cells, b),
    decreases b - a,
{
    if a < b {
        if b > cells.len() && cells.len() > 0 {
            if a <= cells.len() {
                lemma_char_offset_monotone(cells, a, cells.len() as int);
            }
        } else {
            lemma_char_offset_monotone(cells, a, b - 1);
        }
    }
}

/// The character offset of a column, counted from the start of the row.
pub fn character_offset(cells: &[TerminalCell], column: usize) -> (n: usize)
    requires
        char_offset(cells@, column as int) <= usize::MAX,
    ensures
        n == char_offset(cells@, column as int),
{
    let end = if column < cells.len() {
        column
    } else {
        cells.len()
    };
    proof {
        if column > cells.len() && cells.len() > 0 {
            assert(char_offset(cells@, column as int) == char_offset(cells@, end as int));
        }
        lemma_char_offset_monotone(cells@, end as int, column as int);
    }
    let mut i: usize = 0;
    let mut total: usize = 0;
    while i < end
        invariant
            end <= cells@.len(),
            i <= end,
            total == char_offset(cells@, i as int),
            char_offset(cells@, end as int) <= usize::MAX,
            end == column || end == cells@.len(),
        decreases end - i,
    {
        proof {
            lemma_char_offset_monotone(cells@, i + 1, end as int);
        }
        let add = if cells[i].wide_spacer {
            0
        } else {
            cells[i].text.as_str().unicode_len()
        };
        total = total + add;
        i = i + 1;
    }
    if column > cells.len() && cells.len() == 0 {
        return 0;
    }
    total
}

/// Whether every cell of the row holds exactly one character and none is the
/// right half of a double-width character, so that columns and character
/// offsets agree.
pub open spec fn visual_offsets(cells: Seq<TerminalCell>) -> bool {
    forall|i: int| 0 <= i < cells.len() ==> {
        &&& !(#[trigger] cells[i]).wide_spacer
        &&& cells[i].text@.len() == 1
    }
}

pub fn uses_visual_character_offsets(cells: &[TerminalCell]) -> (r: bool)
    ensures
        r == visual_offsets(cells@),
{
    let mut i: usize = 0;
    while i < cells.len()
        invariant
            i <= cells@.len(),
            forall|j: int| 0 <= j < i ==> {
                &&& !(#[trigger] cells@[j]).wide_spacer
                &&& cells@[j].text@.len() == 1
            },
        decreases cells.len() - i,
    {
        if cells[i].wide_spacer || cells[i].text.as_str().unicode_len() != 1 {
            return false;
        }
        i = i + 1;
    }
    true
}

} // verus!

verus! {

/// The number of cells of the rows before `row`, counting one more per row.
pub open spec fn cells_before(c: TerminalContent, row: int) -> int
    decreases row,
{
    if row <= 0 {
        0
    } else {
        cells_before(c, row - 1) + line(c, row - 1).len() + 1
    }
}

/// The number of text characters of the rows before `row`, counting one more
/// per row.
pub open spec fn chars_before(c: TerminalContent, row: int) -> int
    decreases row,
{
    if row <= 0 {
        0
    } else {
        chars_before(c, row - 1) + char_offset(line(c, row - 1), line(c, row - 1).len() as int) + 1
    }
}

impl TerminalContent {
    /// The snapshot is small enough that every cell count and character count
    /// over its rows, and every row index shifted by the scroll offset, fits
    /// in a `usize`.
    pub open spec fn fits(self) -> bool {
        &&& cells_before(self, row_count(self)) < usize::MAX
        &&& chars_before(self, row_count(self)) < usize::MAX
    }

    /// Every cell position and every character position of the snapshot,
    /// counted across rows, fits an `i32`, so that differences of columns
    /// and of edit-buffer offsets can be taken in `i32`.
    pub open spec fn fits_i32(self) -> bool {
        cells_before(self, row_count(self)) + chars_before(self, row_count(self)) <= i32::MAX
    }
}

pub proof fn lemma_cells_before_monotone(c: TerminalContent, a: int, b: int)
    requires
        a <= b,
    ensures
        cells_before(c, a) <= cells_before(c, b),
        chars_before(c, a) <= chars_before(c, b),
        0 <= a ==> cells_before(c, a) + (b - a) <= cells_before(c, b),
    decreases b - a,
{
    if a < b {
        lemma_cells_before_monotone(c, a, b - 1);
    }
}

/// A row of cells, copied cell by cell.
pub fn duplicate_line(line: &[TerminalCell]) -> (r: Vec<TerminalCell>)
    ensures
        r@ == line@,
{
    let mut out: Vec<TerminalCell> = Vec::new();
    let mut i: usize = 0;
    while i < line.len()
        invariant
            i <= line@.len(),
            out@ == line@.subrange(0, i as int),
        decreases line.len() - i,
    {
        out.push(line[i].duplicate());
        assert(out@ =~= line@.subrange(0, i + 1));
        i = i + 1;
    }
    assert(line@.subrange(0, line@.len() as int) =~= line@);
    out
}

/// The rows of a grid taken by value.
pub open spec fn rows_view(lines: Seq<Vec<TerminalCell>>) -> Seq<Seq<TerminalCell>> {
    lines.map_values(|l: Vec<TerminalCell>| l@)
}

/// The rows of a grid, copied row by row.
pub fn duplicate_lines(lines: &Vec<Vec<TerminalCell>>) -> (r: Vec<Vec<TerminalCell>>)
    ensures
        rows_view(r@) == rows_view(lines@),
{
    let mut out: Vec<Vec<TerminalCell>> = Vec::new();
    let mut i: usize = 0;
    while i < lines.len()
        invariant
            i <= lines@.len(),
            rows_view(out@) == rows_view(lines@).subrange(0, i as int),
        decreases lines.len() - i,
    {
        let row = duplicate_line(lines[i].as_slice());
        let ghost before = rows_view(out@);
        out.push(row);
        assert(rows_view(out@) =~= before.push(row@));
        assert(rows_view(out@) =~= rows_view(lines@).subrange(0, i + 1));
        i = i + 1;
    }
    assert(rows_view(lines@).subrange(0, lines@.len() as int) =~= rows_view(lines@));
    out
}

} // verus!
