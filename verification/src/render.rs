use crate::cell_text::{cell_text, cells_text, is_wide_spacer, push_cell_text};
use crate::input_rows::{lemma_wrap_start, wrap_joins_previous, wrap_start};
use crate::selection::{GridPoint, SelectionRange};
use crate::terminal_grid::{
    is_blank_cell, lemma_significant_len, line, line_significant_len, row_count, significant_len, TerminalCell,
    TerminalContent,
};
use crate::text::{push_char, push_str, str_eq};
use vstd::prelude::*;

verus! {

/// The cursor as the view draws it.
#[derive(Clone, Debug, PartialEq, Eq)]
pub struct RenderCursor {
    pub line: i32,
    pub column: i32,
    pub visible: bool,
    pub color: String,
}

/// Whether a rendered row belongs to the scrollback or to the input being
/// typed at the cursor.
#[derive(Clone, Copy, Debug, PartialEq, Eq, Structural)]
pub enum RenderRegion {
    History,
    Input,
}

/// One rendered row: its text, Pango markup, drawable cells and style runs.
#[derive(Clone, Debug, PartialEq, Eq)]
pub struct RenderLine {
    pub row: usize,
    pub region: RenderRegion,
    pub text: String,
    pub markup: String,
    pub cells: Vec<RenderCell>,
    pub runs: Vec<RenderRun>,
}

/// One drawable cell: its column, its width in columns and its text.
#[derive(Clone, Debug, PartialEq, Eq)]
pub struct RenderCell {
    pub column: usize,
    pub columns: usize,
    pub text: String,
    pub style: RenderStyle,
}

/// Adjacent cells of one style drawn together.
#[derive(Clone, Debug, PartialEq, Eq)]
pub struct RenderRun {
    pub start_column: usize,
    pub columns: usize,
    pub text: String,
    pub style: RenderStyle,
}

/// How a cell is drawn; selected cells take the selection background.
#[derive(Clone, Debug, PartialEq, Eq)]
pub struct RenderStyle {
    pub fg: Option<String>,
    pub bg: Option<String>,
    pub bold: bool,
    pub italic: bool,
    pub underline: bool,
    pub strikeout: bool,
    pub selected: bool,
}

/// A whole rendered snapshot: history and input markup, the cursor, the
/// text of the cursor row and every row.
#[derive(Clone, Debug, PartialEq, Eq)]
pub struct RenderFrame {
    pub history_markup: String,
    pub input_markup: String,
    pub cursor: RenderCursor,
    pub input_text: String,
    pub lines: Vec<RenderLine>,
}

/// A rendered snapshot without the per-row structure.
#[derive(Clone, Debug, PartialEq, Eq)]
pub struct RenderOutput {
    pub history_markup: String,
    pub input_markup: String,
    pub cursor: RenderCursor,
    pub input_text: String,
}

/// Turns terminal snapshots into markup and drawable rows.
pub struct Renderer;

/// A style taken by value, colors as character sequences.
pub struct StyleView {
    pub fg: Option<Seq<char>>,
    pub bg: Option<Seq<char>>,
    pub bold: bool,
    pub italic: bool,
    pub underline: bool,
    pub strikeout: bool,
    pub selected: bool,
}

pub struct CellView {
    pub column: int,
    pub columns: int,
    pub text: Seq<char>,
    pub style: StyleView,
}

pub struct RunView {
    pub start_column: int,
    pub columns: int,
    pub text: Seq<char>,
    pub style: StyleView,
}

pub struct LineView {
    pub row: int,
    pub region: RenderRegion,
    pub text: Seq<char>,
    pub markup: Seq<char>,
    pub cells: Seq<CellView>,
    pub runs: Seq<RunView>,
}

pub open spec fn opt_text(o: Option<String>) -> Option<Seq<char>> {
    match o {
        Some(s) => Some(s@),
        None => None,
    }
}

impl View for RenderStyle {
    type V = StyleView;

    open spec fn view(&self) -> StyleView {
        StyleView {
            fg: opt_text(self.fg),
            bg: opt_text(self.bg),
            bold: self.bold,
            italic: self.italic,
            underline: self.underline,
            strikeout: self.strikeout,
            selected: self.selected,
        }
    }
}

impl View for RenderCell {
    type V = CellView;

    open spec fn view(&self) -> CellView {
        CellView {
            column: self.column as int,
            columns: self.columns as int,
            text: self.text@,
            style: self.style@,
        }
    }
}

impl View for RenderRun {
    type V = RunView;

    open spec fn view(&self) -> RunView {
        RunView {
            start_column: self.start_column as int,
            columns: self.columns as int,
            text: self.text@,
            style: self.style@,
        }
    }
}

impl View for RenderLine {
    type V = LineView;

    open spec fn view(&self) -> LineView {
        LineView {
            row: self.row as int,
            region: self.region,
            text: self.text@,
            markup: self.markup@,
            cells: self.cells@.map_values(|c: RenderCell| c@),
            runs: self.runs@.map_values(|r: RenderRun| r@),
        }
    }
}

/// The style a cell is drawn with, by its attributes and whether it is
/// selected.
pub open spec fn style_of(cell: TerminalCell, selected: bool) -> StyleView {
    StyleView {
        fg: opt_text(cell.fg),
        bg: opt_text(cell.bg),
        bold: cell.bold,
        italic: cell.italic,
        underline: cell.underline,
        strikeout: cell.strikeout,
        selected,
    }
}

/// The background of a selected cell.
pub open spec fn selection_background() -> Seq<char> {
    seq!['#', '2', '6', '4', 'f', '7', '8']
}

/// The style handed out for drawing: a selected cell takes the selection
/// background.
pub open spec fn render_style_spec(s: StyleView) -> StyleView {
    StyleView {
        bg: if s.selected {
            Some(selection_background())
        } else {
            s.bg
        },
        ..s
    }
}

/// A run of text as a span of its own: the foreground and the attributes
/// in the opening tag (the background is painted apart), the text escaped.
pub open spec fn run_markup_spec(s: StyleView, text: Seq<char>) -> Seq<char> {
    "<span"@ + match s.fg {
        Some(fg) => " foreground=\""@ + fg + "\""@,
        None => Seq::empty(),
    } + attribute_if(s.bold, " weight=\"bold\""@) + attribute_if(s.italic, " style=\"italic\""@)
        + attribute_if(s.underline, " underline=\"single\""@) + attribute_if(
        s.strikeout,
        " strikethrough=\"true\""@,
    ) + ">"@ + escape_text(text) + "</span>"@
}

pub fn run_markup(style: &RenderStyle, text: &str) -> (r: String)
    ensures
        r@ == run_markup_spec(style@, text@),
{
    let mut span = String::new();
    push_str(&mut span, "<span");
    match &style.fg {
        Some(fg) => {
            push_str(&mut span, " foreground=\"");
            push_str(&mut span, fg.as_str());
            push_str(&mut span, "\"");
        },
        None => {},
    }
    let ghost after_fg = span@;
    if style.bold {
        push_str(&mut span, " weight=\"bold\"");
    }
    let ghost after_bold = span@;
    if style.italic {
        push_str(&mut span, " style=\"italic\"");
    }
    let ghost after_italic = span@;
    if style.underline {
        push_str(&mut span, " underline=\"single\"");
    }
    let ghost after_underline = span@;
    if style.strikeout {
        push_str(&mut span, " strikethrough=\"true\"");
    }
    push_str(&mut span, ">");
    let ghost head = span@;
    let n = text.unicode_len();
    let mut i: usize = 0;
    while i < n
        invariant
            n == text@.len(),
            i <= n,
            span@ == head + escape_text(text@.subrange(0, i as int)),
        decreases n - i,
    {
        push_escaped_char(&mut span, text.get_char(i));
        proof {
            assert(text@.subrange(0, i + 1).drop_last() =~= text@.subrange(0, i as int));
        }
        i = i + 1;
    }
    push_str(&mut span, "</span>");
    proof {
        assert(text@.subrange(0, n as int) =~= text@);
        let s = style@;
        let fg_part = match s.fg {
            Some(fg) => " foreground=\""@ + fg + "\""@,
            None => Seq::<char>::empty(),
        };
        assert(after_fg =~= "<span"@ + fg_part);
        assert(after_bold =~= "<span"@ + fg_part + attribute_if(s.bold, " weight=\"bold\""@));
        assert(span@ =~= run_markup_spec(s, text@));
    }
    span
}

/// Whether the cell at `(row, column)` lies in the selection.
pub open spec fn selected_at(selection: Option<SelectionRange>, row: int, column: int) -> bool {
    match selection {
        Some(range) => range.contains_spec(GridPoint { row: row as usize, column: column as usize }),
        None => false,
    }
}

pub open spec fn style_at(cells: Seq<TerminalCell>, row: int, selection: Option<SelectionRange>, i: int) -> StyleView {
    style_of(cells[i], selected_at(selection, row, i))
}

/// The first index from `j` on whose cell is not drawn in `style`.
pub open spec fn run_end(
    cells: Seq<TerminalCell>,
    row: int,
    selection: Option<SelectionRange>,
    style: StyleView,
    j: int,
) -> int
    decreases cells.len() - j,
{
    if 0 <= j < cells.len() && style_at(cells, row, selection, j) == style {
        run_end(cells, row, selection, style, j + 1)
    } else {
        j
    }
}

pub proof fn lemma_run_end(
    cells: Seq<TerminalCell>,
    row: int,
    selection: Option<SelectionRange>,
    style: StyleView,
    j: int,
)
    requires
        0 <= j <= cells.len(),
    ensures
        j <= run_end(cells, row, selection, style, j) <= cells.len(),
    decreases cells.len() - j,
{
    if 0 <= j < cells.len() && style_at(cells, row, selection, j) == style {
        lemma_run_end(cells, row, selection, style, j + 1);
    }
}

/// A character as Pango markup: `&`, `<` and `>` escaped.
pub open spec fn escape_char(ch: char) -> Seq<char> {
    if ch == '&' {
        seq!['&', 'a', 'm', 'p', ';']
    } else if ch == '<' {
        seq!['&', 'l', 't', ';']
    } else if ch == '>' {
        seq!['&', 'g', 't', ';']
    } else {
        seq![ch]
    }
}

pub open spec fn escape_text(text: Seq<char>) -> Seq<char>
    decreases text.len(),
{
    if text.len() == 0 {
        Seq::empty()
    } else {
        escape_text(text.drop_last()) + escape_char(text.last())
    }
}

/// A cell as markup: nothing for the right half of a wide character.
pub open spec fn escaped_cell(cell: TerminalCell) -> Seq<char> {
    if cell.wide_spacer {
        Seq::empty()
    } else {
        escape_text(cell.text@)
    }
}

/// The markup of the cells from `a` up to `b`.
pub open spec fn escaped_range(cells: Seq<TerminalCell>, a: int, b: int) -> Seq<char>
    decreases b - a,
{
    if a >= b {
        Seq::empty()
    } else {
        escaped_range(cells, a, b - 1) + escaped_cell(cells[b - 1])
    }
}

/// The text of the cells from `a` up to `b`.
pub open spec fn text_range(cells: Seq<TerminalCell>, a: int, b: int) -> Seq<char>
    decreases b - a,
{
    if a >= b {
        Seq::empty()
    } else {
        text_range(cells, a, b - 1) + cell_text(cells[b - 1])
    }
}

/// An attribute of the opening tag, present when `on`.
pub open spec fn attribute_if(on: bool, text: Seq<char>) -> Seq<char> {
    if on {
        text
    } else {
        Seq::empty()
    }
}

/// The opening `<span ...>` tag of a style.
pub open spec fn style_open_spec(s: StyleView) -> Seq<char> {
    "<span"@ + match s.fg {
        Some(fg) => " foreground=\""@ + fg + "\""@,
        None => Seq::empty(),
    } + if s.selected {
        " background=\"#264f78\""@
    } else {
        match s.bg {
            Some(bg) => " background=\""@ + bg + "\""@,
            None => Seq::empty(),
        }
    } + attribute_if(s.bold, " weight=\"bold\""@) + attribute_if(s.italic, " style=\"italic\""@)
        + attribute_if(s.underline, " underline=\"single\""@) + attribute_if(
        s.strikeout,
        " strikethrough=\"true\""@,
    ) + ">"@
}

/// The markup of the cells from `idx` on: each maximal run of one style as
/// a span.
pub open spec fn markup_from(cells: Seq<TerminalCell>, row: int, selection: Option<SelectionRange>, idx: int) -> Seq<
    char,
>
    decreases cells.len() - idx,
{
    if idx < 0 || idx >= cells.len() {
        Seq::empty()
    } else {
        let style = style_at(cells, row, selection, idx);
        let end = run_end(cells, row, selection, style, idx + 1);
        proof {
            lemma_run_end(cells, row, selection, style, idx + 1);
        }
        style_open_spec(style) + escaped_range(cells, idx, end) + "</span>"@ + markup_from(
            cells,
            row,
            selection,
            end,
        )
    }
}

/// The style runs of the cells from `idx` on; a run with no text (only
/// wide-character halves) is left out.
pub open spec fn runs_from(cells: Seq<TerminalCell>, row: int, selection: Option<SelectionRange>, idx: int) -> Seq<
    RunView,
>
    decreases cells.len() - idx,
{
    if idx < 0 || idx >= cells.len() {
        Seq::empty()
    } else {
        let style = style_at(cells, row, selection, idx);
        let end = run_end(cells, row, selection, style, idx + 1);
        proof {
            lemma_run_end(cells, row, selection, style, idx + 1);
        }
        let text = text_range(cells, idx, end);
        let rest = runs_from(cells, row, selection, end);
        if text.len() > 0 {
            seq![
                RunView {
                    start_column: idx,
                    columns: end - idx,
                    text,
                    style: render_style_spec(style),
                },
            ] + rest
        } else {
            rest
        }
    }
}

/// The texts of runs, one after another.
pub open spec fn runs_text(runs: Seq<RunView>) -> Seq<char>
    decreases runs.len(),
{
    if runs.len() == 0 {
        Seq::empty()
    } else {
        runs[0].text + runs_text(runs.drop_first())
    }
}

proof fn lemma_text_range_split(cells: Seq<TerminalCell>, a: int, b: int, c: int)
    requires
        a <= b <= c,
    ensures
        text_range(cells, a, c) == text_range(cells, a, b) + text_range(cells, b, c),
    decreases c - b,
{
    if b < c {
        lemma_text_range_split(cells, a, b, c - 1);
        assert(text_range(cells, a, c) =~= text_range(cells, a, b) + text_range(cells, b, c));
    } else {
        assert(text_range(cells, a, c) =~= text_range(cells, a, b) + Seq::<char>::empty());
    }
}

proof fn lemma_runs_text_from(cells: Seq<TerminalCell>, row: int, selection: Option<SelectionRange>, idx: int)
    requires
        0 <= idx <= cells.len(),
    ensures
        runs_text(runs_from(cells, row, selection, idx)) == text_range(cells, idx, cells.len() as int),
    decreases cells.len() - idx,
{
    if idx == cells.len() {
        assert(text_range(cells, idx, cells.len() as int) =~= Seq::<char>::empty());
    } else {
        let style = style_at(cells, row, selection, idx);
        let end = run_end(cells, row, selection, style, idx + 1);
        lemma_run_end(cells, row, selection, style, idx + 1);
        lemma_runs_text_from(cells, row, selection, end);
        lemma_text_range_split(cells, idx, end, cells.len() as int);
        let text = text_range(cells, idx, end);
        let rest = runs_from(cells, row, selection, end);
        if text.len() > 0 {
            let run = RunView {
                start_column: idx,
                columns: end - idx,
                text,
                style: render_style_spec(style),
            };
            let all = seq![run] + rest;
            assert(all[0] == run);
            assert(all.drop_first() =~= rest);
        } else {
            assert(text =~= Seq::<char>::empty());
            assert(text + text_range(cells, end, cells.len() as int) =~= text_range(
                cells,
                end,
                cells.len() as int,
            ));
        }
    }
}

/// The style runs of a row, read one after another, spell exactly the
/// row's text.
pub proof fn law_runs_spell_line_text(c: TerminalContent, selection: Option<SelectionRange>, row: int)
    ensures
        runs_text(line_view(c, selection, row).runs) == line_view(c, selection, row).text,
{
    let cells = significant_cells(line(c, row));
    lemma_runs_text_from(cells, row, selection, 0);
}

/// A selection changes how a row is drawn, never its text.
pub proof fn law_selection_keeps_text(
    c: TerminalContent,
    a: Option<SelectionRange>,
    b: Option<SelectionRange>,
    row: int,
)
    ensures
        line_view(c, a, row).text == line_view(c, b, row).text,
        line_view(c, a, row).region == line_view(c, b, row).region,
{
}

/// Whether runs stand left to right, each at least one column wide and
/// none overlapping the next, all within the first `width` columns.
pub open spec fn runs_in_column_order(runs: Seq<RunView>, from: int, width: int) -> bool
    decreases runs.len(),
{
    if runs.len() == 0 {
        true
    } else {
        from <= runs[0].start_column && runs[0].columns >= 1 && runs[0].start_column
            + runs[0].columns <= width && runs_in_column_order(
            runs.drop_first(),
            runs[0].start_column + runs[0].columns,
            width,
        )
    }
}

proof fn lemma_runs_order_from(cells: Seq<TerminalCell>, row: int, selection: Option<SelectionRange>, idx: int, from: int)
    requires
        0 <= from <= idx <= cells.len(),
    ensures
        runs_in_column_order(runs_from(cells, row, selection, idx), from, cells.len() as int),
    decreases cells.len() - idx,
{
    if idx < cells.len() {
        let style = style_at(cells, row, selection, idx);
        let end = run_end(cells, row, selection, style, idx + 1);
        lemma_run_end(cells, row, selection, style, idx + 1);
        let rest = runs_from(cells, row, selection, end);
        let text = text_range(cells, idx, end);
        if text.len() > 0 {
            lemma_runs_order_from(cells, row, selection, end, end);
            let run = RunView {
                start_column: idx,
                columns: end - idx,
                text,
                style: render_style_spec(style),
            };
            let all = seq![run] + rest;
            assert(all[0] == run);
            assert(all.drop_first() =~= rest);
        } else {
            lemma_runs_order_from(cells, row, selection, end, from);
        }
    }
}

/// The style runs of a row stand left to right without overlapping, each
/// covering at least one of the row's significant columns.
pub proof fn law_runs_in_column_order(c: TerminalContent, selection: Option<SelectionRange>, row: int)
    ensures
        runs_in_column_order(
            line_view(c, selection, row).runs,
            0,
            significant_len(line(c, row)) as int,
        ),
{
    let cells = significant_cells(line(c, row));
    lemma_significant_len(line(c, row));
    lemma_runs_order_from(cells, row, selection, 0, 0);
}

/// Whether `part` stands somewhere inside `whole`.
pub open spec fn occurs_in(part: Seq<char>, whole: Seq<char>) -> bool {
    exists|i: int|
        0 <= i && i + part.len() <= whole.len() && #[trigger] whole.subrange(i, i + part.len()) == part
}

proof fn lemma_occurs_at(part: Seq<char>, whole: Seq<char>, before: Seq<char>, after: Seq<char>)
    requires
        whole == before + part + after,
    ensures
        occurs_in(part, whole),
{
    let i = before.len() as int;
    assert(whole.subrange(i, i + part.len()) =~= part);
}

proof fn lemma_occurs_append(part: Seq<char>, whole: Seq<char>, right: Seq<char>)
    requires
        occurs_in(part, whole),
    ensures
        occurs_in(part, whole + right),
{
    let i = choose|i: int|
        0 <= i && i + part.len() <= whole.len() && #[trigger] whole.subrange(i, i + part.len()) == part;
    assert((whole + right).subrange(i, i + part.len()) =~= whole.subrange(i, i + part.len()));
}

proof fn lemma_occurs_extend(part: Seq<char>, whole: Seq<char>, left: Seq<char>, right: Seq<char>)
    requires
        occurs_in(part, whole),
    ensures
        occurs_in(part, left + whole + right),
{
    let i = choose|i: int|
        0 <= i && i + part.len() <= whole.len() && #[trigger] whole.subrange(i, i + part.len()) == part;
    let big = left + whole + right;
    let j = left.len() + i;
    assert(big.subrange(j, j + part.len()) =~= whole.subrange(i, i + part.len()));
}

/// A part found inside a part of a sequence is found inside the sequence.
proof fn lemma_occurs_trans(inner: Seq<char>, middle: Seq<char>, whole: Seq<char>)
    requires
        occurs_in(inner, middle),
        occurs_in(middle, whole),
    ensures
        occurs_in(inner, whole),
{
    let i = choose|i: int|
        0 <= i && i + inner.len() <= middle.len() && #[trigger] middle.subrange(i, i + inner.len()) == inner;
    let j = choose|j: int|
        0 <= j && j + middle.len() <= whole.len() && #[trigger] whole.subrange(j, j + middle.len()) == middle;
    assert(whole.subrange(j + i, j + i + inner.len()) =~= middle.subrange(i, i + inner.len()));
}

/// The background attribute of an opening tag.
pub open spec fn background_attribute(color: Seq<char>) -> Seq<char> {
    " background=\""@ + color + "\""@
}

proof fn lemma_selection_attribute()
    ensures
        " background=\"#264f78\""@ == background_attribute(selection_background()),
{
    reveal_strlit(" background=\"#264f78\"");
    reveal_strlit(" background=\"");
    reveal_strlit("\"");
    assert(" background=\"#264f78\""@ =~= background_attribute(selection_background()));
}

/// The opening tag of an unselected style with a background carries that
/// background; a selected style's tag carries the selection background.
pub proof fn law_style_open_shows_background(s: StyleView)
    ensures
        !s.selected && s.bg is Some ==> occurs_in(background_attribute(s.bg->0), style_open_spec(s)),
        s.selected ==> occurs_in(background_attribute(selection_background()), style_open_spec(s)),
{
    let fg_part = match s.fg {
        Some(fg) => " foreground=\""@ + fg + "\""@,
        None => Seq::<char>::empty(),
    };
    let head = "<span"@ + fg_part;
    let bg_part = if s.selected {
        " background=\"#264f78\""@
    } else {
        match s.bg {
            Some(bg) => " background=\""@ + bg + "\""@,
            None => Seq::<char>::empty(),
        }
    };
    let a1 = attribute_if(s.bold, " weight=\"bold\""@);
    let a2 = attribute_if(s.italic, " style=\"italic\""@);
    let a3 = attribute_if(s.underline, " underline=\"single\""@);
    let a4 = attribute_if(s.strikeout, " strikethrough=\"true\""@);
    assert(style_open_spec(s) == head + bg_part + a1 + a2 + a3 + a4 + ">"@);
    if s.selected || s.bg is Some {
        if s.selected {
            lemma_selection_attribute();
        }
        lemma_occurs_at(bg_part, head + bg_part, head, Seq::empty());
        lemma_occurs_append(bg_part, head + bg_part, a1);
        lemma_occurs_append(bg_part, head + bg_part + a1, a2);
        lemma_occurs_append(bg_part, head + bg_part + a1 + a2, a3);
        lemma_occurs_append(bg_part, head + bg_part + a1 + a2 + a3, a4);
        lemma_occurs_append(bg_part, head + bg_part + a1 + a2 + a3 + a4, ">"@);
    }
}

proof fn lemma_run_keeps_style(
    cells: Seq<TerminalCell>,
    row: int,
    selection: Option<SelectionRange>,
    style: StyleView,
    j: int,
    i: int,
)
    requires
        0 <= j <= i < run_end(cells, row, selection, style, j),
    ensures
        style_at(cells, row, selection, i) == style,
    decreases cells.len() - j,
{
    if i > j {
        lemma_run_keeps_style(cells, row, selection, style, j + 1, i);
    }
}

proof fn lemma_markup_holds_cell_style(
    cells: Seq<TerminalCell>,
    row: int,
    selection: Option<SelectionRange>,
    idx: int,
    i: int,
)
    requires
        0 <= idx <= i < cells.len(),
    ensures
        occurs_in(
            style_open_spec(style_at(cells, row, selection, i)),
            markup_from(cells, row, selection, idx),
        ),
    decreases cells.len() - idx,
{
    let style = style_at(cells, row, selection, idx);
    let end = run_end(cells, row, selection, style, idx + 1);
    lemma_run_end(cells, row, selection, style, idx + 1);
    let tail = escaped_range(cells, idx, end) + "</span>"@ + markup_from(cells, row, selection, end);
    assert(markup_from(cells, row, selection, idx) =~= Seq::<char>::empty() + style_open_spec(style)
        + tail);
    if i < end {
        if i > idx {
            lemma_run_keeps_style(cells, row, selection, style, idx + 1, i);
        }
        lemma_occurs_at(
            style_open_spec(style),
            markup_from(cells, row, selection, idx),
            Seq::<char>::empty(),
            tail,
        );
    } else {
        lemma_markup_holds_cell_style(cells, row, selection, end, i);
        lemma_occurs_extend(
            style_open_spec(style_at(cells, row, selection, i)),
            markup_from(cells, row, selection, end),
            style_open_spec(style) + escaped_range(cells, idx, end) + "</span>"@,
            Seq::empty(),
        );
        assert(markup_from(cells, row, selection, idx) =~= style_open_spec(style) + escaped_range(
            cells,
            idx,
            end,
        ) + "</span>"@ + markup_from(cells, row, selection, end) + Seq::<char>::empty());
    }
}

/// The markup of a row of cells (as `cells_to_markup` gives it) shows the
/// background of every colored cell that is not selected, and the
/// selection background for every selected cell that is drawn.
pub proof fn law_markup_shows_backgrounds(
    cells: Seq<TerminalCell>,
    row: int,
    selection: Option<SelectionRange>,
    i: int,
)
    requires
        0 <= i < cells.len(),
    ensures
        !selected_at(selection, row, i) && cells[i].bg is Some ==> occurs_in(
            background_attribute(cells[i].bg->0@),
            markup_from(significant_cells(cells), row, selection, 0),
        ),
        selected_at(selection, row, i) && i < significant_len(cells) ==> occurs_in(
            background_attribute(selection_background()),
            markup_from(significant_cells(cells), row, selection, 0),
        ),
{
    let sig = significant_cells(cells);
    lemma_significant_len(cells);
    if i < significant_len(cells) {
        assert(sig[i] == cells[i]);
        lemma_markup_holds_cell_style(sig, row, selection, 0, i);
        let style = style_at(sig, row, selection, i);
        law_style_open_shows_background(style);
        if !style.selected && style.bg is Some {
            lemma_occurs_trans(
                background_attribute(style.bg->0),
                style_open_spec(style),
                markup_from(sig, row, selection, 0),
            );
        }
        if style.selected {
            lemma_occurs_trans(
                background_attribute(selection_background()),
                style_open_spec(style),
                markup_from(sig, row, selection, 0),
            );
        }
    } else {
        assert(is_blank_cell(cells[i]));
    }
}

/// The markup of a rendered row shows the background of every colored cell
/// that is not selected, and the selection background for every selected
/// cell that is drawn.
pub proof fn law_row_markup_shows_backgrounds(
    c: TerminalContent,
    selection: Option<SelectionRange>,
    row: int,
    i: int,
)
    requires
        0 <= i < line(c, row).len(),
    ensures
        !selected_at(selection, row, i) && line(c, row)[i].bg is Some ==> occurs_in(
            background_attribute(line(c, row)[i].bg->0@),
            line_view(c, selection, row).markup,
        ),
        selected_at(selection, row, i) && i < significant_len(line(c, row)) ==> occurs_in(
            background_attribute(selection_background()),
            line_view(c, selection, row).markup,
        ),
{
    law_markup_shows_backgrounds(line(c, row), row, selection, i);
}

/// The drawable cells among the first `upto` cells: all but the right
/// halves of wide characters.
pub open spec fn cells_upto(cells: Seq<TerminalCell>, row: int, selection: Option<SelectionRange>, upto: int) -> Seq<
    CellView,
>
    decreases upto,
{
    if upto <= 0 {
        Seq::empty()
    } else {
        let i = upto - 1;
        let before = cells_upto(cells, row, selection, i);
        if cells[i].wide_spacer {
            before
        } else {
            before.push(
                CellView {
                    column: i,
                    columns: if cells[i].wide {
                        2
                    } else {
                        1
                    },
                    text: cells[i].text@,
                    style: render_style_spec(style_at(cells, row, selection, i)),
                },
            )
        }
    }
}

/// A row without its trailing plain blanks.
pub open spec fn significant_cells(cells: Seq<TerminalCell>) -> Seq<TerminalCell> {
    cells.subrange(0, significant_len(cells) as int)
}

/// A style as the renderer compares and opens it.
#[derive(Clone, Debug)]
pub struct CellStyle {
    pub fg: Option<String>,
    pub bg: Option<String>,
    pub bold: bool,
    pub italic: bool,
    pub underline: bool,
    pub strikeout: bool,
    pub selected: bool,
}

impl View for CellStyle {
    type V = StyleView;

    open spec fn view(&self) -> StyleView {
        StyleView {
            fg: opt_text(self.fg),
            bg: opt_text(self.bg),
            bold: self.bold,
            italic: self.italic,
            underline: self.underline,
            strikeout: self.strikeout,
            selected: self.selected,
        }
    }
}

fn copy_text(o: &Option<String>) -> (r: Option<String>)
    ensures
        opt_text(r) == opt_text(*o),
{
    match o {
        Some(s) => Some(s.clone()),
        None => None,
    }
}

fn same_text(a: &Option<String>, b: &Option<String>) -> (r: bool)
    ensures
        r == (opt_text(*a) == opt_text(*b)),
{
    match (a, b) {
        (Some(x), Some(y)) => str_eq(x.as_str(), y.as_str()),
        (None, None) => true,
        _ => false,
    }
}

impl CellStyle {
    pub fn from_cell(cell: &TerminalCell, selected: bool) -> (r: Self)
        ensures
            r@ == style_of(*cell, selected),
    {
        CellStyle {
            fg: copy_text(&cell.fg),
            bg: copy_text(&cell.bg),
            bold: cell.bold,
            italic: cell.italic,
            underline: cell.underline,
            strikeout: cell.strikeout,
            selected,
        }
    }

    pub fn into_render_style(self) -> (r: RenderStyle)
        ensures
            r@ == render_style_spec(self@),
    {
        let bg = if self.selected {
            let mut s = String::new();
            push_str(&mut s, "#264f78");
            proof {
                reveal_strlit("#264f78");
                assert(s@ =~= selection_background());
            }
            Some(s)
        } else {
            self.bg
        };
        RenderStyle {
            fg: self.fg,
            bg,
            bold: self.bold,
            italic: self.italic,
            underline: self.underline,
            strikeout: self.strikeout,
            selected: self.selected,
        }
    }

    fn same(&self, other: &CellStyle) -> (r: bool)
        ensures
            r == (self@ == other@),
    {
        same_text(&self.fg, &other.fg) && same_text(&self.bg, &other.bg) && self.bold == other.bold
            && self.italic == other.italic && self.underline == other.underline && self.strikeout
            == other.strikeout && self.selected == other.selected
    }
}

/// The opening `<span ...>` tag of a style.
pub fn style_open(style: &CellStyle) -> (r: String)
    ensures
        r@ == style_open_spec(style@),
{
    let mut span = String::new();
    push_str(&mut span, "<span");
    let ghost after_tag = span@;
    match &style.fg {
        Some(rgb) => {
            push_str(&mut span, " foreground=\"");
            push_str(&mut span, rgb.as_str());
            push_str(&mut span, "\"");
        },
        None => {},
    }
    let ghost after_fg = span@;
    if style.selected {
        push_str(&mut span, " background=\"#264f78\"");
    } else {
        match &style.bg {
            Some(bg) => {
                push_str(&mut span, " background=\"");
                push_str(&mut span, bg.as_str());
                push_str(&mut span, "\"");
            },
            None => {},
        }
    }
    let ghost after_bg = span@;
    if style.bold {
        push_str(&mut span, " weight=\"bold\"");
    }
    let ghost after_bold = span@;
    if style.italic {
        push_str(&mut span, " style=\"italic\"");
    }
    let ghost after_italic = span@;
    if style.underline {
        push_str(&mut span, " underline=\"single\"");
    }
    let ghost after_underline = span@;
    if style.strikeout {
        push_str(&mut span, " strikethrough=\"true\"");
    }
    let ghost after_strike = span@;
    push_str(&mut span, ">");
    proof {
        let s = style@;
        let fg_part = match s.fg {
            Some(fg) => " foreground=\""@ + fg + "\""@,
            None => Seq::<char>::empty(),
        };
        let bg_part = if s.selected {
            " background=\"#264f78\""@
        } else {
            match s.bg {
                Some(bg) => " background=\""@ + bg + "\""@,
                None => Seq::<char>::empty(),
            }
        };
        assert(after_fg =~= "<span"@ + fg_part);
        assert(after_bg =~= "<span"@ + fg_part + bg_part);
        assert(after_bold =~= "<span"@ + fg_part + bg_part + attribute_if(s.bold, " weight=\"bold\""@));
        assert(span@ =~= style_open_spec(s));
    }
    span
}

/// Whether the cell at `(row, column)` lies in the selection.
pub fn is_selected(selection: Option<SelectionRange>, row: usize, column: usize) -> (r: bool)
    ensures
        r == selected_at(selection, row as int, column as int),
{
    match selection {
        Some(range) => range.contains(GridPoint { row, column }),
        None => false,
    }
}

/// Appends a character as Pango markup.
pub fn push_escaped_char(out: &mut String, ch: char)
    ensures
        final(out)@ == old(out)@ + escape_char(ch),
{
    if ch == '&' {
        push_str(out, "&amp;");
        proof {
            reveal_strlit("&amp;");
        }
    } else if ch == '<' {
        push_str(out, "&lt;");
        proof {
            reveal_strlit("&lt;");
        }
    } else if ch == '>' {
        push_str(out, "&gt;");
        proof {
            reveal_strlit("&gt;");
        }
    } else {
        push_char(out, ch);
    }
    assert(final(out)@ =~= old(out)@ + escape_char(ch));
}

/// Appends a cell as Pango markup; nothing for the right half of a wide
/// character.
pub fn push_escaped_cell(out: &mut String, cell: &TerminalCell)
    ensures
        final(out)@ == old(out)@ + escaped_cell(*cell),
{
    if is_wide_spacer(cell) {
        assert(old(out)@ + escaped_cell(*cell) =~= old(out)@);
        return ;
    }
    let text = cell.text.as_str();
    let n = text.unicode_len();
    let ghost start = out@;
    let mut i: usize = 0;
    while i < n
        invariant
            n == text@.len(),
            text@ == cell.text@,
            i <= n,
            out@ == start + escape_text(text@.subrange(0, i as int)),
        decreases n - i,
    {
        push_escaped_char(out, text.get_char(i));
        proof {
            assert(text@.subrange(0, i + 1).drop_last() =~= text@.subrange(0, i as int));
        }
        i = i + 1;
    }
    assert(text@.subrange(0, n as int) =~= text@);
}

/// The text of a row without its trailing plain blanks.
pub fn cells_to_text(cells: &[TerminalCell]) -> (r: String)
    ensures
        r@ == cells_text(significant_cells(cells@)),
{
    let n = line_significant_len(cells);
    proof {
        lemma_significant_len(cells@);
    }
    let mut out = String::new();
    let mut i: usize = 0;
    while i < n
        invariant
            n == significant_len(cells@),
            n <= cells@.len(),
            i <= n,
            out@ == cells_text(cells@.subrange(0, i as int)),
        decreases n - i,
    {
        push_cell_text(&mut out, &cells[i]);
        proof {
            assert(cells@.subrange(0, i + 1).drop_last() =~= cells@.subrange(0, i as int));
        }
        i = i + 1;
    }
    out
}

proof fn lemma_text_range_is_cells_text(cells: Seq<TerminalCell>, b: int)
    requires
        0 <= b <= cells.len(),
    ensures
        text_range(cells, 0, b) == cells_text(cells.subrange(0, b)),
    decreases b,
{
    if b > 0 {
        lemma_text_range_is_cells_text(cells, b - 1);
        assert(cells.subrange(0, b).drop_last() =~= cells.subrange(0, b - 1));
    }
}

/// What the rendering of one row holds.
pub struct LineRender {
    pub text: String,
    pub markup: String,
    pub cells: Vec<RenderCell>,
    pub runs: Vec<RenderRun>,
}

/// Renders one row: its text, markup, drawable cells and style runs.
pub fn build_line_render(cells: &[TerminalCell], row: usize, selection: Option<SelectionRange>) -> (r:
    LineRender)
    ensures
        r.text@ == text_range(significant_cells(cells@), 0, significant_cells(cells@).len() as int),
        r.markup@ == markup_from(significant_cells(cells@), row as int, selection, 0),
        r.cells@.map_values(|c: RenderCell| c@) == cells_upto(
            significant_cells(cells@),
            row as int,
            selection,
            significant_cells(cells@).len() as int,
        ),
        r.runs@.map_values(|x: RenderRun| x@) == runs_from(
            significant_cells(cells@),
            row as int,
            selection,
            0,
        ),
{
    let n = line_significant_len(cells);
    proof {
        lemma_significant_len(cells@);
    }
    let ghost sig = significant_cells(cells@);
    let mut text = String::new();
    let mut markup = String::new();
    let mut render_cells: Vec<RenderCell> = Vec::new();
    let mut runs: Vec<RenderRun> = Vec::new();
    let mut idx: usize = 0;
    while idx < n
        invariant
            n == significant_len(cells@),
            n <= cells@.len(),
            sig == significant_cells(cells@),
            sig.len() == n,
            forall|k: int| 0 <= k < n ==> sig[k] == cells@[k],
            idx <= n,
            text@ == text_range(sig, 0, idx as int),
            markup@ + markup_from(sig, row as int, selection, idx as int) == markup_from(
                sig,
                row as int,
                selection,
                0,
            ),
            render_cells@.map_values(|c: RenderCell| c@) == cells_upto(sig, row as int, selection, idx as int),
            runs@.map_values(|x: RenderRun| x@) + runs_from(sig, row as int, selection, idx as int)
                == runs_from(sig, row as int, selection, 0),
        decreases n - idx,
    {
        let start = idx;
        let style = CellStyle::from_cell(&cells[idx], is_selected(selection, row, idx));
        let ghost sv = style@;
        let mut run_text = String::new();
        push_str(&mut markup, style_open(&style).as_str());
        let ghost markup_at_start = markup@;
        proof {
            lemma_run_end(sig, row as int, selection, sv, start + 1);
        }
        let ghost end = run_end(sig, row as int, selection, sv, start + 1);
        let mut more = true;
        let ghost before_run = idx as int;
        while more
            invariant
                n == significant_len(cells@),
                n <= cells@.len(),
                sig == significant_cells(cells@),
                sig.len() == n,
                forall|k: int| 0 <= k < n ==> sig[k] == cells@[k],
                start < n,
                before_run == start,
                sv == style@,
                sv == style_at(sig, row as int, selection, start as int),
                end == run_end(sig, row as int, selection, sv, start + 1),
                start + 1 <= end <= n,
                start <= idx <= end,
                idx > start ==> run_end(sig, row as int, selection, sv, idx as int) == end,
                more ==> idx < n && (idx == start || style_at(sig, row as int, selection, idx as int) == sv),
                !more ==> idx == end,
                text@ == text_range(sig, 0, idx as int),
                run_text@ == text_range(sig, start as int, idx as int),
                markup@ == markup_at_start + escaped_range(sig, start as int, idx as int),
                render_cells@.map_values(|c: RenderCell| c@) == cells_upto(
                    sig,
                    row as int,
                    selection,
                    idx as int,
                ),
            decreases n - idx, (if more {
                1int
            } else {
                0int
            }),
        {
            proof {
                lemma_run_end(sig, row as int, selection, sv, idx + 1);
                if idx > start {
                    assert(run_end(sig, row as int, selection, sv, idx as int) == run_end(
                        sig,
                        row as int,
                        selection,
                        sv,
                        idx + 1,
                    ));
                }
            }
            let cell = &cells[idx];
            push_cell_text(&mut text, cell);
            push_cell_text(&mut run_text, cell);
            push_escaped_cell(&mut markup, cell);
            if !is_wide_spacer(cell) {
                let columns: usize = if cell.wide {
                    2
                } else {
                    1
                };
                let render_style = CellStyle::from_cell(cell, is_selected(selection, row, idx)).into_render_style();
                render_cells.push(
                    RenderCell { column: idx, columns, text: cell.text.clone(), style: render_style },
                );
            }
            proof {
                assert(render_cells@.map_values(|c: RenderCell| c@) =~= cells_upto(
                    sig,
                    row as int,
                    selection,
                    idx + 1,
                ));
            }
            idx = idx + 1;
            if idx < n {
                let next = CellStyle::from_cell(&cells[idx], is_selected(selection, row, idx));
                more = next.same(&style);
                proof {
                    assert(next@ == style_at(sig, row as int, selection, idx as int));
                    if !more {
                        assert(run_end(sig, row as int, selection, sv, idx as int) == idx);
                    }
                }
            } else {
                more = false;
                proof {
                    assert(run_end(sig, row as int, selection, sv, idx as int) == idx);
                }
            }
        }
        push_str(&mut markup, "</span>");
        proof {
            assert(markup_from(sig, row as int, selection, start as int) == style_open_spec(sv)
                + escaped_range(sig, start as int, end) + "</span>"@ + markup_from(
                sig,
                row as int,
                selection,
                end,
            ));
            assert(markup@ + markup_from(sig, row as int, selection, idx as int) =~= markup_from(
                sig,
                row as int,
                selection,
                0,
            ));
        }
        if run_text.unicode_len() > 0 {
            runs.push(
                RenderRun {
                    start_column: start,
                    columns: idx - start,
                    text: run_text,
                    style: style.into_render_style(),
                },
            );
        }
        proof {
            assert(runs@.map_values(|x: RenderRun| x@) + runs_from(sig, row as int, selection, idx as int)
                =~= runs_from(sig, row as int, selection, 0));
        }
    }
    proof {
        assert(markup@ + markup_from(sig, row as int, selection, n as int) =~= markup@);
        assert(runs@.map_values(|x: RenderRun| x@) + runs_from(sig, row as int, selection, n as int)
            =~= runs@.map_values(|x: RenderRun| x@));
    }
    LineRender { text, markup, cells: render_cells, runs }
}

/// The Pango markup of a row: each maximal run of one style as a span,
/// trailing plain blanks left out.
pub fn cells_to_markup(cells: &[TerminalCell], row: usize, selection: Option<SelectionRange>) -> (r: String)
    ensures
        r@ == markup_from(significant_cells(cells@), row as int, selection, 0),
{
    build_line_render(cells, row, selection).markup
}

/// The style runs of a row, trailing plain blanks left out.
pub fn cells_to_runs(cells: &[TerminalCell], row: usize, selection: Option<SelectionRange>) -> (r: Vec<
    RenderRun,
>)
    ensures
        r@.map_values(|x: RenderRun| x@) == runs_from(significant_cells(cells@), row as int, selection, 0),
{
    build_line_render(cells, row, selection).runs
}

/// The rows of the input at the cursor: the soft-wrapped run of rows that
/// ends at the cursor row (clamped to the snapshot).
pub open spec fn input_region(c: TerminalContent) -> (int, int) {
    let cursor = if c.cursor_line > 0 {
        c.cursor_line as int
    } else {
        0
    };
    let last = if row_count(c) > 0 {
        row_count(c) - 1
    } else {
        0
    };
    let end = if cursor < last {
        cursor
    } else {
        last
    };
    (wrap_start(c, end), end)
}

pub open spec fn in_input_region(c: TerminalContent, row: int) -> bool {
    input_region(c).0 <= row <= input_region(c).1
}

/// The first and last row of the input at the cursor.
pub fn input_region_range(content: &TerminalContent) -> (r: (usize, usize))
    ensures
        r.0 as int == input_region(*content).0,
        r.1 as int == input_region(*content).1,
{
    let cursor: usize = if content.cursor_line > 0 {
        content.cursor_line as usize
    } else {
        0
    };
    let last = if content.lines.len() > 0 {
        content.lines.len() - 1
    } else {
        0
    };
    let end = if cursor < last {
        cursor
    } else {
        last
    };
    let mut start = end;
    while start > 0 && wrap_joins_previous(content, start)
        invariant
            start <= end,
            wrap_start(*content, end as int) == wrap_start(*content, start as int),
        decreases start,
    {
        start = start - 1;
    }
    (start, end)
}

pub open spec fn row_markup(c: TerminalContent, selection: Option<SelectionRange>, row: int) -> Seq<char> {
    markup_from(significant_cells(line(c, row)), row, selection, 0)
}

pub open spec fn row_text(c: TerminalContent, row: int) -> Seq<char> {
    text_range(significant_cells(line(c, row)), 0, significant_cells(line(c, row)).len() as int)
}

/// The markup of the history rows among the first `upto`: each row's
/// markup followed by a newline unless it is the last row of the snapshot.
pub open spec fn history_upto(c: TerminalContent, selection: Option<SelectionRange>, upto: int) -> Seq<char>
    decreases upto,
{
    if upto <= 0 {
        Seq::empty()
    } else {
        let row = upto - 1;
        let before = history_upto(c, selection, row);
        if in_input_region(c, row) {
            before
        } else {
            before + row_markup(c, selection, row) + if row + 1 != row_count(c) {
                seq!['\n']
            } else {
                Seq::empty()
            }
        }
    }
}

/// The markup of the input rows among the first `upto`, joined with a
/// newline once some markup is there.
pub open spec fn input_markup_upto(c: TerminalContent, selection: Option<SelectionRange>, upto: int) -> Seq<char>
    decreases upto,
{
    if upto <= 0 {
        Seq::empty()
    } else {
        let row = upto - 1;
        let before = input_markup_upto(c, selection, row);
        if in_input_region(c, row) {
            (if before.len() > 0 {
                before + seq!['\n']
            } else {
                before
            }) + row_markup(c, selection, row)
        } else {
            before
        }
    }
}

/// The text of the cursor row when it lies in the input, among the first
/// `upto` rows (rows compared as `i32`).
pub open spec fn input_text_upto(c: TerminalContent, upto: int) -> Seq<char>
    decreases upto,
{
    if upto <= 0 {
        Seq::empty()
    } else {
        let row = upto - 1;
        if in_input_region(c, row) && (row as i32) == c.cursor_line {
            row_text(c, row)
        } else {
            input_text_upto(c, row)
        }
    }
}

/// The rendering of one row of a frame.
pub open spec fn line_view(c: TerminalContent, selection: Option<SelectionRange>, row: int) -> LineView {
    let cells = significant_cells(line(c, row));
    LineView {
        row,
        region: if in_input_region(c, row) {
            RenderRegion::Input
        } else {
            RenderRegion::History
        },
        text: text_range(cells, 0, cells.len() as int),
        markup: markup_from(cells, row, selection, 0),
        cells: cells_upto(cells, row, selection, cells.len() as int),
        runs: runs_from(cells, row, selection, 0),
    }
}

/// The cursor of a snapshot as drawn, in the view's cursor color.
pub open spec fn cursor_spec(c: TerminalContent, cursor: RenderCursor) -> bool {
    &&& cursor.line == c.cursor_line
    &&& cursor.column == c.cursor_col
    &&& cursor.visible == c.cursor_visible
    &&& cursor.color@ == seq!['#', '7', 'd', 'd', '3', 'f', 'c']
}

fn render_cursor(content: &TerminalContent) -> (r: RenderCursor)
    ensures
        cursor_spec(*content, r),
{
    let mut color = String::new();
    push_str(&mut color, "#7dd3fc");
    proof {
        reveal_strlit("#7dd3fc");
        assert(color@ =~= seq!['#', '7', 'd', 'd', '3', 'f', 'c']);
    }
    RenderCursor {
        line: content.cursor_line,
        column: content.cursor_col,
        visible: content.cursor_visible,
        color,
    }
}

impl Renderer {
    /// Renders a snapshot with nothing selected.
    pub fn render(content: TerminalContent) -> (r: RenderOutput)
        ensures
            r.history_markup@ == history_upto(content, None, row_count(content)),
            r.input_markup@ == input_markup_upto(content, None, row_count(content)),
            r.input_text@ == input_text_upto(content, row_count(content)),
            cursor_spec(content, r.cursor),
    {
        Self::render_with_selection(content, None)
    }

    /// Renders a snapshot: the history rows into one markup, the input rows
    /// at the cursor into another, and the text of the cursor row.
    pub fn render_with_selection(content: TerminalContent, selection: Option<SelectionRange>) -> (r:
        RenderOutput)
        ensures
            r.history_markup@ == history_upto(content, selection, row_count(content)),
            r.input_markup@ == input_markup_upto(content, selection, row_count(content)),
            r.input_text@ == input_text_upto(content, row_count(content)),
            cursor_spec(content, r.cursor),
    {
        let ghost c = content;
        let mut history_markup = String::new();
        let mut input_markup = String::new();
        let mut input_text = String::new();
        let (input_start, input_end) = input_region_range(&content);
        let n = content.lines.len();
        let mut idx: usize = 0;
        while idx < n
            invariant
                c == content,
                n == row_count(c),
                input_start as int == input_region(c).0,
                input_end as int == input_region(c).1,
                idx <= n,
                history_markup@ == history_upto(c, selection, idx as int),
                input_markup@ == input_markup_upto(c, selection, idx as int),
                input_text@ == input_text_upto(c, idx as int),
            decreases n - idx,
        {
            let cells = content.lines[idx].as_slice();
            let markup = cells_to_markup(cells, idx, selection);
            if input_start <= idx && idx <= input_end {
                if input_markup.unicode_len() > 0 {
                    push_char(&mut input_markup, '\n');
                }
                push_str(&mut input_markup, markup.as_str());
                if idx as i32 == content.cursor_line {
                    input_text = cells_to_text(cells);
                    proof {
                        lemma_significant_len(cells@);
                        lemma_text_range_is_cells_text(
                            significant_cells(cells@),
                            significant_cells(cells@).len() as int,
                        );
                        assert(significant_cells(cells@).subrange(
                            0,
                            significant_cells(cells@).len() as int,
                        ) =~= significant_cells(cells@));
                    }
                }
            } else {
                push_str(&mut history_markup, markup.as_str());
                if idx + 1 != n {
                    push_char(&mut history_markup, '\n');
                }
            }
            proof {
                assert(history_markup@ =~= history_upto(c, selection, idx + 1));
                assert(input_markup@ =~= input_markup_upto(c, selection, idx + 1));
            }
            idx = idx + 1;
        }
        let cursor = render_cursor(&content);
        RenderOutput { history_markup, input_markup, cursor, input_text }
    }

    /// Renders a snapshot like `render_with_selection`, and also every row
    /// with its region, text, markup, drawable cells and style runs.
    pub fn render_frame_with_selection(content: TerminalContent, selection: Option<SelectionRange>) -> (r:
        RenderFrame)
        ensures
            r.history_markup@ == history_upto(content, selection, row_count(content)),
            r.input_markup@ == input_markup_upto(content, selection, row_count(content)),
            r.input_text@ == input_text_upto(content, row_count(content)),
            cursor_spec(content, r.cursor),
            r.lines@.len() == row_count(content),
            forall|row: int|
                0 <= row < row_count(content) ==> #[trigger] r.lines@[row]@ == line_view(
                    content,
                    selection,
                    row,
                ),
    {
        let ghost c = content;
        let mut history_markup = String::new();
        let mut input_markup = String::new();
        let mut input_text = String::new();
        let mut lines: Vec<RenderLine> = Vec::new();
        let (input_start, input_end) = input_region_range(&content);
        let n = content.lines.len();
        let mut idx: usize = 0;
        while idx < n
            invariant
                c == content,
                n == row_count(c),
                input_start as int == input_region(c).0,
                input_end as int == input_region(c).1,
                idx <= n,
                history_markup@ == history_upto(c, selection, idx as int),
                input_markup@ == input_markup_upto(c, selection, idx as int),
                input_text@ == input_text_upto(c, idx as int),
                lines@.len() == idx,
                forall|row: int| 0 <= row < idx ==> #[trigger] lines@[row]@ == line_view(c, selection, row),
            decreases n - idx,
        {
            let cells = content.lines[idx].as_slice();
            let line_render = build_line_render(cells, idx, selection);
            let in_input = input_start <= idx && idx <= input_end;
            if in_input {
                if input_markup.unicode_len() > 0 {
                    push_char(&mut input_markup, '\n');
                }
                push_str(&mut input_markup, line_render.markup.as_str());
                if idx as i32 == content.cursor_line {
                    input_text = line_render.text.clone();
                }
            } else {
                push_str(&mut history_markup, line_render.markup.as_str());
                if idx + 1 != n {
                    push_char(&mut history_markup, '\n');
                }
            }
            lines.push(
                RenderLine {
                    row: idx,
                    region: if in_input {
                        RenderRegion::Input
                    } else {
                        RenderRegion::History
                    },
                    text: line_render.text,
                    markup: line_render.markup,
                    cells: line_render.cells,
                    runs: line_render.runs,
                },
            );
            proof {
                assert(history_markup@ =~= history_upto(c, selection, idx + 1));
                assert(input_markup@ =~= input_markup_upto(c, selection, idx + 1));
                assert(lines@[idx as int]@ == line_view(c, selection, idx as int));
            }
            idx = idx + 1;
        }
        let cursor = render_cursor(&content);
        RenderFrame { history_markup, input_markup, cursor, input_text, lines }
    }
}

} // verus!
