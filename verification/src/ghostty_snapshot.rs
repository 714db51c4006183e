use crate::backend::display_limits_spec;
use crate::terminal_grid::{
    duplicate_lines, rows_view, MouseMode, TerminalCell, TerminalColors, TerminalContent,
    TerminalLineMetadata,
};
use crate::text::{push_char, push_str};
use vstd::prelude::*;

verus! {

/// A color as the terminal emulator reports it.
#[derive(Clone, Copy, Debug, PartialEq, Eq, Structural)]
pub struct Rgb {
    pub r: u8,
    pub g: u8,
    pub b: u8,
}

/// A lower-case hexadecimal digit.
pub open spec fn hex_lower(d: int) -> char {
    if d < 10 {
        (48 + d) as char
    } else {
        (87 + d) as char
    }
}

/// Two lower-case hexadecimal digits (`{:02x}`).
pub open spec fn hex_byte(v: u8) -> Seq<char> {
    seq![hex_lower(v as int / 16), hex_lower(v as int % 16)]
}

/// A color as `#rrggbb`.
pub open spec fn rgb_hex_spec(c: Rgb) -> Seq<char> {
    seq!['#'] + hex_byte(c.r) + hex_byte(c.g) + hex_byte(c.b)
}

fn hex_digit_lower(d: u8) -> (c: char)
    requires
        d < 16,
    ensures
        c == hex_lower(d as int),
{
    if d < 10 {
        (48 + d) as char
    } else {
        (87 + d) as char
    }
}

fn push_hex_byte(out: &mut String, v: u8)
    ensures
        final(out)@ == old(out)@ + hex_byte(v),
{
    push_char(out, hex_digit_lower(v / 16));
    push_char(out, hex_digit_lower(v % 16));
    assert(final(out)@ =~= old(out)@ + hex_byte(v));
}

pub fn rgb_to_hex(color: Rgb) -> (r: String)
    ensures
        r@ == rgb_hex_spec(color),
{
    let mut out = String::new();
    push_char(&mut out, '#');
    push_hex_byte(&mut out, color.r);
    push_hex_byte(&mut out, color.g);
    push_hex_byte(&mut out, color.b);
    assert(out@ =~= rgb_hex_spec(color));
    out
}

/// A color as a cell's style names it: none, an entry of the palette, or a
/// direct color.
#[derive(Clone, Copy, Debug, PartialEq, Eq, Structural)]
pub enum StyleColor {
    Unset,
    Palette(u8),
    Direct(Rgb),
}

/// The `#rrggbb` of a style color: a palette entry by its index (none past
/// the palette's end), a direct color itself.
pub open spec fn style_color_hex_spec(color: StyleColor, palette: Seq<Rgb>) -> Option<Seq<char>> {
    match color {
        StyleColor::Unset => None,
        StyleColor::Palette(i) => if (i as int) < palette.len() {
            Some(rgb_hex_spec(palette[i as int]))
        } else {
            None
        },
        StyleColor::Direct(c) => Some(rgb_hex_spec(c)),
    }
}

pub open spec fn opt_chars(o: Option<String>) -> Option<Seq<char>> {
    match o {
        Some(s) => Some(s@),
        None => None,
    }
}

pub fn style_color_to_hex(color: StyleColor, palette: &[Rgb]) -> (r: Option<String>)
    ensures
        opt_chars(r) == style_color_hex_spec(color, palette@),
{
    match color {
        StyleColor::Unset => None,
        StyleColor::Palette(i) => {
            let index = i as usize;
            if index < palette.len() {
                Some(rgb_to_hex(palette[index]))
            } else {
                None
            }
        },
        StyleColor::Direct(c) => Some(rgb_to_hex(c)),
    }
}

/// How a cell takes part in a double-width character.
#[derive(Clone, Copy, Debug, PartialEq, Eq, Structural)]
pub enum CellWidth {
    Narrow,
    Wide,
    SpacerTail,
    SpacerHead,
}

/// The attributes of a cell's style.
#[derive(Clone, Copy, Debug, PartialEq, Eq, Structural)]
pub struct CellStyleAttributes {
    pub fg_color: StyleColor,
    pub bg_color: StyleColor,
    pub bold: bool,
    pub italic: bool,
    pub underline: bool,
    pub inverse: bool,
    pub strikethrough: bool,
}

/// What the emulator reports of one cell.
#[derive(Clone, Debug)]
pub struct EmulatorCell {
    pub has_text: bool,
    pub has_styling: bool,
    pub width: CellWidth,
    /// The cell's graphemes, joined.
    pub graphemes: String,
    /// The colors the render state resolved for the cell, when it did.
    pub fg: Option<Rgb>,
    pub bg: Option<Rgb>,
    pub style: CellStyleAttributes,
}

pub open spec fn is_spacer(w: CellWidth) -> bool {
    w == CellWidth::SpacerTail || w == CellWidth::SpacerHead
}

/// A resolved color, else the style's color.
pub open spec fn cell_color_spec(resolved: Option<Rgb>, style: StyleColor, palette: Seq<Rgb>) -> Option<
    Seq<char>,
> {
    match resolved {
        Some(c) => Some(rgb_hex_spec(c)),
        None => style_color_hex_spec(style, palette),
    }
}

/// The grid cell for an emulator cell: a blank (possibly a spacer) when it
/// has neither text nor styling; else its text (a space when it has none)
/// with its colors and attributes.
pub open spec fn converted_cell(cell: EmulatorCell, palette: Seq<Rgb>, out: TerminalCell) -> bool {
    if !cell.has_text && !cell.has_styling {
        &&& out.text@ == seq![' ']
        &&& out.fg is None
        &&& out.bg is None
        &&& !out.bold && !out.italic && !out.underline && !out.inverse && !out.strikeout
        &&& !out.wide
        &&& out.wide_spacer == is_spacer(cell.width)
    } else {
        &&& out.text@ == (if cell.graphemes@.len() == 0 {
            seq![' ']
        } else {
            cell.graphemes@
        })
        &&& opt_chars(out.fg) == cell_color_spec(cell.fg, cell.style.fg_color, palette)
        &&& opt_chars(out.bg) == cell_color_spec(cell.bg, cell.style.bg_color, palette)
        &&& out.bold == cell.style.bold
        &&& out.italic == cell.style.italic
        &&& out.underline == cell.style.underline
        &&& out.inverse == cell.style.inverse
        &&& out.strikeout == cell.style.strikethrough
        &&& out.wide == (cell.width == CellWidth::Wide)
        &&& out.wide_spacer == is_spacer(cell.width)
    }
}

fn cell_color(resolved: Option<Rgb>, style: StyleColor, palette: &[Rgb]) -> (r: Option<String>)
    ensures
        opt_chars(r) == cell_color_spec(resolved, style, palette@),
{
    match resolved {
        Some(c) => Some(rgb_to_hex(c)),
        None => style_color_to_hex(style, palette),
    }
}

pub fn terminal_cell_from_emulator(cell: &EmulatorCell, palette: &[Rgb]) -> (r: TerminalCell)
    ensures
        converted_cell(*cell, palette@, r),
{
    let spacer = match cell.width {
        CellWidth::SpacerTail => true,
        CellWidth::SpacerHead => true,
        _ => false,
    };
    if !cell.has_text && !cell.has_styling {
        let mut blank = TerminalCell::blank();
        blank.wide_spacer = spacer;
        return blank;
    }
    let text = if cell.graphemes.unicode_len() == 0 {
        let mut space = String::new();
        push_char(&mut space, ' ');
        assert(space@ =~= seq![' ']);
        space
    } else {
        cell.graphemes.clone()
    };
    TerminalCell {
        text,
        fg: cell_color(cell.fg, cell.style.fg_color, palette),
        bg: cell_color(cell.bg, cell.style.bg_color, palette),
        bold: cell.style.bold,
        italic: cell.style.italic,
        underline: cell.style.underline,
        inverse: cell.style.inverse,
        strikeout: cell.style.strikethrough,
        wide: match cell.width {
            CellWidth::Wide => true,
            _ => false,
        },
        wide_spacer: spacer,
    }
}

/// The mouse-reporting modes the emulator has on.
#[derive(Clone, Copy, Debug, PartialEq, Eq, Structural)]
pub struct MouseModeFlags {
    pub normal: bool,
    pub x10: bool,
    pub button: bool,
    pub any: bool,
    pub sgr: bool,
    pub utf8: bool,
}

/// Clicks are reported in normal or X10 mode, drags in button mode, all
/// motion in any-event mode.
pub fn mouse_mode(flags: MouseModeFlags) -> (r: MouseMode)
    ensures
        r == (MouseMode {
            click: flags.normal || flags.x10,
            drag: flags.button,
            motion: flags.any,
            sgr: flags.sgr,
            utf8: flags.utf8,
        }),
{
    MouseMode {
        click: flags.normal || flags.x10,
        drag: flags.button,
        motion: flags.any,
        sgr: flags.sgr,
        utf8: flags.utf8,
    }
}

/// How much of the screen the emulator marked as changed.
#[derive(Clone, Copy, Debug, PartialEq, Eq, Structural)]
pub enum Dirty {
    Clean,
    Partial,
    Full,
}

/// How one snapshot pass goes: whether every row is converted afresh, and
/// whether rows are visited at all.
#[derive(Clone, Copy, Debug, PartialEq, Eq, Structural)]
pub struct SnapshotPass {
    pub rebuild_all: bool,
    pub visit_rows: bool,
}

fn copy_metadata(rows: &Vec<TerminalLineMetadata>) -> (r: Vec<TerminalLineMetadata>)
    ensures
        r@ == rows@,
{
    let mut out: Vec<TerminalLineMetadata> = Vec::new();
    let mut i: usize = 0;
    while i < rows.len()
        invariant
            i <= rows@.len(),
            out@ == rows@.subrange(0, i as int),
        decreases rows.len() - i,
    {
        out.push(rows[i]);
        assert(out@ =~= rows@.subrange(0, i + 1));
        i = i + 1;
    }
    assert(rows@.subrange(0, rows@.len() as int) =~= rows@);
    out
}

/// Keeps the converted rows of the last snapshot so that a snapshot
/// converts only the rows the emulator marked as changed.
pub struct GhosttySnapshotter {
    lines: Vec<Vec<TerminalCell>>,
    line_metadata: Vec<TerminalLineMetadata>,
    converted_rows: usize,
    palette_id: Option<String>,
}

pub open spec fn any_line_not_of_width(lines: Seq<Vec<TerminalCell>>, cols: usize) -> bool {
    exists|i: int| 0 <= i < lines.len() && #[trigger] lines[i]@.len() != cols
}

impl GhosttySnapshotter {
    /// Each kept row has its metadata.
    pub closed spec fn wf(self) -> bool {
        self.lines@.len() == self.line_metadata@.len()
    }

    pub closed spec fn lines_view(self) -> Seq<Vec<TerminalCell>> {
        self.lines@
    }

    pub closed spec fn metadata_view(self) -> Seq<TerminalLineMetadata> {
        self.line_metadata@
    }

    pub closed spec fn converted_view(self) -> nat {
        self.converted_rows as nat
    }

    pub closed spec fn palette_view(self) -> Option<Seq<char>> {
        opt_chars(self.palette_id)
    }

    /// No rows yet, no palette seen.
    pub fn new() -> (r: Self)
        ensures
            r.wf(),
            r.lines_view().len() == 0,
            r.metadata_view().len() == 0,
            r.converted_view() == 0,
            r.palette_view() is None,
    {
        GhosttySnapshotter {
            lines: Vec::new(),
            line_metadata: Vec::new(),
            converted_rows: 0,
            palette_id: None,
        }
    }

    /// Forgets the converted rows, so the next snapshot converts them all.
    pub fn invalidate(&mut self)
        ensures
            final(self).wf(),
            final(self).lines_view().len() == 0,
            final(self).metadata_view().len() == 0,
            final(self).converted_view() == old(self).converted_view(),
            final(self).palette_view() == old(self).palette_view(),
    {
        self.lines = Vec::new();
        self.line_metadata = Vec::new();
    }

    /// Rows converted by the last snapshot.
    pub fn last_converted_rows(&self) -> (r: usize)
        ensures
            r == self.converted_view(),
    {
        self.converted_rows
    }

    /// Starts a snapshot of a screen of `rows` by `cols` in palette
    /// `palette_id`: every row is converted afresh when the emulator marks
    /// the whole screen, the shape or the palette changed; rows are visited
    /// unless the screen is clean and nothing needs a rebuild. A rebuild
    /// starts from no rows.
    pub fn begin(&mut self, dirty: Dirty, rows: usize, cols: usize, palette_id: &str) -> (r: SnapshotPass)
        requires
            old(self).wf(),
        ensures
            final(self).wf(),
            r.rebuild_all == (dirty == Dirty::Full || old(self).lines_view().len() != rows
                || any_line_not_of_width(old(self).lines_view(), cols) || old(self).palette_view()
                != Some(palette_id@)),
            r.visit_rows == (dirty != Dirty::Clean || r.rebuild_all),
            final(self).converted_view() == 0,
            final(self).palette_view() == old(self).palette_view(),
            r.rebuild_all ==> final(self).lines_view().len() == 0,
            !r.rebuild_all ==> final(self).lines_view() == old(self).lines_view()
                && final(self).metadata_view() == old(self).metadata_view(),
    {
        let mut odd_width = false;
        let mut i: usize = 0;
        while i < self.lines.len()
            invariant
                i <= self.lines@.len(),
                odd_width == exists|k: int| 0 <= k < i && #[trigger] self.lines@[k]@.len() != cols,
            decreases self.lines.len() - i,
        {
            if self.lines[i].len() != cols {
                odd_width = true;
            }
            i = i + 1;
        }
        let same_palette = match &self.palette_id {
            Some(p) => crate::text::str_eq(p.as_str(), palette_id),
            None => false,
        };
        let rebuild_all = match dirty {
            Dirty::Full => true,
            _ => false,
        } || self.lines.len() != rows || odd_width || !same_palette;
        let visit_rows = match dirty {
            Dirty::Clean => false,
            _ => true,
        } || rebuild_all;
        self.converted_rows = 0;
        if rebuild_all {
            self.lines = Vec::new();
            self.line_metadata = Vec::new();
        }
        SnapshotPass { rebuild_all, visit_rows }
    }

    /// Whether a row is converted in this pass: all of them in a rebuild,
    /// else those the emulator marked.
    pub fn row_needs_conversion(pass: SnapshotPass, row_dirty: bool) -> (r: bool)
        ensures
            r == (pass.rebuild_all || row_dirty),
    {
        pass.rebuild_all || row_dirty
    }

    /// Keeps a converted row: appended in a rebuild, else in place of row
    /// `index`.
    pub fn store_row(
        &mut self,
        pass: SnapshotPass,
        index: usize,
        line: Vec<TerminalCell>,
        metadata: TerminalLineMetadata,
    )
        requires
            old(self).wf(),
            !pass.rebuild_all ==> index < old(self).lines_view().len(),
            old(self).converted_view() < usize::MAX,
        ensures
            final(self).wf(),
            pass.rebuild_all ==> final(self).lines_view() == old(self).lines_view().push(line)
                && final(self).metadata_view() == old(self).metadata_view().push(metadata),
            !pass.rebuild_all ==> final(self).lines_view() == old(self).lines_view().update(
                index as int,
                line,
            ) && final(self).metadata_view() == old(self).metadata_view().update(
                index as int,
                metadata,
            ),
            final(self).converted_view() == old(self).converted_view() + 1,
            final(self).palette_view() == old(self).palette_view(),
    {
        if pass.rebuild_all {
            self.lines.push(line);
            self.line_metadata.push(metadata);
        } else {
            self.lines.set(index, line);
            self.line_metadata.set(index, metadata);
        }
        self.converted_rows = self.converted_rows + 1;
    }

    /// Ends a pass: the palette is now the one converted with.
    pub fn finish(&mut self, palette_id: &str)
        requires
            old(self).wf(),
        ensures
            final(self).wf(),
            final(self).palette_view() == Some(palette_id@),
            final(self).lines_view() == old(self).lines_view(),
            final(self).metadata_view() == old(self).metadata_view(),
            final(self).converted_view() == old(self).converted_view(),
    {
        self.palette_id = Some(String::from_str(palette_id));
    }

    /// The snapshot: the kept rows, the cursor (row and column, or -1 when
    /// it is off the viewport; visible only when on it), the rows scrolled
    /// back, the colors in `#rrggbb` (the cursor's falling back to the
    /// palette's) and the mouse modes.
    pub fn content(
        &self,
        cursor: Option<(u16, u16)>,
        cursor_shown: bool,
        scrollbar_total: usize,
        scrollbar_len: usize,
        scrollbar_offset: usize,
        foreground: Rgb,
        background: Rgb,
        cursor_color: Option<Rgb>,
        palette_cursor: &str,
        mouse: MouseMode,
    ) -> (r: TerminalContent)
        ensures
            rows_view(r.lines@) == rows_view(self.lines_view()),
            r.line_metadata@ == self.metadata_view(),
            r.cursor_visible == (cursor_shown && cursor is Some),
            r.cursor_line == (match cursor {
                Some(c) => c.1 as i32,
                None => -1i32,
            }),
            r.cursor_col == (match cursor {
                Some(c) => c.0 as i32,
                None => -1i32,
            }),
            r.display_offset == display_limits_spec(
                scrollbar_total,
                scrollbar_len,
                scrollbar_offset,
            ).offset,
            r.colors.foreground@ == rgb_hex_spec(foreground),
            r.colors.background@ == rgb_hex_spec(background),
            opt_chars(r.colors.cursor) == Some(
                match cursor_color {
                    Some(c) => rgb_hex_spec(c),
                    None => palette_cursor@,
                },
            ),
            r.mouse == mouse,
    {
        let (cursor_line, cursor_col) = match cursor {
            Some((x, y)) => (y as i32, x as i32),
            None => (-1i32, -1i32),
        };
        let cursor_hex = match cursor_color {
            Some(c) => rgb_to_hex(c),
            None => String::from_str(palette_cursor),
        };
        let max_offset = scrollbar_total.saturating_sub(scrollbar_len);
        TerminalContent {
            lines: duplicate_lines(&self.lines),
            line_metadata: copy_metadata(&self.line_metadata),
            cursor_line,
            cursor_col,
            cursor_visible: cursor_shown && cursor.is_some(),
            display_offset: max_offset.saturating_sub(scrollbar_offset),
            colors: TerminalColors {
                foreground: rgb_to_hex(foreground),
                background: rgb_to_hex(background),
                cursor: Some(cursor_hex),
            },
            mouse,
        }
    }
}

} // verus!
