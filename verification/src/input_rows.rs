use crate::terminal_grid::{
    default_metadata, is_blank_cell, lemma_significant_len, line, line_significant_len, meta,
    metadata_at, row_count, significant_len, text_is_space, TerminalCell, TerminalContent,
    TerminalSemanticPrompt,
};
use crate::text::{char_is_alphanumeric, is_alphanumeric_char};
use vstd::prelude::*;
use vstd::string::*;

verus! {

/// The first and last row (both included) of the shell input around the
/// cursor.
#[derive(Clone, Copy, Debug, PartialEq, Eq, Structural)]
pub struct InputRows {
    pub start: usize,
    pub end: usize,
}

impl InputRows {
    pub open spec fn has(self, row: int) -> bool {
        self.start <= row <= self.end
    }
}

pub open spec fn prompt_or_continuation(p: TerminalSemanticPrompt) -> bool {
    p == TerminalSemanticPrompt::Prompt || p == TerminalSemanticPrompt::Continuation
}

/// The first row of the run of semantic continuation rows that reaches up
/// from `row`.
pub open spec fn semantic_start(c: TerminalContent, row: int) -> int
    decreases row,
{
    if row > 0 && meta(c, row).semantic_prompt == TerminalSemanticPrompt::Continuation
        && prompt_or_continuation(meta(c, row - 1).semantic_prompt) {
        semantic_start(c, row - 1)
    } else {
        row
    }
}

/// The last row of the run of semantic continuation rows that reaches down
/// from `row`.
pub open spec fn semantic_end(c: TerminalContent, row: int) -> int
    decreases row_count(c) - row,
{
    if row + 1 < row_count(c) && meta(c, row + 1).semantic_prompt
        == TerminalSemanticPrompt::Continuation && prompt_or_continuation(
        meta(c, row).semantic_prompt,
    ) {
        semantic_end(c, row + 1)
    } else {
        row
    }
}

/// The first row of the soft-wrapped run that reaches up from `row`.
pub open spec fn wrap_start(c: TerminalContent, row: int) -> int
    decreases row,
{
    if row > 0 && (meta(c, row).wrap_continuation || meta(c, row - 1).wrapped) {
        wrap_start(c, row - 1)
    } else {
        row
    }
}

/// The last row of the soft-wrapped run that reaches down from `row`.
pub open spec fn wrap_end(c: TerminalContent, row: int) -> int
    decreases row_count(c) - row,
{
    if row + 1 < row_count(c) && (meta(c, row).wrapped || meta(c, row + 1).wrap_continuation) {
        wrap_end(c, row + 1)
    } else {
        row
    }
}

pub proof fn lemma_semantic_start(c: TerminalContent, row: int)
    requires
        0 <= row,
    ensures
        0 <= semantic_start(c, row) <= row,
    decreases row,
{
    if row > 0 && meta(c, row).semantic_prompt == TerminalSemanticPrompt::Continuation
        && prompt_or_continuation(meta(c, row - 1).semantic_prompt) {
        lemma_semantic_start(c, row - 1);
    }
}

pub proof fn lemma_semantic_end(c: TerminalContent, row: int)
    requires
        0 <= row < row_count(c),
    ensures
        row <= semantic_end(c, row) < row_count(c),
    decreases row_count(c) - row,
{
    if row + 1 < row_count(c) && meta(c, row + 1).semantic_prompt
        == TerminalSemanticPrompt::Continuation && prompt_or_continuation(
        meta(c, row).semantic_prompt,
    ) {
        lemma_semantic_end(c, row + 1);
    }
}

pub proof fn lemma_wrap_start(c: TerminalContent, row: int)
    requires
        0 <= row,
    ensures
        0 <= wrap_start(c, row) <= row,
    decreases row,
{
    if row > 0 && (meta(c, row).wrap_continuation || meta(c, row - 1).wrapped) {
        lemma_wrap_start(c, row - 1);
    }
}

pub proof fn lemma_wrap_end(c: TerminalContent, row: int)
    requires
        0 <= row < row_count(c),
    ensures
        row <= wrap_end(c, row) < row_count(c),
    decreases row_count(c) - row,
{
    if row + 1 < row_count(c) && (meta(c, row).wrapped || meta(c, row + 1).wrap_continuation) {
        lemma_wrap_end(c, row + 1);
    }
}

/// Whether a character is one of the prompt marks that end a shell prompt.
pub open spec fn is_prompt_char(ch: char) -> bool {
    ch == '\u{276f}' || ch == '>' || ch == '$' || ch == '#' || ch == '%' || ch == '\u{3bb}' || ch
        == '\u{279c}'
}

pub open spec fn has_prompt_char(text: Seq<char>) -> bool {
    exists|i: int| 0 <= i < text.len() && is_prompt_char(#[trigger] text[i])
}

fn text_has_prompt_char(text: &String) -> (r: bool)
    ensures
        r == has_prompt_char(text@),
{
    let s = text.as_str();
    let n = s.unicode_len();
    let mut i: usize = 0;
    while i < n
        invariant
            n == s@.len(),
            s@ == text@,
            i <= n,
            forall|j: int| 0 <= j < i ==> !is_prompt_char(#[trigger] s@[j]),
        decreases n - i,
    {
        let ch = s.get_char(i);
        if ch == '\u{276f}' || ch == '>' || ch == '$' || ch == '#' || ch == '%' || ch == '\u{3bb}'
            || ch == '\u{279c}' {
            return true;
        }
        i = i + 1;
    }
    false
}

/// The index of the first cell whose text is a single space.
pub open spec fn first_space(cells: Seq<TerminalCell>) -> Option<int>
    decreases cells.len(),
{
    if cells.len() == 0 {
        None
    } else if cells[0].text@ == seq![' '] {
        Some(0)
    } else {
        match first_space(cells.drop_first()) {
            Some(i) => Some(i + 1),
            None => None,
        }
    }
}

pub proof fn lemma_first_space(cells: Seq<TerminalCell>)
    ensures
        match first_space(cells) {
            Some(i) => 0 <= i < cells.len() && cells[i].text@ == seq![' '] && forall|j: int|
                0 <= j < i ==> (#[trigger] cells[j]).text@ != seq![' '],
            None => forall|j: int| 0 <= j < cells.len() ==> (#[trigger] cells[j]).text@ != seq![' '],
        },
    decreases cells.len(),
{
    if cells.len() > 0 && cells[0].text@ != seq![' '] {
        lemma_first_space(cells.drop_first());
        assert forall|j: int| 1 <= j < cells.len() implies cells[j] == cells.drop_first()[j - 1] by {}
    }
}

/// The first space among the significant cells of a row.
pub open spec fn prompt_separator(line: Seq<TerminalCell>) -> Option<int> {
    first_space(line.subrange(0, significant_len(line) as int))
}

fn find_prompt_separator(line: &[TerminalCell]) -> (r: Option<usize>)
    ensures
        match r {
            Some(i) => prompt_separator(line@) == Some(i as int),
            None => prompt_separator(line@) is None,
        },
{
    let significant = line_significant_len(line);
    proof {
        lemma_significant_len(line@);
        lemma_first_space(line@.subrange(0, significant as int));
    }
    let mut i: usize = 0;
    while i < significant
        invariant
            significant == significant_len(line@),
            significant <= line@.len(),
            i <= significant,
            forall|j: int| 0 <= j < i ==> (#[trigger] line@[j]).text@ != seq![' '],
        decreases significant - i,
    {
        if text_is_space(&line[i].text) {
            proof {
                let sub = line@.subrange(0, significant as int);
                assert forall|j: int| 0 <= j < i implies (#[trigger] sub[j]).text@ != seq![' '] by {
                    assert(sub[j] == line@[j]);
                }
                assert(sub[i as int] == line@[i as int]);
                lemma_first_space(sub);
            }
            return Some(i);
        }
        i = i + 1;
    }
    proof {
        let sub = line@.subrange(0, significant as int);
        assert forall|j: int| 0 <= j < sub.len() implies (#[trigger] sub[j]).text@ != seq![' '] by {
            assert(sub[j] == line@[j]);
        }
        lemma_first_space(sub);
    }
    None
}

/// The column where typed input starts on a prompt row: just after the first
/// space among the significant cells, or column 0 when there is none.
pub open spec fn input_start_spec(line: Seq<TerminalCell>) -> int {
    match prompt_separator(line) {
        Some(i) => i + 1,
        None => 0,
    }
}

pub fn input_start_column(line: &[TerminalCell]) -> (r: usize)
    ensures
        r == input_start_spec(line@),
        r <= significant_len(line@),
{
    proof {
        lemma_significant_len(line@);
        lemma_first_space(line@.subrange(0, significant_len(line@) as int));
    }
    let n = line.len();
    match find_prompt_separator(line) {
        Some(i) => {
            assert(i < significant_len(line@));
            assert(i < n);
            i + 1
        },
        None => 0,
    }
}

/// Whether a row carries a prompt that ends in a prompt mark right before the
/// first space (so input starts on this row).
pub open spec fn prompt_leader(line: Seq<TerminalCell>) -> bool {
    match prompt_separator(line) {
        Some(i) => i > 0 && has_prompt_char(line[i - 1].text@),
        None => false,
    }
}

pub fn prompt_leader_before_input(line: &[TerminalCell]) -> (r: bool)
    ensures
        r == prompt_leader(line@),
{
    proof {
        lemma_significant_len(line@);
        lemma_first_space(line@.subrange(0, significant_len(line@) as int));
    }
    match find_prompt_separator(line) {
        Some(separator) => {
            if separator == 0 {
                return false;
            }
            text_has_prompt_char(&line[separator - 1].text)
        },
        None => false,
    }
}

/// The first row from `from` to `to` (both included) that carries a prompt
/// leader.
pub open spec fn first_leader_row(c: TerminalContent, from: int, to: int) -> Option<int>
    decreases to - from + 1,
{
    if from > to {
        None
    } else if 0 <= from < row_count(c) && prompt_leader(line(c, from)) {
        Some(from)
    } else {
        first_leader_row(c, from + 1, to)
    }
}

pub proof fn lemma_first_leader_row(c: TerminalContent, from: int, to: int)
    ensures
        first_leader_row(c, from, to) matches Some(r) ==> from <= r <= to,
    decreases to - from + 1,
{
    if from <= to && !(0 <= from < row_count(c) && prompt_leader(line(c, from))) {
        lemma_first_leader_row(c, from + 1, to);
    }
}

/// The input rows of a semantic prompt block around `cursor_row`: from the
/// first row holding the prompt mark (or the block's first row) to the end of
/// the block; none when the cursor row is unmarked, the block does not start
/// with a prompt row, or the cursor sits above the input.
pub open spec fn semantic_rows(c: TerminalContent, cursor_row: int) -> Option<InputRows> {
    if meta(c, cursor_row).semantic_prompt == TerminalSemanticPrompt::Unmarked {
        None
    } else {
        let start = semantic_start(c, cursor_row);
        if meta(c, start).semantic_prompt != TerminalSemanticPrompt::Prompt {
            None
        } else {
            let end = semantic_end(c, cursor_row);
            let editable = match first_leader_row(c, start, end) {
                Some(r) => r,
                None => start,
            };
            if cursor_row < editable {
                None
            } else {
                Some(InputRows { start: editable as usize, end: end as usize })
            }
        }
    }
}

/// The rows of the shell input around `cursor_row`: the semantic prompt
/// block when the terminal marks one, else the soft-wrapped run of rows.
pub open spec fn input_rows_spec(c: TerminalContent, cursor_row: int) -> Option<InputRows> {
    if cursor_row < 0 || cursor_row >= row_count(c) {
        None
    } else {
        match semantic_rows(c, cursor_row) {
            Some(rows) => Some(rows),
            None => Some(
                InputRows {
                    start: wrap_start(c, cursor_row) as usize,
                    end: wrap_end(c, cursor_row) as usize,
                },
            ),
        }
    }
}

/// Rows that lie inside the snapshot, first no later than last.
pub open spec fn rows_valid(c: TerminalContent, rows: InputRows) -> bool {
    rows.start <= rows.end < row_count(c)
}

pub proof fn lemma_input_rows(c: TerminalContent, cursor_row: int)
    requires
        0 <= cursor_row < row_count(c),
        row_count(c) <= usize::MAX,
    ensures
        input_rows_spec(c, cursor_row) matches Some(rows) && rows_valid(c, rows) && rows.has(
            cursor_row,
        ),
{
    lemma_semantic_start(c, cursor_row);
    lemma_semantic_end(c, cursor_row);
    lemma_wrap_start(c, cursor_row);
    lemma_wrap_end(c, cursor_row);
    let start = semantic_start(c, cursor_row);
    let end = semantic_end(c, cursor_row);
    lemma_first_leader_row(c, start, end);
}

fn semantic_joins_previous(content: &TerminalContent, row: usize) -> (r: bool)
    requires
        row > 0,
    ensures
        r == (meta(*content, row as int).semantic_prompt == TerminalSemanticPrompt::Continuation
            && prompt_or_continuation(meta(*content, row - 1).semantic_prompt)),
{
    let current = metadata_at(content, row);
    let previous = metadata_at(content, row - 1);
    current.semantic_prompt == TerminalSemanticPrompt::Continuation && (previous.semantic_prompt
        == TerminalSemanticPrompt::Prompt || previous.semantic_prompt
        == TerminalSemanticPrompt::Continuation)
}

fn semantic_joins_next(content: &TerminalContent, row: usize) -> (r: bool)
    requires
        row + 1 < row_count(*content),
    ensures
        r == (meta(*content, row + 1).semantic_prompt == TerminalSemanticPrompt::Continuation
            && prompt_or_continuation(meta(*content, row as int).semantic_prompt)),
{
    let n = content.lines.len();
    assert(row + 1 < n);
    let current = metadata_at(content, row);
    let next = metadata_at(content, row + 1);
    next.semantic_prompt == TerminalSemanticPrompt::Continuation && (current.semantic_prompt
        == TerminalSemanticPrompt::Prompt || current.semantic_prompt
        == TerminalSemanticPrompt::Continuation)
}

pub(crate) fn wrap_joins_previous(content: &TerminalContent, row: usize) -> (r: bool)
    requires
        row > 0,
    ensures
        r == (meta(*content, row as int).wrap_continuation || meta(*content, row - 1).wrapped),
{
    let current = metadata_at(content, row);
    let previous = metadata_at(content, row - 1);
    current.wrap_continuation || previous.wrapped
}

fn wrap_joins_next(content: &TerminalContent, row: usize) -> (r: bool)
    requires
        row + 1 < row_count(*content),
    ensures
        r == (meta(*content, row as int).wrapped || meta(*content, row + 1).wrap_continuation),
{
    let n = content.lines.len();
    assert(row + 1 < n);
    let current = metadata_at(content, row);
    let next = metadata_at(content, row + 1);
    current.wrapped || next.wrap_continuation
}

fn semantic_prompt_rows(content: &TerminalContent, cursor_row: usize) -> (r: Option<InputRows>)
    requires
        cursor_row < row_count(*content),
    ensures
        r == semantic_rows(*content, cursor_row as int),
{
    let ghost c = *content;
    let metadata = metadata_at(content, cursor_row);
    if metadata.semantic_prompt == TerminalSemanticPrompt::Unmarked {
        return None;
    }
    let mut start = cursor_row;
    while start > 0 && semantic_joins_previous(content, start)
        invariant
            c == *content,
            start <= cursor_row,
            semantic_start(c, cursor_row as int) == semantic_start(c, start as int),
        decreases start,
    {
        start = start - 1;
    }
    if metadata_at(content, start).semantic_prompt != TerminalSemanticPrompt::Prompt {
        return None;
    }
    let n = content.lines.len();
    let mut end = cursor_row;
    while end + 1 < n && semantic_joins_next(content, end)
        invariant
            c == *content,
            n == row_count(c),
            cursor_row <= end < row_count(c),
            semantic_end(c, cursor_row as int) == semantic_end(c, end as int),
        decreases row_count(c) - end,
    {
        end = end + 1;
    }
    assert(end < n);
    let mut row = start;
    while row <= end && !prompt_leader_before_input(content.lines[row].as_slice())
        invariant
            c == *content,
            start <= row <= end + 1,
            end < row_count(c),
            n == row_count(c),
            first_leader_row(c, start as int, end as int) == first_leader_row(
                c,
                row as int,
                end as int,
            ),
        decreases end + 1 - row,
    {
        row = row + 1;
    }
    let editable = if row <= end {
        row
    } else {
        start
    };
    if cursor_row < editable {
        return None;
    }
    Some(InputRows { start: editable, end })
}

fn wrapped_rows(content: &TerminalContent, cursor_row: usize) -> (r: InputRows)
    requires
        cursor_row < row_count(*content),
    ensures
        r.start == wrap_start(*content, cursor_row as int),
        r.end == wrap_end(*content, cursor_row as int),
{
    let ghost c = *content;
    let mut start = cursor_row;
    while start > 0 && wrap_joins_previous(content, start)
        invariant
            c == *content,
            start <= cursor_row,
            wrap_start(c, cursor_row as int) == wrap_start(c, start as int),
        decreases start,
    {
        start = start - 1;
    }
    let n = content.lines.len();
    let mut end = cursor_row;
    while end + 1 < n && wrap_joins_next(content, end)
        invariant
            c == *content,
            n == row_count(c),
            cursor_row <= end < row_count(c),
            wrap_end(c, cursor_row as int) == wrap_end(c, end as int),
        decreases row_count(c) - end,
    {
        end = end + 1;
    }
    InputRows { start, end }
}

/// The rows of the shell input around `cursor_row`.
pub fn active_input_rows(content: &TerminalContent, cursor_row: usize) -> (r: Option<InputRows>)
    ensures
        r == input_rows_spec(*content, cursor_row as int),
        r matches Some(rows) ==> rows_valid(*content, rows) && rows.has(cursor_row as int),
{
    if cursor_row >= content.lines.len() {
        return None;
    }
    proof {
        lemma_input_rows(*content, cursor_row as int);
    }
    if let Some(rows) = semantic_prompt_rows(content, cursor_row) {
        return Some(rows);
    }
    Some(wrapped_rows(content, cursor_row))
}

/// The value of a hexadecimal digit.
pub open spec fn hex_value(ch: char) -> Option<int> {
    if '0' <= ch <= '9' {
        Some(ch as int - '0' as int)
    } else if 'a' <= ch <= 'f' {
        Some(ch as int - 'a' as int + 10)
    } else if 'A' <= ch <= 'F' {
        Some(ch as int - 'A' as int + 10)
    } else {
        None
    }
}

/// `u8::from_str_radix(_, 16)` on two characters: an optional `+` before one
/// digit, or two digits.
pub open spec fn hex_pair(a: char, b: char) -> Option<int> {
    if a == '+' {
        hex_value(b)
    } else {
        match (hex_value(a), hex_value(b)) {
            (Some(x), Some(y)) => Some(x * 16 + y),
            _ => None,
        }
    }
}

/// A `#rrggbb` color read as its three channels; ASCII only.
pub open spec fn parse_hex_rgb_spec(s: Seq<char>) -> Option<(u8, u8, u8)> {
    if s.len() == 7 && s[0] == '#' && (forall|i: int| 0 <= i < 7 ==> (#[trigger] s[i]) < '\u{80}') {
        match (hex_pair(s[1], s[2]), hex_pair(s[3], s[4]), hex_pair(s[5], s[6])) {
            (Some(r), Some(g), Some(b)) => Some((r as u8, g as u8, b as u8)),
            _ => None,
        }
    } else {
        None
    }
}

fn hex_digit(ch: char) -> (r: Option<u8>)
    ensures
        match r {
            Some(v) => hex_value(ch) == Some(v as int) && v < 16,
            None => hex_value(ch) is None,
        },
{
    if '0' <= ch && ch <= '9' {
        Some((ch as u32 - '0' as u32) as u8)
    } else if 'a' <= ch && ch <= 'f' {
        Some((ch as u32 - 'a' as u32 + 10) as u8)
    } else if 'A' <= ch && ch <= 'F' {
        Some((ch as u32 - 'A' as u32 + 10) as u8)
    } else {
        None
    }
}

pub fn parse_hex_pair(a: char, b: char) -> (r: Option<u8>)
    ensures
        match r {
            Some(v) => hex_pair(a, b) == Some(v as int),
            None => hex_pair(a, b) is None,
        },
{
    if a == '+' {
        return hex_digit(b);
    }
    match (hex_digit(a), hex_digit(b)) {
        (Some(x), Some(y)) => Some(x * 16 + y),
        _ => None,
    }
}

pub fn parse_hex_rgb(value: &str) -> (r: Option<(u8, u8, u8)>)
    ensures
        r == parse_hex_rgb_spec(value@),
{
    if value.unicode_len() != 7 || value.get_char(0) != '#' {
        return None;
    }
    let mut i: usize = 0;
    while i < 7
        invariant
            value@.len() == 7,
            i <= 7,
            forall|j: int| 0 <= j < i ==> (#[trigger] value@[j]) < '\u{80}',
        decreases 7 - i,
    {
        if value.get_char(i) >= '\u{80}' {
            return None;
        }
        i = i + 1;
    }
    let r = parse_hex_pair(value.get_char(1), value.get_char(2));
    let g = parse_hex_pair(value.get_char(3), value.get_char(4));
    let b = parse_hex_pair(value.get_char(5), value.get_char(6));
    match (r, g, b) {
        (Some(r), Some(g), Some(b)) => Some((r, g, b)),
        _ => None,
    }
}

pub open spec fn max3(a: int, b: int, c: int) -> int {
    if a >= b && a >= c {
        a
    } else if b >= c {
        b
    } else {
        c
    }
}

pub open spec fn min3(a: int, b: int, c: int) -> int {
    if a <= b && a <= c {
        a
    } else if b <= c {
        b
    } else {
        c
    }
}

/// Whether a cell is drawn in fish's autosuggestion color: a dim gray, all
/// channels at most 160 and within 48 of each other.
pub open spec fn is_suggestion_cell(cell: TerminalCell) -> bool {
    match cell.fg {
        Some(fg) => match parse_hex_rgb_spec(fg@) {
            Some((r, g, b)) => max3(r as int, g as int, b as int) <= 160 && max3(
                r as int,
                g as int,
                b as int,
            ) - min3(r as int, g as int, b as int) <= 48,
            None => false,
        },
        None => false,
    }
}

pub fn is_fish_autosuggestion_cell(cell: &TerminalCell) -> (r: bool)
    ensures
        r == is_suggestion_cell(*cell),
{
    match &cell.fg {
        Some(fg) => match parse_hex_rgb(fg.as_str()) {
            Some((red, green, blue)) => {
                let max_channel = if red >= green && red >= blue {
                    red
                } else if green >= blue {
                    green
                } else {
                    blue
                };
                let min_channel = if red <= green && red <= blue {
                    red
                } else if green <= blue {
                    green
                } else {
                    blue
                };
                max_channel <= 160 && max_channel - min_channel <= 48
            },
            None => false,
        },
        None => false,
    }
}

/// The column where the typed input of a row ends: the cursor column (capped
/// at the row length) when it sits past the last significant cell or when
/// everything from it to that cell is a fish autosuggestion, else the
/// significant length.
pub open spec fn input_end_spec(line: Seq<TerminalCell>, cursor: Option<int>) -> int {
    let significant = significant_len(line) as int;
    match cursor {
        None => significant,
        Some(c0) => {
            let c = if c0 < line.len() {
                c0
            } else {
                line.len() as int
            };
            if c >= significant {
                c
            } else if forall|i: int| c <= i < significant ==> is_suggestion_cell(#[trigger] line[i]) {
                c
            } else {
                significant
            }
        },
    }
}

pub fn active_input_end_column(line: &[TerminalCell], cursor: Option<usize>) -> (r: usize)
    requires
        cursor matches Some(c) ==> c >= 0,
    ensures
        r == input_end_spec(line@, match cursor {
            Some(c) => Some(c as int),
            None => None,
        }),
        r <= line@.len(),
{
    let significant = line_significant_len(line);
    proof {
        lemma_significant_len(line@);
    }
    let capped = match cursor {
        Some(c) => if c < line.len() {
            c
        } else {
            line.len()
        },
        None => return significant,
    };
    if capped >= significant {
        return capped;
    }
    let mut i = capped;
    while i < significant
        invariant
            capped <= i <= significant,
            significant == significant_len(line@),
            significant <= line@.len(),
            cursor matches Some(c0) && capped == (if c0 < line@.len() {
                c0 as int
            } else {
                line@.len() as int
            }),
            forall|j: int| capped <= j < i ==> is_suggestion_cell(#[trigger] line@[j]),
        decreases significant - i,
    {
        if !is_fish_autosuggestion_cell(&line[i]) {
            assert(!is_suggestion_cell(line@[i as int]));
            return significant;
        }
        i = i + 1;
    }
    capped
}

/// Whether a cell's text holds a letter, a digit, `_`, `-` or `.`.
pub open spec fn is_word_spec(cell: TerminalCell) -> bool {
    exists|i: int|
        0 <= i < cell.text@.len() && {
            let ch = #[trigger] cell.text@[i];
            is_alphanumeric_char(ch) || ch == '_' || ch == '-' || ch == '.'
        }
}

pub fn is_word_cell(cell: &TerminalCell) -> (r: bool)
    ensures
        r == is_word_spec(*cell),
{
    let s = cell.text.as_str();
    let n = s.unicode_len();
    let mut i: usize = 0;
    while i < n
        invariant
            n == s@.len(),
            s@ == cell.text@,
            i <= n,
            forall|j: int|
                0 <= j < i ==> {
                    let ch = #[trigger] s@[j];
                    !(is_alphanumeric_char(ch) || ch == '_' || ch == '-' || ch == '.')
                },
        decreases n - i,
    {
        let ch = s.get_char(i);
        if char_is_alphanumeric(ch) || ch == '_' || ch == '-' || ch == '.' {
            return true;
        }
        i = i + 1;
    }
    false
}

} // verus!
