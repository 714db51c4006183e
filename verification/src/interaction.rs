use crate::input_layout::{cursor_col_of, cursor_col_usize, cursor_row_of, cursor_row_usize};
use crate::input_rows::{
    active_input_end_column, active_input_rows, input_end_spec, input_rows_spec,
    input_start_column, input_start_spec, rows_valid, InputRows,
};
use crate::mouse::{
    button_code_spec, sgr_drag_bytes, sgr_press_bytes, sgr_release_bytes, sgr_report, MouseButton,
    MouseGridPosition,
};
use crate::selection::{GridPoint, SelectionRange};
use crate::terminal_grid::{
    cells_before, chars_before, lemma_cells_before_monotone, line, meta, metadata_at, row_count, MouseMode,
    TerminalContent, TerminalSemanticPrompt,
};
use vstd::prelude::*;

verus! {

/// What the terminal view does after a pointer event.
#[derive(Clone, Debug, PartialEq, Eq)]
pub enum InteractionEffect {
    /// Send these bytes to the application in the terminal.
    Write(Vec<u8>),
    /// The local selection is now this range, or cleared.
    SelectionChanged(Option<SelectionRange>),
    /// Move the shell cursor to this cell.
    MoveCursorTo(MouseGridPosition),
}

/// An effect with its bytes taken as a sequence.
pub enum EffectView {
    Write(Seq<u8>),
    SelectionChanged(Option<SelectionRange>),
    MoveCursorTo(MouseGridPosition),
}

impl View for InteractionEffect {
    type V = EffectView;

    open spec fn view(&self) -> EffectView {
        match self {
            InteractionEffect::Write(bytes) => EffectView::Write(bytes@),
            InteractionEffect::SelectionChanged(range) => EffectView::SelectionChanged(*range),
            InteractionEffect::MoveCursorTo(position) => EffectView::MoveCursorTo(*position),
        }
    }
}

/// The effects of a call, each taken by its view.
pub open spec fn effects_view(effects: Seq<InteractionEffect>) -> Seq<EffectView> {
    effects.map_values(|e: InteractionEffect| e@)
}

/// What the pointer state machine remembers between events.
pub struct PointerState {
    /// The button whose press went to the application, while it is held.
    pub pressed_button: Option<MouseButton>,
    /// Where a local drag started, while the button is held.
    pub selection_anchor: Option<GridPoint>,
    /// Whether the pointer left the anchor cell during this press.
    pub selection_moved: bool,
    /// The local selection.
    pub selection: Option<SelectionRange>,
}

/// The pointer state machine of the terminal view: a press, motion and
/// release either go to the application as mouse reports or make a local
/// selection.
pub struct PointerInteraction {
    pressed_button: Option<MouseButton>,
    selection_anchor: Option<GridPoint>,
    selection_moved: bool,
    selection: Option<SelectionRange>,
}

impl PointerInteraction {
    /// A drag anchor always comes from a pointer position.
    #[verifier::type_invariant]
    spec fn anchor_from_position(self) -> bool {
        self.selection_anchor matches Some(a) ==> a.row <= u16::MAX && a.column <= u16::MAX
    }
}

impl View for PointerInteraction {
    type V = PointerState;

    closed spec fn view(&self) -> PointerState {
        PointerState {
            pressed_button: self.pressed_button,
            selection_anchor: self.selection_anchor,
            selection_moved: self.selection_moved,
            selection: self.selection,
        }
    }
}

/// The state before any event.
pub open spec fn initial_state() -> PointerState {
    PointerState {
        pressed_button: None,
        selection_anchor: None,
        selection_moved: false,
        selection: None,
    }
}

impl Default for PointerInteraction {
    fn default() -> (r: Self)
        ensures
            r@ == initial_state(),
    {
        PointerInteraction {
            pressed_button: None,
            selection_anchor: None,
            selection_moved: false,
            selection: None,
        }
    }
}

/// The grid point under a pointer position.
pub open spec fn point_of(position: MouseGridPosition) -> GridPoint {
    GridPoint { row: position.row as usize, column: position.column as usize }
}

/// After a press: the selection is cleared; in reporting mode the button is
/// remembered, else the press cell becomes the drag anchor.
pub open spec fn press_next(
    s: PointerState,
    mode: MouseMode,
    button: MouseButton,
    position: MouseGridPosition,
) -> PointerState {
    if mode.reports_press_release() {
        PointerState {
            pressed_button: Some(button),
            selection_anchor: None,
            selection_moved: false,
            selection: None,
        }
    } else {
        PointerState {
            pressed_button: None,
            selection_anchor: Some(point_of(position)),
            selection_moved: false,
            selection: None,
        }
    }
}

/// The effects of a press: the selection is cleared, and in reporting mode
/// the SGR press report is written.
pub open spec fn press_effects(mode: MouseMode, button: MouseButton, position: MouseGridPosition) -> Seq<
    EffectView,
> {
    if mode.reports_press_release() {
        seq![
            EffectView::SelectionChanged(None),
            EffectView::Write(sgr_report(button_code_spec(button) as nat, position, 0x4d)),
        ]
    } else {
        seq![EffectView::SelectionChanged(None)]
    }
}

/// After a release: no button is held and no drag is under way; the
/// selection stays.
pub open spec fn release_next(s: PointerState) -> PointerState {
    PointerState {
        pressed_button: None,
        selection_anchor: None,
        selection_moved: false,
        selection: s.selection,
    }
}

/// The effects of a release: in reporting mode the SGR release report; else
/// a click that did not drag moves the cursor to the released cell.
pub open spec fn release_effects(s: PointerState, mode: MouseMode, position: MouseGridPosition) -> Seq<
    EffectView,
> {
    if mode.reports_press_release() {
        seq![EffectView::Write(sgr_report(0, position, 0x6d))]
    } else if !s.selection_moved {
        seq![EffectView::MoveCursorTo(position)]
    } else {
        Seq::empty()
    }
}

/// After a cancelled press: like a release, with no effect.
pub open spec fn cancel_next(s: PointerState) -> PointerState {
    release_next(s)
}

/// The selection a local drag from `anchor` to the pointer makes, when the
/// pointer left the anchor cell and the range differs from the current one.
pub open spec fn drag_selection(s: PointerState, position: MouseGridPosition) -> Option<SelectionRange> {
    match s.selection_anchor {
        None => None,
        Some(anchor) => {
            let focus = point_of(position);
            if focus == anchor {
                None
            } else {
                let range = SelectionRange::between_cells_spec(anchor, focus);
                if s.selection == Some(range) {
                    None
                } else {
                    Some(range)
                }
            }
        },
    }
}

/// After pointer motion: in drag-reporting mode nothing changes; else a
/// local drag that reaches a new range selects it.
pub open spec fn motion_next(s: PointerState, mode: MouseMode, position: MouseGridPosition) -> PointerState {
    if mode.reports_drag() {
        s
    } else {
        match drag_selection(s, position) {
            Some(range) => PointerState { selection: Some(range), selection_moved: true, ..s },
            None => s,
        }
    }
}

/// The effects of pointer motion: the SGR drag report while a reported
/// button is held, or the new local selection.
pub open spec fn motion_effects(s: PointerState, mode: MouseMode, position: MouseGridPosition) -> Seq<
    EffectView,
> {
    if mode.reports_drag() {
        match s.pressed_button {
            Some(button) => seq![
                EffectView::Write(sgr_report((button_code_spec(button) + 32) as nat, position, 0x4d)),
            ],
            None => Seq::empty(),
        }
    } else {
        match drag_selection(s, position) {
            Some(range) => seq![EffectView::SelectionChanged(Some(range))],
            None => Seq::empty(),
        }
    }
}

impl PointerInteraction {
    /// The local selection.
    pub fn selection(&self) -> (r: Option<SelectionRange>)
        ensures
            r == self@.selection,
    {
        self.selection
    }

    pub fn press(&mut self, mode: MouseMode, button: MouseButton, position: MouseGridPosition) -> (r: Vec<
        InteractionEffect,
    >)
        ensures
            final(self)@ == press_next(old(self)@, mode, button, position),
            effects_view(r@) == press_effects(mode, button, position),
    {
        proof {
            use_type_invariant(&*self);
        }
        self.selection = None;
        self.selection_anchor = None;
        self.selection_moved = false;
        if mode.sends_press_release() {
            self.pressed_button = Some(button);
            let r = vec![
                InteractionEffect::SelectionChanged(None),
                InteractionEffect::Write(sgr_press_bytes(button, position)),
            ];
            assert(effects_view(r@) =~= press_effects(mode, button, position));
            r
        } else {
            self.pressed_button = None;
            self.selection_anchor = Some(GridPoint::from_position(position));
            let r = vec![InteractionEffect::SelectionChanged(None)];
            assert(effects_view(r@) =~= press_effects(mode, button, position));
            r
        }
    }

    pub fn release(&mut self, mode: MouseMode, position: MouseGridPosition) -> (r: Vec<InteractionEffect>)
        ensures
            final(self)@ == release_next(old(self)@),
            effects_view(r@) == release_effects(old(self)@, mode, position),
    {
        proof {
            use_type_invariant(&*self);
        }
        let moved = self.selection_moved;
        self.pressed_button = None;
        self.selection_anchor = None;
        self.selection_moved = false;
        if mode.sends_press_release() {
            let r = vec![InteractionEffect::Write(sgr_release_bytes(position))];
            assert(effects_view(r@) =~= release_effects(old(self)@, mode, position));
            r
        } else if !moved {
            let r = vec![InteractionEffect::MoveCursorTo(position)];
            assert(effects_view(r@) =~= release_effects(old(self)@, mode, position));
            r
        } else {
            let r = Vec::new();
            assert(effects_view(r@) =~= release_effects(old(self)@, mode, position));
            r
        }
    }

    pub fn cancel(&mut self) -> (r: Vec<InteractionEffect>)
        ensures
            final(self)@ == cancel_next(old(self)@),
            r@.len() == 0,
    {
        proof {
            use_type_invariant(&*self);
        }
        self.pressed_button = None;
        self.selection_anchor = None;
        self.selection_moved = false;
        Vec::new()
    }

    pub fn motion(&mut self, mode: MouseMode, position: MouseGridPosition) -> (r: Vec<InteractionEffect>)
        ensures
            final(self)@ == motion_next(old(self)@, mode, position),
            effects_view(r@) == motion_effects(old(self)@, mode, position),
    {
        if mode.sends_drag() {
            match self.pressed_button {
                Some(button) => {
                    let r = vec![InteractionEffect::Write(sgr_drag_bytes(button, position))];
                    assert(effects_view(r@) =~= motion_effects(old(self)@, mode, position));
                    return r;
                },
                None => {
                    let r = Vec::new();
                    assert(effects_view(r@) =~= motion_effects(old(self)@, mode, position));
                    return r;
                },
            }
        }
        proof {
            use_type_invariant(&*self);
        }
        let anchor = match self.selection_anchor {
            Some(anchor) => anchor,
            None => {
                let r = Vec::new();
                assert(effects_view(r@) =~= motion_effects(old(self)@, mode, position));
                return r;
            },
        };
        let focus = GridPoint::from_position(position);
        if focus.row == anchor.row && focus.column == anchor.column {
            let r = Vec::new();
            assert(effects_view(r@) =~= motion_effects(old(self)@, mode, position));
            return r;
        }
        let range = SelectionRange::between_cells(anchor, focus);
        let unchanged = match self.selection {
            Some(current) => current.start.row == range.start.row && current.start.column
                == range.start.column && current.end.row == range.end.row && current.end.column
                == range.end.column,
            None => false,
        };
        if unchanged {
            let r = Vec::new();
            assert(effects_view(r@) =~= motion_effects(old(self)@, mode, position));
            return r;
        }
        self.selection = Some(range);
        self.selection_moved = true;
        let r = vec![InteractionEffect::SelectionChanged(Some(range))];
        assert(effects_view(r@) =~= motion_effects(old(self)@, mode, position));
        r
    }
}

/// A press and release in the same local press cycle, with no drag in
/// between, moves the shell cursor to the released cell and selects nothing.
pub proof fn law_click_without_drag_moves_cursor(
    s: PointerState,
    mode: MouseMode,
    button: MouseButton,
    pressed: MouseGridPosition,
    released: MouseGridPosition,
)
    requires
        !mode.reports_press_release(),
    ensures
        release_effects(press_next(s, mode, button, pressed), mode, released) == seq![
            EffectView::MoveCursorTo(released),
        ],
        release_next(press_next(s, mode, button, pressed)).selection is None,
{
}

/// A press always clears the local selection.
pub proof fn law_press_clears_selection(
    s: PointerState,
    mode: MouseMode,
    button: MouseButton,
    position: MouseGridPosition,
)
    ensures
        press_next(s, mode, button, position).selection is None,
        press_effects(mode, button, position)[0] == EffectView::SelectionChanged(None),
{
}

/// Once a press is released or cancelled, pointer motion in local mode
/// changes nothing and has no effect.
pub proof fn law_motion_after_release_is_inert(
    s: PointerState,
    mode: MouseMode,
    position: MouseGridPosition,
)
    requires
        !mode.reports_drag(),
    ensures
        motion_next(release_next(s), mode, position) == release_next(s),
        motion_effects(release_next(s), mode, position).len() == 0,
        motion_next(cancel_next(s), mode, position) == cancel_next(s),
        motion_effects(cancel_next(s), mode, position).len() == 0,
{
}

/// A local drag from the pressed cell to another cell selects exactly the
/// cells between them, both included, and reports that selection.
pub proof fn law_local_drag_selects_between_cells(
    s: PointerState,
    mode: MouseMode,
    button: MouseButton,
    pressed: MouseGridPosition,
    moved_to: MouseGridPosition,
)
    requires
        !mode.reports_press_release(),
        pressed != moved_to,
    ensures
        motion_next(press_next(s, mode, button, pressed), mode, moved_to).selection == Some(
            SelectionRange::between_cells_spec(point_of(pressed), point_of(moved_to)),
        ),
        motion_effects(press_next(s, mode, button, pressed), mode, moved_to) == seq![
            EffectView::SelectionChanged(
                Some(SelectionRange::between_cells_spec(point_of(pressed), point_of(moved_to))),
            ),
        ],
{
    assert(point_of(pressed) != point_of(moved_to));
}

/// Moving again to the same cell reports nothing and changes nothing.
pub proof fn law_repeated_motion_is_idempotent(
    s: PointerState,
    mode: MouseMode,
    position: MouseGridPosition,
)
    requires
        !mode.reports_drag(),
    ensures
        motion_next(motion_next(s, mode, position), mode, position) == motion_next(s, mode, position),
        motion_effects(motion_next(s, mode, position), mode, position).len() == 0,
{
}

/// In reporting mode the local selection never changes while a press,
/// motion or release goes to the application, apart from the press
/// clearing it.
pub proof fn law_reporting_mode_keeps_selection(
    s: PointerState,
    mode: MouseMode,
    button: MouseButton,
    position: MouseGridPosition,
)
    requires
        mode.reports_drag(),
    ensures
        motion_next(s, mode, position) == s,
        release_next(s).selection == s.selection,
        mode.reports_press_release() ==> press_effects(mode, button, position) == seq![
            EffectView::SelectionChanged(None),
            EffectView::Write(sgr_report(button_code_spec(button) as nat, position, 0x4d)),
        ],
{
}

/// The bytes of one cursor-left (`ESC [ D`) or cursor-right (`ESC [ C`) key.
pub open spec fn arrow_step(left: bool) -> Seq<u8> {
    if left {
        seq![0x1bu8, 0x5bu8, 0x44u8]
    } else {
        seq![0x1bu8, 0x5bu8, 0x43u8]
    }
}

/// `n` copies of `step`, one after another.
pub open spec fn repeat_bytes(step: Seq<u8>, n: nat) -> Seq<u8>
    decreases n,
{
    if n == 0 {
        Seq::empty()
    } else {
        repeat_bytes(step, (n - 1) as nat) + step
    }
}

/// `|delta|` arrow keys toward the sign of `delta` (right for zero).
pub open spec fn arrows_spec(delta: int) -> Seq<u8> {
    repeat_bytes(
        arrow_step(delta < 0),
        (if delta < 0 {
            -delta
        } else {
            delta
        }) as nat,
    )
}

/// The arrow keys that move the cursor by `delta` columns; none for zero.
pub open spec fn arrow_bytes_spec(delta: int) -> Option<Seq<u8>> {
    if delta == 0 {
        None
    } else {
        Some(arrows_spec(delta))
    }
}

/// An optional byte vector taken as an optional sequence.
pub open spec fn bytes_view(r: Option<Vec<u8>>) -> Option<Seq<u8>> {
    match r {
        Some(v) => Some(v@),
        None => None,
    }
}

/// Appends `count` arrow keys, left or right.
pub fn push_arrows(out: &mut Vec<u8>, left: bool, count: u64)
    ensures
        final(out)@ == old(out)@ + repeat_bytes(arrow_step(left), count as nat),
{
    let last: u8 = if left {
        0x44
    } else {
        0x43
    };
    let mut i: u64 = 0;
    while i < count
        invariant
            i <= count,
            last == arrow_step(left)[2],
            out@ == old(out)@ + repeat_bytes(arrow_step(left), i as nat),
        decreases count - i,
    {
        out.push(0x1b);
        out.push(0x5b);
        out.push(last);
        proof {
            assert(repeat_bytes(arrow_step(left), (i + 1) as nat) =~= repeat_bytes(
                arrow_step(left),
                i as nat,
            ) + arrow_step(left));
        }
        i = i + 1;
    }
}

/// The arrow keys that move the cursor by `delta` columns; none for zero.
pub fn arrow_bytes_for_delta(delta: i32) -> (r: Option<Vec<u8>>)
    ensures
        bytes_view(r) == arrow_bytes_spec(delta as int),
{
    let mut out = Vec::new();
    if delta < 0 {
        let count: i64 = 0 - (delta as i64);
        push_arrows(&mut out, true, count as u64);
    } else {
        push_arrows(&mut out, false, delta as u64);
    }
    proof {
        assert(out@ =~= arrows_spec(delta as int));
    }
    if delta == 0 {
        None
    } else {
        Some(out)
    }
}

/// The arrow keys that move the cursor from its cell to `target` on the
/// same row (the row compared as a `u16`, as the terminal reports it).
pub open spec fn cursor_movement_spec(cursor_row: i32, cursor_column: i32, target: MouseGridPosition) -> Option<
    Seq<u8>,
> {
    if cursor_row < 0 || cursor_column < 0 || cursor_row as u16 != target.row {
        None
    } else {
        arrow_bytes_spec(target.column - cursor_column)
    }
}

pub fn cursor_movement_bytes(cursor_row: i32, cursor_column: i32, target: MouseGridPosition) -> (r:
    Option<Vec<u8>>)
    ensures
        bytes_view(r) == cursor_movement_spec(cursor_row, cursor_column, target),
{
    if cursor_row < 0 || cursor_column < 0 || cursor_row as u16 != target.row {
        return None;
    }
    let target_column = target.column as i32;
    arrow_bytes_for_delta(target_column - cursor_column)
}

/// The absolute column where `row` begins when the input rows are laid end
/// to end by their full lengths.
pub open spec fn raw_span(c: TerminalContent, rows: InputRows, row: int) -> int
    decreases row - rows.start,
{
    if row <= rows.start {
        0
    } else {
        raw_span(c, rows, row - 1) + line(c, row - 1).len()
    }
}

/// The absolute column of a cell with the input rows laid end to end, the
/// column capped at the row length; none outside the input rows.
pub open spec fn raw_absolute(c: TerminalContent, rows: InputRows, row: int, column: int) -> Option<int> {
    if rows.has(row) {
        let width = line(c, row).len() as int;
        Some(
            raw_span(c, rows, row) + if column < width {
                column
            } else {
                width
            },
        )
    } else {
        None
    }
}

proof fn lemma_raw_span(c: TerminalContent, rows: InputRows, row: int)
    requires
        rows.start <= row,
    ensures
        0 <= raw_span(c, rows, row) <= cells_before(c, row) - cells_before(c, rows.start as int),
    decreases row - rows.start,
{
    if row > rows.start {
        lemma_raw_span(c, rows, row - 1);
    }
}

proof fn lemma_raw_absolute(c: TerminalContent, rows: InputRows, row: int, column: int)
    requires
        rows_valid(c, rows),
        rows.has(row),
        0 <= column,
    ensures
        raw_absolute(c, rows, row, column) matches Some(a) && 0 <= a < cells_before(c, row_count(c)),
        0 <= chars_before(c, row_count(c)),
{
    lemma_raw_span(c, rows, row);
    lemma_cells_before_monotone(c, 0, rows.start as int);
    lemma_cells_before_monotone(c, row + 1, row_count(c));
    lemma_cells_before_monotone(c, 0, row_count(c));
}

fn raw_absolute_column(content: &TerminalContent, rows: InputRows, row: usize, column: usize) -> (r: Option<
    usize,
>)
    requires
        rows_valid(*content, rows),
        content.fits(),
    ensures
        match r {
            Some(a) => raw_absolute(*content, rows, row as int, column as int) == Some(a as int),
            None => raw_absolute(*content, rows, row as int, column as int) is None,
        },
{
    if row < rows.start || row > rows.end {
        return None;
    }
    proof {
        lemma_raw_absolute(*content, rows, row as int, column as int);
        lemma_raw_span(*content, rows, row as int);
    }
    let mut absolute: usize = 0;
    let mut line_row = rows.start;
    while line_row < row
        invariant
            rows_valid(*content, rows),
            content.fits(),
            rows.start <= line_row <= row <= rows.end,
            absolute == raw_span(*content, rows, line_row as int),
            raw_span(*content, rows, row as int) <= cells_before(*content, row as int) - cells_before(
                *content,
                rows.start as int,
            ),
        decreases row - line_row,
    {
        proof {
            lemma_raw_span(*content, rows, line_row + 1);
            lemma_cells_before_monotone(*content, line_row + 1, row as int);
            lemma_cells_before_monotone(*content, row as int, row_count(*content));
            lemma_cells_before_monotone(*content, 0, rows.start as int);
        }
        absolute = absolute + content.lines[line_row].len();
        line_row = line_row + 1;
    }
    let width = content.lines[row].len();
    let capped = if column < width {
        column
    } else {
        width
    };
    Some(absolute + capped)
}

/// The range of absolute columns a click may move the cursor within: from
/// the input start to the end of the typed input for a semantic prompt
/// block, else the whole of the rows.
pub open spec fn editable_bounds_spec(c: TerminalContent, rows: InputRows, cursor_row: int) -> Option<
    (int, int),
> {
    let start_row = rows.start as int;
    let end_row = rows.end as int;
    let semantic = meta(c, start_row).semantic_prompt == TerminalSemanticPrompt::Prompt;
    let start_column = if semantic {
        input_start_spec(line(c, start_row))
    } else {
        0
    };
    let end_column = if semantic {
        if end_row == cursor_row {
            input_end_spec(line(c, end_row), cursor_col_of(c))
        } else {
            input_end_spec(line(c, end_row), None)
        }
    } else {
        line(c, end_row).len() as int
    };
    match (raw_absolute(c, rows, start_row, start_column), raw_absolute(c, rows, end_row, end_column)) {
        (Some(start), Some(end)) => if end >= start {
            Some((start, end))
        } else {
            None
        },
        _ => None,
    }
}

fn editable_input_bounds(content: &TerminalContent, rows: InputRows, cursor_row: usize) -> (r: Option<
    (usize, usize),
>)
    requires
        rows_valid(*content, rows),
        content.fits(),
    ensures
        match r {
            Some((s, e)) => editable_bounds_spec(*content, rows, cursor_row as int) == Some(
                (s as int, e as int),
            ),
            None => editable_bounds_spec(*content, rows, cursor_row as int) is None,
        },
{
    let semantic = metadata_at(content, rows.start).semantic_prompt == TerminalSemanticPrompt::Prompt;
    let start_column = if semantic {
        input_start_column(content.lines[rows.start].as_slice())
    } else {
        0
    };
    let start = raw_absolute_column(content, rows, rows.start, start_column);
    let end_line = content.lines[rows.end].as_slice();
    let end_column = if semantic {
        if rows.end == cursor_row {
            active_input_end_column(end_line, cursor_col_usize(content))
        } else {
            active_input_end_column(end_line, None)
        }
    } else {
        end_line.len()
    };
    let end = raw_absolute_column(content, rows, rows.end, end_column);
    match (start, end) {
        (Some(start), Some(end)) => if end >= start {
            Some((start, end))
        } else {
            None
        },
        _ => None,
    }
}

/// The arrow keys that move the cursor to `target` inside the input rows
/// around it, counting columns with the rows laid end to end.
pub open spec fn content_movement_spec(c: TerminalContent, target: MouseGridPosition) -> Option<Seq<u8>> {
    match (cursor_row_of(c), cursor_col_of(c)) {
        (Some(cursor_row), Some(cursor_column)) => match input_rows_spec(c, cursor_row) {
            None => None,
            Some(rows) => if !rows.has(target.row as int) {
                None
            } else {
                match (
                    raw_absolute(c, rows, cursor_row, cursor_column),
                    raw_absolute(c, rows, target.row as int, target.column as int),
                ) {
                    (Some(from), Some(to)) => arrow_bytes_spec(to - from),
                    _ => None,
                }
            },
        },
        _ => None,
    }
}

pub fn cursor_movement_bytes_for_content(content: &TerminalContent, target: MouseGridPosition) -> (r:
    Option<Vec<u8>>)
    requires
        content.fits(),
        content.fits_i32(),
    ensures
        bytes_view(r) == content_movement_spec(*content, target),
{
    let cursor_row = match cursor_row_usize(content) {
        Some(v) => v,
        None => return None,
    };
    let cursor_column = match cursor_col_usize(content) {
        Some(v) => v,
        None => return None,
    };
    let rows = match active_input_rows(content, cursor_row) {
        Some(rows) => rows,
        None => return None,
    };
    let target_row = target.row as usize;
    if target_row < rows.start || target_row > rows.end {
        return None;
    }
    let from = match raw_absolute_column(content, rows, cursor_row, cursor_column) {
        Some(a) => a,
        None => return None,
    };
    let to = match raw_absolute_column(content, rows, target_row, target.column as usize) {
        Some(a) => a,
        None => return None,
    };
    proof {
        lemma_raw_absolute(*content, rows, cursor_row as int, cursor_column as int);
        lemma_raw_absolute(*content, rows, target_row as int, target.column as int);
    }
    arrow_bytes_for_delta(to as i32 - from as i32)
}

/// The arrow keys that move the cursor from `source` to `target`, both
/// inside the input rows around the cursor.
pub open spec fn input_points_movement_spec(
    c: TerminalContent,
    source: MouseGridPosition,
    target: MouseGridPosition,
) -> Option<Seq<u8>> {
    match cursor_row_of(c) {
        None => None,
        Some(cursor_row) => match input_rows_spec(c, cursor_row) {
            None => None,
            Some(rows) => match (
                raw_absolute(c, rows, source.row as int, source.column as int),
                raw_absolute(c, rows, target.row as int, target.column as int),
            ) {
                (Some(from), Some(to)) => arrow_bytes_spec(to - from),
                _ => None,
            },
        },
    }
}

pub fn cursor_movement_bytes_between_input_points(
    content: &TerminalContent,
    source: MouseGridPosition,
    target: MouseGridPosition,
) -> (r: Option<Vec<u8>>)
    requires
        content.fits(),
        content.fits_i32(),
    ensures
        bytes_view(r) == input_points_movement_spec(*content, source, target),
{
    let cursor_row = match cursor_row_usize(content) {
        Some(v) => v,
        None => return None,
    };
    let rows = match active_input_rows(content, cursor_row) {
        Some(rows) => rows,
        None => return None,
    };
    let from = match raw_absolute_column(content, rows, source.row as usize, source.column as usize) {
        Some(a) => a,
        None => return None,
    };
    let to = match raw_absolute_column(content, rows, target.row as usize, target.column as usize) {
        Some(a) => a,
        None => return None,
    };
    proof {
        lemma_raw_absolute(*content, rows, source.row as int, source.column as int);
        lemma_raw_absolute(*content, rows, target.row as int, target.column as int);
    }
    arrow_bytes_for_delta(to as i32 - from as i32)
}

/// The arrow keys that move the cursor to `target` when both lie in the
/// editable part of the input.
pub open spec fn editable_movement_spec(c: TerminalContent, target: MouseGridPosition) -> Option<Seq<u8>> {
    match (cursor_row_of(c), cursor_col_of(c)) {
        (Some(cursor_row), Some(cursor_column)) => match input_rows_spec(c, cursor_row) {
            None => None,
            Some(rows) => if !rows.has(target.row as int) {
                None
            } else {
                match (
                    raw_absolute(c, rows, cursor_row, cursor_column),
                    editable_bounds_spec(c, rows, cursor_row),
                    raw_absolute(c, rows, target.row as int, target.column as int),
                ) {
                    (Some(from), Some((s, e)), Some(to)) => if !(s <= from <= e) || !(s <= to <= e) {
                        None
                    } else {
                        arrow_bytes_spec(to - from)
                    },
                    _ => None,
                }
            },
        },
        _ => None,
    }
}

pub fn cursor_movement_bytes_for_editable_input(content: &TerminalContent, target: MouseGridPosition) -> (r:
    Option<Vec<u8>>)
    requires
        content.fits(),
        content.fits_i32(),
    ensures
        bytes_view(r) == editable_movement_spec(*content, target),
{
    let cursor_row = match cursor_row_usize(content) {
        Some(v) => v,
        None => return None,
    };
    let cursor_column = match cursor_col_usize(content) {
        Some(v) => v,
        None => return None,
    };
    let rows = match active_input_rows(content, cursor_row) {
        Some(rows) => rows,
        None => return None,
    };
    let target_row = target.row as usize;
    if target_row < rows.start || target_row > rows.end {
        return None;
    }
    let from = match raw_absolute_column(content, rows, cursor_row, cursor_column) {
        Some(a) => a,
        None => return None,
    };
    let (start, end) = match editable_input_bounds(content, rows, cursor_row) {
        Some(b) => b,
        None => return None,
    };
    let to = match raw_absolute_column(content, rows, target_row, target.column as usize) {
        Some(a) => a,
        None => return None,
    };
    if !(start <= from && from <= end) || !(start <= to && to <= end) {
        return None;
    }
    proof {
        lemma_raw_absolute(*content, rows, cursor_row as int, cursor_column as int);
        lemma_raw_absolute(*content, rows, target_row as int, target.column as int);
    }
    arrow_bytes_for_delta(to as i32 - from as i32)
}

/// The arrow keys that move the cursor from `source` to `target` when both
/// lie in the editable part of the input.
pub open spec fn editable_points_movement_spec(
    c: TerminalContent,
    source: MouseGridPosition,
    target: MouseGridPosition,
) -> Option<Seq<u8>> {
    match cursor_row_of(c) {
        None => None,
        Some(cursor_row) => match input_rows_spec(c, cursor_row) {
            None => None,
            Some(rows) => match (
                raw_absolute(c, rows, source.row as int, source.column as int),
                raw_absolute(c, rows, target.row as int, target.column as int),
                editable_bounds_spec(c, rows, cursor_row),
            ) {
                (Some(from), Some(to), Some((s, e))) => if !(s <= from <= e) || !(s <= to <= e) {
                    None
                } else {
                    arrow_bytes_spec(to - from)
                },
                _ => None,
            },
        },
    }
}

pub fn cursor_movement_bytes_between_editable_input_points(
    content: &TerminalContent,
    source: MouseGridPosition,
    target: MouseGridPosition,
) -> (r: Option<Vec<u8>>)
    requires
        content.fits(),
        content.fits_i32(),
    ensures
        bytes_view(r) == editable_points_movement_spec(*content, source, target),
{
    let cursor_row = match cursor_row_usize(content) {
        Some(v) => v,
        None => return None,
    };
    let rows = match active_input_rows(content, cursor_row) {
        Some(rows) => rows,
        None => return None,
    };
    let from = match raw_absolute_column(content, rows, source.row as usize, source.column as usize) {
        Some(a) => a,
        None => return None,
    };
    let to = match raw_absolute_column(content, rows, target.row as usize, target.column as usize) {
        Some(a) => a,
        None => return None,
    };
    let (start, end) = match editable_input_bounds(content, rows, cursor_row) {
        Some(b) => b,
        None => return None,
    };
    if !(start <= from && from <= end) || !(start <= to && to <= end) {
        return None;
    }
    proof {
        lemma_raw_absolute(*content, rows, source.row as int, source.column as int);
        lemma_raw_absolute(*content, rows, target.row as int, target.column as int);
    }
    arrow_bytes_for_delta(to as i32 - from as i32)
}

/// Whether a grid position lies on one of the input rows around the cursor.
pub open spec fn in_active_input_spec(c: TerminalContent, position: MouseGridPosition) -> bool {
    match cursor_row_of(c) {
        None => false,
        Some(cursor_row) => match input_rows_spec(c, cursor_row) {
            None => false,
            Some(rows) => rows.has(position.row as int),
        },
    }
}

pub fn input_position_in_active_input(content: &TerminalContent, position: MouseGridPosition) -> (r: bool)
    requires
        content.fits(),
    ensures
        r == in_active_input_spec(*content, position),
{
    let cursor_row = match cursor_row_usize(content) {
        Some(v) => v,
        None => return false,
    };
    let rows = match active_input_rows(content, cursor_row) {
        Some(rows) => rows,
        None => return false,
    };
    raw_absolute_column(content, rows, position.row as usize, position.column as usize).is_some()
}

/// Whether a grid position lies in the editable part of the input.
pub open spec fn in_editable_input_spec(c: TerminalContent, position: MouseGridPosition) -> bool {
    match cursor_row_of(c) {
        None => false,
        Some(cursor_row) => match input_rows_spec(c, cursor_row) {
            None => false,
            Some(rows) => match (
                raw_absolute(c, rows, position.row as int, position.column as int),
                editable_bounds_spec(c, rows, cursor_row),
            ) {
                (Some(a), Some((s, e))) => s <= a <= e,
                _ => false,
            },
        },
    }
}

pub fn input_position_in_editable_input(content: &TerminalContent, position: MouseGridPosition) -> (r:
    bool)
    requires
        content.fits(),
    ensures
        r == in_editable_input_spec(*content, position),
{
    let cursor_row = match cursor_row_usize(content) {
        Some(v) => v,
        None => return false,
    };
    let rows = match active_input_rows(content, cursor_row) {
        Some(rows) => rows,
        None => return false,
    };
    let absolute = match raw_absolute_column(
        content,
        rows,
        position.row as usize,
        position.column as usize,
    ) {
        Some(a) => a,
        None => return false,
    };
    match editable_input_bounds(content, rows, cursor_row) {
        Some((start, end)) => start <= absolute && absolute <= end,
        None => false,
    }
}

} // verus!
