use crate::input::{CursorDirection, CursorUnit};
use crate::input_layout::grid_position;
use crate::input_layout::grid_position_of;
use crate::input_selection::{
    active_cursor_point, collapse_target_spec, cursor_movement_bytes_between_points,
    cursor_point_spec, directed_selection_for_target, directed_selection_spec,
    keyboard_bytes_spec, keyboard_cursor_bytes, keyboard_cursor_target,
    keyboard_selection_collapse_target, keyboard_target_spec, points_movement_spec,
    DirectedSelectionRange,
};
use crate::interaction::{bytes_view, content_movement_spec, cursor_movement_bytes_for_content};
use crate::mouse::MouseGridPosition;
use crate::selection::{
    viewport_point_for_display, viewport_point_spec, GridPoint, SelectionRange,
};
use crate::terminal_grid::{meta, row_count, TerminalContent, TerminalSemanticPrompt};
use vstd::prelude::*;

verus! {

/// Whether bytes sent to the shell edit its input line: anything but
/// nothing, a line end or ctrl-c.
pub open spec fn edits_input_spec(data: Seq<u8>) -> bool {
    !(data.len() == 0 || data == seq![0x0au8] || data == seq![0x0du8] || data == seq![0x03u8])
}

pub fn terminal_bytes_edit_input(data: &[u8]) -> (r: bool)
    ensures
        r == edits_input_spec(data@),
{
    if data.len() == 0 {
        return false;
    }
    if data.len() == 1 && (data[0] == 0x0a || data[0] == 0x0d || data[0] == 0x03) {
        proof {
            assert(data@ =~= seq![data[0]]);
        }
        return false;
    }
    proof {
        if data.len() == 1 {
            assert(data@ =~= seq![data[0]]);
        }
    }
    true
}

/// Whether the shell's input bridge is live: the cursor row carries a
/// semantic prompt mark.
pub open spec fn bridge_active_spec(c: TerminalContent) -> bool {
    c.cursor_line >= 0 && (c.cursor_line as int) < c.line_metadata@.len()
        && c.line_metadata@[c.cursor_line as int].semantic_prompt != TerminalSemanticPrompt::Unmarked
}

pub fn shell_input_bridge_active(content: &TerminalContent) -> (r: bool)
    ensures
        r == bridge_active_spec(*content),
{
    if content.cursor_line < 0 {
        return false;
    }
    let row = content.cursor_line as usize;
    if row >= content.line_metadata.len() {
        return false;
    }
    content.line_metadata[row].semantic_prompt != TerminalSemanticPrompt::Unmarked
}

/// What goes to the shell for an edit of its input: when the shell offers an
/// input bridge, the bridge is live and the bytes edit the input, the
/// bridge's undo-capture sequence first, then the bytes; else the bytes alone.
pub open spec fn input_edit_spec(
    bridge_available: bool,
    content: Option<TerminalContent>,
    capture: Seq<u8>,
    data: Seq<u8>,
) -> Seq<u8> {
    if bridge_available && (content matches Some(c) && bridge_active_spec(c)) && edits_input_spec(
        data,
    ) {
        capture + data
    } else {
        data
    }
}

pub fn active_input_edit_bytes(
    bridge_available: bool,
    content: Option<&TerminalContent>,
    capture: &[u8],
    data: &[u8],
) -> (r: Vec<u8>)
    ensures
        r@ == input_edit_spec(
            bridge_available,
            match content {
                Some(c) => Some(*c),
                None => None,
            },
            capture@,
            data@,
        ),
{
    let live = match content {
        Some(c) => shell_input_bridge_active(c),
        None => false,
    };
    let mut out: Vec<u8> = Vec::new();
    if bridge_available && live && terminal_bytes_edit_input(data) {
        append_bytes(&mut out, capture);
    }
    append_bytes(&mut out, data);
    proof {
        assert(Seq::<u8>::empty() + capture@ =~= capture@);
        assert(Seq::<u8>::empty() + data@ =~= data@);
    }
    out
}

/// The undo key: the bridge's undo sequence while the bridge is live, else
/// ctrl-z.
pub open spec fn input_undo_spec(
    bridge_available: bool,
    content: Option<TerminalContent>,
    undo: Seq<u8>,
) -> Seq<u8> {
    if bridge_available && (content matches Some(c) && bridge_active_spec(c)) {
        undo
    } else {
        seq![0x1au8]
    }
}

pub fn input_undo_bytes(bridge_available: bool, content: Option<&TerminalContent>, undo: &[u8]) -> (r:
    Vec<u8>)
    ensures
        r@ == input_undo_spec(
            bridge_available,
            match content {
                Some(c) => Some(*c),
                None => None,
            },
            undo@,
        ),
{
    let live = match content {
        Some(c) => shell_input_bridge_active(c),
        None => false,
    };
    let mut out: Vec<u8> = Vec::new();
    if bridge_available && live {
        append_bytes(&mut out, undo);
        assert(Seq::<u8>::empty() + undo@ =~= undo@);
    } else {
        out.push(0x1a);
        assert(out@ =~= seq![0x1au8]);
    }
    out
}

/// The redo sequence goes to the shell only while the bridge is live.
pub fn input_redo_bytes(bridge_available: bool, content: Option<&TerminalContent>, redo: &[u8]) -> (r:
    Option<Vec<u8>>)
    ensures
        match r {
            Some(bytes) => bridge_available && (match content {
                Some(c) => bridge_active_spec(*c),
                None => false,
            }) && bytes@ == redo@,
            None => !(bridge_available && (match content {
                Some(c) => bridge_active_spec(*c),
                None => false,
            })),
        },
{
    let live = match content {
        Some(c) => shell_input_bridge_active(c),
        None => false,
    };
    if bridge_available && live {
        let mut out: Vec<u8> = Vec::new();
        append_bytes(&mut out, redo);
        assert(Seq::<u8>::empty() + redo@ =~= redo@);
        Some(out)
    } else {
        None
    }
}

fn append_bytes(out: &mut Vec<u8>, data: &[u8])
    ensures
        final(out)@ == old(out)@ + data@,
{
    let ghost before = out@;
    let mut j: usize = 0;
    while j < data.len()
        invariant
            j <= data@.len(),
            out@ == before + data@.subrange(0, j as int),
        decreases data.len() - j,
    {
        out.push(data[j]);
        assert(data@.subrange(0, j + 1) =~= data@.subrange(0, j as int).push(data@[j as int]));
        j = j + 1;
    }
    assert(data@.subrange(0, data@.len() as int) =~= data@);
}

/// The bytes that replace a selection in the input: the cursor move to its
/// start, one delete per selected character, then the typed bytes unless
/// they are themselves a backspace or a delete.
pub open spec fn replacement_spec(movement: Seq<u8>, selected_chars: nat, data: Seq<u8>) -> Seq<u8> {
    movement + repeat_delete(selected_chars) + if data == seq![0x7fu8] || data == seq![
        0x1bu8,
        0x5bu8,
        0x33u8,
        0x7eu8,
    ] {
        Seq::empty()
    } else {
        data
    }
}

/// `n` delete keys (`ESC [ 3 ~`).
pub open spec fn repeat_delete(n: nat) -> Seq<u8>
    decreases n,
{
    if n == 0 {
        Seq::empty()
    } else {
        repeat_delete((n - 1) as nat) + seq![0x1bu8, 0x5bu8, 0x33u8, 0x7eu8]
    }
}

pub fn selection_replacement_bytes(movement: Vec<u8>, selected_chars: usize, data: &[u8]) -> (r: Vec<
    u8,
>)
    ensures
        r@ == replacement_spec(movement@, selected_chars as nat, data@),
{
    let mut out = movement;
    let ghost start = out@;
    let mut i: usize = 0;
    while i < selected_chars
        invariant
            i <= selected_chars,
            out@ == start + repeat_delete(i as nat),
        decreases selected_chars - i,
    {
        out.push(0x1b);
        out.push(0x5b);
        out.push(0x33);
        out.push(0x7e);
        proof {
            assert(out@ =~= start + repeat_delete((i + 1) as nat));
        }
        i = i + 1;
    }
    let is_backspace = data.len() == 1 && data[0] == 0x7f;
    let is_delete = data.len() == 4 && data[0] == 0x1b && data[1] == 0x5b && data[2] == 0x33
        && data[3] == 0x7e;
    proof {
        if data.len() == 1 {
            assert(data@ == seq![data[0]] || data@ != seq![0x7fu8]);
        }
        if is_backspace {
            assert(data@ =~= seq![0x7fu8]);
        }
        if is_delete {
            assert(data@ =~= seq![0x1bu8, 0x5bu8, 0x33u8, 0x7eu8]);
        }
        if data@ == seq![0x7fu8] {
            assert(data.len() == 1 && data@[0] == 0x7f);
        }
        if data@ == seq![0x1bu8, 0x5bu8, 0x33u8, 0x7eu8] {
            assert(data@[0] == 0x1b && data@[1] == 0x5b && data@[2] == 0x33 && data@[3] == 0x7e);
        }
    }
    let ghost before = out@;
    if !is_backspace && !is_delete {
        let mut j: usize = 0;
        while j < data.len()
            invariant
                j <= data@.len(),
                out@ == before + data@.subrange(0, j as int),
            decreases data.len() - j,
        {
            out.push(data[j]);
            assert(data@.subrange(0, j + 1) =~= data@.subrange(0, j as int).push(data@[j as int]));
            j = j + 1;
        }
        assert(data@.subrange(0, data@.len() as int) =~= data@);
    }
    proof {
        assert(out@ =~= replacement_spec(movement@, selected_chars as nat, data@));
    }
    out
}

/// The cursor move that goes before replacing a selection: along the row
/// from the keyboard selection's focus, else nothing when the cursor already
/// sits at the selection's start, else from the terminal cursor; none when
/// no move can be made.
pub open spec fn edit_movement_spec(
    c: TerminalContent,
    keyboard_selection: Option<DirectedSelectionRange>,
    viewport_selection: SelectionRange,
) -> Option<Seq<u8>> {
    let start = viewport_selection.start;
    let target = grid_position(start.row as int, start.column as int);
    let target_point = GridPoint { row: (start.row + c.display_offset) as usize, column: start.column };
    let directed = match keyboard_selection {
        Some(range) => points_movement_spec(range.focus, target_point),
        None => None,
    };
    match directed {
        Some(bytes) => Some(bytes),
        None => if c.cursor_line == target.row as i32 && c.cursor_col == target.column as i32 {
            Some(Seq::empty())
        } else {
            content_movement_spec(c, target)
        },
    }
}

pub fn selection_edit_movement(
    content: &TerminalContent,
    keyboard_selection: Option<DirectedSelectionRange>,
    viewport_selection: SelectionRange,
) -> (r: Option<Vec<u8>>)
    requires
        content.fits(),
        content.fits_i32(),
        viewport_selection.start.row + content.display_offset <= usize::MAX,
        viewport_selection.start.column <= i32::MAX,
        keyboard_selection matches Some(range) ==> range.focus.column <= i32::MAX,
    ensures
        bytes_view(r) == edit_movement_spec(*content, keyboard_selection, viewport_selection),
{
    let start = viewport_selection.start;
    let target = grid_position_of(start.row, start.column);
    let target_point = GridPoint { row: start.row + content.display_offset, column: start.column };
    match keyboard_selection {
        Some(range) => match cursor_movement_bytes_between_points(range.focus, target_point) {
            Some(bytes) => return Some(bytes),
            None => {},
        },
        None => {},
    }
    if content.cursor_line == target.row as i32 && content.cursor_col == target.column as i32 {
        let empty: Vec<u8> = Vec::new();
        assert(empty@ =~= Seq::<u8>::empty());
        return Some(empty);
    }
    cursor_movement_bytes_for_content(content, target)
}

/// A cursor key: direction, cell or word, and whether shift extends the
/// selection.
#[derive(Clone, Copy, Debug, PartialEq, Eq, Structural)]
pub struct KeyboardMove {
    pub direction: CursorDirection,
    pub unit: CursorUnit,
    pub selecting: bool,
}

/// What a cursor key does to the selection.
#[derive(Clone, Copy, Debug, PartialEq, Eq, Structural)]
pub enum SelectionUpdate {
    Keep,
    Clear,
    /// Select this directed range, covering these absolute cells.
    Select(DirectedSelectionRange, SelectionRange),
}

/// What a cursor key does: to the selection, and the bytes to send.
#[derive(Clone, Debug, PartialEq, Eq)]
pub struct KeyboardMovePlan {
    pub update: SelectionUpdate,
    pub bytes: Option<Vec<u8>>,
}

/// The keyboard selection's focus on screen, when it is.
pub open spec fn directed_focus_spec(c: TerminalContent, keyboard_selection: Option<DirectedSelectionRange>) -> Option<
    GridPoint,
> {
    match keyboard_selection {
        Some(range) => viewport_point_spec(range.focus, c.display_offset as int, row_count(c)),
        None => None,
    }
}

pub open spec fn or_point(a: Option<GridPoint>, b: Option<GridPoint>) -> Option<GridPoint> {
    match a {
        Some(p) => Some(p),
        None => b,
    }
}

/// A cursor key: without shift over a selection, the cursor goes to the
/// selection's start (left) or end (right) and the selection is cleared;
/// else the cursor moves to the key's target, shift extending the keyboard
/// selection to it and a plain key clearing any selection.
pub open spec fn move_plan_spec(
    c: TerminalContent,
    selection: Option<SelectionRange>,
    keyboard_selection: Option<DirectedSelectionRange>,
    m: KeyboardMove,
) -> (SelectionUpdate, Option<Seq<u8>>) {
    let terminal_cursor = cursor_point_spec(c);
    let directed_focus = directed_focus_spec(c, keyboard_selection);
    let current = if m.selecting {
        or_point(directed_focus, terminal_cursor)
    } else {
        None
    };
    let collapse = if m.selecting {
        None
    } else {
        collapse_target_spec(selection, c.display_offset as int, row_count(c), m.direction)
    };
    match collapse {
        Some(target) => {
            let source = match or_point(directed_focus, terminal_cursor) {
                Some(p) => Some(GridPoint { row: (p.row + c.display_offset) as usize, column: p.column }),
                None => None,
            };
            let along = match source {
                Some(s) => points_movement_spec(s, target),
                None => None,
            };
            (
                SelectionUpdate::Clear,
                match along {
                    Some(bytes) => Some(bytes),
                    None => content_movement_spec(c, grid_position(target.row as int, target.column as int)),
                },
            )
        },
        None => match keyboard_target_spec(c, m.direction, m.unit, current) {
            None => (SelectionUpdate::Keep, None),
            Some(target) => {
                let update = if m.selecting {
                    match directed_selection_spec(c, target, keyboard_selection, selection) {
                        None => SelectionUpdate::Keep,
                        Some(directed) => if directed.anchor == directed.focus {
                            SelectionUpdate::Clear
                        } else {
                            SelectionUpdate::Select(
                                directed,
                                SelectionRange::new_spec(directed.anchor, directed.focus),
                            )
                        },
                    }
                } else if selection is Some {
                    SelectionUpdate::Clear
                } else {
                    SelectionUpdate::Keep
                };
                (update, keyboard_bytes_spec(c, current, target))
            },
        },
    }
}

/// A shift-move keeps the keyboard selection's anchor and moves its focus
/// to the key's target: onto the anchor it clears the selection, anywhere
/// else it selects the cells between anchor and target.
pub proof fn law_shift_move_reselects_from_anchor(
    c: TerminalContent,
    selection: Option<SelectionRange>,
    d: DirectedSelectionRange,
    m: KeyboardMove,
    t: MouseGridPosition,
)
    requires
        m.selecting,
        cursor_point_spec(c) is Some,
        keyboard_target_spec(
            c,
            m.direction,
            m.unit,
            or_point(directed_focus_spec(c, Some(d)), cursor_point_spec(c)),
        ) == Some(t),
    ensures
        ({
            let focus = GridPoint {
                row: (t.row + c.display_offset) as usize,
                column: t.column as usize,
            };
            move_plan_spec(c, selection, Some(d), m).0 == if focus == d.anchor {
                SelectionUpdate::Clear
            } else {
                SelectionUpdate::Select(
                    DirectedSelectionRange { anchor: d.anchor, focus },
                    SelectionRange::new_spec(d.anchor, focus),
                )
            }
        }),
{
}

pub fn keyboard_move_plan(
    content: &TerminalContent,
    selection: Option<SelectionRange>,
    keyboard_selection: Option<DirectedSelectionRange>,
    m: KeyboardMove,
) -> (r: KeyboardMovePlan)
    requires
        content.fits(),
        content.fits_i32(),
        content.display_offset + i32::MAX + row_count(*content) <= usize::MAX,
        keyboard_selection matches Some(range) ==> range.focus.column <= i32::MAX,
        selection matches Some(range) ==> range.start.column <= i32::MAX && range.end.column
            <= i32::MAX,
    ensures
        (r.update, bytes_view(r.bytes)) == move_plan_spec(*content, selection, keyboard_selection, m),
{
    let rows = content.lines.len();
    let terminal_cursor = active_cursor_point(content);
    let directed_focus = match keyboard_selection {
        Some(range) => viewport_point_for_display(range.focus, content.display_offset, rows),
        None => None,
    };
    let either = match directed_focus {
        Some(p) => Some(p),
        None => terminal_cursor,
    };
    let current = if m.selecting {
        either
    } else {
        None
    };
    if !m.selecting {
        if let Some(target) = keyboard_selection_collapse_target(
            selection,
            content.display_offset,
            rows,
            m.direction,
        ) {
            let along = match either {
                Some(p) => cursor_movement_bytes_between_points(
                    GridPoint { row: p.row + content.display_offset, column: p.column },
                    target,
                ),
                None => None,
            };
            let bytes = match along {
                Some(bytes) => Some(bytes),
                None => cursor_movement_bytes_for_content(
                    content,
                    grid_position_of(target.row, target.column),
                ),
            };
            return KeyboardMovePlan { update: SelectionUpdate::Clear, bytes };
        }
    }
    let target = match keyboard_cursor_target(content, m.direction, m.unit, current) {
        Some(t) => t,
        None => return KeyboardMovePlan { update: SelectionUpdate::Keep, bytes: None },
    };
    let update = if m.selecting {
        match directed_selection_for_target(content, target, keyboard_selection, selection) {
            None => SelectionUpdate::Keep,
            Some(directed) => match directed.range() {
                Some(absolute) => SelectionUpdate::Select(directed, absolute),
                None => SelectionUpdate::Clear,
            },
        }
    } else if selection.is_some() {
        SelectionUpdate::Clear
    } else {
        SelectionUpdate::Keep
    };
    let bytes = keyboard_cursor_bytes(content, current, target);
    KeyboardMovePlan { update, bytes }
}

} // verus!
