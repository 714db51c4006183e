use crate::backend::ScreenSize;
use crate::input::{
    action_view, key_action_spec, key_to_action, ActionView, CursorDirection, CursorUnit, Key,
    KeyAction, Modifiers,
};
use crate::input_rows::{hex_pair, parse_hex_pair};
use crate::interaction::{
    effects_view, motion_effects, motion_next, press_effects, press_next, release_effects,
    release_next, EffectView, InteractionEffect, PointerInteraction, PointerState,
};
use crate::terminal_grid::MouseMode;
use crate::mouse::{MouseButton, MouseGridPosition};
use crate::selection::{GridPoint, SelectionRange};
use crate::text::{
    has_prefix, parse_signed, parse_signed_spec, parse_unsigned, parse_unsigned_spec, push_char,
    split_char, split_once, split_once_spec, split_pieces, str_eq, strip_prefix,
};
use vstd::prelude::*;

verus! {

/// A key of a scripted headless run, with its modifiers.
#[derive(Clone, Copy, Debug, PartialEq, Eq, Structural)]
pub struct HeadlessKey {
    pub key: Key,
    pub modifiers: Modifiers,
}

/// One step of a scripted headless run.
#[derive(Clone, Debug, PartialEq, Eq)]
pub enum HeadlessAction {
    Write(String),
    Key(HeadlessKey),
    Resize(ScreenSize),
    Scroll(i32),
    Wait(String),
    Split,
    PaneNext,
    PanePrevious,
    PaneResize { boundary_index: usize, delta_cols: i16, size: ScreenSize },
    MousePress(MouseButton, MouseGridPosition),
    MouseDrag(MouseGridPosition),
    MouseRelease(MouseGridPosition),
}

/// A scripted step taken by value.
pub enum HeadlessView {
    Write(Seq<char>),
    Key(HeadlessKey),
    Resize(ScreenSize),
    Scroll(i32),
    Wait(Seq<char>),
    Split,
    PaneNext,
    PanePrevious,
    PaneResize { boundary_index: usize, delta_cols: i16, size: ScreenSize },
    MousePress(MouseButton, MouseGridPosition),
    MouseDrag(MouseGridPosition),
    MouseRelease(MouseGridPosition),
}

impl View for HeadlessAction {
    type V = HeadlessView;

    open spec fn view(&self) -> HeadlessView {
        match self {
            HeadlessAction::Write(s) => HeadlessView::Write(s@),
            HeadlessAction::Key(k) => HeadlessView::Key(*k),
            HeadlessAction::Resize(s) => HeadlessView::Resize(*s),
            HeadlessAction::Scroll(n) => HeadlessView::Scroll(*n),
            HeadlessAction::Wait(s) => HeadlessView::Wait(s@),
            HeadlessAction::Split => HeadlessView::Split,
            HeadlessAction::PaneNext => HeadlessView::PaneNext,
            HeadlessAction::PanePrevious => HeadlessView::PanePrevious,
            HeadlessAction::PaneResize { boundary_index, delta_cols, size } => HeadlessView::PaneResize {
                boundary_index: *boundary_index,
                delta_cols: *delta_cols,
                size: *size,
            },
            HeadlessAction::MousePress(b, p) => HeadlessView::MousePress(*b, *p),
            HeadlessAction::MouseDrag(p) => HeadlessView::MouseDrag(*p),
            HeadlessAction::MouseRelease(p) => HeadlessView::MouseRelease(*p),
        }
    }
}

/// A grid point written `row,column`.
pub open spec fn grid_point_spec(s: Seq<char>) -> Option<GridPoint> {
    match split_once_spec(s, ',') {
        Some((row, column)) => match (
            parse_unsigned_spec(row, usize::MAX as int),
            parse_unsigned_spec(column, usize::MAX as int),
        ) {
            (Some(r), Some(c)) => Some(GridPoint { row: r as usize, column: c as usize }),
            _ => None,
        },
        None => None,
    }
}

pub fn parse_grid_point(input: &str) -> (r: Option<GridPoint>)
    ensures
        r == grid_point_spec(input@),
{
    let (row, column) = match split_once(input, ',') {
        Some(parts) => parts,
        None => return None,
    };
    let row = match parse_unsigned(row.as_str(), usize::MAX as u64) {
        Some(v) => v,
        None => return None,
    };
    let column = match parse_unsigned(column.as_str(), usize::MAX as u64) {
        Some(v) => v,
        None => return None,
    };
    Some(GridPoint { row: row as usize, column: column as usize })
}

/// A selection written `row,column:row,column` from its first to its last
/// cell, both included.
pub open spec fn selection_range_spec(s: Seq<char>) -> Option<SelectionRange> {
    match split_once_spec(s, ':') {
        Some((start, end)) => match (grid_point_spec(start), grid_point_spec(end)) {
            (Some(a), Some(b)) => if a.column < usize::MAX && b.column < usize::MAX {
                Some(SelectionRange::between_cells_spec(a, b))
            } else {
                None
            },
            _ => None,
        },
        None => None,
    }
}

/// Reads a selection written `row,column:row,column`; a column at the
/// largest `usize`, whose next cell does not exist, is refused.
pub fn parse_selection_range(input: &str) -> (r: Option<SelectionRange>)
    ensures
        r == selection_range_spec(input@),
{
    let (start, end) = match split_once(input, ':') {
        Some(parts) => parts,
        None => return None,
    };
    let a = match parse_grid_point(start.as_str()) {
        Some(p) => p,
        None => return None,
    };
    let b = match parse_grid_point(end.as_str()) {
        Some(p) => p,
        None => return None,
    };
    if a.column == usize::MAX || b.column == usize::MAX {
        return None;
    }
    Some(SelectionRange::between_cells(a, b))
}

/// A terminal size written `columnsxrows`, neither zero.
pub open spec fn screen_size_spec(s: Seq<char>) -> Option<ScreenSize> {
    match split_once_spec(s, 'x') {
        Some((cols, rows)) => match (parse_unsigned_spec(cols, 65535), parse_unsigned_spec(rows, 65535)) {
            (Some(c), Some(r)) => if c != 0 && r != 0 {
                Some(ScreenSize { cols: c as u16, rows: r as u16 })
            } else {
                None
            },
            _ => None,
        },
        None => None,
    }
}

pub fn parse_screen_size(input: &str) -> (r: Option<ScreenSize>)
    ensures
        r == screen_size_spec(input@),
{
    let (cols, rows) = match split_once(input, 'x') {
        Some(parts) => parts,
        None => return None,
    };
    let cols = match parse_unsigned(cols.as_str(), 65535) {
        Some(v) => v as u16,
        None => return None,
    };
    let rows = match parse_unsigned(rows.as_str(), 65535) {
        Some(v) => v as u16,
        None => return None,
    };
    match ScreenSize::new(cols, rows) {
        Ok(size) => Some(size),
        Err(_) => None,
    }
}

/// A mouse button named `left`, `middle` or `right`.
pub open spec fn mouse_button_spec(s: Seq<char>) -> Option<MouseButton> {
    if s == "left"@ {
        Some(MouseButton::Left)
    } else if s == "middle"@ {
        Some(MouseButton::Middle)
    } else if s == "right"@ {
        Some(MouseButton::Right)
    } else {
        None
    }
}

pub fn parse_mouse_button(input: &str) -> (r: Option<MouseButton>)
    ensures
        r == mouse_button_spec(input@),
{
    if str_eq(input, "left") {
        Some(MouseButton::Left)
    } else if str_eq(input, "middle") {
        Some(MouseButton::Middle)
    } else if str_eq(input, "right") {
        Some(MouseButton::Right)
    } else {
        None
    }
}

/// A pointer position written `column,row`.
pub open spec fn mouse_position_spec(s: Seq<char>) -> Option<MouseGridPosition> {
    match split_once_spec(s, ',') {
        Some((column, row)) => match (parse_unsigned_spec(column, 65535), parse_unsigned_spec(row, 65535)) {
            (Some(c), Some(r)) => Some(MouseGridPosition { column: c as u16, row: r as u16 }),
            _ => None,
        },
        None => None,
    }
}

pub fn parse_mouse_position(input: &str) -> (r: Option<MouseGridPosition>)
    ensures
        r == mouse_position_spec(input@),
{
    let (column, row) = match split_once(input, ',') {
        Some(parts) => parts,
        None => return None,
    };
    let column = match parse_unsigned(column.as_str(), 65535) {
        Some(v) => v as u16,
        None => return None,
    };
    let row = match parse_unsigned(row.as_str(), 65535) {
        Some(v) => v as u16,
        None => return None,
    };
    Some(MouseGridPosition { column, row })
}

/// The text of a scripted write with its escapes decoded: `\n`, `\r`, `\t`,
/// `\e`, `\\`, and `\xHH` for one byte (kept as written when `HH` is no
/// hexadecimal byte); any other backslash is kept.
pub open spec fn decode_spec(s: Seq<char>) -> Seq<char>
    decreases s.len(),
{
    if s.len() == 0 {
        Seq::empty()
    } else if s[0] != '\\' {
        seq![s[0]] + decode_spec(s.drop_first())
    } else if s.len() == 1 {
        seq!['\\']
    } else {
        let c = s[1];
        if c == 'n' {
            seq!['\n'] + decode_spec(s.subrange(2, s.len() as int))
        } else if c == 'r' {
            seq!['\r'] + decode_spec(s.subrange(2, s.len() as int))
        } else if c == 't' {
            seq!['\t'] + decode_spec(s.subrange(2, s.len() as int))
        } else if c == 'e' {
            seq!['\u{1b}'] + decode_spec(s.subrange(2, s.len() as int))
        } else if c == '\\' {
            seq!['\\'] + decode_spec(s.subrange(2, s.len() as int))
        } else if c == 'x' {
            if s.len() >= 4 {
                match hex_pair(s[2], s[3]) {
                    Some(b) => seq![(b as u8) as char] + decode_spec(s.subrange(4, s.len() as int)),
                    None => seq!['\\', 'x', s[2], s[3]] + decode_spec(s.subrange(4, s.len() as int)),
                }
            } else if s.len() == 3 {
                seq!['\\', 'x', s[2]]
            } else {
                seq!['\\', 'x']
            }
        } else {
            seq!['\\', c] + decode_spec(s.subrange(2, s.len() as int))
        }
    }
}

pub fn decode_action(input: &str) -> (r: String)
    ensures
        r@ == decode_spec(input@),
{
    let n = input.unicode_len();
    let mut output = String::new();
    let mut i: usize = 0;
    assert(input@.subrange(0, n as int) =~= input@);
    while i < n
        invariant
            n == input@.len(),
            i <= n,
            output@ + decode_spec(input@.subrange(i as int, n as int)) == decode_spec(input@),
        decreases n - i,
    {
        let ghost rest = input@.subrange(i as int, n as int);
        let ghost before = output@;
        let ch = input.get_char(i);
        proof {
            assert(rest[0] == ch);
        }
        if ch != '\\' {
            push_char(&mut output, ch);
            i = i + 1;
            proof {
                assert(rest.drop_first() =~= input@.subrange(i as int, n as int));
            }
        } else if i + 1 >= n {
            push_char(&mut output, '\\');
            i = n;
            proof {
                assert(input@.subrange(n as int, n as int) =~= Seq::<char>::empty());
            }
        } else {
            let c = input.get_char(i + 1);
            proof {
                assert(rest[1] == c);
            }
            let mut consumed: usize = 2;
            if c == 'n' {
                push_char(&mut output, '\n');
            } else if c == 'r' {
                push_char(&mut output, '\r');
            } else if c == 't' {
                push_char(&mut output, '\t');
            } else if c == 'e' {
                push_char(&mut output, '\u{1b}');
            } else if c == '\\' {
                push_char(&mut output, '\\');
            } else if c == 'x' {
                if n - i > 3 {
                    let first = input.get_char(i + 2);
                    let second = input.get_char(i + 3);
                    proof {
                        assert(rest[2] == first);
                        assert(rest[3] == second);
                    }
                    match parse_hex_pair(first, second) {
                        Some(b) => push_char(&mut output, b as char),
                        None => {
                            push_char(&mut output, '\\');
                            push_char(&mut output, 'x');
                            push_char(&mut output, first);
                            push_char(&mut output, second);
                        },
                    }
                    consumed = 4;
                } else if n - i > 2 {
                    let first = input.get_char(i + 2);
                    proof {
                        assert(rest[2] == first);
                    }
                    push_char(&mut output, '\\');
                    push_char(&mut output, 'x');
                    push_char(&mut output, first);
                    consumed = 3;
                } else {
                    push_char(&mut output, '\\');
                    push_char(&mut output, 'x');
                }
            } else {
                push_char(&mut output, '\\');
                push_char(&mut output, c);
            }
            i = i + consumed;
            proof {
                assert(rest.subrange(consumed as int, rest.len() as int) =~= input@.subrange(
                    i as int,
                    n as int,
                ));
                if i == n {
                    assert(input@.subrange(n as int, n as int) =~= Seq::<char>::empty());
                }
            }
        }
        proof {
            assert(output@ + decode_spec(input@.subrange(i as int, n as int)) =~= before + decode_spec(
                rest,
            ));
        }
    }
    proof {
        assert(input@.subrange(n as int, n as int) =~= Seq::<char>::empty());
    }
    output
}

/// The rest of `s` after `prefix`.
pub open spec fn after_prefix(s: Seq<char>, prefix: Seq<char>) -> Seq<char> {
    s.subrange(prefix.len() as int, s.len() as int)
}

/// The key of a scripted key step: optional `Ctrl+`, `Alt+` and `Shift+`
/// prefixes in that order, then a key name.
pub open spec fn key_name_spec(name: Seq<char>) -> Option<Key> {
    if name == "Enter"@ || name == "Return"@ {
        Some(Key::Return)
    } else if name == "Backspace"@ {
        Some(Key::BackSpace)
    } else if name == "Tab"@ {
        Some(Key::Tab)
    } else if name == "Left"@ {
        Some(Key::Left)
    } else if name == "Right"@ {
        Some(Key::Right)
    } else if name == "Up"@ {
        Some(Key::Up)
    } else if name == "Down"@ {
        Some(Key::Down)
    } else if name == "Home"@ {
        Some(Key::Home)
    } else if name == "End"@ {
        Some(Key::End)
    } else if name == "Delete"@ {
        Some(Key::Delete)
    } else if name == "PageUp"@ {
        Some(Key::PageUp)
    } else if name == "PageDown"@ {
        Some(Key::PageDown)
    } else if name.len() == 1 && (('a' <= name[0] <= 'f') || name[0] == 'x' || name[0] == '\u{44f}') {
        Some(Key::Char(name[0]))
    } else {
        None
    }
}

/// Strips one modifier prefix when present.
pub open spec fn strip_modifier(s: Seq<char>, prefix: Seq<char>) -> (Seq<char>, bool) {
    if has_prefix(s, prefix) {
        (after_prefix(s, prefix), true)
    } else {
        (s, false)
    }
}

pub open spec fn headless_key_spec(s: Seq<char>) -> Option<HeadlessKey> {
    let (a, ctrl) = strip_modifier(s, "Ctrl+"@);
    let (b, alt) = strip_modifier(a, "Alt+"@);
    let (c, shift) = strip_modifier(b, "Shift+"@);
    match key_name_spec(c) {
        Some(key) => Some(
            HeadlessKey {
                key,
                modifiers: Modifiers { control: ctrl, shift, alt, meta: false, super_key: false },
            },
        ),
        None => None,
    }
}

fn strip_modifier_prefix(s: String, prefix: &str) -> (r: (String, bool))
    ensures
        (r.0@, r.1) == strip_modifier(s@, prefix@),
{
    match strip_prefix(s.as_str(), prefix) {
        Some(rest) => (rest, true),
        None => (s, false),
    }
}

fn key_named(name: &str) -> (r: Option<Key>)
    ensures
        r == key_name_spec(name@),
{
    if str_eq(name, "Enter") || str_eq(name, "Return") {
        return Some(Key::Return);
    }
    if str_eq(name, "Backspace") {
        return Some(Key::BackSpace);
    }
    if str_eq(name, "Tab") {
        return Some(Key::Tab);
    }
    if str_eq(name, "Left") {
        return Some(Key::Left);
    }
    if str_eq(name, "Right") {
        return Some(Key::Right);
    }
    if str_eq(name, "Up") {
        return Some(Key::Up);
    }
    if str_eq(name, "Down") {
        return Some(Key::Down);
    }
    if str_eq(name, "Home") {
        return Some(Key::Home);
    }
    if str_eq(name, "End") {
        return Some(Key::End);
    }
    if str_eq(name, "Delete") {
        return Some(Key::Delete);
    }
    if str_eq(name, "PageUp") {
        return Some(Key::PageUp);
    }
    if str_eq(name, "PageDown") {
        return Some(Key::PageDown);
    }
    if name.unicode_len() == 1 {
        let c = name.get_char(0);
        if ('a' <= c && c <= 'f') || c == 'x' || c == '\u{44f}' {
            return Some(Key::Char(c));
        }
    }
    None
}

pub fn parse_headless_key(input: &str) -> (r: Option<HeadlessKey>)
    ensures
        r == headless_key_spec(input@),
{
    let (a, control) = strip_modifier_prefix(String::from_str(input), "Ctrl+");
    let (b, alt) = strip_modifier_prefix(a, "Alt+");
    let (c, shift) = strip_modifier_prefix(b, "Shift+");
    match key_named(c.as_str()) {
        Some(key) => Some(
            HeadlessKey {
                key,
                modifiers: Modifiers { control, shift, alt, meta: false, super_key: false },
            },
        ),
        None => None,
    }
}

/// The first piece of `s` split at `c`, and the rest after the first `c`
/// when there is one.
pub open spec fn split_first(s: Seq<char>, c: char) -> (Seq<char>, Option<Seq<char>>) {
    match split_once_spec(s, c) {
        Some((a, b)) => (a, Some(b)),
        None => (s, None),
    }
}

fn split_first_exec(s: &str, c: char) -> (r: (String, Option<String>))
    ensures
        (r.0@, match r.1 {
            Some(x) => Some(x@),
            None => None,
        }) == split_first(s@, c),
{
    match split_once(s, c) {
        Some((a, b)) => (a, Some(b)),
        None => (String::from_str(s), None),
    }
}

/// A split resize written `boundary:delta:columnsxrows` (anything after a
/// third `:` is ignored).
pub open spec fn pane_resize_spec(s: Seq<char>) -> Option<HeadlessView> {
    let (first, rest) = split_first(s, ':');
    match rest {
        None => None,
        Some(rest) => {
            let (second, rest2) = split_first(rest, ':');
            match rest2 {
                None => None,
                Some(rest2) => {
                    let (third, _) = split_first(rest2, ':');
                    match (
                        parse_unsigned_spec(first, usize::MAX as int),
                        parse_signed_spec(second, 32767),
                        screen_size_spec(third),
                    ) {
                        (Some(b), Some(d), Some(size)) => Some(
                            HeadlessView::PaneResize {
                                boundary_index: b as usize,
                                delta_cols: d as i16,
                                size,
                            },
                        ),
                        _ => None,
                    }
                },
            }
        },
    }
}

pub open spec fn opt_headless_view(r: Option<HeadlessAction>) -> Option<HeadlessView> {
    match r {
        Some(a) => Some(a@),
        None => None,
    }
}

fn parse_pane_resize(input: &str) -> (r: Option<HeadlessAction>)
    ensures
        opt_headless_view(r) == pane_resize_spec(input@),
{
    let (first, rest) = split_first_exec(input, ':');
    let rest = match rest {
        Some(r) => r,
        None => return None,
    };
    let (second, rest2) = split_first_exec(rest.as_str(), ':');
    let rest2 = match rest2 {
        Some(r) => r,
        None => return None,
    };
    let (third, _) = split_first_exec(rest2.as_str(), ':');
    let boundary_index = match parse_unsigned(first.as_str(), usize::MAX as u64) {
        Some(v) => v as usize,
        None => return None,
    };
    let delta_cols = match parse_signed(second.as_str(), 32767) {
        Some(v) => v as i16,
        None => return None,
    };
    let size = match parse_screen_size(third.as_str()) {
        Some(s) => s,
        None => return None,
    };
    Some(HeadlessAction::PaneResize { boundary_index, delta_cols, size })
}

/// A mouse step written `press:button:column,row`, `drag:column,row` or
/// `release:column,row` (anything after one more `:` is ignored).
pub open spec fn mouse_action_spec(s: Seq<char>) -> Option<HeadlessView> {
    let (kind, rest) = split_first(s, ':');
    match rest {
        None => None,
        Some(rest) => {
            let (arg, rest2) = split_first(rest, ':');
            if kind == "press"@ {
                match rest2 {
                    None => None,
                    Some(rest2) => {
                        let (position, _) = split_first(rest2, ':');
                        match (mouse_button_spec(arg), mouse_position_spec(position)) {
                            (Some(b), Some(p)) => Some(HeadlessView::MousePress(b, p)),
                            _ => None,
                        }
                    },
                }
            } else if kind == "drag"@ {
                match mouse_position_spec(arg) {
                    Some(p) => Some(HeadlessView::MouseDrag(p)),
                    None => None,
                }
            } else if kind == "release"@ {
                match mouse_position_spec(arg) {
                    Some(p) => Some(HeadlessView::MouseRelease(p)),
                    None => None,
                }
            } else {
                None
            }
        },
    }
}

fn parse_mouse_action(input: &str) -> (r: Option<HeadlessAction>)
    ensures
        opt_headless_view(r) == mouse_action_spec(input@),
{
    let (kind, rest) = split_first_exec(input, ':');
    let rest = match rest {
        Some(r) => r,
        None => return None,
    };
    let (arg, rest2) = split_first_exec(rest.as_str(), ':');
    if str_eq(kind.as_str(), "press") {
        let rest2 = match rest2 {
            Some(r) => r,
            None => return None,
        };
        let (position, _) = split_first_exec(rest2.as_str(), ':');
        match (parse_mouse_button(arg.as_str()), parse_mouse_position(position.as_str())) {
            (Some(b), Some(p)) => Some(HeadlessAction::MousePress(b, p)),
            _ => None,
        }
    } else if str_eq(kind.as_str(), "drag") {
        match parse_mouse_position(arg.as_str()) {
            Some(p) => Some(HeadlessAction::MouseDrag(p)),
            None => None,
        }
    } else if str_eq(kind.as_str(), "release") {
        match parse_mouse_position(arg.as_str()) {
            Some(p) => Some(HeadlessAction::MouseRelease(p)),
            None => None,
        }
    } else {
        None
    }
}

/// A scripted step: `raw:` or `text:` writes, `key:`, `resize:`, `scroll:`,
/// `wait:`, `split`, `pane:next`, `pane:previous`, `pane:resize:` and
/// `mouse:` steps; anything else, or a step that does not read, is written
/// as text.
pub open spec fn headless_action_spec(s: Seq<char>) -> HeadlessView {
    if has_prefix(s, "raw:"@) {
        HeadlessView::Write(decode_spec(after_prefix(s, "raw:"@)))
    } else if has_prefix(s, "text:"@) {
        HeadlessView::Write(decode_spec(after_prefix(s, "text:"@)))
    } else if has_prefix(s, "key:"@) && headless_key_spec(after_prefix(s, "key:"@)) is Some {
        HeadlessView::Key(headless_key_spec(after_prefix(s, "key:"@)).unwrap())
    } else if has_prefix(s, "resize:"@) && screen_size_spec(after_prefix(s, "resize:"@)) is Some {
        HeadlessView::Resize(screen_size_spec(after_prefix(s, "resize:"@)).unwrap())
    } else if has_prefix(s, "scroll:"@) && parse_signed_spec(after_prefix(s, "scroll:"@), i32::MAX as int)
        is Some {
        HeadlessView::Scroll(parse_signed_spec(after_prefix(s, "scroll:"@), i32::MAX as int).unwrap() as i32)
    } else if has_prefix(s, "wait:"@) {
        HeadlessView::Wait(decode_spec(after_prefix(s, "wait:"@)))
    } else if s == "split"@ {
        HeadlessView::Split
    } else if s == "pane:next"@ {
        HeadlessView::PaneNext
    } else if s == "pane:previous"@ {
        HeadlessView::PanePrevious
    } else if has_prefix(s, "pane:resize:"@) && pane_resize_spec(after_prefix(s, "pane:resize:"@)) is Some {
        pane_resize_spec(after_prefix(s, "pane:resize:"@)).unwrap()
    } else if has_prefix(s, "mouse:"@) && mouse_action_spec(after_prefix(s, "mouse:"@)) is Some {
        mouse_action_spec(after_prefix(s, "mouse:"@)).unwrap()
    } else {
        HeadlessView::Write(decode_spec(s))
    }
}

pub fn parse_headless_action(input: &str) -> (r: HeadlessAction)
    ensures
        r@ == headless_action_spec(input@),
{
    if let Some(text) = strip_prefix(input, "raw:") {
        return HeadlessAction::Write(decode_action(text.as_str()));
    }
    if let Some(text) = strip_prefix(input, "text:") {
        return HeadlessAction::Write(decode_action(text.as_str()));
    }
    if let Some(key) = strip_prefix(input, "key:") {
        if let Some(key) = parse_headless_key(key.as_str()) {
            return HeadlessAction::Key(key);
        }
    }
    if let Some(size) = strip_prefix(input, "resize:") {
        if let Some(size) = parse_screen_size(size.as_str()) {
            return HeadlessAction::Resize(size);
        }
    }
    if let Some(lines) = strip_prefix(input, "scroll:") {
        if let Some(lines) = parse_signed(lines.as_str(), 2147483647) {
            return HeadlessAction::Scroll(lines as i32);
        }
    }
    if let Some(expected) = strip_prefix(input, "wait:") {
        return HeadlessAction::Wait(decode_action(expected.as_str()));
    }
    if str_eq(input, "split") {
        return HeadlessAction::Split;
    }
    if str_eq(input, "pane:next") {
        return HeadlessAction::PaneNext;
    }
    if str_eq(input, "pane:previous") {
        return HeadlessAction::PanePrevious;
    }
    if let Some(resize) = strip_prefix(input, "pane:resize:") {
        if let Some(action) = parse_pane_resize(resize.as_str()) {
            return action;
        }
    }
    if let Some(mouse) = strip_prefix(input, "mouse:") {
        if let Some(action) = parse_mouse_action(mouse.as_str()) {
            return action;
        }
    }
    HeadlessAction::Write(decode_action(input))
}

/// Whether a scripted step needs the tabbed workspace rather than a single
/// terminal: split and pane steps, and keys for new tabs, tab switching and
/// splitting.
pub open spec fn needs_workspace_spec(action: HeadlessView) -> bool {
    match action {
        HeadlessView::Split | HeadlessView::PaneNext | HeadlessView::PanePrevious
        | HeadlessView::PaneResize { .. } => true,
        HeadlessView::Key(k) => match key_action_spec(k.key, 0, k.modifiers) {
            Some(ActionView::NewTab) | Some(ActionView::NextTab) | Some(ActionView::PreviousTab)
            | Some(ActionView::SplitPane) => true,
            _ => false,
        },
        _ => false,
    }
}

impl HeadlessAction {
    pub fn needs_workspace(&self) -> (r: bool)
        ensures
            r == needs_workspace_spec(self@),
    {
        match self {
            HeadlessAction::Split | HeadlessAction::PaneNext | HeadlessAction::PanePrevious
            | HeadlessAction::PaneResize { .. } => true,
            HeadlessAction::Key(k) => match key_to_action(k.key, 0, k.modifiers) {
                Some(KeyAction::NewTab) | Some(KeyAction::NextTab) | Some(KeyAction::PreviousTab)
                | Some(KeyAction::SplitPane) => true,
                _ => false,
            },
            _ => false,
        }
    }
}

/// What a headless run does with its terminal for one scripted step.
#[derive(Clone, Debug, PartialEq, Eq)]
pub enum HeadlessCommand {
    /// Write these bytes to the shell.
    Write(Vec<u8>),
    /// Scroll the display by this many lines.
    ScrollDisplay(i32),
    /// Resize the terminal.
    Resize(ScreenSize),
    /// Wait until this text shows.
    WaitFor(String),
    /// Read the mouse mode and hand the step to the pointer.
    Pointer,
    /// Nothing to do.
    Nothing,
}

pub enum CommandView {
    Write(Seq<u8>),
    ScrollDisplay(i32),
    Resize(ScreenSize),
    WaitFor(Seq<char>),
    Pointer,
    Nothing,
}

impl View for HeadlessCommand {
    type V = CommandView;

    open spec fn view(&self) -> CommandView {
        match self {
            HeadlessCommand::Write(b) => CommandView::Write(b@),
            HeadlessCommand::ScrollDisplay(n) => CommandView::ScrollDisplay(*n),
            HeadlessCommand::Resize(s) => CommandView::Resize(*s),
            HeadlessCommand::WaitFor(t) => CommandView::WaitFor(t@),
            HeadlessCommand::Pointer => CommandView::Pointer,
            HeadlessCommand::Nothing => CommandView::Nothing,
        }
    }
}

/// The bytes a string writes: its UTF-8 encoding.
pub open spec fn text_bytes(s: Seq<char>) -> Seq<u8> {
    vstd::utf8::encode_utf8(s)
}

/// What a single-terminal headless run does for a step: text is written;
/// a key is written as the bytes it maps to (a plain arrow for a cell move
/// without selection, a scroll for a scrollback key, nothing for the view's
/// own shortcuts); resize, scroll and wait go to the terminal; pointer steps
/// go to the pointer; workspace steps do nothing.
pub open spec fn headless_command_spec(action: HeadlessView) -> CommandView {
    match action {
        HeadlessView::Write(text) => CommandView::Write(text_bytes(text)),
        HeadlessView::Key(k) => match key_action_spec(k.key, 0, k.modifiers) {
            Some(ActionView::Write(bytes)) => CommandView::Write(bytes),
            Some(ActionView::CursorMove { direction, unit: CursorUnit::Cell, selecting: false }) => CommandView::Write(
                if direction == CursorDirection::Left {
                    seq![0x1bu8, 0x5bu8, 0x44u8]
                } else {
                    seq![0x1bu8, 0x5bu8, 0x43u8]
                },
            ),
            Some(ActionView::ScrollDisplay(lines)) => CommandView::ScrollDisplay(lines),
            _ => CommandView::Nothing,
        },
        HeadlessView::Resize(size) => CommandView::Resize(size),
        HeadlessView::Scroll(lines) => CommandView::ScrollDisplay(lines),
        HeadlessView::Wait(text) => CommandView::WaitFor(text),
        HeadlessView::MousePress(..) | HeadlessView::MouseDrag(..) | HeadlessView::MouseRelease(..) => CommandView::Pointer,
        _ => CommandView::Nothing,
    }
}

fn string_bytes(s: &String) -> (r: Vec<u8>)
    ensures
        r@ == text_bytes(s@),
{
    let bytes = s.as_str().as_bytes();
    let mut out: Vec<u8> = Vec::new();
    let mut i: usize = 0;
    while i < bytes.len()
        invariant
            bytes@ == text_bytes(s@),
            i <= bytes@.len(),
            out@ == bytes@.subrange(0, i as int),
        decreases bytes.len() - i,
    {
        out.push(bytes[i]);
        assert(bytes@.subrange(0, i + 1) =~= bytes@.subrange(0, i as int).push(bytes@[i as int]));
        i = i + 1;
    }
    assert(bytes@.subrange(0, bytes@.len() as int) =~= bytes@);
    out
}

pub fn headless_command(action: &HeadlessAction) -> (r: HeadlessCommand)
    ensures
        r@ == headless_command_spec(action@),
{
    match action {
        HeadlessAction::Write(text) => HeadlessCommand::Write(string_bytes(text)),
        HeadlessAction::Key(k) => match key_to_action(k.key, 0, k.modifiers) {
            Some(KeyAction::Write(bytes)) => HeadlessCommand::Write(bytes),
            Some(KeyAction::CursorMove { direction, unit: CursorUnit::Cell, selecting: false }) => {
                let last: u8 = match direction {
                    CursorDirection::Left => 0x44,
                    CursorDirection::Right => 0x43,
                };
                let bytes = vec![0x1bu8, 0x5bu8, last];
                proof {
                    assert(bytes@ =~= if direction == CursorDirection::Left {
                        seq![0x1bu8, 0x5bu8, 0x44u8]
                    } else {
                        seq![0x1bu8, 0x5bu8, 0x43u8]
                    });
                }
                HeadlessCommand::Write(bytes)
            },
            Some(KeyAction::ScrollDisplay(lines)) => HeadlessCommand::ScrollDisplay(lines),
            _ => HeadlessCommand::Nothing,
        },
        HeadlessAction::Resize(size) => HeadlessCommand::Resize(*size),
        HeadlessAction::Scroll(lines) => HeadlessCommand::ScrollDisplay(*lines),
        HeadlessAction::Wait(text) => HeadlessCommand::WaitFor(text.clone()),
        HeadlessAction::MousePress(..) | HeadlessAction::MouseDrag(..) | HeadlessAction::MouseRelease(
            ..,
        ) => HeadlessCommand::Pointer,
        _ => HeadlessCommand::Nothing,
    }
}

/// What a headless run does with one pointer effect.
#[derive(Clone, Debug, PartialEq, Eq)]
pub enum EffectCommand {
    /// Write these bytes to the shell.
    Write(Vec<u8>),
    /// Move the shell cursor to this cell, by the arrow keys the current
    /// snapshot calls for.
    MoveCursorTo(MouseGridPosition),
    /// Nothing to do with the terminal.
    Nothing,
}

/// The pointer and selection of a scripted single-terminal run.
pub struct HeadlessRuntime {
    pub pointer: PointerInteraction,
    pub selection: Option<SelectionRange>,
}

impl HeadlessRuntime {
    pub fn new() -> (r: Self)
        ensures
            r.pointer@ == crate::interaction::initial_state(),
            r.selection is None,
    {
        HeadlessRuntime { pointer: PointerInteraction::default(), selection: None }
    }

    /// Hands a pointer step to the pointer state machine under the
    /// terminal's mouse mode; other steps have no effect.
    pub fn pointer_step(&mut self, mode: MouseMode, action: &HeadlessAction) -> (r: Vec<InteractionEffect>)
        ensures
            final(self).selection == old(self).selection,
            match action@ {
                HeadlessView::MousePress(button, position) => final(self).pointer@ == press_next(
                    old(self).pointer@,
                    mode,
                    button,
                    position,
                ) && effects_view(r@) == press_effects(mode, button, position),
                HeadlessView::MouseDrag(position) => final(self).pointer@ == motion_next(
                    old(self).pointer@,
                    mode,
                    position,
                ) && effects_view(r@) == motion_effects(old(self).pointer@, mode, position),
                HeadlessView::MouseRelease(position) => final(self).pointer@ == release_next(
                    old(self).pointer@,
                ) && effects_view(r@) == release_effects(old(self).pointer@, mode, position),
                _ => final(self).pointer@ == old(self).pointer@ && r@.len() == 0,
            },
    {
        match action {
            HeadlessAction::MousePress(button, position) => self.pointer.press(mode, *button, *position),
            HeadlessAction::MouseDrag(position) => self.pointer.motion(mode, *position),
            HeadlessAction::MouseRelease(position) => self.pointer.release(mode, *position),
            _ => Vec::new(),
        }
    }

    /// Takes one pointer effect: a write or a cursor move goes to the
    /// terminal; a selection change is remembered.
    pub fn apply_effect(&mut self, effect: InteractionEffect) -> (r: EffectCommand)
        ensures
            final(self).pointer == old(self).pointer,
            match effect@ {
                EffectView::Write(bytes) => r matches EffectCommand::Write(b) && b@ == bytes
                    && final(self).selection == old(self).selection,
                EffectView::SelectionChanged(selection) => r == EffectCommand::Nothing
                    && final(self).selection == selection,
                EffectView::MoveCursorTo(position) => r == EffectCommand::MoveCursorTo(position)
                    && final(self).selection == old(self).selection,
            },
    {
        match effect {
            InteractionEffect::Write(bytes) => EffectCommand::Write(bytes),
            InteractionEffect::SelectionChanged(selection) => {
                self.selection = selection;
                EffectCommand::Nothing
            },
            InteractionEffect::MoveCursorTo(position) => EffectCommand::MoveCursorTo(position),
        }
    }
}

/// The texts a headless run waits for by default.
pub fn default_expected() -> (r: Vec<String>)
    ensures
        r@.map_values(|s: String| s@) == seq![
            "chelotype headless snapshot"@,
            "color-test"@,
            "red green blue"@,
        ],
{
    let r = vec![
        String::from_str("chelotype headless snapshot"),
        String::from_str("color-test"),
        String::from_str("red green blue"),
    ];
    assert(r@.map_values(|s: String| s@) =~= seq![
        "chelotype headless snapshot"@,
        "color-test"@,
        "red green blue"@,
    ]);
    r
}

/// The steps a headless run takes by default: a banner, a prompt change and
/// a line in three colors.
pub open spec fn default_actions_view() -> Seq<HeadlessView> {
    seq![
        HeadlessView::Write("printf '\\nchelotype headless snapshot\\n'\n"@),
        HeadlessView::Write("echo prompt>$PS1\n"@),
        HeadlessView::Write(
            "echo color-test && printf '\\e[31mred\\e[0m \\e[32mgreen\\e[0m \\e[34mblue\\e[0m\\n'\n"@,
        ),
    ]
}

pub open spec fn actions_view(actions: Seq<HeadlessAction>) -> Seq<HeadlessView> {
    actions.map_values(|a: HeadlessAction| a@)
}

pub fn default_actions() -> (r: Vec<HeadlessAction>)
    ensures
        actions_view(r@) == default_actions_view(),
{
    let r = vec![
        HeadlessAction::Write(String::from_str("printf '\\nchelotype headless snapshot\\n'\n")),
        HeadlessAction::Write(String::from_str("echo prompt>$PS1\n")),
        HeadlessAction::Write(
            String::from_str(
                "echo color-test && printf '\\e[31mred\\e[0m \\e[32mgreen\\e[0m \\e[34mblue\\e[0m\\n'\n",
            ),
        ),
    ];
    assert(actions_view(r@) =~= default_actions_view());
    r
}

/// A scripted headless run: its steps, the texts to wait for, the pause
/// between steps and a selection to render.
pub struct HeadlessScenario {
    pub actions: Vec<HeadlessAction>,
    pub expected: Vec<String>,
    pub step_delay_ms: u64,
    pub selection: Option<SelectionRange>,
}

pub open spec fn strings_of(v: Seq<String>) -> Seq<Seq<char>> {
    v.map_values(|s: String| s@)
}

/// The steps of a run: the `|`-separated scripted events when given, else
/// the `|`-separated raw writes, else the default steps.
pub open spec fn scenario_actions_spec(events: Option<Seq<char>>, writes: Option<Seq<char>>) -> Seq<
    HeadlessView,
> {
    match events {
        Some(e) => split_pieces(e, '|').map_values(|p: Seq<char>| headless_action_spec(p)),
        None => match writes {
            Some(w) => split_pieces(w, '|').map_values(|p: Seq<char>| HeadlessView::Write(decode_spec(p))),
            None => default_actions_view(),
        },
    }
}

/// The texts to wait for: the `|`-separated list when given, else the
/// defaults.
pub open spec fn scenario_expected_spec(expect: Option<Seq<char>>) -> Seq<Seq<char>> {
    match expect {
        Some(e) => split_pieces(e, '|'),
        None => seq![
            "chelotype headless snapshot"@,
            "color-test"@,
            "red green blue"@,
        ],
    }
}

/// The pause between steps: the given milliseconds when they read as a
/// `u64`, else 120.
pub open spec fn scenario_delay_spec(step_ms: Option<Seq<char>>) -> u64 {
    match step_ms {
        Some(v) => match parse_unsigned_spec(v, u64::MAX as int) {
            Some(n) => n as u64,
            None => 120,
        },
        None => 120,
    }
}

pub open spec fn opt_view(o: Option<&str>) -> Option<Seq<char>> {
    match o {
        Some(s) => Some(s@),
        None => None,
    }
}

fn parse_events(value: &str) -> (r: Vec<HeadlessAction>)
    ensures
        actions_view(r@) == split_pieces(value@, '|').map_values(|p: Seq<char>| headless_action_spec(p)),
{
    let pieces = split_char(value, '|');
    let ghost views = pieces@.map_values(|p: String| p@);
    let mut out: Vec<HeadlessAction> = Vec::new();
    let mut i: usize = 0;
    while i < pieces.len()
        invariant
            i <= pieces@.len(),
            views == pieces@.map_values(|p: String| p@),
            actions_view(out@) == views.subrange(0, i as int).map_values(
                |p: Seq<char>| headless_action_spec(p),
            ),
        decreases pieces.len() - i,
    {
        let action = parse_headless_action(pieces[i].as_str());
        let ghost before = actions_view(out@);
        out.push(action);
        proof {
            assert(views[i as int] == pieces@[i as int]@);
            assert(actions_view(out@) =~= before.push(action@));
            assert(actions_view(out@) =~= views.subrange(0, i + 1).map_values(
                |p: Seq<char>| headless_action_spec(p),
            ));
        }
        i = i + 1;
    }
    assert(views.subrange(0, pieces@.len() as int) =~= views);
    out
}

fn parse_writes(value: &str) -> (r: Vec<HeadlessAction>)
    ensures
        actions_view(r@) == split_pieces(value@, '|').map_values(
            |p: Seq<char>| HeadlessView::Write(decode_spec(p)),
        ),
{
    let pieces = split_char(value, '|');
    let ghost views = pieces@.map_values(|p: String| p@);
    let mut out: Vec<HeadlessAction> = Vec::new();
    let mut i: usize = 0;
    while i < pieces.len()
        invariant
            i <= pieces@.len(),
            views == pieces@.map_values(|p: String| p@),
            actions_view(out@) == views.subrange(0, i as int).map_values(
                |p: Seq<char>| HeadlessView::Write(decode_spec(p)),
            ),
        decreases pieces.len() - i,
    {
        let action = HeadlessAction::Write(decode_action(pieces[i].as_str()));
        let ghost before = actions_view(out@);
        out.push(action);
        proof {
            assert(views[i as int] == pieces@[i as int]@);
            assert(actions_view(out@) =~= before.push(action@));
            assert(actions_view(out@) =~= views.subrange(0, i + 1).map_values(
                |p: Seq<char>| HeadlessView::Write(decode_spec(p)),
            ));
        }
        i = i + 1;
    }
    assert(views.subrange(0, pieces@.len() as int) =~= views);
    out
}

impl HeadlessScenario {
    /// The scenario described by the run's settings: scripted events,
    /// raw writes, expected texts, the step pause and a selection, each
    /// when set.
    pub fn from_values(
        events: Option<&str>,
        writes: Option<&str>,
        expect: Option<&str>,
        step_ms: Option<&str>,
        selection: Option<&str>,
    ) -> (r: Self)
        ensures
            actions_view(r.actions@) == scenario_actions_spec(opt_view(events), opt_view(writes)),
            strings_of(r.expected@) == scenario_expected_spec(opt_view(expect)),
            r.step_delay_ms == scenario_delay_spec(opt_view(step_ms)),
            r.selection == (match selection {
                Some(s) => selection_range_spec(s@),
                None => None,
            }),
    {
        let actions = match events {
            Some(e) => parse_events(e),
            None => match writes {
                Some(w) => parse_writes(w),
                None => default_actions(),
            },
        };
        let expected = match expect {
            Some(e) => split_char(e, '|'),
            None => default_expected(),
        };
        let step_delay_ms = match step_ms {
            Some(v) => match parse_unsigned(v, u64::MAX) {
                Some(n) => n,
                None => 120,
            },
            None => 120,
        };
        let selection = match selection {
            Some(s) => parse_selection_range(s),
            None => None,
        };
        HeadlessScenario { actions, expected, step_delay_ms, selection }
    }

    /// Whether any step needs the tabbed workspace.
    pub fn needs_workspace(&self) -> (r: bool)
        ensures
            r == exists|i: int|
                0 <= i < self.actions@.len() && needs_workspace_spec(#[trigger] self.actions@[i]@),
    {
        let mut i: usize = 0;
        while i < self.actions.len()
            invariant
                i <= self.actions@.len(),
                forall|k: int| 0 <= k < i ==> !needs_workspace_spec(#[trigger] self.actions@[k]@),
            decreases self.actions.len() - i,
        {
            if self.actions[i].needs_workspace() {
                return true;
            }
            i = i + 1;
        }
        false
    }
}

} // verus!
