use crate::command_blocks::CommandBlockDirection;
use crate::text::{decimal_ascii, push_char, push_decimal_ascii};
use vstd::prelude::*;
use vstd::string::*;
use vstd::utf8::*;

verus! {

/// Which way the keyboard cursor moves.
#[derive(Clone, Copy, Debug, PartialEq, Eq, Structural)]
pub enum CursorDirection {
    Left,
    Right,
}

/// How far the keyboard cursor moves: one cell or one word.
#[derive(Clone, Copy, Debug, PartialEq, Eq, Structural)]
pub enum CursorUnit {
    Cell,
    Word,
}

/// The bytes a terminal application expects for a cursor move: an arrow key,
/// or a ctrl-arrow for a word.
pub open spec fn cursor_move_bytes_spec(direction: CursorDirection, unit: CursorUnit) -> Seq<u8> {
    match (direction, unit) {
        (CursorDirection::Left, CursorUnit::Cell) => seq![0x1bu8, 0x5bu8, 0x44u8],
        (CursorDirection::Right, CursorUnit::Cell) => seq![0x1bu8, 0x5bu8, 0x43u8],
        (CursorDirection::Left, CursorUnit::Word) => seq![0x1bu8, 0x5bu8, 0x31u8, 0x3bu8, 0x35u8, 0x44u8],
        (CursorDirection::Right, CursorUnit::Word) => seq![0x1bu8, 0x5bu8, 0x31u8, 0x3bu8, 0x35u8, 0x43u8],
    }
}

pub fn cursor_move_terminal_bytes(direction: CursorDirection, unit: CursorUnit) -> (r: Vec<u8>)
    ensures
        r@ == cursor_move_bytes_spec(direction, unit),
{
    let last: u8 = match direction {
        CursorDirection::Left => 0x44,
        CursorDirection::Right => 0x43,
    };
    let r = match unit {
        CursorUnit::Cell => vec![0x1bu8, 0x5bu8, last],
        CursorUnit::Word => vec![0x1bu8, 0x5bu8, 0x31u8, 0x3bu8, 0x35u8, last],
    };
    assert(r@ =~= cursor_move_bytes_spec(direction, unit));
    r
}

/// A key as the terminal view receives it: the named keys it treats
/// specially, a key that types a character, or any other key.
#[derive(Clone, Copy, Debug, PartialEq, Eq, Structural)]
pub enum Key {
    Left,
    Right,
    Up,
    Down,
    Home,
    End,
    Insert,
    Delete,
    PageUp,
    PageDown,
    /// A function key, numbered from one.
    Function(u8),
    KpUp,
    KpDown,
    KpLeft,
    KpRight,
    KpHome,
    KpEnd,
    KpInsert,
    KpDelete,
    KpPageUp,
    KpPageDown,
    KpEnter,
    KpAdd,
    KpSubtract,
    Kp0,
    Escape,
    Return,
    BackSpace,
    Tab,
    IsoLeftTab,
    /// A key that types this character.
    Char(char),
    Other,
}

/// The modifier keys held with a key.
#[derive(Clone, Copy, Debug, PartialEq, Eq, Structural)]
pub struct Modifiers {
    pub control: bool,
    pub shift: bool,
    pub alt: bool,
    pub meta: bool,
    pub super_key: bool,
}

/// What a key press asks of the terminal view.
#[derive(Clone, Debug, PartialEq, Eq)]
pub enum KeyAction {
    Write(Vec<u8>),
    CursorMove { direction: CursorDirection, unit: CursorUnit, selecting: bool },
    SelectInput,
    SelectCommandBlockOutput(CommandBlockDirection),
    ScrollDisplay(i32),
    CopySelection,
    CutSelection,
    PasteClipboard,
    UndoInput,
    RedoInput,
    NewTab,
    NewWindow,
    CloseTab,
    NextTab,
    PreviousTab,
    SplitPane,
    ZoomIn,
    ZoomOut,
    ZoomReset,
    OpenSettings,
    OpenAbout,
}

/// A key action with its bytes taken as a sequence.
pub enum ActionView {
    Write(Seq<u8>),
    CursorMove { direction: CursorDirection, unit: CursorUnit, selecting: bool },
    SelectInput,
    SelectCommandBlockOutput(CommandBlockDirection),
    ScrollDisplay(i32),
    CopySelection,
    CutSelection,
    PasteClipboard,
    UndoInput,
    RedoInput,
    NewTab,
    NewWindow,
    CloseTab,
    NextTab,
    PreviousTab,
    SplitPane,
    ZoomIn,
    ZoomOut,
    ZoomReset,
    OpenSettings,
    OpenAbout,
}

impl View for KeyAction {
    type V = ActionView;

    open spec fn view(&self) -> ActionView {
        match self {
            KeyAction::Write(bytes) => ActionView::Write(bytes@),
            KeyAction::CursorMove { direction, unit, selecting } => ActionView::CursorMove {
                direction: *direction,
                unit: *unit,
                selecting: *selecting,
            },
            KeyAction::SelectInput => ActionView::SelectInput,
            KeyAction::SelectCommandBlockOutput(d) => ActionView::SelectCommandBlockOutput(*d),
            KeyAction::ScrollDisplay(n) => ActionView::ScrollDisplay(*n),
            KeyAction::CopySelection => ActionView::CopySelection,
            KeyAction::CutSelection => ActionView::CutSelection,
            KeyAction::PasteClipboard => ActionView::PasteClipboard,
            KeyAction::UndoInput => ActionView::UndoInput,
            KeyAction::RedoInput => ActionView::RedoInput,
            KeyAction::NewTab => ActionView::NewTab,
            KeyAction::NewWindow => ActionView::NewWindow,
            KeyAction::CloseTab => ActionView::CloseTab,
            KeyAction::NextTab => ActionView::NextTab,
            KeyAction::PreviousTab => ActionView::PreviousTab,
            KeyAction::SplitPane => ActionView::SplitPane,
            KeyAction::ZoomIn => ActionView::ZoomIn,
            KeyAction::ZoomOut => ActionView::ZoomOut,
            KeyAction::ZoomReset => ActionView::ZoomReset,
            KeyAction::OpenSettings => ActionView::OpenSettings,
            KeyAction::OpenAbout => ActionView::OpenAbout,
        }
    }
}

/// The physical keys (by hardware keycode) whose shortcuts work under any
/// keyboard layout.
#[derive(Clone, Copy, Debug, PartialEq, Eq, Structural)]
pub enum PhysicalKey {
    A,
    C,
    E,
    N,
    T,
    V,
    W,
    X,
    Z,
    Comma,
    Minus,
    Equal,
    Digit0,
}

/// The physical key at a hardware keycode.
pub open spec fn physical_key_spec(keycode: u32) -> Option<PhysicalKey> {
    if keycode == 38 {
        Some(PhysicalKey::A)
    } else if keycode == 54 {
        Some(PhysicalKey::C)
    } else if keycode == 26 {
        Some(PhysicalKey::E)
    } else if keycode == 57 {
        Some(PhysicalKey::N)
    } else if keycode == 28 {
        Some(PhysicalKey::T)
    } else if keycode == 55 {
        Some(PhysicalKey::V)
    } else if keycode == 25 {
        Some(PhysicalKey::W)
    } else if keycode == 53 {
        Some(PhysicalKey::X)
    } else if keycode == 52 {
        Some(PhysicalKey::Z)
    } else if keycode == 59 {
        Some(PhysicalKey::Comma)
    } else if keycode == 20 {
        Some(PhysicalKey::Minus)
    } else if keycode == 21 {
        Some(PhysicalKey::Equal)
    } else if keycode == 19 {
        Some(PhysicalKey::Digit0)
    } else {
        None
    }
}

pub fn physical_key(keycode: u32) -> (r: Option<PhysicalKey>)
    ensures
        r == physical_key_spec(keycode),
{
    if keycode == 38 {
        Some(PhysicalKey::A)
    } else if keycode == 54 {
        Some(PhysicalKey::C)
    } else if keycode == 26 {
        Some(PhysicalKey::E)
    } else if keycode == 57 {
        Some(PhysicalKey::N)
    } else if keycode == 28 {
        Some(PhysicalKey::T)
    } else if keycode == 55 {
        Some(PhysicalKey::V)
    } else if keycode == 25 {
        Some(PhysicalKey::W)
    } else if keycode == 53 {
        Some(PhysicalKey::X)
    } else if keycode == 52 {
        Some(PhysicalKey::Z)
    } else if keycode == 59 {
        Some(PhysicalKey::Comma)
    } else if keycode == 20 {
        Some(PhysicalKey::Minus)
    } else if keycode == 21 {
        Some(PhysicalKey::Equal)
    } else if keycode == 19 {
        Some(PhysicalKey::Digit0)
    } else {
        None
    }
}

/// The control byte a physical letter key sends with ctrl.
pub open spec fn physical_control_spec(keycode: u32) -> Option<u8> {
    match physical_key_spec(keycode) {
        Some(PhysicalKey::A) => Some(0x01),
        Some(PhysicalKey::C) => Some(0x03),
        Some(PhysicalKey::E) => Some(0x05),
        Some(PhysicalKey::N) => Some(0x0e),
        Some(PhysicalKey::T) => Some(0x14),
        Some(PhysicalKey::V) => Some(0x16),
        Some(PhysicalKey::W) => Some(0x17),
        Some(PhysicalKey::X) => Some(0x18),
        Some(PhysicalKey::Z) => Some(0x1a),
        _ => None,
    }
}

pub fn physical_control_byte(keycode: u32) -> (r: Option<u8>)
    ensures
        r == physical_control_spec(keycode),
{
    match physical_key(keycode) {
        Some(PhysicalKey::A) => Some(0x01),
        Some(PhysicalKey::C) => Some(0x03),
        Some(PhysicalKey::E) => Some(0x05),
        Some(PhysicalKey::N) => Some(0x0e),
        Some(PhysicalKey::T) => Some(0x14),
        Some(PhysicalKey::V) => Some(0x16),
        Some(PhysicalKey::W) => Some(0x17),
        Some(PhysicalKey::X) => Some(0x18),
        Some(PhysicalKey::Z) => Some(0x1a),
        _ => None,
    }
}

/// The control byte a character sends with ctrl: a letter its position in
/// the alphabet, space and `@` zero, `[ \ ] ^ _` the bytes after 26, `?`
/// delete.
pub open spec fn control_byte_spec(ch: char) -> Option<u8> {
    if 'a' <= ch <= 'z' {
        Some((ch as int - 0x60) as u8)
    } else if 'A' <= ch <= 'Z' {
        Some((ch as int - 0x40) as u8)
    } else if ch == ' ' || ch == '@' {
        Some(0)
    } else if ch == '[' {
        Some(0x1b)
    } else if ch == '\\' {
        Some(0x1c)
    } else if ch == ']' {
        Some(0x1d)
    } else if ch == '^' {
        Some(0x1e)
    } else if ch == '_' {
        Some(0x1f)
    } else if ch == '?' {
        Some(0x7f)
    } else {
        None
    }
}

pub fn control_byte_for_char(ch: char) -> (r: Option<u8>)
    ensures
        r == control_byte_spec(ch),
{
    if 'a' <= ch && ch <= 'z' {
        Some(((ch as u32) - 0x60) as u8)
    } else if 'A' <= ch && ch <= 'Z' {
        Some(((ch as u32) - 0x40) as u8)
    } else if ch == ' ' || ch == '@' {
        Some(0)
    } else if ch == '[' {
        Some(0x1b)
    } else if ch == '\\' {
        Some(0x1c)
    } else if ch == ']' {
        Some(0x1d)
    } else if ch == '^' {
        Some(0x1e)
    } else if ch == '_' {
        Some(0x1f)
    } else if ch == '?' {
        Some(0x7f)
    } else {
        None
    }
}

/// The character a key types: its own for a character key, the sign or digit
/// of the keypad keys that type one, none for the other keys.
pub open spec fn key_char(key: Key) -> Option<char> {
    match key {
        Key::Char(c) => Some(c),
        Key::KpAdd => Some('+'),
        Key::KpSubtract => Some('-'),
        Key::Kp0 => Some('0'),
        _ => None,
    }
}

pub(crate) fn key_unicode(key: Key) -> (r: Option<char>)
    ensures
        r == key_char(key),
{
    match key {
        Key::Char(c) => Some(c),
        Key::KpAdd => Some('+'),
        Key::KpSubtract => Some('-'),
        Key::Kp0 => Some('0'),
        _ => None,
    }
}

/// A character in ASCII lower case.
pub open spec fn ascii_lower(c: char) -> char {
    if 'A' <= c <= 'Z' {
        ((c as int) + 32) as char
    } else {
        c
    }
}

/// Whether a key is the given physical key, or types the given letter in
/// either case.
pub open spec fn key_matches_spec(key: Key, keycode: u32, physical: PhysicalKey, letter: char) -> bool {
    physical_key_spec(keycode) == Some(physical) || match key_char(key) {
        Some(c) => ascii_lower(c) == ascii_lower(letter),
        None => false,
    }
}

fn key_matches(key: Key, keycode: u32, physical: PhysicalKey, letter: char) -> (r: bool)
    requires
        'a' <= letter <= 'z',
    ensures
        r == key_matches_spec(key, keycode, physical, letter),
{
    if physical_key(keycode) == Some(physical) {
        return true;
    }
    match key_unicode(key) {
        Some(c) => {
            let lower = if 'A' <= c && c <= 'Z' {
                (((c as u32) + 32) as u8) as char
            } else {
                c
            };
            lower == letter
        },
        None => false,
    }
}

/// The xterm number, final character and SS3 form of a named key.
pub open spec fn named_key_code(key: Key) -> Option<(nat, u8, bool)> {
    match key {
        Key::Up | Key::KpUp => Some((1, 0x41u8, false)),
        Key::Down | Key::KpDown => Some((1, 0x42u8, false)),
        Key::Right | Key::KpRight => Some((1, 0x43u8, false)),
        Key::Left | Key::KpLeft => Some((1, 0x44u8, false)),
        Key::Home | Key::KpHome => Some((1, 0x48u8, false)),
        Key::End | Key::KpEnd => Some((1, 0x46u8, false)),
        Key::Insert | Key::KpInsert => Some((2, 0x7eu8, false)),
        Key::Delete | Key::KpDelete => Some((3, 0x7eu8, false)),
        Key::PageUp | Key::KpPageUp => Some((5, 0x7eu8, false)),
        Key::PageDown | Key::KpPageDown => Some((6, 0x7eu8, false)),
        Key::Function(n) => if n == 1 {
            Some((1, 0x50u8, true))
        } else if n == 2 {
            Some((1, 0x51u8, true))
        } else if n == 3 {
            Some((1, 0x52u8, true))
        } else if n == 4 {
            Some((1, 0x53u8, true))
        } else if n == 5 {
            Some((15, 0x7eu8, false))
        } else if n == 6 {
            Some((17, 0x7eu8, false))
        } else if n == 7 {
            Some((18, 0x7eu8, false))
        } else if n == 8 {
            Some((19, 0x7eu8, false))
        } else if n == 9 {
            Some((20, 0x7eu8, false))
        } else if n == 10 {
            Some((21, 0x7eu8, false))
        } else if n == 11 {
            Some((23, 0x7eu8, false))
        } else if n == 12 {
            Some((24, 0x7eu8, false))
        } else {
            None
        },
        _ => None,
    }
}

/// An xterm key sequence: `CSI number ; modifier final` with modifiers, else
/// `SS3 final` for the SS3 keys, else `CSI number ~` or `CSI final`.
pub open spec fn xterm_sequence(number: nat, modifier: nat, suffix: u8, ss3: bool) -> Seq<u8> {
    if modifier != 1 {
        seq![0x1bu8, 0x5bu8] + decimal_ascii(number) + seq![0x3bu8] + decimal_ascii(modifier) + seq![suffix]
    } else if ss3 {
        seq![0x1bu8, 0x4fu8, suffix]
    } else if suffix == 0x7e {
        seq![0x1bu8, 0x5bu8] + decimal_ascii(number) + seq![0x7eu8]
    } else {
        seq![0x1bu8, 0x5bu8, suffix]
    }
}

/// The xterm modifier parameter: one, plus one for shift, two for alt or
/// meta, four for ctrl.
pub open spec fn modifier_param(m: Modifiers) -> nat {
    (1 + (if m.shift {
        1int
    } else {
        0
    }) + (if m.alt || m.meta {
        2int
    } else {
        0
    }) + (if m.control {
        4int
    } else {
        0
    })) as nat
}

/// The bytes of a named key: back-tab, or its xterm sequence.
pub open spec fn named_key_spec(key: Key, m: Modifiers) -> Option<Seq<u8>> {
    if key == Key::IsoLeftTab || (key == Key::Tab && m.shift) {
        Some(seq![0x1bu8, 0x5bu8, 0x5au8])
    } else {
        match named_key_code(key) {
            Some((number, suffix, ss3)) => Some(xterm_sequence(number, modifier_param(m), suffix, ss3)),
            None => None,
        }
    }
}

fn named_key_code_of(key: Key) -> (r: Option<(u64, u8, bool)>)
    ensures
        match r {
            Some((n, s, t)) => named_key_code(key) == Some((n as nat, s, t)),
            None => named_key_code(key) is None,
        },
{
    match key {
        Key::Up | Key::KpUp => Some((1, 0x41, false)),
        Key::Down | Key::KpDown => Some((1, 0x42, false)),
        Key::Right | Key::KpRight => Some((1, 0x43, false)),
        Key::Left | Key::KpLeft => Some((1, 0x44, false)),
        Key::Home | Key::KpHome => Some((1, 0x48, false)),
        Key::End | Key::KpEnd => Some((1, 0x46, false)),
        Key::Insert | Key::KpInsert => Some((2, 0x7e, false)),
        Key::Delete | Key::KpDelete => Some((3, 0x7e, false)),
        Key::PageUp | Key::KpPageUp => Some((5, 0x7e, false)),
        Key::PageDown | Key::KpPageDown => Some((6, 0x7e, false)),
        Key::Function(n) => if n == 1 {
            Some((1, 0x50, true))
        } else if n == 2 {
            Some((1, 0x51, true))
        } else if n == 3 {
            Some((1, 0x52, true))
        } else if n == 4 {
            Some((1, 0x53, true))
        } else if n == 5 {
            Some((15, 0x7e, false))
        } else if n == 6 {
            Some((17, 0x7e, false))
        } else if n == 7 {
            Some((18, 0x7e, false))
        } else if n == 8 {
            Some((19, 0x7e, false))
        } else if n == 9 {
            Some((20, 0x7e, false))
        } else if n == 10 {
            Some((21, 0x7e, false))
        } else if n == 11 {
            Some((23, 0x7e, false))
        } else if n == 12 {
            Some((24, 0x7e, false))
        } else {
            None
        },
        _ => None,
    }
}

fn named_key_to_bytes(key: Key, m: Modifiers) -> (r: Option<Vec<u8>>)
    ensures
        match r {
            Some(v) => named_key_spec(key, m) == Some(v@),
            None => named_key_spec(key, m) is None,
        },
{
    if key == Key::IsoLeftTab || (key == Key::Tab && m.shift) {
        let v = vec![0x1bu8, 0x5bu8, 0x5au8];
        assert(v@ =~= seq![0x1bu8, 0x5bu8, 0x5au8]);
        return Some(v);
    }
    let (number, suffix, ss3) = match named_key_code_of(key) {
        Some(code) => code,
        None => return None,
    };
    let modifier: u64 = 1 + (if m.shift {
        1
    } else {
        0
    }) + (if m.alt || m.meta {
        2
    } else {
        0
    }) + (if m.control {
        4
    } else {
        0
    });
    let mut out: Vec<u8> = Vec::new();
    if modifier != 1 {
        out.push(0x1b);
        out.push(0x5b);
        push_decimal_ascii(&mut out, number);
        out.push(0x3b);
        push_decimal_ascii(&mut out, modifier);
        out.push(suffix);
    } else if ss3 {
        out.push(0x1b);
        out.push(0x4f);
        out.push(suffix);
    } else if suffix == 0x7e {
        out.push(0x1b);
        out.push(0x5b);
        push_decimal_ascii(&mut out, number);
        out.push(0x7e);
    } else {
        out.push(0x1b);
        out.push(0x5b);
        out.push(suffix);
    }
    assert(out@ =~= xterm_sequence(number as nat, modifier_param(m), suffix, ss3));
    Some(out)
}

/// Whether alt, meta or super is held.
pub open spec fn any_alt(m: Modifiers) -> bool {
    m.alt || m.meta || m.super_key
}

/// The bytes a printable key sends: with ctrl the control byte of its
/// physical key or of its character; else its character in UTF-8; with alt,
/// meta or super behind an escape.
pub open spec fn printable_spec(key: Key, keycode: u32, m: Modifiers) -> Option<Seq<u8>> {
    let body = if m.control {
        match physical_control_spec(keycode) {
            Some(b) => Some(seq![b]),
            None => match key_char(key) {
                Some(c) => match control_byte_spec(c) {
                    Some(b) => Some(seq![b]),
                    None => None,
                },
                None => None,
            },
        }
    } else {
        match key_char(key) {
            Some(c) => Some(encode_utf8(seq![c])),
            None => None,
        }
    };
    match body {
        Some(bytes) => Some(
            if any_alt(m) {
                seq![0x1bu8] + bytes
            } else {
                bytes
            },
        ),
        None => None,
    }
}

fn printable_key_to_bytes(key: Key, keycode: u32, m: Modifiers) -> (r: Option<Vec<u8>>)
    ensures
        match r {
            Some(v) => printable_spec(key, keycode, m) == Some(v@),
            None => printable_spec(key, keycode, m) is None,
        },
{
    let mut out: Vec<u8> = Vec::new();
    if any_alt_held(m) {
        out.push(0x1b);
    }
    let ghost prefix = out@;
    if m.control {
        let control = match physical_control_byte(keycode) {
            Some(b) => b,
            None => match key_unicode(key) {
                Some(c) => match control_byte_for_char(c) {
                    Some(b) => b,
                    None => return None,
                },
                None => return None,
            },
        };
        out.push(control);
        assert(out@ =~= prefix + seq![control]);
    } else {
        let ch = match key_unicode(key) {
            Some(c) => c,
            None => return None,
        };
        let mut text = String::new();
        push_char(&mut text, ch);
        let bytes = text.as_str().as_bytes();
        let mut i: usize = 0;
        while i < bytes.len()
            invariant
                bytes@ == encode_utf8(text@),
                i <= bytes@.len(),
                out@ == prefix + bytes@.subrange(0, i as int),
            decreases bytes.len() - i,
        {
            out.push(bytes[i]);
            assert(bytes@.subrange(0, i + 1) =~= bytes@.subrange(0, i as int).push(bytes@[i as int]));
            i = i + 1;
        }
        assert(bytes@.subrange(0, bytes@.len() as int) =~= bytes@);
        assert(text@ =~= seq![ch]);
    }
    proof {
        if any_alt(m) {
            assert(prefix =~= seq![0x1bu8]);
        } else {
            assert(prefix =~= Seq::<u8>::empty());
            assert(out@ =~= out@.subrange(0, out@.len() as int));
        }
    }
    Some(out)
}

fn any_alt_held(m: Modifiers) -> (r: bool)
    ensures
        r == any_alt(m),
{
    m.alt || m.meta || m.super_key
}

/// The bytes a key sends to the terminal application: ctrl and alt word
/// deletion, then the named keys, then escape, return, backspace and tab,
/// then printable keys.
pub open spec fn terminal_bytes_spec(key: Key, keycode: u32, m: Modifiers) -> Option<Seq<u8>> {
    if m.control && key == Key::BackSpace {
        Some(seq![0x17u8])
    } else if m.control && key == Key::Delete {
        Some(seq![0x1bu8, 0x64u8])
    } else if any_alt(m) && key == Key::BackSpace {
        Some(seq![0x1bu8, 0x7fu8])
    } else if any_alt(m) && key == Key::Delete {
        Some(seq![0x1bu8, 0x64u8])
    } else if named_key_spec(key, m) is Some {
        named_key_spec(key, m)
    } else if key == Key::Escape {
        Some(seq![0x1bu8])
    } else if key == Key::Return || key == Key::KpEnter {
        Some(seq![0x0du8])
    } else if key == Key::BackSpace {
        Some(seq![0x7fu8])
    } else if key == Key::Tab {
        Some(seq![0x09u8])
    } else {
        printable_spec(key, keycode, m)
    }
}

fn byte_vec1(a: u8) -> (r: Vec<u8>)
    ensures
        r@ == seq![a],
{
    let v = vec![a];
    assert(v@ =~= seq![a]);
    v
}

fn byte_vec2(a: u8, b: u8) -> (r: Vec<u8>)
    ensures
        r@ == seq![a, b],
{
    let v = vec![a, b];
    assert(v@ =~= seq![a, b]);
    v
}

pub fn key_to_terminal_bytes(key: Key, keycode: u32, m: Modifiers) -> (r: Option<Vec<u8>>)
    ensures
        match r {
            Some(v) => terminal_bytes_spec(key, keycode, m) == Some(v@),
            None => terminal_bytes_spec(key, keycode, m) is None,
        },
{
    let alt = any_alt_held(m);
    if m.control && key == Key::BackSpace {
        return Some(byte_vec1(0x17));
    }
    if m.control && key == Key::Delete {
        return Some(byte_vec2(0x1b, 0x64));
    }
    if alt && key == Key::BackSpace {
        return Some(byte_vec2(0x1b, 0x7f));
    }
    if alt && key == Key::Delete {
        return Some(byte_vec2(0x1b, 0x64));
    }
    match named_key_to_bytes(key, m) {
        Some(bytes) => return Some(bytes),
        None => {},
    }
    if key == Key::Escape {
        Some(byte_vec1(0x1b))
    } else if key == Key::Return || key == Key::KpEnter {
        Some(byte_vec1(0x0d))
    } else if key == Key::BackSpace {
        Some(byte_vec1(0x7f))
    } else if key == Key::Tab {
        Some(byte_vec1(0x09))
    } else {
        printable_key_to_bytes(key, keycode, m)
    }
}

/// Whether a key zooms in: plus, equal, keypad plus, or the physical equal
/// key.
pub open spec fn zoom_in_key(key: Key, keycode: u32) -> bool {
    key == Key::Char('+') || key == Key::Char('=') || key == Key::KpAdd || physical_key_spec(keycode)
        == Some(PhysicalKey::Equal)
}

pub open spec fn zoom_out_key(key: Key, keycode: u32) -> bool {
    key == Key::Char('-') || key == Key::KpSubtract || physical_key_spec(keycode) == Some(
        PhysicalKey::Minus,
    )
}

pub open spec fn zoom_reset_key(key: Key, keycode: u32) -> bool {
    key == Key::Char('0') || key == Key::Kp0 || physical_key_spec(keycode) == Some(PhysicalKey::Digit0)
}

pub open spec fn settings_key(key: Key, keycode: u32) -> bool {
    key == Key::Char(',') || physical_key_spec(keycode) == Some(PhysicalKey::Comma)
}

/// What a key press asks of the terminal view, shortcuts first: cursor
/// moves, the about dialog, command block selection, input selection, tab
/// switching and zoom, copy, new tab and window, close, split, cut, paste,
/// undo and redo, scrollback paging; any other key is written to the
/// terminal.
pub open spec fn key_action_spec(key: Key, keycode: u32, m: Modifiers) -> Option<ActionView> {
    let ctrl = m.control;
    let shift = m.shift;
    if key == Key::Left || key == Key::Right {
        Some(
            ActionView::CursorMove {
                direction: if key == Key::Left {
                    CursorDirection::Left
                } else {
                    CursorDirection::Right
                },
                unit: if ctrl {
                    CursorUnit::Word
                } else {
                    CursorUnit::Cell
                },
                selecting: shift,
            },
        )
    } else if ctrl && shift && key == Key::Function(1) {
        Some(ActionView::OpenAbout)
    } else if ctrl && shift && (key == Key::Up || key == Key::Down) {
        Some(
            ActionView::SelectCommandBlockOutput(
                if key == Key::Up {
                    CommandBlockDirection::Previous
                } else {
                    CommandBlockDirection::Next
                },
            ),
        )
    } else if ctrl && !shift && key_matches_spec(key, keycode, PhysicalKey::A, 'a') {
        Some(ActionView::SelectInput)
    } else if ctrl && key == Key::PageDown {
        Some(ActionView::NextTab)
    } else if ctrl && key == Key::PageUp {
        Some(ActionView::PreviousTab)
    } else if ctrl && zoom_in_key(key, keycode) {
        Some(ActionView::ZoomIn)
    } else if ctrl && zoom_out_key(key, keycode) {
        Some(ActionView::ZoomOut)
    } else if ctrl && zoom_reset_key(key, keycode) {
        Some(ActionView::ZoomReset)
    } else if ctrl && settings_key(key, keycode) {
        Some(ActionView::OpenSettings)
    } else if ctrl && shift && key_matches_spec(key, keycode, PhysicalKey::C, 'c') {
        Some(ActionView::CopySelection)
    } else if ctrl && shift && key_matches_spec(key, keycode, PhysicalKey::T, 't') {
        Some(ActionView::NewTab)
    } else if ctrl && shift && key_matches_spec(key, keycode, PhysicalKey::N, 'n') {
        Some(ActionView::NewWindow)
    } else if ctrl && shift && key_matches_spec(key, keycode, PhysicalKey::W, 'w') {
        Some(ActionView::CloseTab)
    } else if ctrl && shift && key_matches_spec(key, keycode, PhysicalKey::E, 'e') {
        Some(ActionView::SplitPane)
    } else if ctrl && !shift && key_matches_spec(key, keycode, PhysicalKey::X, 'x') {
        Some(ActionView::CutSelection)
    } else if ctrl && !shift && key_matches_spec(key, keycode, PhysicalKey::V, 'v') {
        Some(ActionView::PasteClipboard)
    } else if ctrl && !shift && key_matches_spec(key, keycode, PhysicalKey::Z, 'z') {
        Some(ActionView::UndoInput)
    } else if ctrl && shift && key_matches_spec(key, keycode, PhysicalKey::Z, 'z') {
        Some(ActionView::RedoInput)
    } else if shift && key == Key::PageUp {
        Some(ActionView::ScrollDisplay(10i32))
    } else if shift && key == Key::PageDown {
        Some(ActionView::ScrollDisplay(-10i32))
    } else {
        match terminal_bytes_spec(key, keycode, m) {
            Some(bytes) => Some(ActionView::Write(bytes)),
            None => None,
        }
    }
}

/// The escape key always sends a lone ESC and Return (or keypad Enter) a
/// carriage return, whatever modifiers are held and whatever the physical
/// key; without ctrl neither is taken as a shortcut, so the view writes
/// those bytes to the application.
pub proof fn law_escape_and_return_keys(keycode: u32, m: Modifiers)
    ensures
        terminal_bytes_spec(Key::Escape, keycode, m) == Some(seq![0x1bu8]),
        terminal_bytes_spec(Key::Return, keycode, m) == Some(seq![0x0du8]),
        terminal_bytes_spec(Key::KpEnter, keycode, m) == Some(seq![0x0du8]),
        !m.control ==> key_action_spec(Key::Escape, keycode, m) == Some(
            ActionView::Write(seq![0x1bu8]),
        ),
        !m.control ==> key_action_spec(Key::Return, keycode, m) == Some(
            ActionView::Write(seq![0x0du8]),
        ),
{
}

pub open spec fn action_view(r: Option<KeyAction>) -> Option<ActionView> {
    match r {
        Some(a) => Some(a@),
        None => None,
    }
}

pub fn key_to_action(key: Key, keycode: u32, m: Modifiers) -> (r: Option<KeyAction>)
    ensures
        action_view(r) == key_action_spec(key, keycode, m),
{
    let ctrl = m.control;
    let shift = m.shift;
    if key == Key::Left || key == Key::Right {
        return Some(
            KeyAction::CursorMove {
                direction: if key == Key::Left {
                    CursorDirection::Left
                } else {
                    CursorDirection::Right
                },
                unit: if ctrl {
                    CursorUnit::Word
                } else {
                    CursorUnit::Cell
                },
                selecting: shift,
            },
        );
    }
    if ctrl && shift && key == Key::Function(1) {
        return Some(KeyAction::OpenAbout);
    }
    if ctrl && shift && (key == Key::Up || key == Key::Down) {
        return Some(
            KeyAction::SelectCommandBlockOutput(
                if key == Key::Up {
                    CommandBlockDirection::Previous
                } else {
                    CommandBlockDirection::Next
                },
            ),
        );
    }
    if ctrl && !shift && key_matches(key, keycode, PhysicalKey::A, 'a') {
        return Some(KeyAction::SelectInput);
    }
    if ctrl {
        if key == Key::PageDown {
            return Some(KeyAction::NextTab);
        }
        if key == Key::PageUp {
            return Some(KeyAction::PreviousTab);
        }
        let physical = physical_key(keycode);
        if key == Key::Char('+') || key == Key::Char('=') || key == Key::KpAdd || physical == Some(
            PhysicalKey::Equal,
        ) {
            return Some(KeyAction::ZoomIn);
        }
        if key == Key::Char('-') || key == Key::KpSubtract || physical == Some(PhysicalKey::Minus) {
            return Some(KeyAction::ZoomOut);
        }
        if key == Key::Char('0') || key == Key::Kp0 || physical == Some(PhysicalKey::Digit0) {
            return Some(KeyAction::ZoomReset);
        }
        if key == Key::Char(',') || physical == Some(PhysicalKey::Comma) {
            return Some(KeyAction::OpenSettings);
        }
    }
    if ctrl && shift && key_matches(key, keycode, PhysicalKey::C, 'c') {
        return Some(KeyAction::CopySelection);
    }
    if ctrl && shift && key_matches(key, keycode, PhysicalKey::T, 't') {
        return Some(KeyAction::NewTab);
    }
    if ctrl && shift && key_matches(key, keycode, PhysicalKey::N, 'n') {
        return Some(KeyAction::NewWindow);
    }
    if ctrl && shift && key_matches(key, keycode, PhysicalKey::W, 'w') {
        return Some(KeyAction::CloseTab);
    }
    if ctrl && shift && key_matches(key, keycode, PhysicalKey::E, 'e') {
        return Some(KeyAction::SplitPane);
    }
    if ctrl && !shift {
        if key_matches(key, keycode, PhysicalKey::X, 'x') {
            return Some(KeyAction::CutSelection);
        }
        if key_matches(key, keycode, PhysicalKey::V, 'v') {
            return Some(KeyAction::PasteClipboard);
        }
        if key_matches(key, keycode, PhysicalKey::Z, 'z') {
            return Some(KeyAction::UndoInput);
        }
    }
    if ctrl && shift && key_matches(key, keycode, PhysicalKey::Z, 'z') {
        return Some(KeyAction::RedoInput);
    }
    if shift {
        if key == Key::PageUp {
            return Some(KeyAction::ScrollDisplay(10));
        }
        if key == Key::PageDown {
            return Some(KeyAction::ScrollDisplay(-10));
        }
    }
    match key_to_terminal_bytes(key, keycode, m) {
        Some(bytes) => Some(KeyAction::Write(bytes)),
        None => None,
    }
}

} // verus!
