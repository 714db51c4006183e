use chelotype::command_blocks::CommandBlockDirection;
use chelotype::input::{cursor_move_terminal_bytes, CursorDirection, CursorUnit, Key, KeyAction, Modifiers};

fn key_to_action(key: Key, state: Modifiers) -> Option<KeyAction> {
    chelotype::input::key_to_action(key, 0, state)
}

fn key_to_terminal_bytes(key: Key, state: Modifiers) -> Option<Vec<u8>> {
    chelotype::input::key_to_terminal_bytes(key, 0, state)
}

fn mods(control: bool, shift: bool, alt: bool) -> Modifiers {
    Modifiers {
        control,
        shift,
        alt,
        meta: false,
        super_key: false,
    }
}

#[test]
fn maps_enter_backspace_and_tab() {
    assert_eq!(
        key_to_terminal_bytes(Key::Return, mods(false, false, false)).as_deref(),
        Some(&b"\r"[..])
    );
    assert_eq!(
        key_to_terminal_bytes(Key::KpEnter, mods(false, false, false)).as_deref(),
        Some(&b"\r"[..])
    );
    assert_eq!(
        key_to_terminal_bytes(Key::BackSpace, mods(false, false, false)).as_deref(),
        Some(&[0x7f][..])
    );
    assert_eq!(
        key_to_terminal_bytes(Key::Tab, mods(false, false, false)).as_deref(),
        Some(&b"\t"[..])
    );
}

#[test]
fn maps_navigation_keys() {
    assert_eq!(
        key_to_terminal_bytes(Key::Left, mods(false, false, false)).as_deref(),
        Some(&b"\x1b[D"[..])
    );
    assert_eq!(
        key_to_terminal_bytes(Key::Delete, mods(false, false, false)).as_deref(),
        Some(&b"\x1b[3~"[..])
    );
}

#[test]
fn maps_cursor_move_terminal_fallback_bytes() {
    assert_eq!(
        cursor_move_terminal_bytes(CursorDirection::Right, CursorUnit::Cell),
        b"\x1b[C"
    );
    assert_eq!(
        cursor_move_terminal_bytes(CursorDirection::Right, CursorUnit::Word),
        b"\x1b[1;5C"
    );
}

#[test]
fn maps_arrow_selection_and_word_movement() {
    assert_eq!(
        key_to_action(Key::Left, mods(false, false, false)),
        Some(KeyAction::CursorMove {
            direction: CursorDirection::Left,
            unit: CursorUnit::Cell,
            selecting: false,
        })
    );
    assert_eq!(
        key_to_action(Key::Left, mods(true, false, false)),
        Some(KeyAction::CursorMove {
            direction: CursorDirection::Left,
            unit: CursorUnit::Word,
            selecting: false,
        })
    );
    assert_eq!(
        key_to_action(
            Key::Right,
            mods(true, true, false)
        ),
        Some(KeyAction::CursorMove {
            direction: CursorDirection::Right,
            unit: CursorUnit::Word,
            selecting: true,
        })
    );
    assert_eq!(
        key_to_action(Key::Left, mods(false, true, false)),
        Some(KeyAction::CursorMove {
            direction: CursorDirection::Left,
            unit: CursorUnit::Cell,
            selecting: true,
        })
    );
}

#[test]
fn maps_command_block_output_selection_shortcuts() {
    assert_eq!(
        key_to_action(
            Key::Up,
            mods(true, true, false)
        ),
        Some(KeyAction::SelectCommandBlockOutput(
            CommandBlockDirection::Previous
        ))
    );
    assert_eq!(
        key_to_action(
            Key::Down,
            mods(true, true, false)
        ),
        Some(KeyAction::SelectCommandBlockOutput(
            CommandBlockDirection::Next
        ))
    );
}

#[test]
fn maps_word_delete_shortcuts() {
    assert_eq!(
        key_to_terminal_bytes(Key::BackSpace, mods(true, false, false)).as_deref(),
        Some(&[0x17][..])
    );
    assert_eq!(
        key_to_terminal_bytes(Key::Delete, mods(true, false, false)).as_deref(),
        Some(&b"\x1bd"[..])
    );
    assert_eq!(
        key_to_terminal_bytes(Key::BackSpace, mods(false, false, true)).as_deref(),
        Some(&b"\x1b\x7f"[..])
    );
}

#[test]
fn maps_printable_unicode() {
    assert_eq!(
        key_to_terminal_bytes(Key::Char('я'), mods(false, false, false)).as_deref(),
        Some("я".as_bytes())
    );
}

#[test]
fn maps_ctrl_and_alt_printable_keys() {
    assert_eq!(
        key_to_terminal_bytes(Key::Char('c'), mods(true, false, false)).as_deref(),
        Some(&[0x03][..])
    );
    assert_eq!(
        key_to_terminal_bytes(Key::Char('a'), mods(false, false, true)).as_deref(),
        Some(&b"\x1ba"[..])
    );
}

#[test]
fn maps_shift_page_navigation_to_scrollback_actions() {
    assert_eq!(
        key_to_action(Key::PageUp, mods(false, true, false)),
        Some(KeyAction::ScrollDisplay(10))
    );
    assert_eq!(
        key_to_action(Key::PageDown, mods(false, true, false)),
        Some(KeyAction::ScrollDisplay(-10))
    );
}

#[test]
fn maps_ctrl_shift_c_to_copy_selection_without_intercepting_ctrl_c() {
    assert_eq!(
        key_to_action(
            Key::Char('c'),
            mods(true, true, false)
        ),
        Some(KeyAction::CopySelection)
    );
    assert_eq!(
        key_to_action(Key::Char('c'), mods(true, false, false)),
        Some(KeyAction::Write(vec![0x03]))
    );
}

#[test]
fn maps_workspace_tab_shortcuts() {
    assert_eq!(
        key_to_action(
            Key::Char('t'),
            mods(true, true, false)
        ),
        Some(KeyAction::NewTab)
    );
    assert_eq!(
        key_to_action(
            Key::Char('w'),
            mods(true, true, false)
        ),
        Some(KeyAction::CloseTab)
    );
    assert_eq!(
        key_to_action(Key::PageDown, mods(true, false, false)),
        Some(KeyAction::NextTab)
    );
    assert_eq!(
        key_to_action(Key::PageUp, mods(true, false, false)),
        Some(KeyAction::PreviousTab)
    );
    assert_eq!(
        key_to_action(
            Key::Char('e'),
            mods(true, true, false)
        ),
        Some(KeyAction::SplitPane)
    );
}

#[test]
fn maps_modern_terminal_editing_shortcuts() {
    assert_eq!(
        key_to_action(Key::Char('a'), mods(true, false, false)),
        Some(KeyAction::SelectInput)
    );
    assert_eq!(
        key_to_action(Key::Char('x'), mods(true, false, false)),
        Some(KeyAction::CutSelection)
    );
    assert_eq!(
        key_to_action(Key::Char('v'), mods(true, false, false)),
        Some(KeyAction::PasteClipboard)
    );
    assert_eq!(
        key_to_action(Key::Char('z'), mods(true, false, false)),
        Some(KeyAction::UndoInput)
    );
    assert_eq!(
        key_to_action(
            Key::Char('z'),
            mods(true, true, false)
        ),
        Some(KeyAction::RedoInput)
    );
    assert_eq!(
        key_to_action(Key::Char('+'), mods(true, false, false)),
        Some(KeyAction::ZoomIn)
    );
    assert_eq!(
        key_to_action(Key::Char('-'), mods(true, false, false)),
        Some(KeyAction::ZoomOut)
    );
}

#[test]
fn forwards_function_and_navigation_keys_with_xterm_modifiers() {
    let cases: [(Key, &[u8]); 18] = [
        (Key::Function(1), b"\x1bOP"),
        (Key::Function(2), b"\x1bOQ"),
        (Key::Function(3), b"\x1bOR"),
        (Key::Function(4), b"\x1bOS"),
        (Key::Function(5), b"\x1b[15~"),
        (Key::Function(6), b"\x1b[17~"),
        (Key::Function(7), b"\x1b[18~"),
        (Key::Function(8), b"\x1b[19~"),
        (Key::Function(9), b"\x1b[20~"),
        (Key::Function(10), b"\x1b[21~"),
        (Key::Function(11), b"\x1b[23~"),
        (Key::Function(12), b"\x1b[24~"),
        (Key::Insert, b"\x1b[2~"),
        (Key::PageUp, b"\x1b[5~"),
        (Key::PageDown, b"\x1b[6~"),
        (Key::IsoLeftTab, b"\x1b[Z"),
        (Key::KpHome, b"\x1b[H"),
        (Key::KpEnd, b"\x1b[F"),
    ];
    for (key, expected) in cases {
        assert_eq!(
            key_to_action(key, mods(false, false, false)),
            Some(KeyAction::Write(expected.to_vec())),
            "{key:?}",
        );
    }
    for (key, modifiers, expected) in [
        (Key::Tab, mods(false, true, false), &b"\x1b[Z"[..]),
        (
            Key::Function(2),
            mods(true, false, false),
            &b"\x1b[1;5Q"[..],
        ),
        (
            Key::Function(12),
            mods(false, false, true),
            &b"\x1b[24;3~"[..],
        ),
        (
            Key::Left,
            mods(true, false, false),
            &b"\x1b[1;5D"[..],
        ),
        (
            Key::Up,
            mods(false, true, true),
            &b"\x1b[1;4A"[..],
        ),
    ] {
        assert_eq!(
            key_to_terminal_bytes(key, modifiers).as_deref(),
            Some(expected)
        );
    }
}

#[test]
fn forwards_control_punctuation_for_terminal_applications() {
    for (key, expected) in [
        (Key::Char(' '), 0),
        (Key::Char('@'), 0),
        (Key::Char('['), 0x1b),
        (Key::Char('\\'), 0x1c),
        (Key::Char(']'), 0x1d),
        (Key::Char('^'), 0x1e),
        (Key::Char('_'), 0x1f),
        (Key::Char('?'), 0x7f),
    ] {
        assert_eq!(
            key_to_terminal_bytes(key, mods(true, false, false)),
            Some(vec![expected]),
        );
    }
}

#[test]
fn maps_settings_shortcut() {
    assert_eq!(
        key_to_action(Key::Char(','), mods(true, false, false)),
        Some(KeyAction::OpenSettings)
    );
}

#[test]
fn maps_window_and_about_shortcuts() {
    assert_eq!(
        key_to_action(
            Key::Char('n'),
            mods(true, true, false)
        ),
        Some(KeyAction::NewWindow)
    );
    assert_eq!(
        key_to_action(
            Key::Function(1),
            mods(true, true, false)
        ),
        Some(KeyAction::OpenAbout)
    );
}

#[test]
fn maps_physical_shortcuts_under_cyrillic_layout() {
    assert_eq!(
        chelotype::input::key_to_action(
            Key::Char('с'),
            54,
            mods(true, true, false)
        ),
        Some(KeyAction::CopySelection)
    );
    assert_eq!(
        chelotype::input::key_to_action(Key::Char('ф'), 38, mods(true, false, false)),
        Some(KeyAction::SelectInput)
    );
    assert_eq!(
        chelotype::input::key_to_action(Key::Char('ч'), 53, mods(true, false, false)),
        Some(KeyAction::CutSelection)
    );
    assert_eq!(
        chelotype::input::key_to_action(Key::Char('м'), 55, mods(true, false, false)),
        Some(KeyAction::PasteClipboard)
    );
    assert_eq!(
        chelotype::input::key_to_action(Key::Char('я'), 52, mods(true, false, false)),
        Some(KeyAction::UndoInput)
    );
    assert_eq!(
        chelotype::input::key_to_action(
            Key::Char('я'),
            52,
            mods(true, true, false)
        ),
        Some(KeyAction::RedoInput)
    );
    assert_eq!(
        chelotype::input::key_to_action(
            Key::Char('е'),
            28,
            mods(true, true, false)
        ),
        Some(KeyAction::NewTab)
    );
    assert_eq!(
        chelotype::input::key_to_action(
            Key::Char('ц'),
            25,
            mods(true, true, false)
        ),
        Some(KeyAction::CloseTab)
    );
    assert_eq!(
        chelotype::input::key_to_action(
            Key::Char('у'),
            26,
            mods(true, true, false)
        ),
        Some(KeyAction::SplitPane)
    );
    assert_eq!(
        chelotype::input::key_to_action(Key::Char('б'), 59, mods(true, false, false)),
        Some(KeyAction::OpenSettings)
    );
    assert_eq!(
        chelotype::input::key_to_terminal_bytes(
            Key::Char('с'),
            54,
            mods(true, false, false)
        )
        .as_deref(),
        Some(&[0x03][..])
    );
    assert_eq!(
        chelotype::input::key_to_terminal_bytes(
            Key::Char('ч'),
            53,
            mods(true, false, false)
        )
        .as_deref(),
        Some(&[0x18][..])
    );
}
