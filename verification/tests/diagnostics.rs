use chelotype::backend::ScreenSize;
use chelotype::diagnostics::{
    decode_action, default_expected, headless_command, parse_grid_point, parse_headless_action,
    parse_headless_key, parse_mouse_button, parse_mouse_position, parse_screen_size,
    parse_selection_range, default_actions, HeadlessAction, HeadlessCommand, HeadlessKey,
    HeadlessRuntime, HeadlessScenario,
};
use chelotype::text::split_char;
use chelotype::input::{Key, Modifiers};
use chelotype::interaction::InteractionEffect;
use chelotype::mouse::{MouseButton, MouseGridPosition};
use chelotype::selection::{GridPoint, SelectionRange};
use chelotype::terminal_grid::MouseMode;

fn no_modifiers() -> Modifiers {
    Modifiers {
        control: false,
        shift: false,
        alt: false,
        meta: false,
        super_key: false,
    }
}

#[test]
fn parses_headless_selection_as_inclusive_cell_drag() {
    assert_eq!(
        parse_selection_range("2,3:2,5"),
        Some(SelectionRange::new(
            GridPoint { row: 2, column: 3 },
            GridPoint { row: 2, column: 6 }
        ))
    );
}

#[test]
fn rejects_invalid_headless_selection() {
    assert_eq!(parse_selection_range("2,3"), None);
    assert_eq!(parse_selection_range("x,3:2,5"), None);
}

#[test]
fn parses_headless_keyboard_event() {
    assert_eq!(
        parse_headless_action("key:Ctrl+d"),
        HeadlessAction::Key(HeadlessKey {
            key: Key::Char('d'),
            modifiers: Modifiers {
                control: true,
                ..no_modifiers()
            },
        })
    );
}

#[test]
fn parses_headless_workspace_events() {
    assert_eq!(parse_headless_action("split"), HeadlessAction::Split);
    assert_eq!(parse_headless_action("pane:next"), HeadlessAction::PaneNext);
    assert_eq!(
        parse_headless_action("pane:previous"),
        HeadlessAction::PanePrevious
    );
    assert_eq!(
        parse_headless_action("pane:resize:0:20:81x12"),
        HeadlessAction::PaneResize {
            boundary_index: 0,
            delta_cols: 20,
            size: ScreenSize::new(81, 12).expect("valid size"),
        }
    );
}

#[test]
fn parses_headless_resize_and_mouse_events() {
    assert_eq!(
        parse_headless_action("resize:100x24"),
        HeadlessAction::Resize(ScreenSize::new(100, 24).expect("valid size"))
    );
    assert_eq!(
        parse_headless_action("mouse:press:left:3,2"),
        HeadlessAction::MousePress(MouseButton::Left, MouseGridPosition { column: 3, row: 2 })
    );
}

#[test]
fn decodes_escapes_in_scripted_writes() {
    assert_eq!(decode_action("a\\nb\\tc\\e"), "a\nb\tc\u{1b}");
    assert_eq!(decode_action("\\x41\\xzz\\x4"), "A\\xzz\\x4");
    assert_eq!(decode_action("\\\\\\q\\"), "\\\\q\\");
    assert_eq!(decode_action("\\x+7"), "\u{7}");
}

#[test]
fn scripted_steps_fall_back_to_writing_text() {
    assert_eq!(
        parse_headless_action("raw:ls\\n"),
        HeadlessAction::Write("ls\n".to_string())
    );
    assert_eq!(
        parse_headless_action("key:Hyper+q"),
        HeadlessAction::Write("key:Hyper+q".to_string())
    );
    assert_eq!(parse_headless_action("scroll:-3"), HeadlessAction::Scroll(-3));
    assert_eq!(
        parse_headless_action("wait:done"),
        HeadlessAction::Wait("done".to_string())
    );
    assert_eq!(
        parse_headless_action("mouse:drag:1,2"),
        HeadlessAction::MouseDrag(MouseGridPosition { column: 1, row: 2 })
    );
}

#[test]
fn parses_scripted_values() {
    assert_eq!(parse_grid_point("4,7"), Some(GridPoint { row: 4, column: 7 }));
    assert_eq!(parse_grid_point("4;7"), None);
    assert_eq!(
        parse_screen_size("80x24"),
        Some(ScreenSize { cols: 80, rows: 24 })
    );
    assert_eq!(parse_screen_size("0x24"), None);
    assert_eq!(parse_screen_size("70000x24"), None);
    assert_eq!(parse_mouse_button("middle"), Some(MouseButton::Middle));
    assert_eq!(parse_mouse_button("wheel"), None);
    assert_eq!(
        parse_mouse_position("3,9"),
        Some(MouseGridPosition { column: 3, row: 9 })
    );
    assert_eq!(
        parse_headless_key("Ctrl+Shift+PageUp"),
        Some(HeadlessKey {
            key: Key::PageUp,
            modifiers: Modifiers {
                control: true,
                shift: true,
                ..no_modifiers()
            },
        })
    );
    assert_eq!(parse_headless_key("Shift+Ctrl+a"), None);
}

#[test]
fn headless_steps_turn_into_terminal_commands() {
    assert_eq!(
        headless_command(&HeadlessAction::Write("hi".to_string())),
        HeadlessCommand::Write(b"hi".to_vec())
    );
    assert_eq!(
        headless_command(&HeadlessAction::Key(HeadlessKey {
            key: Key::Left,
            modifiers: no_modifiers(),
        })),
        HeadlessCommand::Write(b"\x1b[D".to_vec())
    );
    assert_eq!(
        headless_command(&HeadlessAction::Key(HeadlessKey {
            key: Key::PageUp,
            modifiers: Modifiers {
                shift: true,
                ..no_modifiers()
            },
        })),
        HeadlessCommand::ScrollDisplay(10)
    );
    assert_eq!(headless_command(&HeadlessAction::Split), HeadlessCommand::Nothing);
    assert!(HeadlessAction::Split.needs_workspace());
    assert!(!HeadlessAction::Scroll(1).needs_workspace());
    assert_eq!(default_expected().len(), 3);
}

#[test]
fn headless_pointer_drag_remembers_selection() {
    let mut runtime = HeadlessRuntime::new();
    let press = HeadlessAction::MousePress(MouseButton::Left, MouseGridPosition { column: 2, row: 1 });
    let drag = HeadlessAction::MouseDrag(MouseGridPosition { column: 4, row: 1 });
    for action in [press, drag] {
        let effects = runtime.pointer_step(MouseMode::default(), &action);
        for effect in effects {
            runtime.apply_effect(effect);
        }
    }
    assert_eq!(
        runtime.selection,
        Some(SelectionRange::new(
            GridPoint { row: 1, column: 2 },
            GridPoint { row: 1, column: 5 }
        ))
    );
    assert!(matches!(
        runtime.apply_effect(InteractionEffect::MoveCursorTo(MouseGridPosition { column: 0, row: 0 })),
        chelotype::diagnostics::EffectCommand::MoveCursorTo(_)
    ));
}

#[test]
fn scenario_prefers_events_over_raw_writes() {
    let scenario = HeadlessScenario::from_values(
        Some("text:ls\\n|split|scroll:-3"),
        Some("ignored"),
        Some("a|b"),
        Some("5"),
        Some("0,1:0,3"),
    );
    assert_eq!(
        scenario.actions,
        vec![
            HeadlessAction::Write("ls\n".to_string()),
            HeadlessAction::Split,
            HeadlessAction::Scroll(-3),
        ]
    );
    assert_eq!(scenario.expected, vec!["a", "b"]);
    assert_eq!(scenario.step_delay_ms, 5);
    assert_eq!(
        scenario.selection,
        Some(SelectionRange::new(GridPoint { row: 0, column: 1 }, GridPoint { row: 0, column: 4 }))
    );
    assert!(scenario.needs_workspace());
}

#[test]
fn scenario_falls_back_to_raw_writes_then_defaults() {
    let writes = HeadlessScenario::from_values(None, Some("echo a\\n|echo b"), None, Some("x"), None);
    assert_eq!(
        writes.actions,
        vec![
            HeadlessAction::Write("echo a\n".to_string()),
            HeadlessAction::Write("echo b".to_string()),
        ]
    );
    assert_eq!(writes.expected, default_expected());
    assert_eq!(writes.step_delay_ms, 120);
    assert_eq!(writes.selection, None);
    assert!(!writes.needs_workspace());

    let defaults = HeadlessScenario::from_values(None, None, None, None, None);
    assert_eq!(defaults.actions, default_actions());
    assert_eq!(defaults.actions.len(), 3);
    assert_eq!(defaults.step_delay_ms, 120);
}

#[test]
fn splitting_keeps_empty_pieces_like_str_split() {
    for (text, sep) in [("a|b||c", '|'), ("", '|'), ("|", '|'), ("abc", '|'), ("ééx", 'x')] {
        let expected: Vec<String> = text.split(sep).map(str::to_string).collect();
        assert_eq!(split_char(text, sep), expected);
    }
}
