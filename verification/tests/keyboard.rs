use chelotype::input::{CursorDirection, CursorUnit};
use chelotype::input_selection::{cursor_movement_bytes_between_points, DirectedSelectionRange};
use chelotype::keyboard::{
    active_input_edit_bytes, input_redo_bytes, input_undo_bytes, keyboard_move_plan,
    selection_edit_movement, selection_replacement_bytes, shell_input_bridge_active,
    terminal_bytes_edit_input, KeyboardMove, SelectionUpdate,
};
use chelotype::selection::{GridPoint, SelectionRange};
use chelotype::terminal_grid::{
    MouseMode, TerminalCell, TerminalColors, TerminalContent, TerminalLineMetadata,
    TerminalSemanticPrompt,
};

const DELETE: &[u8] = b"\x1b[3~";

fn prompt_content(text: &str, cursor_col: i32, prompt: TerminalSemanticPrompt) -> TerminalContent {
    let mut metadata = TerminalLineMetadata::default();
    metadata.semantic_prompt = prompt;
    TerminalContent {
        lines: vec![text
            .chars()
            .map(|ch| TerminalCell {
                text: ch.to_string().into(),
                ..TerminalCell::blank()
            })
            .collect::<Vec<_>>()],
        line_metadata: vec![metadata],
        cursor_line: 0,
        cursor_col,
        cursor_visible: true,
        display_offset: 0,
        colors: TerminalColors::default(),
        mouse: MouseMode::default(),
    }
}

fn point(row: usize, column: usize) -> GridPoint {
    GridPoint { row, column }
}

#[test]
fn line_ends_and_interrupts_do_not_edit_input() {
    assert!(!terminal_bytes_edit_input(b""));
    assert!(!terminal_bytes_edit_input(b"\n"));
    assert!(!terminal_bytes_edit_input(b"\r"));
    assert!(!terminal_bytes_edit_input(&[0x03]));
    assert!(terminal_bytes_edit_input(b"a"));
    assert!(terminal_bytes_edit_input(b"\r\n"));
    assert!(terminal_bytes_edit_input(&[0x7f]));
}

#[test]
fn bridge_is_live_only_on_a_marked_cursor_row() {
    let marked = prompt_content("❯ ls", 4, TerminalSemanticPrompt::Prompt);
    assert!(shell_input_bridge_active(&marked));
    let continuation = prompt_content("  ls", 4, TerminalSemanticPrompt::Continuation);
    assert!(shell_input_bridge_active(&continuation));
    let unmarked = prompt_content("❯ ls", 4, TerminalSemanticPrompt::Unmarked);
    assert!(!shell_input_bridge_active(&unmarked));
    let mut above = marked.clone();
    above.cursor_line = -1;
    assert!(!shell_input_bridge_active(&above));
    let mut below = marked.clone();
    below.cursor_line = 1;
    assert!(!shell_input_bridge_active(&below));
}

#[test]
fn input_edits_carry_the_undo_capture_only_through_a_live_bridge() {
    let marked = prompt_content("❯ ls", 4, TerminalSemanticPrompt::Prompt);
    let unmarked = prompt_content("❯ ls", 4, TerminalSemanticPrompt::Unmarked);
    assert_eq!(
        active_input_edit_bytes(true, Some(&marked), b"CAP", b"x"),
        b"CAPx".to_vec()
    );
    assert_eq!(active_input_edit_bytes(true, Some(&marked), b"CAP", b"\r"), b"\r".to_vec());
    assert_eq!(active_input_edit_bytes(false, Some(&marked), b"CAP", b"x"), b"x".to_vec());
    assert_eq!(active_input_edit_bytes(true, Some(&unmarked), b"CAP", b"x"), b"x".to_vec());
    assert_eq!(active_input_edit_bytes(true, None, b"CAP", b"x"), b"x".to_vec());
}

#[test]
fn undo_and_redo_follow_the_bridge() {
    let marked = prompt_content("❯ ls", 4, TerminalSemanticPrompt::Prompt);
    let unmarked = prompt_content("❯ ls", 4, TerminalSemanticPrompt::Unmarked);
    assert_eq!(input_undo_bytes(true, Some(&marked), b"UNDO"), b"UNDO".to_vec());
    assert_eq!(input_undo_bytes(true, Some(&unmarked), b"UNDO"), vec![0x1a]);
    assert_eq!(input_undo_bytes(false, None, b"UNDO"), vec![0x1a]);
    assert_eq!(input_redo_bytes(true, Some(&marked), b"REDO"), Some(b"REDO".to_vec()));
    assert_eq!(input_redo_bytes(true, Some(&unmarked), b"REDO"), None);
    assert_eq!(input_redo_bytes(false, Some(&marked), b"REDO"), None);
}

#[test]
fn typing_over_a_selection_deletes_each_selected_character_first() {
    let movement = b"\x1b[D".to_vec();
    let mut expected = movement.clone();
    expected.extend_from_slice(DELETE);
    expected.extend_from_slice(DELETE);
    expected.extend_from_slice(b"x");
    assert_eq!(selection_replacement_bytes(movement.clone(), 2, b"x"), expected);
}

#[test]
fn backspace_or_delete_over_a_selection_only_removes_it() {
    let movement = b"\x1b[D".to_vec();
    let mut expected = movement.clone();
    expected.extend_from_slice(DELETE);
    assert_eq!(selection_replacement_bytes(movement.clone(), 1, &[0x7f]), expected);
    assert_eq!(selection_replacement_bytes(movement.clone(), 1, DELETE), expected);
    assert_eq!(selection_replacement_bytes(Vec::new(), 0, b""), Vec::<u8>::new());
}

#[test]
fn selection_edit_moves_from_the_cursor_to_the_selection_start() {
    let content = prompt_content("❯ hello", 6, TerminalSemanticPrompt::Prompt);
    let selection = SelectionRange::new(point(0, 3), point(0, 5));
    assert_eq!(
        selection_edit_movement(&content, None, selection),
        Some(b"\x1b[D\x1b[D\x1b[D".to_vec())
    );
    let at_start = prompt_content("❯ hello", 3, TerminalSemanticPrompt::Prompt);
    assert_eq!(selection_edit_movement(&at_start, None, selection), Some(Vec::new()));
}

#[test]
fn selection_edit_moves_from_the_keyboard_focus_when_there_is_one() {
    let content = prompt_content("❯ hello", 2, TerminalSemanticPrompt::Prompt);
    let selection = SelectionRange::new(point(0, 3), point(0, 5));
    let directed = DirectedSelectionRange { anchor: point(0, 3), focus: point(0, 5) };
    assert_eq!(
        selection_edit_movement(&content, Some(directed), selection),
        Some(b"\x1b[D\x1b[D".to_vec())
    );
}

#[test]
fn plain_cursor_key_moves_and_keeps_no_selection() {
    let content = prompt_content("❯ hello", 4, TerminalSemanticPrompt::Prompt);
    let plan = keyboard_move_plan(
        &content,
        None,
        None,
        KeyboardMove { direction: CursorDirection::Right, unit: CursorUnit::Cell, selecting: false },
    );
    assert_eq!(plan.update, SelectionUpdate::Keep);
    assert_eq!(plan.bytes, Some(b"\x1b[C".to_vec()));
}

#[test]
fn shift_cursor_key_starts_a_keyboard_selection_at_the_cursor() {
    let content = prompt_content("❯ hello", 4, TerminalSemanticPrompt::Prompt);
    let plan = keyboard_move_plan(
        &content,
        None,
        None,
        KeyboardMove { direction: CursorDirection::Right, unit: CursorUnit::Cell, selecting: true },
    );
    let directed = DirectedSelectionRange { anchor: point(0, 4), focus: point(0, 5) };
    assert_eq!(
        plan.update,
        SelectionUpdate::Select(directed, SelectionRange::new(point(0, 4), point(0, 5)))
    );
    assert_eq!(plan.bytes, Some(b"\x1b[C".to_vec()));
}

#[test]
fn plain_left_collapses_a_selection_to_its_start() {
    let content = prompt_content("❯ hello", 6, TerminalSemanticPrompt::Prompt);
    let selection = SelectionRange::new(point(0, 3), point(0, 5));
    let plan = keyboard_move_plan(
        &content,
        Some(selection),
        None,
        KeyboardMove { direction: CursorDirection::Left, unit: CursorUnit::Cell, selecting: false },
    );
    assert_eq!(plan.update, SelectionUpdate::Clear);
    assert_eq!(plan.bytes, Some(b"\x1b[D\x1b[D\x1b[D".to_vec()));
}

#[test]
fn moving_back_takes_as_many_keys_the_other_way() {
    let a = point(4, 2);
    let b = point(4, 5);
    assert_eq!(cursor_movement_bytes_between_points(a, b), Some(b"\x1b[C\x1b[C\x1b[C".to_vec()));
    assert_eq!(cursor_movement_bytes_between_points(b, a), Some(b"\x1b[D\x1b[D\x1b[D".to_vec()));
    assert_eq!(cursor_movement_bytes_between_points(a, a), Some(Vec::new()));
    assert_eq!(cursor_movement_bytes_between_points(a, point(5, 2)), None);
}

#[test]
fn shift_move_back_onto_the_anchor_clears_the_selection() {
    let content = prompt_content("❯ hello", 5, TerminalSemanticPrompt::Prompt);
    let directed = DirectedSelectionRange { anchor: point(0, 4), focus: point(0, 5) };
    let plan = keyboard_move_plan(
        &content,
        directed.range(),
        Some(directed),
        KeyboardMove { direction: CursorDirection::Left, unit: CursorUnit::Cell, selecting: true },
    );
    assert_eq!(plan.update, SelectionUpdate::Clear);
    assert_eq!(plan.bytes, Some(b"\x1b[D".to_vec()));

    let further = keyboard_move_plan(
        &content,
        directed.range(),
        Some(directed),
        KeyboardMove { direction: CursorDirection::Right, unit: CursorUnit::Cell, selecting: true },
    );
    let grown = DirectedSelectionRange { anchor: point(0, 4), focus: point(0, 6) };
    assert_eq!(
        further.update,
        SelectionUpdate::Select(grown, SelectionRange::new(point(0, 4), point(0, 6)))
    );
}

#[test]
fn cursor_key_bytes_are_one_repeated_arrow() {
    let content = prompt_content("❯ hello", 6, TerminalSemanticPrompt::Prompt);
    let target = chelotype::mouse::MouseGridPosition { row: 0, column: 3 };
    let bytes = chelotype::input_selection::keyboard_cursor_bytes(&content, Some(point(0, 6)), target)
        .expect("a move");
    assert!(!bytes.is_empty());
    assert!(bytes.chunks(3).all(|key| key == b"\x1b[D"));
    assert_eq!(bytes.len(), 9);
    let same = chelotype::mouse::MouseGridPosition { row: 0, column: 6 };
    assert_eq!(chelotype::input_selection::keyboard_cursor_bytes(&content, Some(point(0, 6)), same), None);
}
