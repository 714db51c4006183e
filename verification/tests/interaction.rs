use chelotype::interaction::{
    cursor_movement_bytes, cursor_movement_bytes_between_input_points,
    cursor_movement_bytes_for_content, cursor_movement_bytes_for_editable_input,
    input_position_in_active_input, input_position_in_editable_input, InteractionEffect,
    PointerInteraction,
};
use chelotype::mouse::{MouseButton, MouseGridPosition};
use chelotype::selection::{GridPoint, SelectionRange};
use chelotype::terminal_grid::{
    MouseMode, TerminalCell, TerminalColors, TerminalContent, TerminalLineMetadata,
    TerminalSemanticPrompt,
};

fn pos(column: u16, row: u16) -> MouseGridPosition {
    MouseGridPosition { column, row }
}

fn reporting_mode() -> MouseMode {
    MouseMode {
        click: true,
        drag: true,
        motion: false,
        sgr: true,
        utf8: false,
    }
}

fn line(text: &str) -> Vec<TerminalCell> {
    text.chars()
        .map(|ch| TerminalCell {
            text: ch.to_string().into(),
            ..TerminalCell::blank()
        })
        .collect()
}

fn left_arrows(count: usize) -> Option<Vec<u8>> {
    Some(b"\x1b[D".repeat(count))
}

fn right_arrows(count: usize) -> Option<Vec<u8>> {
    Some(b"\x1b[C".repeat(count))
}

fn semantic_content_with_cursor(
    lines: &[&str],
    cursor_row: i32,
    cursor_col: i32,
) -> TerminalContent {
    let mut line_metadata = vec![TerminalLineMetadata::default(); lines.len()];
    if let Some(first) = line_metadata.first_mut() {
        first.semantic_prompt = TerminalSemanticPrompt::Prompt;
    }
    for metadata in line_metadata.iter_mut().skip(1) {
        metadata.semantic_prompt = TerminalSemanticPrompt::Continuation;
    }
    TerminalContent {
        lines: lines.iter().map(|line| self::line(line).into()).collect(),
        line_metadata,
        cursor_line: cursor_row,
        cursor_col,
        cursor_visible: true,
        display_offset: 0,
        colors: TerminalColors::default(),
        mouse: MouseMode::default(),
    }
}

#[test]
fn local_drag_creates_grid_selection_when_terminal_mouse_reporting_is_off() {
    let mut interaction = PointerInteraction::default();
    assert_eq!(
        interaction.press(MouseMode::default(), MouseButton::Left, pos(2, 1)),
        vec![InteractionEffect::SelectionChanged(None)]
    );
    assert_eq!(
        interaction.motion(MouseMode::default(), pos(5, 1)),
        vec![InteractionEffect::SelectionChanged(Some(
            SelectionRange::new(
                GridPoint { row: 1, column: 2 },
                GridPoint { row: 1, column: 6 }
            )
        ))]
    );
    assert_eq!(
        interaction.selection(),
        Some(SelectionRange::new(
            GridPoint { row: 1, column: 2 },
            GridPoint { row: 1, column: 6 }
        ))
    );
}

#[test]
fn local_drag_reports_selection_only_when_cell_range_changes() {
    let mut interaction = PointerInteraction::default();
    interaction.press(MouseMode::default(), MouseButton::Left, pos(2, 1));
    assert_eq!(
        interaction.motion(MouseMode::default(), pos(5, 1)),
        vec![InteractionEffect::SelectionChanged(Some(
            SelectionRange::new(
                GridPoint { row: 1, column: 2 },
                GridPoint { row: 1, column: 6 }
            )
        ))]
    );
    assert_eq!(
        interaction.motion(MouseMode::default(), pos(5, 1)),
        Vec::new()
    );
}

#[test]
fn local_reverse_drag_normalizes_selection() {
    let mut interaction = PointerInteraction::default();
    interaction.press(MouseMode::default(), MouseButton::Left, pos(8, 3));
    interaction.motion(MouseMode::default(), pos(4, 2));
    assert_eq!(
        interaction.selection(),
        Some(SelectionRange::new(
            GridPoint { row: 2, column: 4 },
            GridPoint { row: 3, column: 9 }
        ))
    );
}

#[test]
fn local_drag_stops_changing_selection_after_release() {
    let mut interaction = PointerInteraction::default();
    interaction.press(MouseMode::default(), MouseButton::Left, pos(2, 1));
    interaction.motion(MouseMode::default(), pos(5, 1));
    interaction.release(MouseMode::default(), pos(5, 1));
    assert_eq!(
        interaction.motion(MouseMode::default(), pos(8, 1)),
        Vec::new()
    );
    assert_eq!(
        interaction.selection(),
        Some(SelectionRange::new(
            GridPoint { row: 1, column: 2 },
            GridPoint { row: 1, column: 6 }
        ))
    );
}

#[test]
fn local_drag_stops_changing_selection_after_cancelled_release() {
    let mut interaction = PointerInteraction::default();
    interaction.press(MouseMode::default(), MouseButton::Left, pos(2, 1));
    interaction.motion(MouseMode::default(), pos(5, 1));
    assert_eq!(interaction.cancel(), Vec::new());
    assert_eq!(
        interaction.motion(MouseMode::default(), pos(8, 1)),
        Vec::new()
    );
    assert_eq!(
        interaction.selection(),
        Some(SelectionRange::new(
            GridPoint { row: 1, column: 2 },
            GridPoint { row: 1, column: 6 }
        ))
    );
}

#[test]
fn local_click_without_drag_does_not_leave_selection() {
    let mut interaction = PointerInteraction::default();
    interaction.press(MouseMode::default(), MouseButton::Left, pos(2, 1));
    assert_eq!(
        interaction.release(MouseMode::default(), pos(2, 1)),
        vec![InteractionEffect::MoveCursorTo(pos(2, 1))]
    );
    assert_eq!(interaction.selection(), None);
}

#[test]
fn cursor_movement_uses_arrow_bytes_on_current_row() {
    assert_eq!(
        cursor_movement_bytes(2, 5, pos(3, 2)).as_deref(),
        Some(&b"\x1b[D\x1b[D"[..])
    );
    assert_eq!(
        cursor_movement_bytes(2, 3, pos(5, 2)).as_deref(),
        Some(&b"\x1b[C\x1b[C"[..])
    );
    assert_eq!(cursor_movement_bytes(2, 3, pos(3, 2)), None);
    assert_eq!(cursor_movement_bytes(2, 3, pos(1, 1)), None);
}

#[test]
fn cursor_movement_uses_soft_wrapped_input_rows() {
    let content = TerminalContent {
        lines: vec![
            vec![TerminalCell::blank(); 4].into(),
            vec![TerminalCell::blank(); 4].into(),
            vec![TerminalCell::blank(); 4].into(),
        ],
        line_metadata: vec![
            TerminalLineMetadata {
                wrapped: true,
                ..TerminalLineMetadata::default()
            },
            TerminalLineMetadata {
                wrapped: true,
                wrap_continuation: true,
                ..TerminalLineMetadata::default()
            },
            TerminalLineMetadata {
                wrap_continuation: true,
                ..TerminalLineMetadata::default()
            },
        ],
        cursor_line: 2,
        cursor_col: 1,
        cursor_visible: true,
        display_offset: 0,
        colors: TerminalColors::default(),
        mouse: MouseMode::default(),
    };
    assert_eq!(
        cursor_movement_bytes_for_content(&content, pos(2, 1)).as_deref(),
        Some(&b"\x1b[D\x1b[D\x1b[D"[..])
    );
    assert_eq!(
        cursor_movement_bytes_for_content(&content, pos(2, 0)).as_deref(),
        Some(&b"\x1b[D\x1b[D\x1b[D\x1b[D\x1b[D\x1b[D\x1b[D"[..])
    );
    assert_eq!(cursor_movement_bytes_for_content(&content, pos(1, 3)), None);
}

#[test]
fn cursor_movement_between_input_points_uses_input_absolute_columns() {
    let content = TerminalContent {
        lines: vec![
            vec![TerminalCell::blank(); 4].into(),
            vec![TerminalCell::blank(); 4].into(),
            vec![TerminalCell::blank(); 4].into(),
        ],
        line_metadata: vec![
            TerminalLineMetadata {
                wrapped: true,
                ..TerminalLineMetadata::default()
            },
            TerminalLineMetadata {
                wrapped: true,
                wrap_continuation: true,
                ..TerminalLineMetadata::default()
            },
            TerminalLineMetadata {
                wrap_continuation: true,
                ..TerminalLineMetadata::default()
            },
        ],
        cursor_line: 2,
        cursor_col: 1,
        cursor_visible: true,
        display_offset: 0,
        colors: TerminalColors::default(),
        mouse: MouseMode::default(),
    };

    assert!(input_position_in_active_input(&content, pos(2, 0)));
    assert_eq!(
        cursor_movement_bytes_between_input_points(&content, pos(2, 0), pos(2, 1)).as_deref(),
        Some(&b"\x1b[C\x1b[C\x1b[C\x1b[C"[..])
    );
    assert_eq!(
        cursor_movement_bytes_between_input_points(&content, pos(3, 1), pos(2, 0)).as_deref(),
        Some(&b"\x1b[D\x1b[D\x1b[D\x1b[D\x1b[D"[..])
    );
    assert_eq!(
        cursor_movement_bytes_between_input_points(&content, pos(1, 3), pos(9, 3)),
        None
    );
    assert!(!input_position_in_active_input(&content, pos(9, 3)));
}

#[test]
fn cursor_movement_uses_semantic_prompt_continuation_rows() {
    let content = TerminalContent {
        lines: vec![
            vec![TerminalCell::blank(); 3].into(),
            vec![TerminalCell::blank(); 4].into(),
            vec![TerminalCell::blank(); 5].into(),
            vec![TerminalCell::blank(); 2].into(),
        ],
        line_metadata: vec![
            TerminalLineMetadata::default(),
            TerminalLineMetadata {
                semantic_prompt: TerminalSemanticPrompt::Prompt,
                ..TerminalLineMetadata::default()
            },
            TerminalLineMetadata {
                semantic_prompt: TerminalSemanticPrompt::Continuation,
                ..TerminalLineMetadata::default()
            },
            TerminalLineMetadata::default(),
        ],
        cursor_line: 2,
        cursor_col: 3,
        cursor_visible: true,
        display_offset: 0,
        colors: TerminalColors::default(),
        mouse: MouseMode::default(),
    };
    assert_eq!(
        cursor_movement_bytes_for_content(&content, pos(2, 1)).as_deref(),
        Some(&b"\x1b[D\x1b[D\x1b[D\x1b[D\x1b[D"[..])
    );
    assert_eq!(
        cursor_movement_bytes_for_content(&content, pos(1, 2)).as_deref(),
        Some(&b"\x1b[D\x1b[D"[..])
    );
    assert_eq!(cursor_movement_bytes_for_content(&content, pos(1, 0)), None);
    assert_eq!(cursor_movement_bytes_for_content(&content, pos(0, 3)), None);
}

#[test]
fn cursor_movement_uses_full_semantic_multiline_input_from_each_cursor_row() {
    let lines = ["❯ import {", "  Foo,", "  Bar", "}"];
    for (cursor_row, cursor_col, expected) in [
        (0, 2, right_arrows(16)),
        (1, 6, right_arrows(2)),
        (2, 5, left_arrows(3)),
        (3, 1, left_arrows(4)),
    ] {
        let content = semantic_content_with_cursor(&lines, cursor_row, cursor_col);

        assert_eq!(
            cursor_movement_bytes_for_content(&content, pos(2, 2)),
            expected,
            "cursor row {cursor_row}"
        );
    }
}

#[test]
fn editable_cursor_movement_clicks_semantic_multiline_input_from_each_cursor_row() {
    let lines = ["❯ import {", "  Foo,", "  Bar", "}"];
    for (cursor_row, cursor_col, expected) in [
        (0, 2, right_arrows(16)),
        (1, 6, right_arrows(2)),
        (2, 5, left_arrows(3)),
        (3, 1, left_arrows(4)),
    ] {
        let content = semantic_content_with_cursor(&lines, cursor_row, cursor_col);

        assert_eq!(
            cursor_movement_bytes_for_editable_input(&content, pos(2, 2)),
            expected,
            "cursor row {cursor_row}"
        );
        assert_eq!(
            cursor_movement_bytes_for_editable_input(&content, pos(0, 0)),
            None,
            "cursor row {cursor_row}"
        );
    }
}

#[test]
fn input_position_accepts_full_semantic_multiline_input_for_mouse_selection() {
    let lines = ["❯ import {", "  Foo,", "  Bar", "}"];
    for (cursor_row, cursor_col) in [(0, 10), (1, 6), (2, 5), (3, 1)] {
        let content = semantic_content_with_cursor(&lines, cursor_row, cursor_col);

        assert!(
            input_position_in_editable_input(&content, pos(2, 2)),
            "cursor row {cursor_row}"
        );
        assert!(
            input_position_in_editable_input(&content, pos(0, 3)),
            "cursor row {cursor_row}"
        );
        assert!(
            !input_position_in_editable_input(&content, pos(0, 0)),
            "cursor row {cursor_row}"
        );
    }
}

#[test]
fn cursor_movement_skips_decorative_semantic_prompt_header() {
    let content = TerminalContent {
        lines: vec![
            line("~/Documents/Projects/Chelotype on main").into(),
            line("❯ abc").into(),
        ],
        line_metadata: vec![
            TerminalLineMetadata {
                semantic_prompt: TerminalSemanticPrompt::Prompt,
                ..TerminalLineMetadata::default()
            },
            TerminalLineMetadata {
                semantic_prompt: TerminalSemanticPrompt::Continuation,
                ..TerminalLineMetadata::default()
            },
        ],
        cursor_line: 1,
        cursor_col: 5,
        cursor_visible: true,
        display_offset: 0,
        colors: TerminalColors::default(),
        mouse: MouseMode::default(),
    };

    assert_eq!(
        cursor_movement_bytes_for_content(&content, pos(2, 1)).as_deref(),
        Some(&b"\x1b[D\x1b[D\x1b[D"[..])
    );
    assert_eq!(
        cursor_movement_bytes_for_content(&content, pos(10, 0)),
        None
    );
}

#[test]
fn terminal_mouse_reporting_writes_sgr_press_drag_release_and_skips_local_selection() {
    let mut interaction = PointerInteraction::default();
    assert_eq!(
        interaction.press(reporting_mode(), MouseButton::Left, pos(2, 1)),
        vec![
            InteractionEffect::SelectionChanged(None),
            InteractionEffect::Write(b"\x1b[<0;3;2M".to_vec())
        ]
    );
    assert_eq!(
        interaction.motion(reporting_mode(), pos(3, 1)),
        vec![InteractionEffect::Write(b"\x1b[<32;4;2M".to_vec())]
    );
    assert_eq!(
        interaction.release(reporting_mode(), pos(3, 1)),
        vec![InteractionEffect::Write(b"\x1b[<0;4;2m".to_vec())]
    );
    assert_eq!(interaction.selection(), None);
}
