use chelotype::input::{CursorDirection, CursorUnit};
use chelotype::input_selection::{
    active_input_line_range, directed_selection_for_target, input_buffer_offset_for_position,
    input_buffer_range_for_selection, input_cursor_offset_for_position, keyboard_cursor_bytes,
    keyboard_cursor_target, keyboard_selection_anchor, keyboard_selection_collapse_target,
    selection_within_active_input,
};
use chelotype::mouse::MouseGridPosition;
use chelotype::selection::{GridPoint, SelectionRange};
use chelotype::terminal_grid::{
    MouseMode, TerminalCell, TerminalColors, TerminalContent, TerminalLineMetadata,
    TerminalSemanticPrompt,
};

fn content_with_cursor(text: &str, cursor_col: i32) -> TerminalContent {
    TerminalContent {
        lines: vec![
            text.chars()
                .map(|ch| TerminalCell {
                    text: ch.to_string().into(),
                    ..TerminalCell::blank()
                })
                .collect::<Vec<_>>()
                .into(),
        ],
        line_metadata: Vec::new(),
        cursor_line: 0,
        cursor_col,
        cursor_visible: true,
        display_offset: 0,
        colors: TerminalColors::default(),
        mouse: MouseMode::default(),
    }
}

fn colored_cell(text: &str, fg: &str) -> TerminalCell {
    TerminalCell {
        text: text.to_string().into(),
        fg: Some(fg.to_string()),
        ..TerminalCell::blank()
    }
}

fn wrapped_content_with_cursor(
    lines: &[&str],
    cursor_row: i32,
    cursor_col: i32,
) -> TerminalContent {
    let mut line_metadata = vec![TerminalLineMetadata::default(); lines.len()];
    for row in 0..lines.len().saturating_sub(1) {
        line_metadata[row].wrapped = true;
        line_metadata[row + 1].wrap_continuation = true;
    }
    TerminalContent {
        lines: lines
            .iter()
            .map(|line| {
                line.chars()
                    .map(|ch| TerminalCell {
                        text: ch.to_string().into(),
                        ..TerminalCell::blank()
                    })
                    .collect::<Vec<_>>()
                    .into()
            })
            .collect(),
        line_metadata,
        cursor_line: cursor_row,
        cursor_col,
        cursor_visible: true,
        display_offset: 0,
        colors: TerminalColors::default(),
        mouse: MouseMode::default(),
    }
}

fn semantic_content_with_cursor(
    lines: &[&str],
    cursor_row: i32,
    cursor_col: i32,
) -> TerminalContent {
    let mut line_metadata = vec![TerminalLineMetadata::default(); lines.len()];
    if let Some(first) = line_metadata.first_mut() {
        first.semantic_prompt = TerminalSemanticPrompt::Prompt;
    }
    for metadata in line_metadata.iter_mut().skip(1) {
        metadata.semantic_prompt = TerminalSemanticPrompt::Continuation;
    }
    TerminalContent {
        lines: lines
            .iter()
            .map(|line| {
                line.chars()
                    .map(|ch| TerminalCell {
                        text: ch.to_string().into(),
                        ..TerminalCell::blank()
                    })
                    .collect::<Vec<_>>()
                    .into()
            })
            .collect(),
        line_metadata,
        cursor_line: cursor_row,
        cursor_col,
        cursor_visible: true,
        display_offset: 0,
        colors: TerminalColors::default(),
        mouse: MouseMode::default(),
    }
}

#[test]
fn active_input_range_stops_before_fish_autosuggestion_tail() {
    let mut content = content_with_cursor("", 7);
    content.lines = vec![
        vec![
            colored_cell("❯", "#b5bd68"),
            TerminalCell::blank(),
            colored_cell("P", "#ff6b81"),
            colored_cell("A", "#ff6b81"),
            colored_cell("S", "#ff6b81"),
            colored_cell("T", "#ff6b81"),
            colored_cell("E", "#ff6b81"),
            colored_cell(" ", "#585b70"),
            TerminalCell::blank(),
        ]
        .into(),
    ];

    assert_eq!(
        active_input_line_range(&content),
        Some(SelectionRange::new(
            GridPoint { row: 0, column: 2 },
            GridPoint { row: 0, column: 7 }
        ))
    );
}

#[test]
fn active_input_range_spans_semantic_prompt_continuations() {
    let content = semantic_content_with_cursor(&["❯ import {", "  Foo,", "  Bar", "}"], 3, 1);

    assert_eq!(
        active_input_line_range(&content),
        Some(SelectionRange::new(
            GridPoint { row: 0, column: 2 },
            GridPoint { row: 3, column: 1 }
        ))
    );
}

#[test]
fn active_input_range_spans_semantic_prompt_from_each_cursor_row() {
    let lines = ["❯ import {", "  Foo,", "  Bar", "}"];
    for (cursor_row, cursor_col) in [(0, 10), (1, 6), (2, 5), (3, 1)] {
        let content = semantic_content_with_cursor(&lines, cursor_row, cursor_col);

        assert_eq!(
            active_input_line_range(&content),
            Some(SelectionRange::new(
                GridPoint { row: 0, column: 2 },
                GridPoint { row: 3, column: 1 }
            )),
            "cursor row {cursor_row}"
        );
    }
}

#[test]
fn active_input_range_skips_decorative_semantic_prompt_header() {
    let content = semantic_content_with_cursor(
        &["~/Documents/Projects/Chelotype on main", "❯ φiв"],
        1,
        5,
    );

    assert_eq!(
        active_input_line_range(&content),
        Some(SelectionRange::new(
            GridPoint { row: 1, column: 2 },
            GridPoint { row: 1, column: 5 }
        ))
    );
}

#[test]
fn selection_within_active_input_rejects_output_tail() {
    let mut content =
        semantic_content_with_cursor(&["❯ import {", "  Foo,", "  Bar", "}"], 3, 1);
    content.lines.push(
        "OUTPUT"
            .chars()
            .map(|ch| TerminalCell {
                text: ch.to_string().into(),
                ..TerminalCell::blank()
            })
            .collect::<Vec<_>>()
            .into(),
    );
    content.line_metadata.push(TerminalLineMetadata::default());

    assert!(selection_within_active_input(
        &content,
        SelectionRange::new(
            GridPoint { row: 0, column: 2 },
            GridPoint { row: 3, column: 1 }
        )
    ));
    assert!(!selection_within_active_input(
        &content,
        SelectionRange::new(
            GridPoint { row: 0, column: 2 },
            GridPoint { row: 4, column: 3 }
        )
    ));
}

#[test]
fn cursor_right_does_not_move_into_fish_autosuggestion_tail() {
    let mut content = content_with_cursor("", 7);
    content.lines = vec![
        vec![
            colored_cell("❯", "#b5bd68"),
            TerminalCell::blank(),
            colored_cell("P", "#ff6b81"),
            colored_cell("A", "#ff6b81"),
            colored_cell("S", "#ff6b81"),
            colored_cell("T", "#ff6b81"),
            colored_cell("E", "#ff6b81"),
            colored_cell(" ", "#585b70"),
            TerminalCell::blank(),
        ]
        .into(),
    ];

    assert_eq!(
        keyboard_cursor_target(&content, CursorDirection::Right, CursorUnit::Cell, None),
        Some(MouseGridPosition { row: 0, column: 7 })
    );
    assert_eq!(
        keyboard_cursor_bytes(&content, None, MouseGridPosition { row: 0, column: 7 }),
        None
    );
}

#[test]
fn ctrl_right_does_not_move_into_fish_autosuggestion_tail() {
    let mut content = content_with_cursor("", 5);
    content.lines = vec![
        vec![
            colored_cell("❯", "#b5bd68"),
            TerminalCell::blank(),
            colored_cell("g", "#ff6b81"),
            colored_cell("i", "#ff6b81"),
            colored_cell("t", "#ff6b81"),
            colored_cell(" ", "#585b70"),
            colored_cell("s", "#585b70"),
            colored_cell("t", "#585b70"),
            colored_cell("a", "#585b70"),
            colored_cell("t", "#585b70"),
            colored_cell("u", "#585b70"),
            colored_cell("s", "#585b70"),
            TerminalCell::blank(),
        ]
        .into(),
    ];

    assert_eq!(
        keyboard_cursor_target(&content, CursorDirection::Right, CursorUnit::Word, None),
        Some(MouseGridPosition { row: 0, column: 5 })
    );
    assert_eq!(
        keyboard_cursor_bytes(&content, None, MouseGridPosition { row: 0, column: 5 }),
        None
    );
}

#[test]
fn cursor_offset_maps_fish_autosuggestion_tail_for_mouse_clicks() {
    let mut content = content_with_cursor("", 5);
    content.lines = vec![
        vec![
            colored_cell("❯", "#b5bd68"),
            TerminalCell::blank(),
            colored_cell("g", "#ff6b81"),
            colored_cell("i", "#ff6b81"),
            colored_cell("t", "#ff6b81"),
            colored_cell(" ", "#585b70"),
            colored_cell("s", "#585b70"),
            colored_cell("t", "#585b70"),
            colored_cell("a", "#585b70"),
            colored_cell("t", "#585b70"),
            colored_cell("u", "#585b70"),
            colored_cell("s", "#585b70"),
            TerminalCell::blank(),
        ]
        .into(),
    ];

    assert_eq!(
        active_input_line_range(&content),
        Some(SelectionRange::new(
            GridPoint { row: 0, column: 2 },
            GridPoint { row: 0, column: 5 }
        ))
    );
    assert_eq!(
        input_buffer_offset_for_position(&content, MouseGridPosition { row: 0, column: 8 }),
        None
    );
    assert_eq!(
        input_cursor_offset_for_position(&content, MouseGridPosition { row: 0, column: 8 }),
        Some(6)
    );
    assert_eq!(
        input_cursor_offset_for_position(&content, MouseGridPosition { row: 0, column: 12 }),
        Some(10)
    );
}

#[test]
fn input_buffer_offset_maps_visual_position_inside_wrapped_input() {
    let content = wrapped_content_with_cursor(&["❯ abc", "def"], 1, 3);

    assert_eq!(
        input_buffer_offset_for_position(&content, MouseGridPosition { row: 0, column: 2 }),
        Some(0)
    );
    assert_eq!(
        input_buffer_offset_for_position(&content, MouseGridPosition { row: 0, column: 4 }),
        Some(2)
    );
    assert_eq!(
        input_buffer_offset_for_position(&content, MouseGridPosition { row: 1, column: 0 }),
        Some(3)
    );
    assert_eq!(
        input_buffer_offset_for_position(&content, MouseGridPosition { row: 1, column: 3 }),
        Some(6)
    );
}

#[test]
fn input_buffer_offset_maps_visual_position_inside_semantic_input() {
    let content = semantic_content_with_cursor(&["❯ abc", "def"], 1, 3);

    assert_eq!(
        input_buffer_offset_for_position(&content, MouseGridPosition { row: 0, column: 2 }),
        Some(0)
    );
    assert_eq!(
        input_buffer_offset_for_position(&content, MouseGridPosition { row: 0, column: 5 }),
        Some(3)
    );
    assert_eq!(
        input_buffer_offset_for_position(&content, MouseGridPosition { row: 1, column: 0 }),
        Some(4)
    );
    assert_eq!(
        input_buffer_offset_for_position(&content, MouseGridPosition { row: 1, column: 3 }),
        Some(7)
    );
}

#[test]
fn input_buffer_offsets_use_shell_character_indices_for_unicode_cells() {
    let wide = TerminalCell {
        text: "好".to_string().into(),
        wide: true,
        ..TerminalCell::blank()
    };
    let wide_spacer = TerminalCell {
        wide_spacer: true,
        ..TerminalCell::blank()
    };
    let joined = TerminalCell {
        text: "e\u{301}".to_string().into(),
        ..TerminalCell::blank()
    };
    let emoji = TerminalCell {
        text: "👩‍💻".to_string().into(),
        wide: true,
        ..TerminalCell::blank()
    };
    let content = TerminalContent {
        lines: vec![
            vec![
                TerminalCell {
                    text: "❯".to_string().into(),
                    ..TerminalCell::blank()
                },
                TerminalCell::blank(),
                wide,
                wide_spacer.clone(),
                joined,
                emoji,
                wide_spacer,
                TerminalCell {
                    text: "z".to_string().into(),
                    ..TerminalCell::blank()
                },
            ]
            .into(),
        ],
        line_metadata: vec![TerminalLineMetadata {
            semantic_prompt: TerminalSemanticPrompt::Prompt,
            ..TerminalLineMetadata::default()
        }],
        cursor_line: 0,
        cursor_col: 8,
        cursor_visible: true,
        display_offset: 0,
        colors: TerminalColors::default(),
        mouse: MouseMode::default(),
    };

    assert_eq!(
        input_buffer_offset_for_position(&content, MouseGridPosition { row: 0, column: 3 }),
        Some(1)
    );
    assert_eq!(
        input_buffer_offset_for_position(&content, MouseGridPosition { row: 0, column: 5 }),
        Some(3)
    );
    assert_eq!(
        input_cursor_offset_for_position(&content, MouseGridPosition { row: 0, column: 7 }),
        Some(6)
    );
    assert_eq!(
        input_buffer_range_for_selection(
            &content,
            SelectionRange::new(
                GridPoint { row: 0, column: 2 },
                GridPoint { row: 0, column: 7 }
            )
        ),
        Some(0..6)
    );

    let mut content = content;
    content.cursor_col = 4;
    let left = keyboard_cursor_target(&content, CursorDirection::Left, CursorUnit::Cell, None);
    assert_eq!(left, Some(MouseGridPosition { row: 0, column: 2 }));
    assert_eq!(
        keyboard_cursor_bytes(&content, None, left.unwrap()),
        Some(b"\x1b[D".to_vec())
    );
    content.cursor_col = 2;
    let right =
        keyboard_cursor_target(&content, CursorDirection::Right, CursorUnit::Cell, None);
    assert_eq!(right, Some(MouseGridPosition { row: 0, column: 4 }));
    assert_eq!(
        keyboard_cursor_bytes(&content, None, right.unwrap()),
        Some(b"\x1b[C".to_vec())
    );
}

#[test]
fn directed_shift_left_selection_crosses_semantic_prompt_rows() {
    let content = semantic_content_with_cursor(&["❯ abc ", "def"], 1, 0);
    let target =
        keyboard_cursor_target(&content, CursorDirection::Left, CursorUnit::Cell, None)
            .expect("left target across semantic input rows");
    let directed = directed_selection_for_target(&content, target, None, None)
        .expect("directed semantic selection");

    assert_eq!(target, MouseGridPosition { row: 0, column: 5 });
    assert_eq!(
        directed.range(),
        Some(SelectionRange::new(
            GridPoint { row: 0, column: 5 },
            GridPoint { row: 1, column: 0 }
        ))
    );
}

#[test]
fn input_buffer_offset_maps_semantic_position_from_each_cursor_row() {
    let lines = ["❯ import {", "  Foo,", "  Bar", "}"];
    for (cursor_row, cursor_col) in [(0, 10), (1, 6), (2, 5), (3, 1)] {
        let content = semantic_content_with_cursor(&lines, cursor_row, cursor_col);

        assert_eq!(
            input_buffer_offset_for_position(&content, MouseGridPosition { row: 2, column: 2 }),
            Some(18),
            "cursor row {cursor_row}"
        );
    }
}

#[test]
fn input_buffer_range_maps_multiline_selection_inside_semantic_input() {
    let content = semantic_content_with_cursor(&["❯ import {", "  Foo,", "  Bar", "}"], 3, 1);

    assert_eq!(
        input_buffer_range_for_selection(
            &content,
            SelectionRange::new(
                GridPoint { row: 1, column: 2 },
                GridPoint { row: 2, column: 5 }
            )
        ),
        Some(11..21)
    );
}

#[test]
fn active_multiline_input_does_not_apply_cursor_autosuggestion_color_to_later_rows() {
    let mut content = semantic_content_with_cursor(&["❯ abc", "later"], 0, 5);
    content.lines[1] = content.lines[1]
        .iter()
        .cloned()
        .map(|mut cell| {
            cell.fg = Some("#585b70".to_string());
            cell
        })
        .collect();

    assert_eq!(
        active_input_line_range(&content),
        Some(SelectionRange::new(
            GridPoint { row: 0, column: 2 },
            GridPoint { row: 1, column: 5 }
        ))
    );
}

#[test]
fn input_buffer_range_ignores_terminal_padding_inside_semantic_input() {
    let mut content =
        semantic_content_with_cursor(&["❯ import {", "  Foo,", "  Bar", "}"], 3, 1);
    for line in &mut content.lines {
        let mut padded = line.to_vec();
        padded.resize(120, TerminalCell::blank());
        *line = padded.into();
    }

    assert_eq!(
        input_buffer_range_for_selection(
            &content,
            SelectionRange::new(
                GridPoint { row: 1, column: 2 },
                GridPoint { row: 2, column: 5 }
            )
        ),
        Some(11..21)
    );
    assert_eq!(
        active_input_line_range(&content),
        Some(SelectionRange::new(
            GridPoint { row: 0, column: 2 },
            GridPoint { row: 3, column: 1 }
        ))
    );
}

#[test]
fn active_input_range_keeps_trailing_space_before_cursor() {
    let mut content = content_with_cursor("❯ aaa ", 6);
    let mut padded = content.lines[0].to_vec();
    padded.resize(120, TerminalCell::blank());
    content.lines[0] = padded.into();

    let range = SelectionRange::new(
        GridPoint { row: 0, column: 2 },
        GridPoint { row: 0, column: 6 },
    );
    assert_eq!(active_input_line_range(&content), Some(range));
    assert!(selection_within_active_input(&content, range));
    assert_eq!(
        input_buffer_range_for_selection(&content, range),
        Some(0..4)
    );
    assert_eq!(
        input_buffer_offset_for_position(&content, MouseGridPosition { row: 0, column: 6 }),
        Some(4)
    );
}

#[test]
fn input_buffer_offset_rejects_prompt_and_output_positions() {
    let content = wrapped_content_with_cursor(&["❯ abc", "def"], 1, 3);

    assert_eq!(
        input_buffer_offset_for_position(&content, MouseGridPosition { row: 0, column: 1 }),
        None
    );
    assert_eq!(
        input_buffer_offset_for_position(&content, MouseGridPosition { row: 2, column: 0 }),
        None
    );
}

#[test]
fn keyboard_selection_anchor_stays_fixed_while_focus_moves_both_directions() {
    let range = SelectionRange::new(
        GridPoint { row: 4, column: 5 },
        GridPoint { row: 4, column: 6 },
    );

    assert_eq!(
        keyboard_selection_anchor(Some(range), GridPoint { row: 4, column: 5 }),
        Some(GridPoint { row: 4, column: 6 })
    );
    assert_eq!(
        keyboard_selection_anchor(Some(range), GridPoint { row: 4, column: 6 }),
        Some(GridPoint { row: 4, column: 5 })
    );
}

#[test]
fn keyboard_selection_collapse_uses_requested_selection_boundary() {
    let range = SelectionRange::new(
        GridPoint { row: 4, column: 5 },
        GridPoint { row: 4, column: 8 },
    );

    assert_eq!(
        keyboard_selection_collapse_target(Some(range), 0, 10, CursorDirection::Left),
        Some(GridPoint { row: 4, column: 5 })
    );
    assert_eq!(
        keyboard_selection_collapse_target(Some(range), 0, 10, CursorDirection::Right),
        Some(GridPoint { row: 4, column: 8 })
    );
}

#[test]
fn directed_keyboard_selection_shrinks_back_to_empty_without_stale_terminal_cursor() {
    let content = content_with_cursor("❯ abcdef", 8);

    let initial = directed_selection_for_target(
        &content,
        MouseGridPosition { column: 7, row: 0 },
        None,
        None,
    )
    .expect("initial selection");
    assert_eq!(
        initial.range(),
        Some(SelectionRange::new(
            GridPoint { row: 0, column: 7 },
            GridPoint { row: 0, column: 8 }
        ))
    );

    let current = initial.viewport_focus(0, content.lines.len());
    let target =
        keyboard_cursor_target(&content, CursorDirection::Right, CursorUnit::Cell, current)
            .expect("right target from directed focus");
    let next = directed_selection_for_target(&content, target, Some(initial), initial.range())
        .expect("next selection");

    assert_eq!(next.range(), None);
}

#[test]
fn directed_ctrl_shift_word_selection_starts_from_current_position() {
    let content = content_with_cursor("❯ abcde", 4);

    let target = keyboard_cursor_target(
        &content,
        CursorDirection::Right,
        CursorUnit::Word,
        Some(GridPoint { row: 0, column: 4 }),
    )
    .expect("word target from middle of word");
    let directed = directed_selection_for_target(&content, target, None, None)
        .expect("directed selection");

    assert_eq!(
        directed.range(),
        Some(SelectionRange::new(
            GridPoint { row: 0, column: 4 },
            GridPoint { row: 0, column: 7 }
        ))
    );
}

#[test]
fn directed_cursor_bytes_use_logical_focus_instead_of_stale_terminal_cursor() {
    let content = content_with_cursor("❯ abcdef", 8);
    let bytes = keyboard_cursor_bytes(
        &content,
        Some(GridPoint { row: 0, column: 5 }),
        MouseGridPosition { row: 0, column: 8 },
    )
    .expect("movement bytes");

    assert_eq!(bytes, b"\x1b[C\x1b[C\x1b[C");
}

#[test]
fn shift_left_target_crosses_soft_wrapped_input_row_boundary() {
    let content = wrapped_content_with_cursor(&["❯ abc", "def"], 1, 0);

    assert_eq!(
        keyboard_cursor_target(&content, CursorDirection::Left, CursorUnit::Cell, None),
        Some(MouseGridPosition { row: 0, column: 4 })
    );
    assert_eq!(
        keyboard_cursor_bytes(&content, None, MouseGridPosition { row: 0, column: 4 })
            .as_deref(),
        Some(&b"\x1b[D"[..])
    );
}

#[test]
fn directed_shift_left_selection_crosses_soft_wrapped_input_row_boundary() {
    let content = wrapped_content_with_cursor(&["❯ abc", "def"], 1, 0);
    let target =
        keyboard_cursor_target(&content, CursorDirection::Left, CursorUnit::Cell, None)
            .expect("left target across soft wrap");
    let directed = directed_selection_for_target(&content, target, None, None)
        .expect("directed selection across soft wrap");

    assert_eq!(
        directed.range(),
        Some(SelectionRange::new(
            GridPoint { row: 0, column: 4 },
            GridPoint { row: 1, column: 0 }
        ))
    );
    assert_eq!(
        keyboard_cursor_bytes(&content, None, target).as_deref(),
        Some(&b"\x1b[D"[..])
    );
}

#[test]
fn directed_ctrl_shift_left_selection_crosses_soft_wrapped_input_row_boundary() {
    let content = wrapped_content_with_cursor(&["❯ abc ", "def ghi"], 1, 0);
    let target =
        keyboard_cursor_target(&content, CursorDirection::Left, CursorUnit::Word, None)
            .expect("word-left target across soft wrap");
    let directed = directed_selection_for_target(&content, target, None, None)
        .expect("directed word selection across soft wrap");

    assert_eq!(target, MouseGridPosition { row: 0, column: 2 });
    assert_eq!(
        directed.range(),
        Some(SelectionRange::new(
            GridPoint { row: 0, column: 2 },
            GridPoint { row: 1, column: 0 }
        ))
    );
    assert_eq!(
        keyboard_cursor_bytes(&content, None, target).as_deref(),
        Some(&b"\x1b[D\x1b[D\x1b[D\x1b[D"[..])
    );
}

#[test]
fn directed_selection_cursor_bytes_cross_soft_wrap_from_logical_focus() {
    let content = wrapped_content_with_cursor(&["❯ abc", "def"], 1, 0);

    assert_eq!(
        keyboard_cursor_bytes(
            &content,
            Some(GridPoint { row: 0, column: 4 }),
            MouseGridPosition { row: 1, column: 0 },
        )
        .as_deref(),
        Some(&b"\x1b[C"[..])
    );
}
