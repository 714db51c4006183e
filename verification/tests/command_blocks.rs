use chelotype::command_blocks::{command_blocks, CommandBlock};
use chelotype::terminal_grid::{
    MouseMode, TerminalCell, TerminalColors, TerminalContent, TerminalLineMetadata,
    TerminalSemanticPrompt,
};

fn content(metadata: Vec<TerminalSemanticPrompt>) -> TerminalContent {
    TerminalContent {
        lines: metadata
            .iter()
            .map(|_| vec![TerminalCell::blank()])
            .collect(),
        line_metadata: metadata
            .into_iter()
            .map(|semantic_prompt| TerminalLineMetadata {
                semantic_prompt,
                ..TerminalLineMetadata::default()
            })
            .collect(),
        cursor_line: 0,
        cursor_col: 0,
        cursor_visible: true,
        display_offset: 0,
        colors: TerminalColors::default(),
        mouse: MouseMode::default(),
    }
}

#[test]
fn builds_blocks_from_semantic_prompt_rows() {
    let blocks = command_blocks(&content(vec![
        TerminalSemanticPrompt::Unmarked,
        TerminalSemanticPrompt::Prompt,
        TerminalSemanticPrompt::Continuation,
        TerminalSemanticPrompt::Unmarked,
        TerminalSemanticPrompt::Unmarked,
        TerminalSemanticPrompt::Prompt,
        TerminalSemanticPrompt::Unmarked,
    ]));
    assert_eq!(
        blocks,
        vec![
            CommandBlock {
                prompt_start_row: 1,
                prompt_end_row: 2,
                end_row: 4,
            },
            CommandBlock {
                prompt_start_row: 5,
                prompt_end_row: 5,
                end_row: 6,
            },
        ]
    );
    assert_eq!(blocks[0].output_start_row(), Some(3));
    assert_eq!(blocks[0].output_end_row(), Some(4));
}

#[test]
fn does_not_guess_blocks_without_semantic_prompt() {
    assert!(command_blocks(&content(vec![TerminalSemanticPrompt::Unmarked])).is_empty());
}

#[test]
fn every_prompt_row_and_only_prompt_rows_start_blocks() {
    let marks = vec![
        TerminalSemanticPrompt::Unmarked,
        TerminalSemanticPrompt::Prompt,
        TerminalSemanticPrompt::Continuation,
        TerminalSemanticPrompt::Unmarked,
        TerminalSemanticPrompt::Prompt,
        TerminalSemanticPrompt::Prompt,
        TerminalSemanticPrompt::Unmarked,
    ];
    let starts: Vec<usize> = command_blocks(&content(marks.clone()))
        .iter()
        .map(|block| block.prompt_start_row)
        .collect();
    let prompt_rows: Vec<usize> = marks
        .iter()
        .enumerate()
        .filter(|(_, mark)| **mark == TerminalSemanticPrompt::Prompt)
        .map(|(row, _)| row)
        .collect();
    assert_eq!(starts, prompt_rows);
}

#[test]
fn blocks_tile_the_rows_from_the_first_prompt() {
    let marks = vec![
        TerminalSemanticPrompt::Unmarked,
        TerminalSemanticPrompt::Prompt,
        TerminalSemanticPrompt::Continuation,
        TerminalSemanticPrompt::Continuation,
        TerminalSemanticPrompt::Unmarked,
        TerminalSemanticPrompt::Continuation,
        TerminalSemanticPrompt::Prompt,
        TerminalSemanticPrompt::Unmarked,
    ];
    let blocks = command_blocks(&content(marks.clone()));
    assert_eq!(blocks.len(), 2);
    assert_eq!(blocks[0].end_row + 1, blocks[1].prompt_start_row);
    assert_eq!(blocks[1].end_row, marks.len() - 1);
    assert_eq!((blocks[0].prompt_start_row, blocks[0].prompt_end_row), (1, 3));
    for row in blocks[0].prompt_start_row + 1..=blocks[0].prompt_end_row {
        assert_eq!(marks[row], TerminalSemanticPrompt::Continuation);
    }
}
