use chelotype::render::{
    cells_to_markup, cells_to_runs, cells_to_text, run_markup, RenderRegion, RenderStyle, Renderer,
};
use chelotype::selection::{GridPoint, SelectionRange};
use chelotype::terminal_grid::{
    MouseMode, TerminalCell, TerminalColors, TerminalContent as RenderableContentOwned,
    TerminalLineMetadata,
};

fn cell(text: &str) -> TerminalCell {
    TerminalCell {
        text: text.to_string(),
        ..TerminalCell::blank()
    }
}

#[test]
fn markup_escapes_text_cells() {
    let cells = [cell("<"), cell("&"), cell(">")];
    let markup = cells_to_markup(&cells, 0, None);
    assert!(markup.contains("&lt;&amp;&gt;"));
}

#[test]
fn markup_trims_plain_blank_tail() {
    let cells = [
        cell("o"),
        cell("k"),
        TerminalCell::blank(),
        TerminalCell::blank(),
    ];
    let markup = cells_to_markup(&cells, 0, None);
    assert!(markup.contains(">ok</span>"));
    assert!(!markup.contains("ok  "));
}

#[test]
fn markup_preserves_styled_blank_tail() {
    let mut styled_blank = TerminalCell::blank();
    styled_blank.bg = Some("#ff0000".to_string());
    let cells = [cell("x"), styled_blank];
    let markup = cells_to_markup(&cells, 0, None);
    assert!(markup.contains(">x</span>"));
    assert!(markup.contains("> </span>"));
}

#[test]
fn markup_marks_selected_cells_without_changing_text() {
    let cells = [cell("a"), cell("b"), cell("c"), cell("d")];
    let selection = SelectionRange::new(
        GridPoint { row: 0, column: 1 },
        GridPoint { row: 0, column: 3 },
    );
    let markup = cells_to_markup(&cells, 0, Some(selection));
    assert!(markup.contains(">a</span>"));
    assert!(markup.contains("background=\"#264f78\">bc</span>"));
    assert!(markup.contains(">d</span>"));
}

#[test]
fn runs_group_adjacent_cells_by_style_and_selection() {
    let cells = [cell("a"), cell("b"), cell("c"), cell("d")];
    let selection = SelectionRange::new(
        GridPoint { row: 0, column: 1 },
        GridPoint { row: 0, column: 3 },
    );
    let runs = cells_to_runs(&cells, 0, Some(selection));
    assert_eq!(runs.len(), 3);
    assert_eq!(runs[0].start_column, 0);
    assert_eq!(runs[0].columns, 1);
    assert_eq!(runs[0].text, "a");
    assert!(!runs[0].style.selected);
    assert_eq!(runs[1].start_column, 1);
    assert_eq!(runs[1].columns, 2);
    assert_eq!(runs[1].text, "bc");
    assert!(runs[1].style.selected);
    assert_eq!(runs[2].start_column, 3);
    assert_eq!(runs[2].columns, 1);
    assert_eq!(runs[2].text, "d");
    assert!(!runs[2].style.selected);
}

#[test]
fn text_and_markup_preserve_zerowidth_combining_marks() {
    let composed = cell("e\u{0301}");
    let cells = [cell("x"), composed, cell("y")];
    assert_eq!(cells_to_text(&cells), "xe\u{0301}y");
    let markup = cells_to_markup(&cells, 0, None);
    assert!(markup.contains("xe\u{0301}y"));
}

#[test]
fn text_and_runs_skip_wide_char_spacer_cells() {
    let mut wide = cell("中");
    wide.wide = true;
    let mut spacer = TerminalCell::blank();
    spacer.wide_spacer = true;
    let cells = [cell("a"), wide, spacer, cell("b")];
    assert_eq!(cells_to_text(&cells), "a中b");
    let runs = cells_to_runs(&cells, 0, None);
    assert_eq!(runs.len(), 1);
    assert_eq!(runs[0].text, "a中b");
    assert_eq!(runs[0].start_column, 0);
    assert_eq!(runs[0].columns, 4);
}

#[test]
fn renderer_exports_structured_history_and_input_lines() {
    let content = RenderableContentOwned {
        lines: vec![
            vec![cell("o"), cell("l"), cell("d")],
            vec![cell("n"), cell("e"), cell("w")],
        ],
        line_metadata: vec![TerminalLineMetadata::default(); 2],
        cursor_line: 1,
        cursor_col: 3,
        cursor_visible: true,
        display_offset: 0,
        colors: TerminalColors::default(),
        mouse: MouseMode::default(),
    };
    let frame = Renderer::render_frame_with_selection(content, None);
    assert_eq!(frame.lines.len(), 2);
    assert_eq!(frame.lines[0].region, RenderRegion::History);
    assert_eq!(frame.lines[0].text, "old");
    assert_eq!(frame.lines[0].runs[0].text, "old");
    assert_eq!(frame.lines[1].region, RenderRegion::Input);
    assert_eq!(frame.lines[1].text, "new");
    assert_eq!(frame.lines[1].runs[0].start_column, 0);
    assert_eq!(frame.input_text, "new");
}

#[test]
fn renderer_marks_soft_wrapped_cursor_line_as_single_input_region() {
    let content = RenderableContentOwned {
        lines: vec![
            vec![cell("o"), cell("l"), cell("d")],
            vec![cell("l"), cell("o"), cell("n"), cell("g")],
            vec![cell("c"), cell("m"), cell("d")],
        ],
        line_metadata: vec![
            TerminalLineMetadata::default(),
            TerminalLineMetadata {
                wrapped: true,
                ..TerminalLineMetadata::default()
            },
            TerminalLineMetadata {
                wrap_continuation: true,
                ..TerminalLineMetadata::default()
            },
        ],
        cursor_line: 2,
        cursor_col: 3,
        cursor_visible: true,
        display_offset: 0,
        colors: TerminalColors::default(),
        mouse: MouseMode::default(),
    };
    let frame = Renderer::render_frame_with_selection(content, None);
    assert_eq!(frame.lines[0].region, RenderRegion::History);
    assert_eq!(frame.lines[1].region, RenderRegion::Input);
    assert_eq!(frame.lines[2].region, RenderRegion::Input);
    assert_eq!(frame.input_text, "cmd");
    assert!(frame.input_markup.contains('\n'));
}

#[test]
fn run_markup_escapes_text_and_preserves_style() {
    let style = RenderStyle {
        fg: Some("#ff0000".to_string()),
        bg: None,
        bold: true,
        italic: true,
        underline: true,
        strikeout: true,
        selected: false,
    };
    let markup = run_markup(&style, "<&>");
    assert!(markup.contains("foreground=\"#ff0000\""));
    assert!(markup.contains("weight=\"bold\""));
    assert!(markup.contains("style=\"italic\""));
    assert!(markup.contains("underline=\"single\""));
    assert!(markup.contains("strikethrough=\"true\""));
    assert!(markup.contains("&lt;&amp;&gt;"));
}

#[test]
fn run_markup_of_a_plain_run_is_a_bare_span() {
    let style = RenderStyle {
        fg: None,
        bg: Some("#000000".to_string()),
        bold: false,
        italic: false,
        underline: false,
        strikeout: false,
        selected: true,
    };
    assert_eq!(run_markup(&style, "ab"), "<span>ab</span>");
}

#[test]
fn runs_spell_the_row_text_left_to_right() {
    let mut bold = cell("b");
    bold.bold = true;
    let cells = vec![cell("a"), bold, cell("c"), cell("d"), TerminalCell::blank()];
    let runs = cells_to_runs(&cells, 0, None);
    let joined: String = runs.iter().map(|run| run.text.as_str()).collect();
    assert_eq!(joined, cells_to_text(&cells));
    let mut next = 0;
    for run in &runs {
        assert!(run.start_column >= next && run.columns >= 1);
        next = run.start_column + run.columns;
    }
    assert_eq!(runs.len(), 3);
}
