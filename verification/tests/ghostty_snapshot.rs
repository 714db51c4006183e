use chelotype::ghostty_snapshot::{
    mouse_mode, rgb_to_hex, style_color_to_hex, terminal_cell_from_emulator, CellStyleAttributes,
    CellWidth, Dirty, EmulatorCell, GhosttySnapshotter, MouseModeFlags, Rgb, StyleColor,
};
use chelotype::terminal_grid::{MouseMode, TerminalCell, TerminalLineMetadata, TerminalSemanticPrompt};

fn plain_style() -> CellStyleAttributes {
    CellStyleAttributes {
        fg_color: StyleColor::Unset,
        bg_color: StyleColor::Unset,
        bold: false,
        italic: false,
        underline: false,
        inverse: false,
        strikethrough: false,
    }
}

fn cell(text: &str) -> EmulatorCell {
    EmulatorCell {
        has_text: !text.is_empty(),
        has_styling: false,
        width: CellWidth::Narrow,
        graphemes: text.to_string(),
        fg: None,
        bg: None,
        style: plain_style(),
    }
}

fn row(text: &str) -> Vec<TerminalCell> {
    text.chars()
        .map(|ch| TerminalCell {
            text: ch.to_string(),
            ..TerminalCell::blank()
        })
        .collect()
}

#[test]
fn colors_are_lower_case_hex() {
    assert_eq!(rgb_to_hex(Rgb { r: 0x0f, g: 0xa0, b: 0xff }), "#0fa0ff");
    assert_eq!(rgb_to_hex(Rgb { r: 0, g: 0, b: 0 }), "#000000");
}

#[test]
fn style_colors_resolve_through_the_palette() {
    let palette = [Rgb { r: 1, g: 2, b: 3 }, Rgb { r: 0xaa, g: 0xbb, b: 0xcc }];
    assert_eq!(style_color_to_hex(StyleColor::Unset, &palette), None);
    assert_eq!(style_color_to_hex(StyleColor::Palette(1), &palette), Some("#aabbcc".to_string()));
    assert_eq!(style_color_to_hex(StyleColor::Palette(2), &palette), None);
    assert_eq!(
        style_color_to_hex(StyleColor::Direct(Rgb { r: 0x12, g: 0x34, b: 0x56 }), &palette),
        Some("#123456".to_string())
    );
}

#[test]
fn empty_unstyled_cells_become_blanks_keeping_spacers() {
    let mut spacer = cell("");
    spacer.width = CellWidth::SpacerTail;
    let converted = terminal_cell_from_emulator(&spacer, &[]);
    let mut expected = TerminalCell::blank();
    expected.wide_spacer = true;
    assert_eq!(converted, expected);
    assert_eq!(terminal_cell_from_emulator(&cell(""), &[]), TerminalCell::blank());
}

#[test]
fn styled_cells_keep_text_colors_and_attributes() {
    let palette = [Rgb { r: 0xff, g: 0, b: 0 }];
    let mut styled = cell("界");
    styled.width = CellWidth::Wide;
    styled.style.fg_color = StyleColor::Palette(0);
    styled.bg = Some(Rgb { r: 0, g: 0, b: 0x10 });
    styled.style.bg_color = StyleColor::Palette(0);
    styled.style.bold = true;
    styled.style.underline = true;
    let converted = terminal_cell_from_emulator(&styled, &palette);
    assert_eq!(converted.text, "界");
    assert_eq!(converted.fg.as_deref(), Some("#ff0000"));
    assert_eq!(converted.bg.as_deref(), Some("#000010"));
    assert!(converted.bold && converted.underline && !converted.italic);
    assert!(converted.wide && !converted.wide_spacer);

    let mut styled_space = cell("");
    styled_space.has_styling = true;
    styled_space.style.inverse = true;
    let converted = terminal_cell_from_emulator(&styled_space, &palette);
    assert_eq!(converted.text, " ");
    assert!(converted.inverse);
}

#[test]
fn mouse_modes_map_to_reporting_kinds() {
    let flags = MouseModeFlags { normal: false, x10: true, button: false, any: true, sgr: true, utf8: false };
    assert_eq!(
        mouse_mode(flags),
        MouseMode { click: true, drag: false, motion: true, sgr: true, utf8: false }
    );
}

#[test]
fn first_snapshot_converts_every_row_then_only_dirty_rows() {
    let mut snapshotter = GhosttySnapshotter::new();
    let pass = snapshotter.begin(Dirty::Partial, 2, 3, "default");
    assert!(pass.rebuild_all && pass.visit_rows);
    for (index, text) in ["abc", "def"].iter().enumerate() {
        assert!(GhosttySnapshotter::row_needs_conversion(pass, false));
        snapshotter.store_row(pass, index, row(text), TerminalLineMetadata::default());
    }
    snapshotter.finish("default");
    assert_eq!(snapshotter.last_converted_rows(), 2);

    let pass = snapshotter.begin(Dirty::Partial, 2, 3, "default");
    assert!(!pass.rebuild_all && pass.visit_rows);
    assert!(!GhosttySnapshotter::row_needs_conversion(pass, false));
    assert!(GhosttySnapshotter::row_needs_conversion(pass, true));
    let mut prompt = TerminalLineMetadata::default();
    prompt.semantic_prompt = TerminalSemanticPrompt::Prompt;
    snapshotter.store_row(pass, 1, row("xyz"), prompt);
    snapshotter.finish("default");
    assert_eq!(snapshotter.last_converted_rows(), 1);

    let content = snapshotter.content(
        Some((2, 1)),
        true,
        100,
        24,
        70,
        Rgb { r: 0xee, g: 0xee, b: 0xee },
        Rgb { r: 0x11, g: 0x11, b: 0x11 },
        None,
        "#cccccc",
        MouseMode::default(),
    );
    assert_eq!(content.lines, vec![row("abc"), row("xyz")]);
    assert_eq!(content.line_metadata, vec![TerminalLineMetadata::default(), prompt]);
    assert_eq!((content.cursor_line, content.cursor_col), (1, 2));
    assert!(content.cursor_visible);
    assert_eq!(content.display_offset, 6);
    assert_eq!(content.colors.foreground, "#eeeeee");
    assert_eq!(content.colors.background, "#111111");
    assert_eq!(content.colors.cursor.as_deref(), Some("#cccccc"));
}

#[test]
fn clean_screen_with_same_shape_and_palette_converts_nothing() {
    let mut snapshotter = GhosttySnapshotter::new();
    let pass = snapshotter.begin(Dirty::Clean, 1, 2, "default");
    assert!(pass.rebuild_all);
    snapshotter.store_row(pass, 0, row("ab"), TerminalLineMetadata::default());
    snapshotter.finish("default");

    let pass = snapshotter.begin(Dirty::Clean, 1, 2, "default");
    assert!(!pass.rebuild_all && !pass.visit_rows);
    assert_eq!(snapshotter.last_converted_rows(), 0);

    let pass = snapshotter.begin(Dirty::Clean, 1, 2, "light");
    assert!(pass.rebuild_all && pass.visit_rows);

    let mut resized = GhosttySnapshotter::new();
    let pass = resized.begin(Dirty::Clean, 1, 2, "default");
    resized.store_row(pass, 0, row("ab"), TerminalLineMetadata::default());
    resized.finish("default");
    assert!(resized.begin(Dirty::Clean, 1, 3, "default").rebuild_all);
}

#[test]
fn hidden_cursor_reports_minus_one_and_palette_cursor_color() {
    let snapshotter = GhosttySnapshotter::new();
    let content = snapshotter.content(
        None,
        true,
        24,
        24,
        0,
        Rgb { r: 0, g: 0, b: 0 },
        Rgb { r: 0, g: 0, b: 0 },
        Some(Rgb { r: 0xab, g: 0xcd, b: 0xef }),
        "#cccccc",
        MouseMode::default(),
    );
    assert_eq!((content.cursor_line, content.cursor_col), (-1, -1));
    assert!(!content.cursor_visible);
    assert_eq!(content.colors.cursor.as_deref(), Some("#abcdef"));
    assert_eq!(content.display_offset, 0);
}
