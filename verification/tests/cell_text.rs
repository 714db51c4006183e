use chelotype::cell_text::cells_to_text;
use chelotype::terminal_grid::TerminalCell;

fn cell(text: &str) -> TerminalCell {
    TerminalCell {
        text: text.to_string(),
        ..TerminalCell::blank()
    }
}

#[test]
fn text_preserves_zerowidth_combining_marks() {
    let composed = cell("e\u{0301}");
    assert_eq!(
        cells_to_text(&[cell("a"), composed, cell("b")]),
        "ae\u{0301}b"
    );
}

#[test]
fn text_skips_wide_spacer_cells() {
    let mut wide = cell("中");
    wide.wide = true;
    let mut spacer = TerminalCell::blank();
    spacer.wide_spacer = true;
    assert_eq!(cells_to_text(&[cell("a"), wide, spacer, cell("b")]), "a中b");
}
