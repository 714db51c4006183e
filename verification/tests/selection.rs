use chelotype::selection::{selected_text, GridPoint, PlainCell, SelectionRange};

fn line(text: &str) -> Vec<PlainCell> {
    text.chars()
        .map(|ch| PlainCell {
            c: ch,
            has_zerowidth: false,
            has_flags: false,
        })
        .collect()
}

fn blank() -> PlainCell {
    PlainCell {
        c: ' ',
        has_zerowidth: false,
        has_flags: false,
    }
}

#[test]
fn normalizes_half_open_range() {
    let range = SelectionRange::new(
        GridPoint { row: 3, column: 4 },
        GridPoint { row: 1, column: 2 },
    );
    assert_eq!(range.start, GridPoint { row: 1, column: 2 });
    assert_eq!(range.end, GridPoint { row: 3, column: 4 });
}

#[test]
fn builds_cell_inclusive_drag_range_as_half_open() {
    let range = SelectionRange::between_cells(
        GridPoint { row: 1, column: 2 },
        GridPoint { row: 1, column: 4 },
    );
    assert_eq!(range.start, GridPoint { row: 1, column: 2 });
    assert_eq!(range.end, GridPoint { row: 1, column: 5 });
}

#[test]
fn normalizes_reverse_drag_and_keeps_anchor_cell() {
    let range = SelectionRange::between_cells(
        GridPoint { row: 3, column: 4 },
        GridPoint { row: 1, column: 2 },
    );
    assert_eq!(range.start, GridPoint { row: 1, column: 2 });
    assert_eq!(range.end, GridPoint { row: 3, column: 5 });
}

#[test]
fn detects_contained_points() {
    let range = SelectionRange::new(
        GridPoint { row: 1, column: 2 },
        GridPoint { row: 2, column: 3 },
    );
    assert!(range.contains(GridPoint { row: 1, column: 2 }));
    assert!(range.contains(GridPoint { row: 2, column: 2 }));
    assert!(!range.contains(GridPoint { row: 2, column: 3 }));
    assert!(!range.contains(GridPoint { row: 0, column: 9 }));
    assert!(!range.contains(GridPoint { row: 2, column: 4 }));
}

#[test]
fn extracts_single_line_text() {
    let lines = [line("abcdef")];
    let range = SelectionRange::new(
        GridPoint { row: 0, column: 1 },
        GridPoint { row: 0, column: 4 },
    );
    assert_eq!(selected_text(&lines, range), "bcd");
}

#[test]
fn extracts_multiline_text() {
    let lines = [line("abcdef"), line("ghijkl"), line("mnopqr")];
    let range = SelectionRange::new(
        GridPoint { row: 0, column: 2 },
        GridPoint { row: 2, column: 3 },
    );
    assert_eq!(selected_text(&lines, range), "cdef\nghijkl\nmno");
}

#[test]
fn trims_plain_blank_tail_on_full_middle_lines() {
    let mut padded = line("gh");
    padded.extend([blank(), blank()]);
    let lines = [line("abcdef"), padded, line("mnopqr")];
    let range = SelectionRange::new(
        GridPoint { row: 0, column: 5 },
        GridPoint { row: 2, column: 1 },
    );
    assert_eq!(selected_text(&lines, range), "f\ngh\nm");
}

#[test]
fn returns_empty_text_for_empty_range() {
    let lines = [line("abcdef")];
    let range = SelectionRange::new(
        GridPoint { row: 0, column: 2 },
        GridPoint { row: 0, column: 2 },
    );
    assert_eq!(selected_text(&lines, range), "");
}

#[test]
fn grid_point_from_pointer_position_keeps_row_and_column() {
    let point = GridPoint::from(chelotype::mouse::MouseGridPosition { column: 7, row: 3 });
    assert_eq!(point, GridPoint { row: 3, column: 7 });
}
