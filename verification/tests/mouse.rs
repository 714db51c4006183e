use chelotype::mouse::{sgr_drag_bytes, sgr_press_bytes, sgr_release_bytes, MouseButton, MouseGridPosition};

#[test]
fn encodes_sgr_left_press_as_one_based_grid_position() {
    assert_eq!(
        sgr_press_bytes(MouseButton::Left, MouseGridPosition { column: 4, row: 2 }),
        b"\x1b[<0;5;3M"
    );
}

#[test]
fn encodes_sgr_release() {
    assert_eq!(
        sgr_release_bytes(MouseGridPosition { column: 4, row: 2 }),
        b"\x1b[<0;5;3m"
    );
}

#[test]
fn encodes_sgr_drag() {
    assert_eq!(
        sgr_drag_bytes(MouseButton::Left, MouseGridPosition { column: 4, row: 2 }),
        b"\x1b[<32;5;3M"
    );
}
