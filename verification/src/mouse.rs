use crate::text::{decimal_ascii, push_decimal_ascii};
use vstd::prelude::*;

verus! {

/// A pointer position in grid cells, counted from zero.
#[derive(Clone, Copy, Debug, PartialEq, Eq, Structural)]
pub struct MouseGridPosition {
    pub column: u16,
    pub row: u16,
}

#[derive(Clone, Copy, Debug, PartialEq, Eq, Structural)]
pub enum MouseButton {
    Left,
    Middle,
    Right,
}

/// The SGR (mode 1006) button code of a mouse button.
pub open spec fn button_code_spec(button: MouseButton) -> u16 {
    match button {
        MouseButton::Left => 0,
        MouseButton::Middle => 1,
        MouseButton::Right => 2,
    }
}

/// `value + 1`, saturating at the largest `u16`.
pub open spec fn one_based(value: u16) -> nat {
    if value == u16::MAX {
        u16::MAX as nat
    } else {
        (value + 1) as nat
    }
}

/// The SGR mouse report `ESC [ < code ; column ; row suffix`, with one-based
/// coordinates.
pub open spec fn sgr_report(code: nat, position: MouseGridPosition, suffix: u8) -> Seq<u8> {
    seq![0x1bu8, 0x5bu8, 0x3cu8] + decimal_ascii(code) + seq![0x3bu8] + decimal_ascii(
        one_based(position.column),
    ) + seq![0x3bu8] + decimal_ascii(one_based(position.row)) + seq![suffix]
}

/// The report for pressing `button`.
pub fn sgr_press_bytes(button: MouseButton, position: MouseGridPosition) -> (r: Vec<u8>)
    ensures
        r@ == sgr_report(button_code_spec(button) as nat, position, 0x4d),
{
    sgr_mouse_bytes(button_code(button), position, 0x4d)
}

/// The report for releasing a button (SGR reports releases with code 0).
pub fn sgr_release_bytes(position: MouseGridPosition) -> (r: Vec<u8>)
    ensures
        r@ == sgr_report(0, position, 0x6d),
{
    sgr_mouse_bytes(0, position, 0x6d)
}

/// The report for moving the pointer with `button` held (motion flag 32).
pub fn sgr_drag_bytes(button: MouseButton, position: MouseGridPosition) -> (r: Vec<u8>)
    ensures
        r@ == sgr_report((button_code_spec(button) + 32) as nat, position, 0x4d),
{
    sgr_mouse_bytes(button_code(button) + 32, position, 0x4d)
}

fn sgr_mouse_bytes(code: u16, position: MouseGridPosition, suffix: u8) -> (r: Vec<u8>)
    ensures
        r@ == sgr_report(code as nat, position, suffix),
{
    let mut out: Vec<u8> = Vec::new();
    out.push(0x1b);
    out.push(0x5b);
    out.push(0x3c);
    push_decimal_ascii(&mut out, code as u64);
    out.push(0x3b);
    push_decimal_ascii(&mut out, position.column.saturating_add(1) as u64);
    out.push(0x3b);
    push_decimal_ascii(&mut out, position.row.saturating_add(1) as u64);
    out.push(suffix);
    assert(out@ =~= sgr_report(code as nat, position, suffix));
    out
}

fn button_code(button: MouseButton) -> (r: u16)
    ensures
        r == button_code_spec(button),
{
    match button {
        MouseButton::Left => 0,
        MouseButton::Middle => 1,
        MouseButton::Right => 2,
    }
}

/// The first bytes of an SGR report: `ESC [ <` and the button code in
/// decimal, then `;`.
pub open spec fn report_starts_with(report: Seq<u8>, head: Seq<u8>) -> bool {
    head.len() <= report.len() && report.subrange(0, head.len() as int) == head
}

/// SGR reports name the buttons as xterm does: a press reports code 0 for
/// the left button, 1 for the middle one and 2 for the right one; a drag
/// adds the motion flag 32; a release reports code 0. The pointer position
/// follows, one-based.
pub proof fn law_sgr_button_codes(position: MouseGridPosition)
    ensures
        report_starts_with(
            sgr_report(button_code_spec(MouseButton::Left) as nat, position, 0x4d),
            seq![0x1bu8, 0x5bu8, 0x3cu8, 0x30u8, 0x3bu8],
        ),
        report_starts_with(
            sgr_report(button_code_spec(MouseButton::Middle) as nat, position, 0x4d),
            seq![0x1bu8, 0x5bu8, 0x3cu8, 0x31u8, 0x3bu8],
        ),
        report_starts_with(
            sgr_report(button_code_spec(MouseButton::Right) as nat, position, 0x4d),
            seq![0x1bu8, 0x5bu8, 0x3cu8, 0x32u8, 0x3bu8],
        ),
        report_starts_with(
            sgr_report((button_code_spec(MouseButton::Left) + 32) as nat, position, 0x4d),
            seq![0x1bu8, 0x5bu8, 0x3cu8, 0x33u8, 0x32u8, 0x3bu8],
        ),
        report_starts_with(
            sgr_report((button_code_spec(MouseButton::Middle) + 32) as nat, position, 0x4d),
            seq![0x1bu8, 0x5bu8, 0x3cu8, 0x33u8, 0x33u8, 0x3bu8],
        ),
        report_starts_with(
            sgr_report((button_code_spec(MouseButton::Right) + 32) as nat, position, 0x4d),
            seq![0x1bu8, 0x5bu8, 0x3cu8, 0x33u8, 0x34u8, 0x3bu8],
        ),
        report_starts_with(sgr_report(0, position, 0x6d), seq![0x1bu8, 0x5bu8, 0x3cu8, 0x30u8, 0x3bu8]),
{
    reveal_with_fuel(decimal_ascii, 3);
    assert(decimal_ascii(0) == seq![0x30u8]);
    assert(decimal_ascii(1) == seq![0x31u8]);
    assert(decimal_ascii(2) == seq![0x32u8]);
    assert(decimal_ascii(32) =~= seq![0x33u8, 0x32u8]);
    assert(decimal_ascii(33) =~= seq![0x33u8, 0x33u8]);
    assert(decimal_ascii(34) =~= seq![0x33u8, 0x34u8]);
    let p = position;
    assert(sgr_report(0, p, 0x4d).subrange(0, 5) =~= seq![0x1bu8, 0x5bu8, 0x3cu8, 0x30u8, 0x3bu8]);
    assert(sgr_report(1, p, 0x4d).subrange(0, 5) =~= seq![0x1bu8, 0x5bu8, 0x3cu8, 0x31u8, 0x3bu8]);
    assert(sgr_report(2, p, 0x4d).subrange(0, 5) =~= seq![0x1bu8, 0x5bu8, 0x3cu8, 0x32u8, 0x3bu8]);
    assert(sgr_report(32, p, 0x4d).subrange(0, 6) =~= seq![
        0x1bu8,
        0x5bu8,
        0x3cu8,
        0x33u8,
        0x32u8,
        0x3bu8,
    ]);
    assert(sgr_report(33, p, 0x4d).subrange(0, 6) =~= seq![
        0x1bu8,
        0x5bu8,
        0x3cu8,
        0x33u8,
        0x33u8,
        0x3bu8,
    ]);
    assert(sgr_report(34, p, 0x4d).subrange(0, 6) =~= seq![
        0x1bu8,
        0x5bu8,
        0x3cu8,
        0x33u8,
        0x34u8,
        0x3bu8,
    ]);
    assert(sgr_report(0, p, 0x6d).subrange(0, 5) =~= seq![0x1bu8, 0x5bu8, 0x3cu8, 0x30u8, 0x3bu8]);
}

} // verus!
