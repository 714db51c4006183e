use chelotype::bridge::{
    bridge_cursor_move_bytes, bridge_key_bytes, html_to_pango, insert_caret, span_open_kept,
};
use chelotype::input::{Key, Modifiers};

const CARET: &str = "<span foreground=\"#7dd3fc\">\u{258f}</span>";

#[test]
fn caret_goes_into_the_plain_text_of_the_markup() {
    assert_eq!(
        insert_caret("<b>ab</b>cd", 2),
        format!("ab{CARET}abcd")
    );
    assert_eq!(insert_caret("xy", 9), format!("xy{CARET}xy"));
    assert_eq!(insert_caret("", 0), CARET.to_string());
}

#[test]
fn html_wrappers_are_dropped() {
    assert_eq!(html_to_pango("<PRE class=\"x\"><div>ls</div></pre>"), "ls");
}

#[test]
fn font_colors_become_foreground_spans() {
    assert_eq!(
        html_to_pango("<font color=\"#ff0000\">red</font>"),
        "<span foreground=\"#ff0000\">red</span>"
    );
}

#[test]
fn styled_spans_keep_only_their_color() {
    assert_eq!(
        html_to_pango("<span style=\"font-weight: bold; color: #00ff00;\">go</span>"),
        "<span foreground=\"#00ff00\">go</span>"
    );
    assert_eq!(
        html_to_pango("<span weight=\"bold\" foreground=\"#0000ff\" size=\"9\">b</span>"),
        "<span foreground=\"#0000ff\">b</span>"
    );
    assert_eq!(html_to_pango("<span class=\"x\">plain</span>"), "<span>plain</span>");
}

#[test]
fn underline_tags_lose_their_attributes() {
    assert_eq!(html_to_pango("<U style=\"x\">u</U>"), "<u>u</U>");
}

#[test]
fn span_tags_without_foreground_are_bared() {
    assert_eq!(span_open_kept("<span a=\"1\">"), "<span>");
    assert_eq!(span_open_kept("<span foreground=\"#111111\">"), "<span foreground=\"#111111\">");
}

fn mods(control: bool, alt: bool) -> Modifiers {
    Modifiers { control, shift: false, alt, meta: false, super_key: false }
}

#[test]
fn bridge_keys_send_fixed_sequences() {
    assert_eq!(bridge_key_bytes(Key::Return, mods(false, false)), Some(b"\n".to_vec()));
    assert_eq!(bridge_key_bytes(Key::BackSpace, mods(false, false)), Some(vec![0x7f]));
    assert_eq!(bridge_key_bytes(Key::Home, mods(true, false)), Some(b"\x1b[H".to_vec()));
    assert_eq!(bridge_key_bytes(Key::Delete, mods(false, false)), Some(b"\x1b[3~".to_vec()));
    assert_eq!(bridge_key_bytes(Key::PageUp, mods(false, false)), None);
}

#[test]
fn bridge_modified_characters_become_control_or_escaped_bytes() {
    assert_eq!(bridge_key_bytes(Key::Char('c'), mods(true, false)), Some(vec![0x03]));
    assert_eq!(bridge_key_bytes(Key::Char('C'), mods(true, false)), Some(vec![0x03]));
    assert_eq!(bridge_key_bytes(Key::Char('x'), mods(false, true)), Some(b"\x1bx".to_vec()));
    assert_eq!(bridge_key_bytes(Key::Char('d'), mods(true, true)), Some(vec![0x1b, 0x04]));
    assert_eq!(bridge_key_bytes(Key::Char('é'), mods(false, true)), Some("\u{1b}é".as_bytes().to_vec()));
    assert_eq!(bridge_key_bytes(Key::Char('a'), mods(false, false)), None);
}

#[test]
fn bridge_cursor_moves_by_arrows_within_the_line() {
    assert_eq!(bridge_cursor_move_bytes(5, 2, 10), Some(b"\x1b[C\x1b[C\x1b[C".to_vec()));
    assert_eq!(bridge_cursor_move_bytes(-4, 2, 10), Some(b"\x1b[D\x1b[D".to_vec()));
    assert_eq!(bridge_cursor_move_bytes(50, 9, 10), Some(b"\x1b[C".to_vec()));
    assert_eq!(bridge_cursor_move_bytes(3, 3, 10), None);
    assert_eq!(bridge_cursor_move_bytes(12, 10, 10), None);
}
