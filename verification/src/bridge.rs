use crate::input::{any_alt, key_char, key_unicode, Key, Modifiers};
use crate::interaction::{arrows_spec, push_arrows};
use crate::text::{contains_spec, contains_str, push_char, push_str};
use vstd::utf8::*;
use vstd::prelude::*;

verus! {

/// The text of some markup: the characters outside `<...>` tags.
pub open spec fn markup_text(markup: Seq<char>, in_tag: bool) -> Seq<char>
    decreases markup.len(),
{
    if markup.len() == 0 {
        Seq::empty()
    } else {
        let ch = markup[0];
        let inside = in_tag || ch == '<';
        (if inside {
            Seq::empty()
        } else {
            seq![ch]
        }) + markup_text(markup.drop_first(), inside && ch != '>')
    }
}

/// The caret drawn into the input line.
pub open spec fn caret_markup() -> Seq<char> {
    "<span foreground=\"#7dd3fc\">\u{258f}</span>"@
}

/// The input line with the caret: the text before the caret position, the
/// caret, then the text before the caret again and the text after it.
pub open spec fn insert_caret_spec(markup: Seq<char>, caret_pos: int) -> Seq<char> {
    let plain = markup_text(markup, false);
    let split = if caret_pos < plain.len() {
        caret_pos
    } else {
        plain.len() as int
    };
    plain.subrange(0, split) + caret_markup() + plain.subrange(0, split) + plain.subrange(
        split,
        plain.len() as int,
    )
}

pub fn insert_caret(markup: &str, caret_pos: usize) -> (r: String)
    ensures
        r@ == insert_caret_spec(markup@, caret_pos as int),
{
    let n = markup.unicode_len();
    let mut plain = String::new();
    let mut in_tag = false;
    let mut i: usize = 0;
    assert(markup@.subrange(0, n as int) =~= markup@);
    while i < n
        invariant
            n == markup@.len(),
            i <= n,
            plain@ + markup_text(markup@.subrange(i as int, n as int), in_tag) == markup_text(
                markup@,
                false,
            ),
        decreases n - i,
    {
        let ghost rest = markup@.subrange(i as int, n as int);
        let ghost before = plain@;
        let ghost was = in_tag;
        let ch = markup.get_char(i);
        if ch == '<' {
            in_tag = true;
        }
        if !in_tag {
            push_char(&mut plain, ch);
        }
        if ch == '>' {
            in_tag = false;
        }
        proof {
            assert(rest[0] == ch);
            assert(rest.drop_first() =~= markup@.subrange(i + 1, n as int));
            assert(plain@ + markup_text(markup@.subrange(i + 1, n as int), in_tag) =~= before
                + markup_text(rest, was));
        }
        i = i + 1;
    }
    assert(markup@.subrange(n as int, n as int) =~= Seq::<char>::empty());
    let p = plain.as_str();
    let len = p.unicode_len();
    let split = if caret_pos < len {
        caret_pos
    } else {
        len
    };
    let mut rendered = String::new();
    push_str(&mut rendered, p.substring_char(0, split));
    push_str(&mut rendered, "<span foreground=\"#7dd3fc\">\u{258f}</span>");
    push_str(&mut rendered, p.substring_char(0, split));
    push_str(&mut rendered, p.substring_char(split, len));
    rendered
}

/// Whether the regex crate compiles `pattern` (`Regex::new` returns `Ok`).
pub uninterp spec fn regex_compiles(pattern: Seq<char>) -> bool;

/// What `Regex::replace_all` returns for the compiled `pattern` over `text`
/// with the replacement string `replacement` (`$1` standing for the first
/// group).
pub uninterp spec fn regex_replaced(pattern: Seq<char>, text: Seq<char>, replacement: Seq<char>) -> Seq<
    char,
>;

/// What `Regex::replace_all` returns for the compiled `pattern` over `text`
/// when each match is replaced by `span_open_kept` of it.
pub uninterp spec fn regex_spans_kept(pattern: Seq<char>, text: Seq<char>) -> Seq<char>;

/// `regex::Regex::new(pattern)` followed by `replace_all(text,
/// replacement)`: none exactly when the pattern does not compile, else the
/// replaced text. Nothing more of the result is claimed than that it is
/// `regex_replaced` of the three arguments.
#[verifier::external_body]
fn regex_replace_all(pattern: &str, text: &str, replacement: &str) -> (r: Option<String>)
    ensures
        r is Some <==> regex_compiles(pattern@),
        r matches Some(out) ==> out@ == regex_replaced(pattern@, text@, replacement@),
{
    match regex::Regex::new(pattern) {
        Ok(re) => Some(re.replace_all(text, replacement).into_owned()),
        Err(_) => None,
    }
}

/// `regex::Regex::new(pattern)` followed by `replace_all` with a closure
/// that hands each whole match to `span_open_kept`: none exactly when the
/// pattern does not compile, else `regex_spans_kept` of the arguments.
#[verifier::external_body]
fn regex_replace_all_spans(pattern: &str, text: &str) -> (r: Option<String>)
    ensures
        r is Some <==> regex_compiles(pattern@),
        r matches Some(out) ==> out@ == regex_spans_kept(pattern@, text@),
{
    match regex::Regex::new(pattern) {
        Ok(re) => Some(
            re.replace_all(text, |caps: &regex::Captures| span_open_kept(&caps[0])).into_owned(),
        ),
        Err(_) => None,
    }
}

/// A span's opening tag as Pango takes it: kept when it sets a foreground,
/// else a bare `<span>`.
pub open spec fn span_open_kept_spec(raw: Seq<char>) -> Seq<char> {
    if contains_spec(raw, "foreground="@) {
        raw
    } else {
        "<span>"@
    }
}

pub fn span_open_kept(raw: &str) -> (r: String)
    ensures
        r@ == span_open_kept_spec(raw@),
{
    if contains_str(raw, "foreground=") {
        String::from_str(raw)
    } else {
        String::from_str("<span>")
    }
}

/// One rewriting step: the replaced text when the pattern compiles, else
/// the text as it was.
pub open spec fn rewrite_step(pattern: Seq<char>, text: Seq<char>, replacement: Seq<char>) -> Seq<char> {
    if regex_compiles(pattern) {
        regex_replaced(pattern, text, replacement)
    } else {
        text
    }
}

fn rewrite(pattern: &str, text: String, replacement: &str) -> (r: String)
    ensures
        r@ == rewrite_step(pattern@, text@, replacement@),
{
    match regex_replace_all(pattern, text.as_str(), replacement) {
        Some(out) => out,
        None => text,
    }
}

/// Rich-text HTML (as a widget exports it) rewritten as Pango markup:
/// `pre` and `div` tags dropped, `font color` and `style="color: ..."`
/// turned into `foreground` spans, spans reduced to their foreground, and
/// underline tags bared; tag names matched without regard to case.
pub open spec fn html_to_pango_spec(input: Seq<char>) -> Seq<char> {
    let t1 = rewrite_step("(?i)<pre[^>]*>"@, input, ""@);
    let t2 = rewrite_step("(?i)</pre>"@, t1, ""@);
    let t3 = rewrite_step("(?i)<div[^>]*>"@, t2, ""@);
    let t4 = rewrite_step("(?i)</div>"@, t3, ""@);
    let t5 = rewrite_step("(?i)<font\\s+color=\"([^\"]+)\">"@, t4, "<span foreground=\"$1\">"@);
    let t6 = rewrite_step("(?i)</font>"@, t5, "</span>"@);
    let t7 = rewrite_step(
        "(?i)<span\\s+style=\"[^\"]*color:\\s*([^;\"\\s]+)[^\"]*\">"@,
        t6,
        "<span foreground=\"$1\">"@,
    );
    let t8 = rewrite_step(
        "(?i)<span[^>]*foreground=\"([^\"]+)\"[^>]*>"@,
        t7,
        "<span foreground=\"$1\">"@,
    );
    let t9 = if regex_compiles("<span[^>]*>"@) {
        regex_spans_kept("<span[^>]*>"@, t8)
    } else {
        t8
    };
    rewrite_step("(?i)<u[^>]*>"@, t9, "<u>"@)
}

pub fn html_to_pango(input: &str) -> (r: String)
    ensures
        r@ == html_to_pango_spec(input@),
{
    let mut output = rewrite("(?i)<pre[^>]*>", String::from_str(input), "");
    output = rewrite("(?i)</pre>", output, "");
    output = rewrite("(?i)<div[^>]*>", output, "");
    output = rewrite("(?i)</div>", output, "");
    output = rewrite("(?i)<font\\s+color=\"([^\"]+)\">", output, "<span foreground=\"$1\">");
    output = rewrite("(?i)</font>", output, "</span>");
    output = rewrite(
        "(?i)<span\\s+style=\"[^\"]*color:\\s*([^;\"\\s]+)[^\"]*\">",
        output,
        "<span foreground=\"$1\">",
    );
    output = rewrite(
        "(?i)<span[^>]*foreground=\"([^\"]+)\"[^>]*>",
        output,
        "<span foreground=\"$1\">",
    );
    output = match regex_replace_all_spans("<span[^>]*>", output.as_str()) {
        Some(out) => out,
        None => output,
    };
    rewrite("(?i)<u[^>]*>", output, "<u>")
}

/// A character with ASCII letters in upper case.
pub open spec fn ascii_upper(c: char) -> char {
    if 'a' <= c && c <= 'z' {
        ((c as int) - 32) as char
    } else {
        c
    }
}

/// The control byte the input bridge sends with ctrl: the low five bits of
/// the character in upper case.
pub open spec fn bridge_control_byte(c: char) -> u8 {
    ((ascii_upper(c) as int) % 32) as u8
}

/// The bytes the input bridge sends for a key: fixed sequences for Return,
/// BackSpace, Tab, the arrows, Home, End and Delete; for a key that types a
/// character with ctrl, alt, meta or super held, its control byte (with
/// ctrl) or its UTF-8 bytes, behind an escape with alt, meta or super;
/// nothing for other keys, which reach the input as text.
pub open spec fn bridge_key_spec(key: Key, m: Modifiers) -> Option<Seq<u8>> {
    match key {
        Key::Return => Some(seq![0x0au8]),
        Key::BackSpace => Some(seq![0x7fu8]),
        Key::Tab => Some(seq![0x09u8]),
        Key::Left => Some(seq![0x1bu8, 0x5bu8, 0x44u8]),
        Key::Right => Some(seq![0x1bu8, 0x5bu8, 0x43u8]),
        Key::Up => Some(seq![0x1bu8, 0x5bu8, 0x41u8]),
        Key::Down => Some(seq![0x1bu8, 0x5bu8, 0x42u8]),
        Key::Home => Some(seq![0x1bu8, 0x5bu8, 0x48u8]),
        Key::End => Some(seq![0x1bu8, 0x5bu8, 0x46u8]),
        Key::Delete => Some(seq![0x1bu8, 0x5bu8, 0x33u8, 0x7eu8]),
        _ => match key_char(key) {
            Some(ch) => if m.control || any_alt(m) {
                let body = if m.control {
                    seq![bridge_control_byte(ch)]
                } else {
                    encode_utf8(seq![ch])
                };
                Some(
                    if any_alt(m) {
                        seq![0x1bu8] + body
                    } else {
                        body
                    },
                )
            } else {
                None
            },
            None => None,
        },
    }
}

pub fn bridge_key_bytes(key: Key, m: Modifiers) -> (r: Option<Vec<u8>>)
    ensures
        match r {
            Some(v) => bridge_key_spec(key, m) == Some(v@),
            None => bridge_key_spec(key, m) is None,
        },
{
    let fixed: Option<Vec<u8>> = match key {
        Key::Return => Some(vec![0x0au8]),
        Key::BackSpace => Some(vec![0x7fu8]),
        Key::Tab => Some(vec![0x09u8]),
        Key::Left => Some(vec![0x1bu8, 0x5bu8, 0x44u8]),
        Key::Right => Some(vec![0x1bu8, 0x5bu8, 0x43u8]),
        Key::Up => Some(vec![0x1bu8, 0x5bu8, 0x41u8]),
        Key::Down => Some(vec![0x1bu8, 0x5bu8, 0x42u8]),
        Key::Home => Some(vec![0x1bu8, 0x5bu8, 0x48u8]),
        Key::End => Some(vec![0x1bu8, 0x5bu8, 0x46u8]),
        Key::Delete => Some(vec![0x1bu8, 0x5bu8, 0x33u8, 0x7eu8]),
        _ => None,
    };
    match fixed {
        Some(bytes) => {
            assert(bridge_key_spec(key, m) == Some(bytes@));
            return Some(bytes);
        },
        None => {},
    }
    let ch = match key_unicode(key) {
        Some(c) => c,
        None => return None,
    };
    let alt = m.alt || m.meta || m.super_key;
    if !m.control && !alt {
        return None;
    }
    let mut out: Vec<u8> = Vec::new();
    if alt {
        out.push(0x1b);
    }
    let ghost prefix = out@;
    if m.control {
        let code: u32 = ch as u32;
        let upper: u32 = if 'a' <= ch && ch <= 'z' {
            code - 32
        } else {
            code
        };
        out.push((upper % 32) as u8);
        assert(out@ =~= prefix + seq![bridge_control_byte(ch)]);
    } else {
        let mut text = String::new();
        push_char(&mut text, ch);
        let bytes = text.as_str().as_bytes();
        let mut i: usize = 0;
        while i < bytes.len()
            invariant
                bytes@ == encode_utf8(text@),
                i <= bytes@.len(),
                out@ == prefix + bytes@.subrange(0, i as int),
            decreases bytes.len() - i,
        {
            out.push(bytes[i]);
            assert(bytes@.subrange(0, i + 1) =~= bytes@.subrange(0, i as int).push(bytes@[i as int]));
            i = i + 1;
        }
        assert(bytes@.subrange(0, bytes@.len() as int) =~= bytes@);
        assert(text@ =~= seq![ch]);
    }
    proof {
        if !alt {
            assert(prefix =~= Seq::<u8>::empty());
            assert(out@ =~= Seq::<u8>::empty() + out@);
        }
    }
    Some(out)
}

/// `target` held between zero and the line's length.
pub open spec fn clamped_target(target: i32, line_len: i32) -> int {
    if target < 0 {
        0
    } else if target > line_len {
        line_len as int
    } else {
        target as int
    }
}

/// Moving the bridge's cursor to a column of its line: the target held to
/// the line, then as many arrow keys as it lies away from the cursor; none
/// when the cursor is already there.
pub fn bridge_cursor_move_bytes(target: i32, current: i32, line_len: i32) -> (r: Option<Vec<u8>>)
    requires
        0 <= current,
        0 <= line_len,
    ensures
        match r {
            Some(v) => clamped_target(target, line_len) != current && v@ == arrows_spec(
                clamped_target(target, line_len) - current,
            ),
            None => clamped_target(target, line_len) == current,
        },
{
    let clamped: i32 = if target < 0 {
        0
    } else if target > line_len {
        line_len
    } else {
        target
    };
    if clamped == current {
        return None;
    }
    let mut out: Vec<u8> = Vec::new();
    if clamped > current {
        push_arrows(&mut out, false, (clamped - current) as u64);
    } else {
        push_arrows(&mut out, true, (current - clamped) as u64);
    }
    assert(out@ =~= arrows_spec(clamped - current));
    Some(out)
}

} // verus!
