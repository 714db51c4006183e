use crate::containers::{pairs_view, strings_view, LaunchCommand};
use crate::text::{decimal, push_char, push_decimal, push_str, replace_all, replace_all_str, str_eq};
use vstd::prelude::*;
use vstd::string::*;
use vstd::utf8::*;

verus! {

/// The size of a terminal in character cells.
#[derive(Clone, Copy, Debug, PartialEq, Eq, Structural)]
pub struct ScreenSize {
    pub cols: u16,
    pub rows: u16,
}

/// Why a terminal size was refused.
#[derive(Clone, Copy, Debug, PartialEq, Eq, Structural)]
pub enum ScreenSizeError {
    /// A terminal needs at least one column and one row.
    ZeroSize,
}

impl Default for ScreenSize {
    fn default() -> (r: Self)
        ensures
            r.cols == 120 && r.rows == 36,
    {
        ScreenSize { cols: 120, rows: 36 }
    }
}

impl ScreenSize {
    /// A terminal size; refused when either side is zero.
    pub fn new(cols: u16, rows: u16) -> (r: Result<Self, ScreenSizeError>)
        ensures
            cols == 0 || rows == 0 ==> r == Err::<ScreenSize, ScreenSizeError>(ScreenSizeError::ZeroSize),
            cols != 0 && rows != 0 ==> r == Ok::<ScreenSize, ScreenSizeError>(ScreenSize { cols, rows }),
    {
        if cols == 0 || rows == 0 {
            return Err(ScreenSizeError::ZeroSize);
        }
        Ok(ScreenSize { cols, rows })
    }
}

/// Whether a byte is an ASCII letter or digit.
pub open spec fn ascii_alphanumeric(b: u8) -> bool {
    (0x30 <= b <= 0x39) || (0x41 <= b <= 0x5a) || (0x61 <= b <= 0x7a)
}

/// An uppercase hexadecimal digit.
pub open spec fn hex_upper(d: int) -> char {
    if d < 10 {
        ((48 + d) as u8) as char
    } else {
        ((55 + d) as u8) as char
    }
}

/// The fish variable-name encoding of some bytes: letters and digits as
/// they are, `_` doubled, and a run of other bytes as `_` followed by two
/// uppercase hex digits and `_` per byte.
pub open spec fn fish_encode_bytes(bytes: Seq<u8>, escaping: bool) -> Seq<char>
    decreases bytes.len(),
{
    if bytes.len() == 0 {
        Seq::empty()
    } else {
        let b = bytes[0];
        let rest = bytes.drop_first();
        if ascii_alphanumeric(b) {
            seq![b as char] + fish_encode_bytes(rest, false)
        } else if b == 0x5f {
            seq!['_', '_'] + fish_encode_bytes(rest, false)
        } else {
            (if escaping {
                Seq::empty()
            } else {
                seq!['_']
            }) + seq![hex_upper((b / 16) as int), hex_upper((b % 16) as int), '_'] + fish_encode_bytes(rest, true)
        }
    }
}

/// A string encoded as a fish variable name: `x`, then its UTF-8 bytes
/// encoded.
pub open spec fn fish_var_encode_spec(value: Seq<char>) -> Seq<char> {
    seq!['x'] + fish_encode_bytes(encode_utf8(value), false)
}

fn hex_digit_upper(d: u8) -> (c: char)
    requires
        d < 16,
    ensures
        c == hex_upper(d as int),
{
    if d < 10 {
        (48 + d) as char
    } else {
        (55 + d) as char
    }
}

/// Encodes a string as a fish variable name.
pub fn fish_var_encode(value: &str) -> (r: String)
    ensures
        r@ == fish_var_encode_spec(value@),
{
    let bytes = value.as_bytes();
    let mut encoded = String::new();
    push_char(&mut encoded, 'x');
    let mut escaping = false;
    let mut i: usize = 0;
    assert(bytes@.subrange(0, bytes@.len() as int) =~= bytes@);
    while i < bytes.len()
        invariant
            bytes@ == encode_utf8(value@),
            i <= bytes@.len(),
            encoded@ + fish_encode_bytes(bytes@.subrange(i as int, bytes@.len() as int), escaping)
                == fish_var_encode_spec(value@),
        decreases bytes.len() - i,
    {
        let ghost rest = bytes@.subrange(i as int, bytes@.len() as int);
        let ghost before = encoded@;
        let ghost was_escaping = escaping;
        proof {
            assert(rest.drop_first() =~= bytes@.subrange(i + 1, bytes@.len() as int));
            assert(rest[0] == bytes@[i as int]);
        }
        let byte = bytes[i];
        if (0x30 <= byte && byte <= 0x39) || (0x41 <= byte && byte <= 0x5a) || (0x61 <= byte
            && byte <= 0x7a) {
            escaping = false;
            push_char(&mut encoded, byte as char);
        } else if byte == 0x5f {
            escaping = false;
            push_char(&mut encoded, '_');
            push_char(&mut encoded, '_');
        } else {
            if !escaping {
                push_char(&mut encoded, '_');
                escaping = true;
            }
            push_char(&mut encoded, hex_digit_upper(byte / 16));
            push_char(&mut encoded, hex_digit_upper(byte % 16));
            push_char(&mut encoded, '_');
        }
        proof {
            let step = fish_encode_bytes(rest, was_escaping);
            assert(encoded@ + fish_encode_bytes(rest.drop_first(), escaping) =~= before + step);
        }
        i = i + 1;
    }
    proof {
        assert(bytes@.subrange(i as int, bytes@.len() as int) =~= Seq::<u8>::empty());
        assert(encoded@ =~= fish_var_encode_spec(value@));
    }
    encoded
}

/// The path of a file beside the input-bridge file: its path with a suffix.
pub fn input_bridge_sidecar_path(base: &str, suffix: &str) -> (r: String)
    ensures
        r@ == base@ + suffix@,
{
    let mut path = String::new();
    push_str(&mut path, base);
    push_str(&mut path, suffix);
    path
}

/// `n` zero digits.
pub open spec fn zeros(n: nat) -> Seq<char>
    decreases n,
{
    if n == 0 {
        Seq::empty()
    } else {
        zeros((n - 1) as nat).push('0')
    }
}

/// The decimal numeral of `n` left-padded with zeros to `width` digits
/// (`{:0width}`).
pub open spec fn padded_decimal(n: nat, width: nat) -> Seq<char> {
    if decimal(n).len() < width {
        zeros((width - decimal(n).len()) as nat) + decimal(n)
    } else {
        decimal(n)
    }
}

fn push_padded_decimal(out: &mut String, n: u64, width: usize)
    ensures
        final(out)@ == old(out)@ + padded_decimal(n as nat, width as nat),
{
    let mut digits = String::new();
    push_decimal(&mut digits, n);
    assert(digits@ =~= decimal(n as nat));
    let len = digits.unicode_len();
    if len < width {
        let missing = width - len;
        let ghost before = out@;
        let mut k: usize = 0;
        while k < missing
            invariant
                k <= missing,
                out@ == before + zeros(k as nat),
            decreases missing - k,
        {
            push_char(out, '0');
            k = k + 1;
        }
    }
    push_str(out, digits.as_str());
}

/// The file one input-bridge operation is written to: beside the bridge
/// file, named by its kind and its counter in twenty digits.
pub open spec fn operation_path_spec(base: Seq<char>, kind: Seq<char>, counter: nat) -> Seq<char> {
    base + "."@ + kind + "-"@ + padded_decimal(counter, 20)
}

pub fn input_bridge_operation_path(base: &str, kind: &str, counter: u64) -> (r: String)
    ensures
        r@ == operation_path_spec(base@, kind@, counter as nat),
{
    let mut suffix = String::from_str(".");
    push_str(&mut suffix, kind);
    push_str(&mut suffix, "-");
    push_padded_decimal(&mut suffix, counter, 20);
    input_bridge_sidecar_path(base, suffix.as_str())
}

/// What a replace operation tells the shell: the start and end of the
/// replaced range and the fish-encoded replacement, tab-separated.
pub open spec fn replace_payload_spec(start: nat, end: nat, replacement: Seq<char>) -> Seq<char> {
    decimal(start) + "\t"@ + decimal(end) + "\t"@ + fish_var_encode_spec(replacement)
}

pub fn replace_range_payload(start: usize, end: usize, replacement: &str) -> (r: String)
    ensures
        r@ == replace_payload_spec(start as nat, end as nat, replacement@),
{
    let mut payload = String::new();
    push_decimal(&mut payload, start as u64);
    push_str(&mut payload, "\t");
    push_decimal(&mut payload, end as u64);
    push_str(&mut payload, "\t");
    let encoded = fish_var_encode(replacement);
    push_str(&mut payload, encoded.as_str());
    payload
}

/// How far the view can scroll back: the current offset from the bottom and
/// the largest offset.
#[derive(Clone, Copy, Debug, PartialEq, Eq, Structural)]
pub struct DisplayLimits {
    pub offset: usize,
    pub max_offset: usize,
}

/// The limits of a scrollbar of `total` rows that shows `len` rows starting
/// `offset` rows from the top: both counted from the bottom, saturating at
/// zero.
pub open spec fn display_limits_spec(total: usize, len: usize, offset: usize) -> DisplayLimits {
    let max = if total >= len {
        (total - len) as usize
    } else {
        0usize
    };
    DisplayLimits {
        offset: if max >= offset {
            (max - offset) as usize
        } else {
            0usize
        },
        max_offset: max,
    }
}

pub fn display_limits_from_scrollbar(total: usize, len: usize, offset: usize) -> (r: DisplayLimits)
    ensures
        r == display_limits_spec(total, len, offset),
{
    let max_offset = total.saturating_sub(len);
    DisplayLimits { offset: max_offset.saturating_sub(offset), max_offset }
}

/// How many rows a scroll of `lines` can move: up to the top of the
/// scrollback for a positive count, down to the bottom for a negative one,
/// none for zero.
pub fn available_scroll_lines(lines: i32, limits: DisplayLimits) -> (r: usize)
    ensures
        r == (if lines > 0 {
            if limits.max_offset >= limits.offset {
                (limits.max_offset - limits.offset) as usize
            } else {
                0usize
            }
        } else if lines < 0 {
            limits.offset
        } else {
            0usize
        }),
{
    if lines > 0 {
        limits.max_offset.saturating_sub(limits.offset)
    } else if lines < 0 {
        limits.offset
    } else {
        0
    }
}

/// The quiet interactive zsh the headless runner drives: no prompt, no
/// history file, no startup files.
pub open spec fn headless_argv() -> Seq<Seq<char>> {
    seq!["/usr/bin/zsh"@, "-f"@, "-i"@]
}

pub open spec fn headless_env() -> Seq<(Seq<char>, Seq<char>)> {
    seq![
        ("TERM"@, "xterm-256color"@),
        ("PS1"@, ""@),
        ("PROMPT_COMMAND"@, ""@),
        ("HISTFILE"@, "/dev/null"@),
        ("ENV"@, ""@),
        ("BASH_ENV"@, ""@),
    ]
}

pub fn headless_shell_command() -> (r: LaunchCommand)
    ensures
        strings_view(r.argv@) == headless_argv(),
        pairs_view(r.env@) == headless_env(),
{
    let mut argv: Vec<String> = Vec::new();
    argv.push(String::from_str("/usr/bin/zsh"));
    argv.push(String::from_str("-f"));
    argv.push(String::from_str("-i"));
    let mut env: Vec<(String, String)> = Vec::new();
    env.push((String::from_str("TERM"), String::from_str("xterm-256color")));
    env.push((String::from_str("PS1"), String::from_str("")));
    env.push((String::from_str("PROMPT_COMMAND"), String::from_str("")));
    env.push((String::from_str("HISTFILE"), String::from_str("/dev/null")));
    env.push((String::from_str("ENV"), String::from_str("")));
    env.push((String::from_str("BASH_ENV"), String::from_str("")));
    assert(strings_view(argv@) =~= headless_argv());
    assert(pairs_view(env@) =~= headless_env());
    LaunchCommand { argv, env }
}

/// Puts the cursor-target file's path in place of its placeholder in every
/// argument.
pub fn inject_input_cursor_target_file(argv: &mut Vec<String>, placeholder: &str, path: &str)
    requires
        placeholder@.len() > 0,
    ensures
        strings_view(final(argv)@) == strings_view(old(argv)@).map_values(
            |a: Seq<char>| replace_all(a, placeholder@, path@),
        ),
{
    let ghost given = strings_view(argv@);
    let n = argv.len();
    let mut out: Vec<String> = Vec::new();
    let mut i: usize = 0;
    while i < n
        invariant
            n == argv@.len(),
            given == strings_view(argv@),
            placeholder@.len() > 0,
            i <= n,
            strings_view(out@) == given.subrange(0, i as int).map_values(
                |a: Seq<char>| replace_all(a, placeholder@, path@),
            ),
        decreases n - i,
    {
        let replaced = replace_all_str(argv[i].as_str(), placeholder, path);
        let ghost before = strings_view(out@);
        out.push(replaced);
        proof {
            assert(given[i as int] == argv@[i as int]@);
            assert(strings_view(out@) =~= before.push(replaced@));
        }
        assert(strings_view(out@) =~= given.subrange(0, i + 1).map_values(
            |a: Seq<char>| replace_all(a, placeholder@, path@),
        ));
        i = i + 1;
    }
    assert(given.subrange(0, n as int) =~= given);
    *argv = out;
}

/// The value a command's environment gives `key`: the last setting of it.
pub open spec fn env_value(env: Seq<(Seq<char>, Seq<char>)>, key: Seq<char>) -> Option<Seq<char>>
    decreases env.len(),
{
    if env.len() == 0 {
        None
    } else if env.last().0 == key {
        Some(env.last().1)
    } else {
        env_value(env.drop_last(), key)
    }
}

/// Whether a command asks for the input-cursor bridge: its environment sets
/// the bridge variable to the bridge's value.
pub fn wants_input_cursor_target(env: &Vec<(String, String)>, bridge_env: &str, bridge_value: &str) -> (r:
    bool)
    ensures
        r == (env_value(pairs_view(env@), bridge_env@) == Some(bridge_value@)),
{
    let mut i: usize = env.len();
    assert(pairs_view(env@).subrange(0, i as int) =~= pairs_view(env@));
    while i > 0
        invariant
            i <= env@.len(),
            env_value(pairs_view(env@), bridge_env@) == env_value(
                pairs_view(env@).subrange(0, i as int),
                bridge_env@,
            ),
        decreases i,
    {
        let ghost prefix = pairs_view(env@).subrange(0, i as int);
        assert(prefix.last() == (env@[i - 1].0@, env@[i - 1].1@));
        if str_eq(env[i - 1].0.as_str(), bridge_env) {
            return str_eq(env[i - 1].1.as_str(), bridge_value);
        }
        assert(prefix.drop_last() =~= pairs_view(env@).subrange(0, i - 1));
        i = i - 1;
    }
    assert(pairs_view(env@).subrange(0, 0) =~= Seq::<(Seq<char>, Seq<char>)>::empty());
    false
}

/// What every shell spawned in a terminal gets in its environment: the
/// terminal type, true-color support and the terminal's size.
pub open spec fn spawn_env_spec(size: ScreenSize) -> Seq<(Seq<char>, Seq<char>)> {
    seq![
        ("TERM"@, "xterm-256color"@),
        ("COLORTERM"@, "truecolor"@),
        ("COLUMNS"@, decimal(size.cols as nat)),
        ("LINES"@, decimal(size.rows as nat)),
    ]
}

pub fn spawn_environment(size: ScreenSize) -> (r: Vec<(String, String)>)
    ensures
        pairs_view(r@) == spawn_env_spec(size),
{
    let mut columns = String::new();
    push_decimal(&mut columns, size.cols as u64);
    let mut lines = String::new();
    push_decimal(&mut lines, size.rows as u64);
    let mut env: Vec<(String, String)> = Vec::new();
    env.push((String::from_str("TERM"), String::from_str("xterm-256color")));
    env.push((String::from_str("COLORTERM"), String::from_str("truecolor")));
    env.push((String::from_str("COLUMNS"), columns));
    env.push((String::from_str("LINES"), lines));
    assert(pairs_view(env@) =~= spawn_env_spec(size));
    env
}

} // verus!
