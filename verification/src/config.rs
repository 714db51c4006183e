use crate::text::{
    char_is_whitespace, first_index_of, is_whitespace_char, lemma_first_index_of,
    parse_unsigned, parse_unsigned_spec, push_char, push_str, split_once, split_once_spec,
    str_eq, substring,
};
use vstd::prelude::*;

verus! {

/// How the text cursor moves between cells.
#[derive(Clone, Copy, Debug, PartialEq, Eq, Structural)]
pub enum CursorStyle {
    Steady,
    Smooth,
    Smear,
    Neovide,
}

/// How the text cursor is drawn.
#[derive(Clone, Copy, Debug, PartialEq, Eq, Structural)]
pub enum CursorShape {
    Bar,
    Block,
}

pub const DEFAULT_CURSOR_ANIMATION_DURATION_MS: u32 = 150;

pub const DEFAULT_SMOOTH_SCROLLING: bool = true;

/// The position of a cursor style in the settings list.
pub open spec fn style_index(style: CursorStyle) -> u32 {
    match style {
        CursorStyle::Steady => 0,
        CursorStyle::Smooth => 1,
        CursorStyle::Smear => 2,
        CursorStyle::Neovide => 3,
    }
}

/// The position of a cursor shape in the settings list.
pub open spec fn shape_index(shape: CursorShape) -> u32 {
    match shape {
        CursorShape::Bar => 0,
        CursorShape::Block => 1,
    }
}

impl CursorStyle {
    /// The name shown in the settings.
    pub fn label(self) -> (r: &'static str)
        ensures
            r@ == (match self {
                CursorStyle::Steady => "Steady"@,
                CursorStyle::Smooth => "Smooth"@,
                CursorStyle::Smear => "Smear"@,
                CursorStyle::Neovide => "Neovide"@,
            }),
    {
        match self {
            CursorStyle::Steady => "Steady",
            CursorStyle::Smooth => "Smooth",
            CursorStyle::Smear => "Smear",
            CursorStyle::Neovide => "Neovide",
        }
    }

    /// The value stored in the configuration file.
    pub fn config_value(self) -> (r: &'static str)
        ensures
            r@ == (match self {
                CursorStyle::Steady => "steady"@,
                CursorStyle::Smooth => "smooth"@,
                CursorStyle::Smear => "smear"@,
                CursorStyle::Neovide => "neovide"@,
            }),
    {
        match self {
            CursorStyle::Steady => "steady",
            CursorStyle::Smooth => "smooth",
            CursorStyle::Smear => "smear",
            CursorStyle::Neovide => "neovide",
        }
    }

    pub fn selected_index(self) -> (r: u32)
        ensures
            r == style_index(self),
    {
        match self {
            CursorStyle::Steady => 0,
            CursorStyle::Smooth => 1,
            CursorStyle::Smear => 2,
            CursorStyle::Neovide => 3,
        }
    }

    /// The style at a settings position; past the list, the last style.
    pub fn from_selected_index(index: u32) -> (r: Self)
        ensures
            index < 4 ==> style_index(r) == index,
            index >= 4 ==> r == CursorStyle::Neovide,
    {
        if index == 0 {
            CursorStyle::Steady
        } else if index == 1 {
            CursorStyle::Smooth
        } else if index == 2 {
            CursorStyle::Smear
        } else {
            CursorStyle::Neovide
        }
    }

    /// The style a configuration value names: `steady` (or the older
    /// `off`), `smooth` (or `on`), `smear`, `neovide`.
    pub open spec fn from_config_spec(value: Seq<char>) -> Option<CursorStyle> {
        if value == "off"@ || value == "steady"@ {
            Some(CursorStyle::Steady)
        } else if value == "on"@ || value == "smooth"@ {
            Some(CursorStyle::Smooth)
        } else if value == "smear"@ {
            Some(CursorStyle::Smear)
        } else if value == "neovide"@ {
            Some(CursorStyle::Neovide)
        } else {
            None
        }
    }

    pub fn from_config_value(value: &str) -> (r: Option<Self>)
        ensures
            r == Self::from_config_spec(value@),
    {
        if str_eq(value, "off") || str_eq(value, "steady") {
            Some(CursorStyle::Steady)
        } else if str_eq(value, "on") || str_eq(value, "smooth") {
            Some(CursorStyle::Smooth)
        } else if str_eq(value, "smear") {
            Some(CursorStyle::Smear)
        } else if str_eq(value, "neovide") {
            Some(CursorStyle::Neovide)
        } else {
            None
        }
    }
}

impl CursorShape {
    /// The name shown in the settings.
    pub fn label(self) -> (r: &'static str)
        ensures
            r@ == (match self {
                CursorShape::Bar => "Bar"@,
                CursorShape::Block => "Block"@,
            }),
    {
        match self {
            CursorShape::Bar => "Bar",
            CursorShape::Block => "Block",
        }
    }

    /// The value stored in the configuration file.
    pub fn config_value(self) -> (r: &'static str)
        ensures
            r@ == (match self {
                CursorShape::Bar => "bar"@,
                CursorShape::Block => "block"@,
            }),
    {
        match self {
            CursorShape::Bar => "bar",
            CursorShape::Block => "block",
        }
    }

    pub fn selected_index(self) -> (r: u32)
        ensures
            r == shape_index(self),
    {
        match self {
            CursorShape::Bar => 0,
            CursorShape::Block => 1,
        }
    }

    /// The shape at a settings position; past the list, the bar.
    pub fn from_selected_index(index: u32) -> (r: Self)
        ensures
            index < 2 ==> shape_index(r) == index,
            index >= 2 ==> r == CursorShape::Bar,
    {
        if index == 1 {
            CursorShape::Block
        } else {
            CursorShape::Bar
        }
    }

    pub open spec fn from_config_spec(value: Seq<char>) -> Option<CursorShape> {
        if value == "bar"@ {
            Some(CursorShape::Bar)
        } else if value == "block"@ {
            Some(CursorShape::Block)
        } else {
            None
        }
    }

    pub fn from_config_value(value: &str) -> (r: Option<Self>)
        ensures
            r == Self::from_config_spec(value@),
    {
        if str_eq(value, "bar") {
            Some(CursorShape::Bar)
        } else if str_eq(value, "block") {
            Some(CursorShape::Block)
        } else {
            None
        }
    }
}

/// A line without the carriage return that ended it.
pub open spec fn strip_cr(line: Seq<char>) -> Seq<char> {
    if line.len() > 0 && line.last() == '\r' {
        line.drop_last()
    } else {
        line
    }
}

/// `str::lines`: the text split at each line feed, a carriage return right
/// before the line feed dropped, and no empty line after a final line feed.
pub open spec fn lines_of(s: Seq<char>) -> Seq<Seq<char>>
    decreases s.len(),
{
    if s.len() == 0 {
        Seq::empty()
    } else {
        match first_index_of(s, '\n') {
            Some(i) => {
                proof {
                    lemma_first_index_of(s, '\n');
                }
                seq![strip_cr(s.subrange(0, i))] + lines_of(s.subrange(i + 1, s.len() as int))
            },
            None => seq![s],
        }
    }
}

/// The `key=value` entries of some lines, split at the first `=`; lines
/// without one are left out.
pub open spec fn entries_of(lines: Seq<Seq<char>>) -> Seq<(Seq<char>, Seq<char>)>
    decreases lines.len(),
{
    if lines.len() == 0 {
        Seq::empty()
    } else {
        let rest = entries_of(lines.drop_first());
        match split_once_spec(lines[0], '=') {
            Some(entry) => seq![entry] + rest,
            None => rest,
        }
    }
}

/// The entries of a configuration file.
pub open spec fn config_entries(content: Seq<char>) -> Seq<(Seq<char>, Seq<char>)> {
    entries_of(lines_of(content))
}

/// Drops leading white space.
pub open spec fn trim_front(s: Seq<char>) -> Seq<char>
    decreases s.len(),
{
    if s.len() > 0 && is_whitespace_char(s[0]) {
        trim_front(s.drop_first())
    } else {
        s
    }
}

/// Drops trailing white space.
pub open spec fn trim_back(s: Seq<char>) -> Seq<char>
    decreases s.len(),
{
    if s.len() > 0 && is_whitespace_char(s.last()) {
        trim_back(s.drop_last())
    } else {
        s
    }
}

/// `str::trim`.
pub open spec fn trim_spec(s: Seq<char>) -> Seq<char> {
    trim_back(trim_front(s))
}

/// The value of the first entry with this key, trimmed.
pub open spec fn lookup_entries(entries: Seq<(Seq<char>, Seq<char>)>, key: Seq<char>) -> Option<Seq<char>>
    decreases entries.len(),
{
    if entries.len() == 0 {
        None
    } else if entries[0].0 == key {
        Some(trim_spec(entries[0].1))
    } else {
        lookup_entries(entries.drop_first(), key)
    }
}

/// The value a configuration file gives a key: that of its first line
/// `key=value`, trimmed.
pub open spec fn read_value_spec(content: Seq<char>, key: Seq<char>) -> Option<Seq<char>> {
    lookup_entries(config_entries(content), key)
}

/// The entries with the first entry of this key set to the value, or the
/// entry added at the end.
pub open spec fn update_entries(entries: Seq<(Seq<char>, Seq<char>)>, key: Seq<char>, value: Seq<char>) -> Seq<
    (Seq<char>, Seq<char>),
>
    decreases entries.len(),
{
    if entries.len() == 0 {
        seq![(key, value)]
    } else if entries[0].0 == key {
        seq![(key, value)] + entries.drop_first()
    } else {
        seq![entries[0]] + update_entries(entries.drop_first(), key, value)
    }
}

/// The file text of some entries: one `key=value` line each.
pub open spec fn serialize(entries: Seq<(Seq<char>, Seq<char>)>) -> Seq<char>
    decreases entries.len(),
{
    if entries.len() == 0 {
        Seq::empty()
    } else {
        entries[0].0 + seq!['='] + entries[0].1 + seq!['\n'] + serialize(entries.drop_first())
    }
}

/// A configuration file with one key set: its entries kept in order, other
/// lines dropped, the key's first entry replaced or a new entry added.
pub open spec fn write_value_spec(content: Seq<char>, key: Seq<char>, value: Seq<char>) -> Seq<char> {
    serialize(update_entries(config_entries(content), key, value))
}

/// `str::trim`: the string without leading and trailing white space.
pub fn trim(s: &str) -> (r: String)
    ensures
        r@ == trim_spec(s@),
{
    let n = s.unicode_len();
    let mut a: usize = 0;
    assert(s@.subrange(0, n as int) =~= s@);
    while a < n && char_is_whitespace(s.get_char(a))
        invariant
            n == s@.len(),
            a <= n,
            trim_front(s@) == trim_front(s@.subrange(a as int, n as int)),
        decreases n - a,
    {
        proof {
            assert(s@.subrange(a as int, n as int).drop_first() =~= s@.subrange(a + 1, n as int));
        }
        a = a + 1;
    }
    proof {
        assert(trim_front(s@.subrange(a as int, n as int)) == s@.subrange(a as int, n as int));
    }
    let mut b: usize = n;
    while b > a && char_is_whitespace(s.get_char(b - 1))
        invariant
            n == s@.len(),
            a <= b <= n,
            trim_spec(s@) == trim_back(s@.subrange(a as int, b as int)),
        decreases b,
    {
        proof {
            assert(s@.subrange(a as int, b as int).drop_last() =~= s@.subrange(a as int, b - 1));
        }
        b = b - 1;
    }
    substring(s, a, b)
}

/// The position of the next line feed at or after `from`, else the end.
fn next_line_feed(s: &str, from: usize) -> (r: usize)
    requires
        from <= s@.len(),
    ensures
        from <= r <= s@.len(),
        forall|j: int| from <= j < r ==> s@[j] != '\n',
        r < s@.len() ==> s@[r as int] == '\n',
{
    let n = s.unicode_len();
    let mut i = from;
    while i < n && s.get_char(i) != '\n'
        invariant
            n == s@.len(),
            from <= i <= n,
            forall|j: int| from <= j < i ==> s@[j] != '\n',
        decreases n - i,
    {
        i = i + 1;
    }
    i
}

proof fn lemma_first_index_found(s: Seq<char>, c: char, i: int)
    requires
        0 <= i < s.len(),
        s[i] == c,
        forall|j: int| 0 <= j < i ==> s[j] != c,
    ensures
        first_index_of(s, c) == Some(i),
{
    lemma_first_index_of(s, c);
    match first_index_of(s, c) {
        Some(k) => {
            if k < i {
                assert(s[k] != c);
            }
            if k > i {
                assert(s[i] != c);
            }
        },
        None => {
            assert(s[i] != c);
        },
    }
}

proof fn lemma_first_index_absent(s: Seq<char>, c: char)
    requires
        forall|j: int| 0 <= j < s.len() ==> s[j] != c,
    ensures
        first_index_of(s, c) is None,
{
    lemma_first_index_of(s, c);
    if let Some(k) = first_index_of(s, c) {
        assert(s[k] != c);
    }
}

/// The `key=value` entries of a configuration file, in order.
fn entries_of_text(content: &str) -> (r: Vec<(String, String)>)
    ensures
        r@.map_values(|e: (String, String)| (e.0@, e.1@)) == config_entries(content@),
{
    let n = content.unicode_len();
    let mut entries: Vec<(String, String)> = Vec::new();
    let mut i: usize = 0;
    assert(content@.subrange(0, n as int) =~= content@);
    assert(entries@.map_values(|e: (String, String)| (e.0@, e.1@)) =~= Seq::<(Seq<char>, Seq<char>)>::empty());
    while i < n
        invariant
            n == content@.len(),
            i <= n,
            entries@.map_values(|e: (String, String)| (e.0@, e.1@)) + entries_of(
                lines_of(content@.subrange(i as int, n as int)),
            ) == config_entries(content@),
        decreases n - i,
    {
        let ghost rest = content@.subrange(i as int, n as int);
        let j = next_line_feed(content, i);
        let mut end = j;
        if j < n && end > i && content.get_char(end - 1) == '\r' {
            end = end - 1;
        }
        let text = substring(content, i, end);
        proof {
            if j < n {
                lemma_first_index_found(rest, '\n', j - i);
                assert(strip_cr(rest.subrange(0, j - i)) =~= text@);
                assert(rest.subrange(j - i + 1, rest.len() as int) =~= content@.subrange(
                    j + 1,
                    n as int,
                ));
            } else {
                lemma_first_index_absent(rest, '\n');
                assert(text@ =~= rest);
            }
        }
        let ghost line_list = lines_of(rest);
        proof {
            assert(line_list[0] == text@);
            assert(line_list.drop_first() =~= lines_of(
                content@.subrange(if j < n { j + 1 } else { n as int }, n as int),
            )) by {
                if j >= n {
                    assert(content@.subrange(n as int, n as int) =~= Seq::<char>::empty());
                }
            }
        }
        let ghost before = entries@.map_values(|e: (String, String)| (e.0@, e.1@));
        match split_once(text.as_str(), '=') {
            Some(entry) => {
                entries.push(entry);
                proof {
                    assert(entries@.map_values(|e: (String, String)| (e.0@, e.1@)) =~= before.push(
                        (entry.0@, entry.1@),
                    ));
                }
            },
            None => {},
        }
        i = if j < n {
            j + 1
        } else {
            n
        };
        proof {
            assert(entries@.map_values(|e: (String, String)| (e.0@, e.1@)) + entries_of(
                lines_of(content@.subrange(i as int, n as int)),
            ) =~= config_entries(content@));
        }
    }
    proof {
        assert(content@.subrange(n as int, n as int) =~= Seq::<char>::empty());
        assert(entries@.map_values(|e: (String, String)| (e.0@, e.1@)) =~= config_entries(
            content@,
        ));
    }
    entries
}

/// The value a configuration file gives a key: that of its first line
/// `key=value`, trimmed.
pub fn read_value(content: &str, key: &str) -> (r: Option<String>)
    ensures
        match r {
            Some(v) => read_value_spec(content@, key@) == Some(v@),
            None => read_value_spec(content@, key@) is None,
        },
{
    let entries = entries_of_text(content);
    let ghost all = entries@.map_values(|e: (String, String)| (e.0@, e.1@));
    let mut i: usize = 0;
    assert(all.subrange(0, all.len() as int) =~= all);
    while i < entries.len()
        invariant
            all == entries@.map_values(|e: (String, String)| (e.0@, e.1@)),
            all == config_entries(content@),
            i <= entries@.len(),
            lookup_entries(all, key@) == lookup_entries(all.subrange(i as int, all.len() as int), key@),
        decreases entries.len() - i,
    {
        proof {
            assert(all.subrange(i as int, all.len() as int).drop_first() =~= all.subrange(
                i + 1,
                all.len() as int,
            ));
        }
        if str_eq(entries[i].0.as_str(), key) {
            return Some(trim(entries[i].1.as_str()));
        }
        i = i + 1;
    }
    None
}

/// A configuration file with one key set to a value: its other entries kept
/// in order, lines without `=` dropped, the key's first entry replaced or a
/// new entry added at the end.
pub fn write_value(content: &str, key: &str, value: &str) -> (r: String)
    ensures
        r@ == write_value_spec(content@, key@, value@),
{
    let entries = entries_of_text(content);
    let ghost all = entries@.map_values(|e: (String, String)| (e.0@, e.1@));
    let ghost updated = update_entries(all, key@, value@);
    let mut out = String::new();
    let mut i: usize = 0;
    let mut replaced = false;
    assert(all.subrange(0, all.len() as int) =~= all);
    assert(out@ + serialize(updated) =~= serialize(updated));
    while i < entries.len()
        invariant
            all == entries@.map_values(|e: (String, String)| (e.0@, e.1@)),
            all == config_entries(content@),
            i <= entries@.len(),
            updated == update_entries(all, key@, value@),
            out@ + serialize(
                if replaced {
                    all.subrange(i as int, all.len() as int)
                } else {
                    update_entries(all.subrange(i as int, all.len() as int), key@, value@)
                },
            ) == serialize(updated),
        decreases entries.len() - i,
    {
        let ghost tail = all.subrange(i as int, all.len() as int);
        let ghost rest = if replaced {
            tail
        } else {
            update_entries(tail, key@, value@)
        };
        let ghost before = out@;
        proof {
            assert(tail.drop_first() =~= all.subrange(i + 1, all.len() as int));
            assert(tail[0] == all[i as int]);
        }
        let entry_key = entries[i].0.as_str();
        push_str(&mut out, entry_key);
        push_char(&mut out, '=');
        if !replaced && str_eq(entry_key, key) {
            push_str(&mut out, value);
            replaced = true;
            proof {
                assert(rest =~= seq![(key@, value@)] + tail.drop_first());
                assert(rest.drop_first() =~= tail.drop_first());
            }
        } else {
            push_str(&mut out, entries[i].1.as_str());
            proof {
                if !replaced {
                    assert(rest.drop_first() =~= update_entries(tail.drop_first(), key@, value@));
                } else {
                    assert(rest.drop_first() =~= tail.drop_first());
                }
            }
        }
        push_char(&mut out, '\n');
        proof {
            assert(out@ =~= before + (rest[0].0 + seq!['='] + rest[0].1 + seq!['\n']));
            assert(out@ + serialize(rest.drop_first()) =~= before + serialize(rest));
        }
        i = i + 1;
    }
    let ghost tail = all.subrange(i as int, all.len() as int);
    proof {
        assert(tail =~= Seq::<(Seq<char>, Seq<char>)>::empty());
    }
    if !replaced {
        let ghost before = out@;
        push_str(&mut out, key);
        push_char(&mut out, '=');
        push_str(&mut out, value);
        push_char(&mut out, '\n');
        proof {
            let last = update_entries(tail, key@, value@);
            assert(last =~= seq![(key@, value@)]);
            assert(serialize(last.drop_first()) =~= Seq::<char>::empty());
            assert(out@ =~= before + serialize(last));
        }
    } else {
        assert(out@ =~= serialize(updated));
    }
    out
}

/// Whether a sequence of characters holds no `c`.
pub open spec fn free_of(s: Seq<char>, c: char) -> bool {
    forall|i: int| 0 <= i < s.len() ==> s[i] != c
}

/// Entries that a configuration file can hold as lines: keys without `=`
/// or line feed, values without line feed.
pub open spec fn entries_well_formed(entries: Seq<(Seq<char>, Seq<char>)>) -> bool {
    forall|i: int|
        0 <= i < entries.len() ==> free_of((#[trigger] entries[i]).0, '=') && free_of(
            entries[i].0,
            '\n',
        ) && free_of(entries[i].1, '\n')
}

/// The entries with one trailing carriage return dropped from each value.
pub open spec fn strip_values(entries: Seq<(Seq<char>, Seq<char>)>) -> Seq<(Seq<char>, Seq<char>)> {
    entries.map_values(|e: (Seq<char>, Seq<char>)| (e.0, strip_cr(e.1)))
}

proof fn lemma_lines_free_of_newline(s: Seq<char>)
    ensures
        forall|i: int| 0 <= i < lines_of(s).len() ==> free_of(#[trigger] lines_of(s)[i], '\n'),
    decreases s.len(),
{
    if s.len() > 0 {
        lemma_first_index_of(s, '\n');
        match first_index_of(s, '\n') {
            Some(i) => {
                lemma_lines_free_of_newline(s.subrange(i + 1, s.len() as int));
                let rest = lines_of(s.subrange(i + 1, s.len() as int));
                let first = strip_cr(s.subrange(0, i));
                assert(free_of(first, '\n'));
                assert forall|k: int| 0 <= k < lines_of(s).len() implies free_of(
                    #[trigger] lines_of(s)[k],
                    '\n',
                ) by {
                    if k > 0 {
                        assert(lines_of(s)[k] == rest[k - 1]);
                    }
                }
            },
            None => {},
        }
    }
}

proof fn lemma_entries_well_formed(lines: Seq<Seq<char>>)
    requires
        forall|i: int| 0 <= i < lines.len() ==> free_of(#[trigger] lines[i], '\n'),
    ensures
        entries_well_formed(entries_of(lines)),
    decreases lines.len(),
{
    if lines.len() > 0 {
        assert forall|i: int| 0 <= i < lines.drop_first().len() implies free_of(
            #[trigger] lines.drop_first()[i],
            '\n',
        ) by {
            assert(lines.drop_first()[i] == lines[i + 1]);
        }
        lemma_entries_well_formed(lines.drop_first());
        let rest = entries_of(lines.drop_first());
        lemma_first_index_of(lines[0], '=');
        match split_once_spec(lines[0], '=') {
            Some(e) => {
                let all = seq![e] + rest;
                assert forall|i: int| 0 <= i < all.len() implies free_of((#[trigger] all[i]).0, '=')
                    && free_of(all[i].0, '\n') && free_of(all[i].1, '\n') by {
                    if i > 0 {
                        assert(all[i] == rest[i - 1]);
                    }
                }
            },
            None => {},
        }
    }
}

proof fn lemma_config_entries_well_formed(content: Seq<char>)
    ensures
        entries_well_formed(config_entries(content)),
{
    lemma_lines_free_of_newline(content);
    lemma_entries_well_formed(lines_of(content));
}

proof fn lemma_split_line(k: Seq<char>, v: Seq<char>)
    requires
        free_of(k, '='),
    ensures
        split_once_spec(k + seq!['='] + v, '=') == Some((k, v)),
{
    let line = k + seq!['='] + v;
    lemma_first_index_found(line, '=', k.len() as int);
    assert(line.subrange(0, k.len() as int) =~= k);
    assert(line.subrange(k.len() as int + 1, line.len() as int) =~= v);
}

/// Reading back the entries written out gives them again, each value less
/// a trailing carriage return.
proof fn lemma_round_trip(entries: Seq<(Seq<char>, Seq<char>)>)
    requires
        entries_well_formed(entries),
    ensures
        config_entries(serialize(entries)) == strip_values(entries),
    decreases entries.len(),
{
    if entries.len() == 0 {
        assert(strip_values(entries) =~= Seq::<(Seq<char>, Seq<char>)>::empty());
    } else {
        let k = entries[0].0;
        let v = entries[0].1;
        let line = k + seq!['='] + v;
        let rest_text = serialize(entries.drop_first());
        let text = serialize(entries);
        assert(text == line + seq!['\n'] + rest_text);
        assert forall|i: int| 0 <= i < entries.drop_first().len() implies free_of(
            (#[trigger] entries.drop_first()[i]).0,
            '=',
        ) && free_of(entries.drop_first()[i].0, '\n') && free_of(entries.drop_first()[i].1, '\n') by {
            assert(entries.drop_first()[i] == entries[i + 1]);
        }
        lemma_round_trip(entries.drop_first());
        assert forall|j: int| 0 <= j < line.len() implies text[j] != '\n' by {
            assert(text[j] == line[j]);
            if j < k.len() {
                assert(line[j] == k[j]);
            } else if j > k.len() {
                assert(line[j] == v[j - k.len() - 1]);
            }
        }
        assert(text[line.len() as int] == '\n');
        lemma_first_index_found(text, '\n', line.len() as int);
        assert(text.subrange(0, line.len() as int) =~= line);
        assert(text.subrange(line.len() as int + 1, text.len() as int) =~= rest_text);
        let stripped = strip_cr(line);
        assert(stripped =~= k + seq!['='] + strip_cr(v));
        lemma_split_line(k, strip_cr(v));
        let lines = lines_of(text);
        assert(lines == seq![stripped] + lines_of(rest_text));
        assert(lines.drop_first() =~= lines_of(rest_text));
        assert(config_entries(text) == seq![(k, strip_cr(v))] + config_entries(rest_text));
        assert(strip_values(entries) =~= seq![(k, strip_cr(v))] + strip_values(entries.drop_first()));
    }
}

proof fn lemma_trim_strip_cr(v: Seq<char>)
    ensures
        trim_spec(strip_cr(v)) == trim_spec(v),
    decreases v.len(),
{
    if v.len() > 0 && v.last() == '\r' {
        assert(is_whitespace_char('\r'));
        if v.len() == 1 {
            assert(trim_front(v) == trim_front(v.drop_first()));
            assert(v.drop_first() =~= Seq::<char>::empty());
            assert(v.drop_last() =~= Seq::<char>::empty());
        } else if is_whitespace_char(v[0]) {
            lemma_trim_strip_cr(v.drop_first());
            assert(v.drop_first().last() == '\r');
            assert(v.drop_first().drop_last() =~= v.drop_last().drop_first());
            assert(v.drop_last()[0] == v[0]);
        } else {
            assert(trim_front(v) == v);
            assert(v.drop_last()[0] == v[0]);
            assert(trim_front(v.drop_last()) == v.drop_last());
        }
    }
}

proof fn lemma_lookup_strip_values(entries: Seq<(Seq<char>, Seq<char>)>, key: Seq<char>)
    ensures
        lookup_entries(strip_values(entries), key) == lookup_entries(entries, key),
    decreases entries.len(),
{
    if entries.len() > 0 {
        assert(strip_values(entries).drop_first() =~= strip_values(entries.drop_first()));
        lemma_lookup_strip_values(entries.drop_first(), key);
        lemma_trim_strip_cr(entries[0].1);
    }
}

proof fn lemma_lookup_update(
    entries: Seq<(Seq<char>, Seq<char>)>,
    key: Seq<char>,
    value: Seq<char>,
    other: Seq<char>,
)
    ensures
        lookup_entries(update_entries(entries, key, value), key) == Some(trim_spec(value)),
        other != key ==> lookup_entries(update_entries(entries, key, value), other)
            == lookup_entries(entries, other),
    decreases entries.len(),
{
    let updated = update_entries(entries, key, value);
    if entries.len() == 0 {
        assert(updated.drop_first() =~= Seq::<(Seq<char>, Seq<char>)>::empty());
        if other != key {
            assert(updated[0].0 != other);
            assert(lookup_entries(updated, other) == lookup_entries(updated.drop_first(), other));
        }
    } else if entries[0].0 == key {
        assert(updated.drop_first() =~= entries.drop_first());
        if other != key {
            assert(updated[0].0 != other);
            assert(entries[0].0 != other);
            assert(lookup_entries(updated, other) == lookup_entries(updated.drop_first(), other));
            assert(lookup_entries(entries, other) == lookup_entries(entries.drop_first(), other));
        }
    } else {
        assert(updated.drop_first() =~= update_entries(entries.drop_first(), key, value));
        lemma_lookup_update(entries.drop_first(), key, value, other);
    }
}

proof fn lemma_update_well_formed(entries: Seq<(Seq<char>, Seq<char>)>, key: Seq<char>, value: Seq<char>)
    requires
        entries_well_formed(entries),
        free_of(key, '='),
        free_of(key, '\n'),
        free_of(value, '\n'),
    ensures
        entries_well_formed(update_entries(entries, key, value)),
    decreases entries.len(),
{
    let updated = update_entries(entries, key, value);
    if entries.len() > 0 {
        if entries[0].0 == key {
            assert forall|i: int| 0 <= i < updated.len() implies free_of((#[trigger] updated[i]).0, '=')
                && free_of(updated[i].0, '\n') && free_of(updated[i].1, '\n') by {
                if i > 0 {
                    assert(updated[i] == entries[i]);
                }
            }
        } else {
            assert forall|i: int| 0 <= i < entries.drop_first().len() implies free_of(
                (#[trigger] entries.drop_first()[i]).0,
                '=',
            ) && free_of(entries.drop_first()[i].0, '\n') && free_of(entries.drop_first()[i].1, '\n') by {
                assert(entries.drop_first()[i] == entries[i + 1]);
            }
            lemma_update_well_formed(entries.drop_first(), key, value);
            let rest = update_entries(entries.drop_first(), key, value);
            assert forall|i: int| 0 <= i < updated.len() implies free_of((#[trigger] updated[i]).0, '=')
                && free_of(updated[i].0, '\n') && free_of(updated[i].1, '\n') by {
                if i > 0 {
                    assert(updated[i] == rest[i - 1]);
                }
            }
        }
    }
}

/// Reading a key back from a configuration file just written with it gives
/// the written value, trimmed, for a key without `=` or line feed and a
/// value without line feed.
pub proof fn law_read_after_write(content: Seq<char>, key: Seq<char>, value: Seq<char>)
    requires
        free_of(key, '='),
        free_of(key, '\n'),
        free_of(value, '\n'),
    ensures
        read_value_spec(write_value_spec(content, key, value), key) == Some(trim_spec(value)),
{
    let updated = update_entries(config_entries(content), key, value);
    lemma_config_entries_well_formed(content);
    lemma_update_well_formed(config_entries(content), key, value);
    lemma_round_trip(updated);
    lemma_lookup_strip_values(updated, key);
    lemma_lookup_update(config_entries(content), key, value, key);
}

/// Writing one key leaves what every other key reads unchanged.
pub proof fn law_write_keeps_other_keys(
    content: Seq<char>,
    key: Seq<char>,
    value: Seq<char>,
    other: Seq<char>,
)
    requires
        free_of(key, '='),
        free_of(key, '\n'),
        free_of(value, '\n'),
        other != key,
    ensures
        read_value_spec(write_value_spec(content, key, value), other) == read_value_spec(content, other),
{
    let updated = update_entries(config_entries(content), key, value);
    lemma_config_entries_well_formed(content);
    lemma_update_well_formed(config_entries(content), key, value);
    lemma_round_trip(updated);
    lemma_lookup_strip_values(updated, other);
    lemma_lookup_update(config_entries(content), key, value, other);
}

/// A boolean setting: `on`, `true` or `1` turn it on; `off`, `false` or `0`
/// turn it off; anything else, or no entry, leaves the default.
pub open spec fn read_bool_spec(content: Seq<char>, key: Seq<char>, default: bool) -> bool {
    match read_value_spec(content, key) {
        Some(v) => if v == "on"@ || v == "true"@ || v == "1"@ {
            true
        } else if v == "off"@ || v == "false"@ || v == "0"@ {
            false
        } else {
            default
        },
        None => default,
    }
}

proof fn lemma_switch_words_differ()
    ensures
        "off"@ != "on"@ && "off"@ != "true"@ && "off"@ != "1"@,
        "false"@ != "on"@ && "false"@ != "true"@ && "false"@ != "1"@,
        "0"@ != "on"@ && "0"@ != "true"@ && "0"@ != "1"@,
{
    reveal_strlit("off");
    reveal_strlit("false");
    reveal_strlit("0");
    reveal_strlit("on");
    reveal_strlit("true");
    reveal_strlit("1");
    assert("off"@.len() != "on"@.len());
    assert("off"@.len() != "true"@.len());
    assert("off"@.len() != "1"@.len());
    assert("false"@.len() != "on"@.len());
    assert("false"@.len() != "true"@.len());
    assert("false"@.len() != "1"@.len());
    assert("0"@.len() != "on"@.len());
    assert("0"@.len() != "true"@.len());
    assert("0"@[0] != "1"@[0]);
}

proof fn lemma_word_reads_back(content: Seq<char>, key: Seq<char>, word: Seq<char>)
    requires
        free_of(key, '='),
        free_of(key, '\n'),
        free_of(word, '\n'),
        word.len() > 0,
        !is_whitespace_char(word[0]),
        !is_whitespace_char(word.last()),
    ensures
        read_value_spec(write_value_spec(content, key, word), key) == Some(word),
{
    law_read_after_write(content, key, word);
    assert(trim_front(word) == word);
    assert(trim_back(word) == word);
}

/// A switch written as `off`, `false` or `0` reads back as off, and one
/// written as `on`, `true` or `1` as on, whatever the default; so a
/// configuration that sets a switch always decides it.
pub proof fn law_switch_reads_back(content: Seq<char>, key: Seq<char>, default: bool)
    requires
        free_of(key, '='),
        free_of(key, '\n'),
    ensures
        !read_bool_spec(write_value_spec(content, key, "off"@), key, default),
        !read_bool_spec(write_value_spec(content, key, "false"@), key, default),
        !read_bool_spec(write_value_spec(content, key, "0"@), key, default),
        read_bool_spec(write_value_spec(content, key, "on"@), key, default),
        read_bool_spec(write_value_spec(content, key, "true"@), key, default),
        read_bool_spec(write_value_spec(content, key, "1"@), key, default),
{
    reveal_strlit("off");
    reveal_strlit("false");
    reveal_strlit("0");
    reveal_strlit("on");
    reveal_strlit("true");
    reveal_strlit("1");
    lemma_switch_words_differ();
    lemma_word_reads_back(content, key, "off"@);
    lemma_word_reads_back(content, key, "false"@);
    lemma_word_reads_back(content, key, "0"@);
    lemma_word_reads_back(content, key, "on"@);
    lemma_word_reads_back(content, key, "true"@);
    lemma_word_reads_back(content, key, "1"@);
}

/// Whatever else a configuration holds, the switch of a key whose entry
/// reads `off`, `false` or `0` is off, one whose entry reads `on`, `true`
/// or `1` is on, and any other entry, or none, leaves the default.
pub proof fn law_switch_words(content: Seq<char>, key: Seq<char>, default: bool)
    ensures
        read_value_spec(content, key) == Some("off"@) || read_value_spec(content, key) == Some(
            "false"@,
        ) || read_value_spec(content, key) == Some("0"@) ==> !read_bool_spec(content, key, default),
        read_value_spec(content, key) == Some("on"@) || read_value_spec(content, key) == Some("true"@)
            || read_value_spec(content, key) == Some("1"@) ==> read_bool_spec(content, key, default),
{
    lemma_switch_words_differ();
    reveal_strlit("off");
    reveal_strlit("false");
    reveal_strlit("0");
    reveal_strlit("on");
    reveal_strlit("true");
    reveal_strlit("1");
}

pub fn read_bool(content: &str, key: &str, default: bool) -> (r: bool)
    ensures
        r == read_bool_spec(content@, key@, default),
{
    match read_value(content, key) {
        Some(v) => {
            let v = v.as_str();
            if str_eq(v, "on") || str_eq(v, "true") || str_eq(v, "1") {
                true
            } else if str_eq(v, "off") || str_eq(v, "false") || str_eq(v, "0") {
                false
            } else {
                default
            }
        },
        None => default,
    }
}

/// A number setting: the entry read as a `u32` and held within
/// `min..=max`; the default when there is no entry or it is no number.
pub open spec fn read_u32_spec(content: Seq<char>, key: Seq<char>, default: u32, min: u32, max: u32) -> u32 {
    match read_value_spec(content, key) {
        Some(v) => match parse_unsigned_spec(v, u32::MAX as int) {
            Some(n) => if n < min {
                min
            } else if n > max {
                max
            } else {
                n as u32
            },
            None => default,
        },
        None => default,
    }
}

pub fn read_u32(content: &str, key: &str, default: u32, min: u32, max: u32) -> (r: u32)
    requires
        min <= max,
    ensures
        r == read_u32_spec(content@, key@, default, min, max),
{
    match read_value(content, key) {
        Some(v) => match parse_unsigned(v.as_str(), 4294967295) {
            Some(n) => if n < min as u64 {
                min
            } else if n > max as u64 {
                max
            } else {
                n as u32
            },
            None => default,
        },
        None => default,
    }
}

/// The configured cursor style: the `cursor_style` entry when it names a
/// style, else the older `cursor_animation` entry (`off` steady, `on`
/// smooth), else the neovide style.
pub open spec fn cursor_style_spec(content: Seq<char>) -> CursorStyle {
    match read_value_spec(content, "cursor_style"@) {
        Some(v) if CursorStyle::from_config_spec(v) is Some => CursorStyle::from_config_spec(v).unwrap(),
        _ => match read_value_spec(content, "cursor_animation"@) {
            Some(v) => if v == "off"@ {
                CursorStyle::Steady
            } else if v == "on"@ {
                CursorStyle::Smooth
            } else {
                CursorStyle::Neovide
            },
            None => CursorStyle::Neovide,
        },
    }
}

pub fn cursor_style(content: &str) -> (r: CursorStyle)
    ensures
        r == cursor_style_spec(content@),
{
    match read_value(content, "cursor_style") {
        Some(v) => match CursorStyle::from_config_value(v.as_str()) {
            Some(style) => return style,
            None => {},
        },
        None => {},
    }
    match read_value(content, "cursor_animation") {
        Some(v) => if str_eq(v.as_str(), "off") {
            CursorStyle::Steady
        } else if str_eq(v.as_str(), "on") {
            CursorStyle::Smooth
        } else {
            CursorStyle::Neovide
        },
        None => CursorStyle::Neovide,
    }
}

/// Whether the cursor animates: every style but the steady one.
pub fn cursor_animation_enabled(content: &str) -> (r: bool)
    ensures
        r == (cursor_style_spec(content@) != CursorStyle::Steady),
{
    match cursor_style(content) {
        CursorStyle::Steady => false,
        _ => true,
    }
}

/// Whether scrolling is smooth: the `smooth_scrolling` setting, on by
/// default.
pub fn smooth_scrolling_enabled(content: &str) -> (r: bool)
    ensures
        r == read_bool_spec(content@, "smooth_scrolling"@, DEFAULT_SMOOTH_SCROLLING),
{
    read_bool(content, "smooth_scrolling", DEFAULT_SMOOTH_SCROLLING)
}

/// The configured cursor shape: the `cursor_shape` entry when it names a
/// shape, else the bar.
pub fn cursor_shape(content: &str) -> (r: CursorShape)
    ensures
        r == (match read_value_spec(content@, "cursor_shape"@) {
            Some(v) => match CursorShape::from_config_spec(v) {
                Some(shape) => shape,
                None => CursorShape::Bar,
            },
            None => CursorShape::Bar,
        }),
{
    match read_value(content, "cursor_shape") {
        Some(v) => match CursorShape::from_config_value(v.as_str()) {
            Some(shape) => shape,
            None => CursorShape::Bar,
        },
        None => CursorShape::Bar,
    }
}

/// The cursor animation duration in milliseconds: the setting held within
/// 40..=500, 150 by default.
pub fn cursor_animation_duration_ms(content: &str) -> (r: u32)
    ensures
        r == read_u32_spec(
            content@,
            "cursor_animation_duration_ms"@,
            DEFAULT_CURSOR_ANIMATION_DURATION_MS,
            40,
            500,
        ),
        40 <= r <= 500 || r == DEFAULT_CURSOR_ANIMATION_DURATION_MS,
{
    read_u32(content, "cursor_animation_duration_ms", DEFAULT_CURSOR_ANIMATION_DURATION_MS, 40, 500)
}

/// `Path::join` on Unix: an absolute path replaces the base; else a
/// separator goes between the two unless the base is empty or already ends
/// with one.
pub open spec fn join_path(base: Seq<char>, relative: Seq<char>) -> Seq<char> {
    if relative.len() > 0 && relative[0] == '/' {
        relative
    } else if base.len() == 0 || base.last() == '/' {
        base + relative
    } else {
        base + seq!['/'] + relative
    }
}

pub fn join(base: &str, relative: &str) -> (r: String)
    ensures
        r@ == join_path(base@, relative@),
{
    if relative.unicode_len() > 0 && relative.get_char(0) == '/' {
        return String::from_str(relative);
    }
    let mut out = String::new();
    push_str(&mut out, base);
    let n = base.unicode_len();
    if n > 0 && base.get_char(n - 1) != '/' {
        push_char(&mut out, '/');
    }
    push_str(&mut out, relative);
    out
}

/// The configuration directory: `CHELOTYPE_CONFIG_DIR` as given, else
/// `chelotype` under `XDG_CONFIG_HOME`, else `.config/chelotype` under
/// `HOME`; none when none of them is set.
pub open spec fn config_dir_spec(
    chelotype_config_dir: Option<Seq<char>>,
    xdg_config_home: Option<Seq<char>>,
    home: Option<Seq<char>>,
) -> Option<Seq<char>> {
    match chelotype_config_dir {
        Some(dir) => Some(dir),
        None => match xdg_config_home {
            Some(xdg) => Some(join_path(xdg, "chelotype"@)),
            None => match home {
                Some(h) => Some(join_path(h, ".config/chelotype"@)),
                None => None,
            },
        },
    }
}

pub open spec fn opt_str(o: Option<&str>) -> Option<Seq<char>> {
    match o {
        Some(s) => Some(s@),
        None => None,
    }
}

pub open spec fn opt_string(o: Option<String>) -> Option<Seq<char>> {
    match o {
        Some(s) => Some(s@),
        None => None,
    }
}

pub fn config_dir(chelotype_config_dir: Option<&str>, xdg_config_home: Option<&str>, home: Option<&str>) -> (r:
    Option<String>)
    ensures
        opt_string(r) == config_dir_spec(
            opt_str(chelotype_config_dir),
            opt_str(xdg_config_home),
            opt_str(home),
        ),
{
    match chelotype_config_dir {
        Some(dir) => Some(String::from_str(dir)),
        None => match xdg_config_home {
            Some(xdg) => Some(join(xdg, "chelotype")),
            None => match home {
                Some(h) => Some(join(h, ".config/chelotype")),
                None => None,
            },
        },
    }
}

/// The configuration file in a configuration directory.
pub fn config_path(config_dir: Option<&str>) -> (r: Option<String>)
    ensures
        opt_string(r) == (match config_dir {
            Some(dir) => Some(join_path(dir@, "config"@)),
            None => None,
        }),
{
    match config_dir {
        Some(dir) => Some(join(dir, "config")),
        None => None,
    }
}

/// The recorded wheel profile in a configuration directory.
pub fn wheel_profile_path(config_dir: Option<&str>) -> (r: Option<String>)
    ensures
        opt_string(r) == (match config_dir {
            Some(dir) => Some(join_path(dir@, "wheel-profile.tsv"@)),
            None => None,
        }),
{
    match config_dir {
        Some(dir) => Some(join(dir, "wheel-profile.tsv")),
        None => None,
    }
}

/// `str::lines`: the lines of a text.
pub fn text_lines(content: &str) -> (r: Vec<String>)
    ensures
        r@.map_values(|l: String| l@) == lines_of(content@),
{
    let n = content.unicode_len();
    let mut lines: Vec<String> = Vec::new();
    let mut i: usize = 0;
    assert(content@.subrange(0, n as int) =~= content@);
    assert(lines@.map_values(|l: String| l@) =~= Seq::<Seq<char>>::empty());
    while i < n
        invariant
            n == content@.len(),
            i <= n,
            lines@.map_values(|l: String| l@) + lines_of(content@.subrange(i as int, n as int))
                == lines_of(content@),
        decreases n - i,
    {
        let ghost rest = content@.subrange(i as int, n as int);
        let j = next_line_feed(content, i);
        let mut end = j;
        if j < n && end > i && content.get_char(end - 1) == '\r' {
            end = end - 1;
        }
        let text = substring(content, i, end);
        proof {
            if j < n {
                lemma_first_index_found(rest, '\n', j - i);
                assert(strip_cr(rest.subrange(0, j - i)) =~= text@);
                assert(rest.subrange(j - i + 1, rest.len() as int) =~= content@.subrange(
                    j + 1,
                    n as int,
                ));
            } else {
                lemma_first_index_absent(rest, '\n');
                assert(text@ =~= rest);
                assert(content@.subrange(n as int, n as int) =~= Seq::<char>::empty());
            }
        }
        let ghost before = lines@.map_values(|l: String| l@);
        lines.push(text);
        i = if j < n {
            j + 1
        } else {
            n
        };
        proof {
            assert(lines@.map_values(|l: String| l@) =~= before.push(text@));
            assert(lines@.map_values(|l: String| l@) + lines_of(content@.subrange(i as int, n as int))
                =~= lines_of(content@));
        }
    }
    proof {
        assert(content@.subrange(n as int, n as int) =~= Seq::<char>::empty());
        assert(lines@.map_values(|l: String| l@) =~= lines_of(content@));
    }
    lines
}

} // verus!
