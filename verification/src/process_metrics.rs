use crate::config::{lines_of, text_lines, trim_front};
use crate::containers::leading_word;
use crate::text::{has_prefix, parse_unsigned, parse_unsigned_spec, strip_prefix};
use vstd::prelude::*;

verus! {

/// The resident set size a status line gives, in KiB: the first word
/// after `VmRSS:` read as a number.
pub open spec fn rss_of_line(line: Seq<char>) -> Option<u64> {
    if has_prefix(line, "VmRSS:"@) {
        match parse_unsigned_spec(
            leading_word(trim_front(line.subrange("VmRSS:"@.len() as int, line.len() as int))),
            u64::MAX as int,
        ) {
            Some(v) => Some(v as u64),
            None => None,
        }
    } else {
        None
    }
}

/// The first status line that gives the resident set size.
pub open spec fn rss_of_lines(lines: Seq<Seq<char>>) -> Option<u64>
    decreases lines.len(),
{
    if lines.len() == 0 {
        None
    } else {
        match rss_of_line(lines[0]) {
            Some(v) => Some(v),
            None => rss_of_lines(lines.drop_first()),
        }
    }
}

fn first_word(s: &str) -> (r: String)
    ensures
        r@ == leading_word(trim_front(s@)),
{
    let n = s.unicode_len();
    let mut i: usize = 0;
    assert(s@.subrange(0, n as int) =~= s@);
    while i < n && crate::text::char_is_whitespace(s.get_char(i))
        invariant
            n == s@.len(),
            i <= n,
            trim_front(s@) == trim_front(s@.subrange(i as int, n as int)),
        decreases n - i,
    {
        assert(s@.subrange(i as int, n as int).drop_first() =~= s@.subrange(i + 1, n as int));
        i = i + 1;
    }
    let mut j = i;
    while j < n && !crate::text::char_is_whitespace(s.get_char(j))
        invariant
            n == s@.len(),
            i <= j <= n,
            forall|k: int| i <= k < j ==> !crate::text::is_whitespace_char(#[trigger] s@[k]),
        decreases n - j,
    {
        j = j + 1;
    }
    proof {
        lemma_word(s@, i as int, j as int);
        if i < n {
            assert(trim_front(s@.subrange(i as int, n as int)) == s@.subrange(i as int, n as int));
        } else {
            assert(s@.subrange(i as int, n as int) =~= Seq::<char>::empty());
        }
    }
    String::from_str(s.substring_char(i, j))
}

proof fn lemma_word(s: Seq<char>, i: int, j: int)
    requires
        0 <= i <= j <= s.len(),
        forall|k: int| i <= k < j ==> !crate::text::is_whitespace_char(#[trigger] s[k]),
        j == s.len() || crate::text::is_whitespace_char(s[j]),
    ensures
        leading_word(s.subrange(i, s.len() as int)) == s.subrange(i, j),
    decreases j - i,
{
    let t = s.subrange(i, s.len() as int);
    if i == j {
        assert(s.subrange(i, j) =~= Seq::<char>::empty());
    } else {
        assert(t.drop_first() =~= s.subrange(i + 1, s.len() as int));
        lemma_word(s, i + 1, j);
        assert(s.subrange(i, j) =~= seq![s[i]] + s.subrange(i + 1, j));
    }
}

/// The resident set size in KiB that a `/proc/self/status` text gives.
pub fn parse_resident_set_kib(status: &str) -> (r: Option<u64>)
    ensures
        r == rss_of_lines(lines_of(status@)),
{
    let lines = text_lines(status);
    let ghost all = lines@.map_values(|l: String| l@);
    let mut i: usize = 0;
    assert(all.subrange(0, all.len() as int) =~= all);
    while i < lines.len()
        invariant
            all == lines@.map_values(|l: String| l@),
            all == lines_of(status@),
            i <= lines@.len(),
            rss_of_lines(all) == rss_of_lines(all.subrange(i as int, all.len() as int)),
        decreases lines.len() - i,
    {
        proof {
            assert(all.subrange(i as int, all.len() as int).drop_first() =~= all.subrange(
                i + 1,
                all.len() as int,
            ));
            assert(all.subrange(i as int, all.len() as int)[0] == lines@[i as int]@);
        }
        match strip_prefix(lines[i].as_str(), "VmRSS:") {
            Some(value) => {
                let word = first_word(value.as_str());
                match parse_unsigned(word.as_str(), u64::MAX) {
                    Some(v) => return Some(v),
                    None => {},
                }
            },
            None => {},
        }
        i = i + 1;
    }
    None
}

} // verus!
