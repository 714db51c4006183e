use crate::text::{decimal, push_char, push_decimal, push_str};
use vstd::prelude::*;

verus! {

/// A trace line: the event, a tab, the value in decimal, a newline.
pub open spec fn trace_line_spec(event: Seq<char>, value: nat) -> Seq<char> {
    event + seq!['\t'] + decimal(value) + seq!['\n']
}

/// The trace line of a counter.
pub fn counter_line(event: &str, value: u64) -> (r: String)
    ensures
        r@ == trace_line_spec(event@, value as nat),
{
    let mut line = String::new();
    push_str(&mut line, event);
    push_char(&mut line, '\t');
    push_decimal(&mut line, value);
    push_char(&mut line, '\n');
    line
}

/// The trace line of a duration, in whole microseconds.
pub fn duration_line(event: &str, micros: u64) -> (r: String)
    ensures
        r@ == trace_line_spec(event@, micros as nat),
{
    counter_line(event, micros)
}

} // verus!
