//! Texts cut to length for a line of output.

use crate::text::{append_str, from_chars, take_chars, to_chars};
use crate::timefmt::{clock_seconds, span};
use vstd::prelude::*;

verus! {

/// A text cut to `max_len` characters, with three dots where something was
/// cut.
pub open spec fn cut(s: Seq<char>, max_len: usize) -> Seq<char> {
    if s.len() <= max_len {
        s
    } else {
        s.take(max_len as int) + "..."@
    }
}

/// A text with a space for every line break.
pub open spec fn on_one_line(s: Seq<char>) -> Seq<char> {
    Seq::new(
        s.len(),
        |i: int|
            if s[i] == '\n' {
                ' '
            } else {
                s[i]
            },
    )
}

/// A text cut to `max_len` characters, with three dots where something was cut.
pub fn truncate(s: &str, max_len: usize) -> (out: String)
    ensures
        out@ == cut(s@, max_len),
{
    let chars = to_chars(s);
    if chars.len() <= max_len {
        from_chars(&chars)
    } else {
        let mut m = take_chars(&chars, max_len);
        append_str(&mut m, "...");
        from_chars(&m)
    }
}

/// A text on one line, cut to `max_len` characters.
pub fn content_preview(content: &str, max_len: usize) -> (out: String)
    ensures
        out@ == cut(on_one_line(content@), max_len),
{
    let chars = to_chars(content);
    let mut line: Vec<char> = Vec::new();
    let mut i: usize = 0;
    while i < chars.len()
        invariant
            i <= chars.len(),
            chars@ == content@,
            line@ == on_one_line(content@).take(i as int),
        decreases chars.len() - i,
    {
        if chars[i] == '\n' {
            line.push(' ');
        } else {
            line.push(chars[i]);
        }
        assert(line@ =~= on_one_line(content@).take(i + 1));
        i = i + 1;
    }
    assert(on_one_line(content@).take(chars.len() as int) == on_one_line(content@));
    if line.len() <= max_len {
        from_chars(&line)
    } else {
        let mut m = take_chars(&line, max_len);
        append_str(&mut m, "...");
        from_chars(&m)
    }
}

/// A span of time in words: `1h 2m 3s`, `2m 3s` or `3s`.
pub fn format_duration(ms: u64) -> (out: String)
    ensures
        out@ == span(clock_seconds(ms as nat)),
{
    crate::timefmt::format_duration(ms)
}

} // verus!
