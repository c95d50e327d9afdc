//! Points in time as text: clock readings and subtitle timestamps.

use crate::decimal::{
    digits_value, lemma_decimal_len, lemma_padded_digits, padded, push_padded,
};
use crate::text::from_chars;
use vstd::prelude::*;

verus! {

/// The time `by` milliseconds after `t`, held to the largest time there is.
pub open spec fn later(t: u64, by: u64) -> u64 {
    if t + by > u64::MAX {
        u64::MAX
    } else {
        (t + by) as u64
    }
}

/// The time `by` milliseconds after `t`.
pub fn shift(t: u64, by: u64) -> (r: u64)
    ensures
        r == later(t, by),
{
    if by > u64::MAX - t {
        u64::MAX
    } else {
        t + by
    }
}

/// The most seconds that a clock reading shows.
pub const CLOCK_LIMIT: u64 = 4294967295;

/// The whole seconds in `ms` milliseconds, held to what a clock reading shows.
pub open spec fn clock_seconds(ms: nat) -> nat {
    if ms / 1000 > CLOCK_LIMIT {
        CLOCK_LIMIT as nat
    } else {
        ms / 1000
    }
}

/// A clock reading: `MM:SS` below one hour, `HH:MM:SS` from there on, each part
/// with at least two digits.
pub open spec fn clock(seconds: nat) -> Seq<char> {
    let hours = seconds / 3600;
    let minutes = (seconds % 3600) / 60;
    let secs = seconds % 60;
    if hours > 0 {
        padded(hours, 2) + seq![':'] + padded(minutes, 2) + seq![':'] + padded(secs, 2)
    } else {
        padded(minutes, 2) + seq![':'] + padded(secs, 2)
    }
}

/// Appends the clock reading of `ms` milliseconds.
pub fn push_clock(out: &mut Vec<char>, ms: u64)
    ensures
        final(out)@ == old(out)@ + clock(clock_seconds(ms as nat)),
{
    let whole: u64 = ms / 1000;
    let total: u64 = if whole > CLOCK_LIMIT {
        CLOCK_LIMIT
    } else {
        whole
    };
    let hours: u64 = total / 3600;
    let minutes: u64 = (total % 3600) / 60;
    let secs: u64 = total % 60;
    let ghost start = out@;
    if hours > 0 {
        push_padded(out, hours, 2);
        out.push(':');
        push_padded(out, minutes, 2);
        out.push(':');
        push_padded(out, secs, 2);
        assert(out@ == start + (padded(hours as nat, 2) + seq![':'] + padded(minutes as nat, 2)
            + seq![':'] + padded(secs as nat, 2)));
    } else {
        push_padded(out, minutes, 2);
        out.push(':');
        push_padded(out, secs, 2);
        assert(out@ == start + (padded(minutes as nat, 2) + seq![':'] + padded(secs as nat, 2)));
    }
}

/// The clock reading of `ms` milliseconds.
pub fn format_clock(ms: u64) -> (out: String)
    ensures
        out@ == clock(clock_seconds(ms as nat)),
{
    let mut buf: Vec<char> = Vec::new();
    push_clock(&mut buf, ms);
    assert(Seq::<char>::empty() + clock(clock_seconds(ms as nat)) == clock(
        clock_seconds(ms as nat),
    ));
    from_chars(&buf)
}

/// A subtitle timestamp: hours, minutes and seconds with two digits at least,
/// then `mark` and three digits of milliseconds.
pub open spec fn subtitle_time(ms: nat, mark: char) -> Seq<char> {
    padded(ms / 3600000, 2) + seq![':'] + padded((ms % 3600000) / 60000, 2) + seq![':'] + padded(
        (ms % 60000) / 1000,
        2,
    ) + seq![mark] + padded(ms % 1000, 3)
}

/// Appends the subtitle timestamp of `ms` milliseconds.
pub fn push_subtitle_time(out: &mut Vec<char>, ms: u64, mark: char)
    ensures
        final(out)@ == old(out)@ + subtitle_time(ms as nat, mark),
{
    let ghost start = out@;
    push_padded(out, ms / 3600000, 2);
    out.push(':');
    push_padded(out, (ms % 3600000) / 60000, 2);
    out.push(':');
    push_padded(out, (ms % 60000) / 1000, 2);
    out.push(mark);
    push_padded(out, ms % 1000, 3);
    assert(out@ == start + subtitle_time(ms as nat, mark));
}

/// A span of time in words: `1h 2m 3s`, `2m 3s` or `3s`.
pub open spec fn span(seconds: nat) -> Seq<char> {
    let hours = seconds / 3600;
    let minutes = (seconds % 3600) / 60;
    let secs = seconds % 60;
    if hours > 0 {
        padded(hours, 1) + seq!['h', ' '] + padded(minutes, 1) + seq!['m', ' '] + padded(secs, 1)
            + seq!['s']
    } else if minutes > 0 {
        padded(minutes, 1) + seq!['m', ' '] + padded(secs, 1) + seq!['s']
    } else {
        padded(secs, 1) + seq!['s']
    }
}

/// The span of `ms` milliseconds in words.
pub fn format_duration(ms: u64) -> (out: String)
    ensures
        out@ == span(clock_seconds(ms as nat)),
{
    let whole: u64 = ms / 1000;
    let total: u64 = if whole > CLOCK_LIMIT {
        CLOCK_LIMIT
    } else {
        whole
    };
    let hours: u64 = total / 3600;
    let minutes: u64 = (total % 3600) / 60;
    let secs: u64 = total % 60;
    let mut out: Vec<char> = Vec::new();
    if hours > 0 {
        push_padded(&mut out, hours, 1);
        out.push('h');
        out.push(' ');
        push_padded(&mut out, minutes, 1);
        out.push('m');
        out.push(' ');
        push_padded(&mut out, secs, 1);
        out.push('s');
        assert(out@ == span(clock_seconds(ms as nat)));
    } else if minutes > 0 {
        push_padded(&mut out, minutes, 1);
        out.push('m');
        out.push(' ');
        push_padded(&mut out, secs, 1);
        out.push('s');
        assert(out@ == span(clock_seconds(ms as nat)));
    } else {
        push_padded(&mut out, secs, 1);
        out.push('s');
        assert(out@ == span(clock_seconds(ms as nat)));
    }
    from_chars(&out)
}

/// Whole seconds nearest to `ms` milliseconds; a half goes to the even side.
pub open spec fn rounded_seconds(ms: nat) -> nat {
    let whole = ms / 1000;
    let rest = ms % 1000;
    if rest > 500 || (rest == 500 && whole % 2 == 1) {
        whole + 1
    } else {
        whole
    }
}

/// Whole seconds nearest to `ms` milliseconds.
pub fn round_seconds(ms: u64) -> (s: u64)
    ensures
        s == rounded_seconds(ms as nat),
{
    let whole: u64 = ms / 1000;
    let rest: u64 = ms % 1000;
    if rest > 500 || (rest == 500 && whole % 2 == 1) {
        whole + 1
    } else {
        whole
    }
}

/// The milliseconds that a subtitle timestamp tells: its last three
/// characters are thousandths of a second, the two before the mark in front
/// of them seconds, the two before the colon in front of those minutes, and
/// what stands before the colon in front of those, hours.
pub open spec fn subtitle_millis(stamp: Seq<char>) -> nat {
    let n = stamp.len() as int;
    digits_value(stamp.subrange(0, n - 10)) * 3600000 + digits_value(stamp.subrange(n - 9, n - 7))
        * 60000 + digits_value(stamp.subrange(n - 6, n - 4)) * 1000 + digits_value(
        stamp.subrange(n - 3, n),
    )
}

/// A subtitle timestamp tells the milliseconds it was written for.
pub proof fn lemma_subtitle_time_read_back(ms: nat, mark: char)
    ensures
        subtitle_millis(subtitle_time(ms, mark)) == ms,
{
    let h = ms / 3600000;
    let m = (ms % 3600000) / 60000;
    let s = (ms % 60000) / 1000;
    let r = ms % 1000;
    let hours = padded(h, 2);
    let minutes = padded(m, 2);
    let seconds = padded(s, 2);
    let thousandths = padded(r, 3);
    lemma_padded_digits(h, 2);
    lemma_padded_digits(m, 2);
    lemma_padded_digits(s, 2);
    lemma_padded_digits(r, 3);
    lemma_decimal_len(m);
    lemma_decimal_len(s);
    lemma_decimal_len(r);
    assert(minutes.len() == 2 && seconds.len() == 2 && thousandths.len() == 3);
    let stamp = subtitle_time(ms, mark);
    let n = stamp.len() as int;
    assert(n == hours.len() + 10);
    assert(stamp.subrange(0, n - 10) == hours);
    assert(stamp.subrange(n - 9, n - 7) == minutes);
    assert(stamp.subrange(n - 6, n - 4) == seconds);
    assert(stamp.subrange(n - 3, n) == thousandths);
    assert(ms % 60000 == (ms % 3600000) % 60000);
    assert(ms % 1000 == (ms % 60000) % 1000);
}

} // verus!
