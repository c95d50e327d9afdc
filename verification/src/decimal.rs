//! Decimal numerals: writing natural numbers, and reading numerals as
//! natural numbers or as thousandths.

use crate::text::{append_chars, sub_chars};
use vstd::prelude::*;

verus! {

/// The numeral of one decimal digit.
pub open spec fn digit_char(d: int) -> char {
    if d == 0 {
        '0'
    } else if d == 1 {
        '1'
    } else if d == 2 {
        '2'
    } else if d == 3 {
        '3'
    } else if d == 4 {
        '4'
    } else if d == 5 {
        '5'
    } else if d == 6 {
        '6'
    } else if d == 7 {
        '7'
    } else if d == 8 {
        '8'
    } else {
        '9'
    }
}

/// The digit that a character writes, if it is one of `0` to `9`.
pub open spec fn digit_value(c: char) -> Option<int> {
    if c == '0' {
        Some(0)
    } else if c == '1' {
        Some(1)
    } else if c == '2' {
        Some(2)
    } else if c == '3' {
        Some(3)
    } else if c == '4' {
        Some(4)
    } else if c == '5' {
        Some(5)
    } else if c == '6' {
        Some(6)
    } else if c == '7' {
        Some(7)
    } else if c == '8' {
        Some(8)
    } else if c == '9' {
        Some(9)
    } else {
        None
    }
}

/// The shortest decimal numeral of `n`.
pub open spec fn decimal(n: nat) -> Seq<char>
    decreases n,
{
    if n < 10 {
        seq![digit_char(n as int)]
    } else {
        decimal(n / 10).push(digit_char((n % 10) as int))
    }
}

/// `count` zeros.
pub open spec fn zeros(count: nat) -> Seq<char> {
    Seq::new(count, |i: int| '0')
}

/// The decimal numeral of `n`, with zeros in front up to `width` characters.
pub open spec fn padded(n: nat, width: nat) -> Seq<char> {
    if decimal(n).len() >= width {
        decimal(n)
    } else {
        zeros((width - decimal(n).len()) as nat) + decimal(n)
    }
}

pub proof fn lemma_decimal_len(n: nat)
    ensures
        decimal(n).len() >= 1,
        n < 10 ==> decimal(n).len() == 1,
        10 <= n < 100 ==> decimal(n).len() == 2,
        100 <= n < 1000 ==> decimal(n).len() == 3,
        1000 <= n < 10000 ==> decimal(n).len() == 4,
    decreases n,
{
    if n >= 10 {
        lemma_decimal_len(n / 10);
    }
}

fn digit_to_char(d: u64) -> (c: char)
    requires
        d < 10,
    ensures
        c == digit_char(d as int),
{
    if d == 0 {
        '0'
    } else if d == 1 {
        '1'
    } else if d == 2 {
        '2'
    } else if d == 3 {
        '3'
    } else if d == 4 {
        '4'
    } else if d == 5 {
        '5'
    } else if d == 6 {
        '6'
    } else if d == 7 {
        '7'
    } else if d == 8 {
        '8'
    } else {
        '9'
    }
}

pub fn digit_of(c: char) -> (d: Option<u64>)
    ensures
        d is Some <==> digit_value(c) is Some,
        d matches Some(v) ==> v < 10 && digit_value(c) == Some(v as int),
{
    if c == '0' {
        Some(0)
    } else if c == '1' {
        Some(1)
    } else if c == '2' {
        Some(2)
    } else if c == '3' {
        Some(3)
    } else if c == '4' {
        Some(4)
    } else if c == '5' {
        Some(5)
    } else if c == '6' {
        Some(6)
    } else if c == '7' {
        Some(7)
    } else if c == '8' {
        Some(8)
    } else if c == '9' {
        Some(9)
    } else {
        None
    }
}

pub fn push_decimal(out: &mut Vec<char>, n: u64)
    ensures
        final(out)@ == old(out)@ + decimal(n as nat),
    decreases n,
{
    if n < 10 {
        out.push(digit_to_char(n));
        assert(old(out)@.push(digit_char(n as int)) == old(out)@ + seq![digit_char(n as int)]);
    } else {
        push_decimal(out, n / 10);
        out.push(digit_to_char(n % 10));
        assert((old(out)@ + decimal((n / 10) as nat)).push(digit_char((n % 10) as int))
            == old(out)@ + decimal((n / 10) as nat).push(digit_char((n % 10) as int)));
    }
}

pub fn decimal_len(n: u64) -> (len: usize)
    ensures
        len == decimal(n as nat).len(),
        1 <= len <= 20,
{
    let mut len: usize = 1;
    let mut rest: u64 = n;
    proof {
        lemma_decimal_bound(n as nat);
    }
    while rest >= 10
        invariant
            1 <= len,
            len + decimal(rest as nat).len() == decimal(n as nat).len() + 1,
            decimal(n as nat).len() <= 20,
        decreases rest,
    {
        proof {
            lemma_decimal_len((rest / 10) as nat);
        }
        rest = rest / 10;
        len = len + 1;
    }
    len
}

proof fn lemma_decimal_bound(n: nat)
    ensures
        n <= u64::MAX ==> decimal(n).len() <= 20,
{
    lemma_decimal_upper(n, 20);
    assert(pow10(20) > u64::MAX) by {
        reveal_with_fuel(pow10, 21);
    }
}

proof fn lemma_decimal_upper(n: nat, k: nat)
    requires
        k >= 1,
    ensures
        n < pow10(k) ==> decimal(n).len() <= k,
    decreases k,
{
    reveal_with_fuel(pow10, 2);
    if n >= 10 && k >= 2 {
        lemma_decimal_upper(n / 10, (k - 1) as nat);
        assert(pow10(k) == 10 * pow10((k - 1) as nat));
    } else if n >= 10 {
        assert(pow10(1) == 10);
    }
}

/// Ten to the power `k`.
pub open spec fn pow10(k: nat) -> nat
    decreases k,
{
    if k == 0 {
        1
    } else {
        10 * pow10((k - 1) as nat)
    }
}

pub fn push_padded(out: &mut Vec<char>, n: u64, width: usize)
    ensures
        final(out)@ == old(out)@ + padded(n as nat, width as nat),
{
    let len = decimal_len(n);
    let mut i: usize = len;
    assert(zeros(0) == Seq::<char>::empty());
    assert(out@ + Seq::<char>::empty() == out@);
    while i < width
        invariant
            len <= i,
            len < width ==> i <= width,
            len >= width ==> i == len,
            out@ == old(out)@ + zeros((i - len) as nat),
        decreases width - i,
    {
        out.push('0');
        assert(zeros((i + 1 - len) as nat) == zeros((i - len) as nat).push('0'));
        assert((old(out)@ + zeros((i - len) as nat)).push('0') == old(out)@ + zeros(
            (i - len) as nat,
        ).push('0'));
        i = i + 1;
    }
    push_decimal(out, n);
    proof {
        let z = zeros((i - len) as nat);
        let d = decimal(n as nat);
        assert(out@ == (old(out)@ + z) + d);
        assert((old(out)@ + z) + d == old(out)@ + (z + d));
        if len >= width {
            assert(z == Seq::<char>::empty());
            assert(z + d == d);
            assert(padded(n as nat, width as nat) == d);
        } else {
            assert(i == width);
            assert(padded(n as nat, width as nat) == z + d);
        }
    }
}

/// Whether every character is a decimal digit.
pub open spec fn all_digits(s: Seq<char>) -> bool {
    forall|i: int| 0 <= i < s.len() ==> digit_value(#[trigger] s[i]) is Some
}

/// The number that a run of digits writes; a character that is no digit counts
/// as zero.
pub open spec fn digits_value(s: Seq<char>) -> nat
    decreases s.len(),
{
    if s.len() == 0 {
        0
    } else {
        let d = match digit_value(s.last()) {
            Some(d) => d as nat,
            None => 0,
        };
        digits_value(s.drop_last()) * 10 + d
    }
}

pub proof fn lemma_digits_value_monotone(s: Seq<char>, k: int)
    requires
        0 <= k <= s.len(),
    ensures
        digits_value(s.take(k)) <= digits_value(s),
    decreases s.len() - k,
{
    if k < s.len() {
        lemma_digits_value_monotone(s.drop_last(), k);
        assert(s.drop_last().take(k) == s.take(k));
    } else {
        assert(s.take(k) == s);
    }
}

/// Reads a natural number: `Some` exactly for a non-empty run of digits whose
/// value fits.
pub fn parse_u64(s: &Vec<char>) -> (r: Option<u64>)
    ensures
        r is Some <==> s@.len() > 0 && all_digits(s@) && digits_value(s@) <= u64::MAX,
        r matches Some(v) ==> v == digits_value(s@),
{
    if s.len() == 0 {
        return None;
    }
    let mut acc: u64 = 0;
    let mut i: usize = 0;
    assert(s@.take(0) == Seq::<char>::empty());
    while i < s.len()
        invariant
            i <= s.len(),
            all_digits(s@.take(i as int)),
            acc == digits_value(s@.take(i as int)),
        decreases s.len() - i,
    {
        assert(s@.take(i + 1).drop_last() == s@.take(i as int));
        assert(s@.take(i + 1).last() == s@[i as int]);
        match digit_of(s[i]) {
            None => {
                assert(!all_digits(s@));
                return None;
            },
            Some(d) => {
                proof {
                    lemma_digits_value_monotone(s@, i + 1);
                }
                if acc > (u64::MAX - d) / 10 {
                    return None;
                }
                acc = acc * 10 + d;
                assert forall|j: int| 0 <= j < i + 1 implies digit_value(
                    #[trigger] s@.take(i + 1)[j],
                ) is Some by {
                    if j < i {
                        assert(s@.take(i as int)[j] == s@.take(i + 1)[j]);
                    }
                }
            },
        }
        i = i + 1;
    }
    assert(s@.take(s.len() as int) == s@);
    Some(acc)
}

/// The value of the first `p` digits of `all` followed by zeros without end:
/// the number `all` writes, moved `p - all.len()` decimal places and cut off
/// below the point.
pub open spec fn shifted_value(all: Seq<char>, p: int) -> nat
    decreases p,
{
    if p <= 0 {
        0
    } else {
        let d = if p - 1 < all.len() {
            match digit_value(all[p - 1]) {
                Some(d) => d as nat,
                None => 0,
            }
        } else {
            0
        };
        shifted_value(all, p - 1) * 10 + d
    }
}

pub proof fn lemma_shifted_value_monotone(all: Seq<char>, k: int, p: int)
    requires
        k <= p,
    ensures
        shifted_value(all, k) <= shifted_value(all, p),
    decreases p - k,
{
    if k < p {
        lemma_shifted_value_monotone(all, k, p - 1);
    }
}

/// Moved by no place, the digits have their own value.
pub proof fn lemma_shifted_value_whole(all: Seq<char>, k: int)
    requires
        0 <= k <= all.len(),
    ensures
        shifted_value(all, k) == digits_value(all.take(k)),
    decreases k,
{
    if k > 0 {
        lemma_shifted_value_whole(all, k - 1);
        assert(all.take(k).drop_last() == all.take(k - 1));
        assert(all.take(k).last() == all[k - 1]);
    } else {
        assert(all.take(0).len() == 0);
    }
}

/// The first index at or after `from` that holds no digit.
pub open spec fn digits_end(s: Seq<char>, from: int) -> int
    decreases s.len() - from,
{
    if 0 <= from < s.len() && digit_value(s[from]) is Some {
        digits_end(s, from + 1)
    } else {
        from
    }
}

pub proof fn lemma_digits_end(s: Seq<char>, from: int)
    requires
        0 <= from <= s.len(),
    ensures
        from <= digits_end(s, from) <= s.len(),
        all_digits(s.subrange(from, digits_end(s, from))),
        digits_end(s, from) < s.len() ==> digit_value(s[digits_end(s, from)]) is None,
    decreases s.len() - from,
{
    if from < s.len() && digit_value(s[from]) is Some {
        lemma_digits_end(s, from + 1);
        let e = digits_end(s, from);
        assert forall|i: int| 0 <= i < e - from implies digit_value(
            #[trigger] s.subrange(from, e)[i],
        ) is Some by {
            if i > 0 {
                assert(s.subrange(from, e)[i] == s.subrange(from + 1, e)[i - 1]);
            }
        }
    }
}

fn scan_digits(s: &Vec<char>, from: usize) -> (end: usize)
    requires
        from <= s.len(),
    ensures
        end == digits_end(s@, from as int),
        from <= end <= s.len(),
{
    let mut i: usize = from;
    while i < s.len() && digit_of(s[i]).is_some()
        invariant
            from <= i <= s.len(),
            digits_end(s@, from as int) == digits_end(s@, i as int),
        decreases s.len() - i,
    {
        i = i + 1;
    }
    i
}

/// A numeral taken apart: sign, the digits before and after the point, and
/// the exponent.
pub struct Numeral {
    pub negative: bool,
    pub whole: Seq<char>,
    pub fraction: Seq<char>,
    pub exponent: int,
}

/// Whether index `i` of `s` holds the character `c`.
pub open spec fn has_at(s: Seq<char>, i: int, c: char) -> bool {
    0 <= i < s.len() && s[i] == c
}

/// Where the digits before the point start: behind a sign, if there is one.
pub open spec fn whole_start(s: Seq<char>) -> int {
    if has_at(s, 0, '-') || has_at(s, 0, '+') {
        1
    } else {
        0
    }
}

/// Where the digits behind the point start, or where they would.
pub open spec fn fraction_start(s: Seq<char>) -> int {
    let w = digits_end(s, whole_start(s));
    if has_at(s, w, '.') {
        w + 1
    } else {
        w
    }
}

/// Where the mantissa ends.
pub open spec fn mantissa_end(s: Seq<char>) -> int {
    digits_end(s, fraction_start(s))
}

/// Where the digits of the exponent start, in a numeral that has one.
pub open spec fn exponent_start(s: Seq<char>) -> int {
    let m = mantissa_end(s);
    if has_at(s, m + 1, '-') || has_at(s, m + 1, '+') {
        m + 2
    } else {
        m + 1
    }
}

/// Reads `[+-] digits [. digits] [e [+-] digits]` with at least one digit in the
/// mantissa and, where there is an exponent, one to three digits in it.
pub open spec fn numeral(s: Seq<char>) -> Option<Numeral> {
    let a = whole_start(s);
    let w = digits_end(s, a);
    let f = fraction_start(s);
    let m = mantissa_end(s);
    let mantissa_ok = (w - a) + (m - f) >= 1;
    if !mantissa_ok {
        None
    } else if m == s.len() {
        Some(
            Numeral {
                negative: has_at(s, 0, '-'),
                whole: s.subrange(a, w),
                fraction: s.subrange(f, m),
                exponent: 0,
            },
        )
    } else if has_at(s, m, 'e') || has_at(s, m, 'E') {
        let x = exponent_start(s);
        let e = digits_end(s, x);
        if x <= s.len() && e == s.len() && 1 <= e - x <= 3 {
            let magnitude = digits_value(s.subrange(x, e)) as int;
            Some(
                Numeral {
                    negative: has_at(s, 0, '-'),
                    whole: s.subrange(a, w),
                    fraction: s.subrange(f, m),
                    exponent: if has_at(s, m + 1, '-') {
                        -magnitude
                    } else {
                        magnitude
                    },
                },
            )
        } else {
            None
        }
    } else {
        None
    }
}

/// The thousandths in a numeral, cut off below the last one. A numeral with a
/// minus sign has none, nor has one whose thousandths exceed `u64::MAX`.
pub open spec fn thousandths(s: Seq<char>) -> Option<nat> {
    match numeral(s) {
        Some(n) => {
            let v = shifted_value(n.whole + n.fraction, n.whole.len() + n.exponent + 3);
            if !n.negative && v <= u64::MAX {
                Some(v)
            } else {
                None
            }
        },
        None => None,
    }
}

fn char_at(s: &Vec<char>, i: usize, c: char) -> (r: bool)
    ensures
        r == has_at(s@, i as int, c),
{
    i < s.len() && s[i] == c
}

/// Reads a numeral as thousandths.
pub fn parse_thousandths(s: &Vec<char>) -> (r: Option<u64>)
    ensures
        r is Some <==> thousandths(s@) is Some,
        r matches Some(v) ==> thousandths(s@) == Some(v as nat),
{
    let negative = char_at(s, 0, '-');
    let a: usize = if negative || char_at(s, 0, '+') {
        1
    } else {
        0
    };
    let w = scan_digits(s, a);
    let f: usize = if char_at(s, w, '.') {
        w + 1
    } else {
        w
    };
    let m = scan_digits(s, f);
    if (w - a) + (m - f) < 1 {
        return None;
    }
    let mut exponent: i64 = 0;
    if m < s.len() {
        if !(char_at(s, m, 'e') || char_at(s, m, 'E')) {
            return None;
        }
        let exp_negative = char_at(s, m + 1, '-');
        let x: usize = if exp_negative || char_at(s, m + 1, '+') {
            m + 2
        } else {
            m + 1
        };
        if x > s.len() {
            return None;
        }
        let e = scan_digits(s, x);
        if e != s.len() || e - x < 1 || e - x > 3 {
            return None;
        }
        let digits = sub_chars(s, x, e);
        proof {
            lemma_digits_end(s@, x as int);
            lemma_three_digits(s@.subrange(x as int, e as int));
        }
        let magnitude = match parse_u64(&digits) {
            Some(v) => v,
            None => {
                return None;
            },
        };
        exponent = if exp_negative {
            -(magnitude as i64)
        } else {
            magnitude as i64
        };
    }
    if negative {
        return None;
    }
    // The digits before and after the point, as one run.
    let mut all: Vec<char> = sub_chars(s, a, w);
    let frac = sub_chars(s, f, m);
    let ghost whole = all@;
    append_chars(&mut all, &frac);
    let places: i128 = (w - a) as i128 + exponent as i128 + 3;
    let ghost target = shifted_value(all@, places as int);
    proof {
        let n = numeral(s@);
        assert(a == whole_start(s@));
        assert(w == digits_end(s@, a as int));
        assert(f == fraction_start(s@));
        assert(m == mantissa_end(s@));
        assert(n is Some);
        assert(n->0.whole == whole);
        assert(n->0.fraction == frac@);
        assert(n->0.exponent == exponent);
        assert(!n->0.negative);
        assert(thousandths(s@) == if target <= u64::MAX {
            Some(target)
        } else {
            None
        });
    }
    let mut acc: u64 = 0;
    let mut k: i128 = 0;
    while k < places
        invariant
            0 <= k,
            places > 0 ==> k <= places,
            places <= 0 ==> k == 0,
            acc == shifted_value(all@, k as int),
            places <= usize::MAX + 1002,
            target == shifted_value(all@, places as int),
            thousandths(s@) == if target <= u64::MAX {
                Some(target)
            } else {
                None
            },
        decreases places - k,
    {
        let d: u64 = if k < all.len() as i128 {
            match digit_of(all[k as usize]) {
                Some(d) => d,
                None => 0,
            }
        } else {
            0
        };
        proof {
            lemma_shifted_value_monotone(all@, k + 1, places as int);
        }
        if acc > (u64::MAX - d) / 10 {
            return None;
        }
        acc = acc * 10 + d;
        k = k + 1;
    }
    Some(acc)
}

proof fn lemma_three_digits(s: Seq<char>)
    requires
        s.len() <= 3,
    ensures
        digits_value(s) <= 999,
{
    reveal_with_fuel(digits_value, 4);
}

/// The numeral of a digit writes that digit.
pub proof fn lemma_digit_char(d: int)
    requires
        0 <= d <= 9,
    ensures
        digit_value(digit_char(d)) == Some(d),
{
}

/// The numeral of a number holds digits only, at least one, and writes the
/// number.
pub proof fn lemma_decimal_digits(n: nat)
    ensures
        decimal(n).len() >= 1,
        all_digits(decimal(n)),
        digits_value(decimal(n)) == n,
    decreases n,
{
    let s = decimal(n);
    if n < 10 {
        lemma_digit_char(n as int);
        assert(s.drop_last().len() == 0);
        assert(s.last() == digit_char(n as int));
        assert(digits_value(s.drop_last()) == 0);
    } else {
        lemma_decimal_digits(n / 10);
        lemma_digit_char((n % 10) as int);
        assert(s.drop_last() == decimal(n / 10));
        assert(s.last() == digit_char((n % 10) as int));
        assert forall|i: int| 0 <= i < s.len() implies digit_value(#[trigger] s[i]) is Some by {
            if i < s.len() - 1 {
                assert(s[i] == decimal(n / 10)[i]);
            }
        }
    }
}

/// The value of digits behind other digits: the digits in front count for as
/// many places more as there are digits behind them.
pub proof fn lemma_digits_value_concat(a: Seq<char>, b: Seq<char>)
    ensures
        digits_value(a + b) == digits_value(a) * pow10(b.len()) + digits_value(b),
    decreases b.len(),
{
    if b.len() == 0 {
        assert(a + b == a);
        assert(pow10(0) == 1);
    } else {
        lemma_digits_value_concat(a, b.drop_last());
        assert((a + b).drop_last() == a + b.drop_last());
        assert((a + b).last() == b.last());
        let k = (b.len() - 1) as nat;
        assert(pow10(b.len()) == 10 * pow10(k));
        assert(digits_value(a) * pow10(b.len()) == digits_value(a) * pow10(k) * 10)
            by (nonlinear_arith)
            requires
                pow10(b.len()) == 10 * pow10(k),
        ;
    }
}

/// Zeros write nothing.
pub proof fn lemma_zeros_value(count: nat)
    ensures
        all_digits(zeros(count)),
        digits_value(zeros(count)) == 0,
    decreases count,
{
    if count > 0 {
        lemma_zeros_value((count - 1) as nat);
        assert(zeros(count).drop_last() == zeros((count - 1) as nat));
    }
}

/// A numeral with zeros in front up to a width holds digits only and writes
/// its number; it is as long as the width where the number has no more
/// digits than that.
pub proof fn lemma_padded_digits(n: nat, width: nat)
    ensures
        all_digits(padded(n, width)),
        digits_value(padded(n, width)) == n,
        decimal(n).len() <= width ==> padded(n, width).len() == width,
{
    lemma_decimal_digits(n);
    if decimal(n).len() < width {
        let z = zeros((width - decimal(n).len()) as nat);
        lemma_zeros_value((width - decimal(n).len()) as nat);
        lemma_digits_value_concat(z, decimal(n));
        assert(0 * pow10(decimal(n).len()) == 0);
    }
}

/// Moved beyond their end, digits have their value with a zero for every
/// place more.
pub proof fn lemma_shifted_value_beyond(all: Seq<char>, p: int)
    requires
        p >= all.len(),
    ensures
        shifted_value(all, p) == digits_value(all) * pow10((p - all.len()) as nat),
    decreases p - all.len(),
{
    if p == all.len() {
        lemma_shifted_value_whole(all, p);
        assert(all.take(p) == all);
        assert(pow10(0) == 1);
    } else {
        lemma_shifted_value_beyond(all, p - 1);
        let k = (p - 1 - all.len()) as nat;
        assert(pow10((p - all.len()) as nat) == 10 * pow10(k));
        assert(digits_value(all) * pow10((p - all.len()) as nat) == digits_value(all) * pow10(k)
            * 10) by (nonlinear_arith)
            requires
                pow10((p - all.len()) as nat) == 10 * pow10(k),
        ;
    }
}

/// Where a run of digits ends: where the digits end that start it.
pub proof fn lemma_digits_end_run(s: Seq<char>, from: int, to: int)
    requires
        0 <= from <= to <= s.len(),
        forall|i: int| from <= i < to ==> digit_value(#[trigger] s[i]) is Some,
        to < s.len() ==> digit_value(s[to]) is None,
    ensures
        digits_end(s, from) == to,
    decreases to - from,
{
    if from < to {
        lemma_digits_end_run(s, from + 1, to);
    }
}

/// The numeral of a number, with or without digits behind a point, is read
/// as its digits: no sign, the digits before the point, the digits behind
/// it, and no exponent.
pub proof fn lemma_plain_numeral(whole: Seq<char>, fraction: Seq<char>)
    requires
        whole.len() >= 1,
        all_digits(whole),
        all_digits(fraction),
    ensures
        fraction.len() == 0 ==> numeral(whole) == Some(
            Numeral { negative: false, whole, fraction, exponent: 0 },
        ),
        fraction.len() > 0 ==> numeral(whole + seq!['.'] + fraction) == Some(
            Numeral { negative: false, whole, fraction, exponent: 0 },
        ),
{
    let w = whole.len() as int;
    assert(digit_value(whole[0]) is Some);
    if fraction.len() == 0 {
        let s = whole;
        assert(!has_at(s, 0, '-') && !has_at(s, 0, '+'));
        lemma_digits_end_run(s, 0, w);
        lemma_digits_end_run(s, w, w);
        assert(s.subrange(0, w) == whole);
        assert(s.subrange(w, w) == fraction);
    } else {
        let s = whole + seq!['.'] + fraction;
        assert(s[0] == whole[0]);
        assert(!has_at(s, 0, '-') && !has_at(s, 0, '+'));
        assert(s[w] == '.');
        assert forall|i: int| 0 <= i < w implies digit_value(#[trigger] s[i]) is Some by {
            assert(s[i] == whole[i]);
        }
        lemma_digits_end_run(s, 0, w);
        assert(has_at(s, w, '.'));
        assert forall|i: int| w + 1 <= i < s.len() implies digit_value(#[trigger] s[i]) is Some by {
            assert(s[i] == fraction[i - w - 1]);
        }
        lemma_digits_end_run(s, w + 1, s.len() as int);
        assert(s.subrange(0, w) == whole);
        assert(s.subrange(w + 1, s.len() as int) == fraction);
    }
}

} // verus!
