//! Connect-timeout settings written as text: `"<n>s"` (whole or decimal
//! seconds), `"<n>ms"`, or a bare number of seconds, `n` with an optional
//! leading `+`.

use vstd::prelude::*;
use vstd::string::*;
use crate::text::{
    all_digits, digit_value, is_digit, is_unsigned, numeral_value, parse_digits, parse_u64, trim,
    trim_bounds, unsigned_digits, unsigned_value,
};

verus! {

/// The timeout used when the text cannot be read: five seconds.
pub const DEFAULT_TIMEOUT_MS: u64 = 5000;

/// `n` seconds in milliseconds, saturating at the largest `u64`.
pub open spec fn seconds_to_ms(n: nat) -> u64 {
    if n * 1000 > u64::MAX {
        u64::MAX
    } else {
        (n * 1000) as u64
    }
}

/// An unsigned integer, optional `+` and digits, of at most `u64::MAX`.
pub open spec fn fits_u64(t: Seq<char>) -> bool {
    is_unsigned(t) && unsigned_value(t) <= u64::MAX
}

/// `x` as a `u64`, saturating at the largest one.
pub open spec fn saturate(x: nat) -> u64 {
    if x > u64::MAX {
        u64::MAX
    } else {
        x as u64
    }
}

/// `d` is `<whole>.<fraction>` with its point at `k`: digits on either
/// side, at least one digit in all.
pub open spec fn point_at(d: Seq<char>, k: int) -> bool {
    &&& 0 <= k < d.len()
    &&& d.len() >= 2
    &&& d[k] == '.'
    &&& all_digits(d.take(k))
    &&& all_digits(d.skip(k + 1))
}

/// The milliseconds in the digits of a fraction of a second: its first three
/// digits, missing ones read as zero, later ones dropped.
pub open spec fn fraction_ms(f: Seq<char>) -> nat {
    numeral_value((f + seq!['0', '0', '0']).take(3))
}

/// A decimal whose whole part fits in a `u64`, with its point at `k`.
pub open spec fn decimal_at(d: Seq<char>, k: int) -> bool {
    point_at(d, k) && numeral_value(d.take(k)) <= u64::MAX
}

/// The milliseconds in `d` read as seconds: an optional `+`, then `<n>`,
/// `<n>.<fraction>`, `<n>.` or `.<fraction>`; `None` when it is none of
/// these (an exponent, for one, is not read).
pub open spec fn seconds_text_ms(d: Seq<char>) -> Option<u64> {
    let u = unsigned_digits(d);
    if fits_u64(d) {
        Some(seconds_to_ms(unsigned_value(d)))
    } else if exists|k: int| decimal_at(u, k) {
        let k = choose|k: int| decimal_at(u, k);
        Some(saturate(numeral_value(u.take(k)) * 1000 + fraction_ms(u.skip(k + 1))))
    } else {
        None
    }
}

/// The timeout in milliseconds that a setting denotes, after surrounding
/// whitespace is removed: `"<n>ms"` is `n` milliseconds, `"<n>s"` is `n`
/// seconds, where `n` may have a decimal fraction, and a bare `"<n>"` is `n`
/// whole seconds; `n` may carry a leading `+`. Text that is not one of these
/// falls back to five seconds.
pub open spec fn duration_ms(s: Seq<char>) -> u64 {
    let t = trim(s);
    let n = t.len() as int;
    if n >= 2 && t[n - 2] == 'm' && t[n - 1] == 's' {
        let d = t.take(n - 2);
        if fits_u64(d) {
            unsigned_value(d) as u64
        } else {
            DEFAULT_TIMEOUT_MS
        }
    } else if n >= 1 && t[n - 1] == 's' {
        match seconds_text_ms(t.take(n - 1)) {
            Some(ms) => ms,
            None => DEFAULT_TIMEOUT_MS,
        }
    } else if fits_u64(t) {
        seconds_to_ms(unsigned_value(t))
    } else {
        DEFAULT_TIMEOUT_MS
    }
}

fn secs_to_ms(n: u64) -> (r: u64)
    ensures
        r == seconds_to_ms(n as nat),
{
    if n > u64::MAX / 1000 {
        u64::MAX
    } else {
        n * 1000
    }
}

/// The milliseconds in the fraction digits `s[from..to]`; `None` unless
/// they are all digits (there may be none).
fn parse_fraction_ms(s: &str, from: usize, to: usize) -> (r: Option<u64>)
    requires
        from <= to <= s@.len(),
    ensures
        ({
            let f = s@.subrange(from as int, to as int);
            match r {
                Some(ms) => all_digits(f) && ms == fraction_ms(f),
                None => !all_digits(f),
            }
        }),
{
    let ghost f = s@.subrange(from as int, to as int);
    let mut i: usize = from;
    while i < to
        invariant
            from <= i <= to <= s@.len(),
            f == s@.subrange(from as int, to as int),
            forall|k: int| 0 <= k < i - from ==> is_digit(#[trigger] f[k]),
        decreases to - i,
    {
        let c = s.get_char(i);
        if !('0' <= c && c <= '9') {
            assert(!is_digit(f[i - from]));
            return None;
        }
        i = i + 1;
    }
    let ghost ext = f + seq!['0', '0', '0'];
    let mut ms: u64 = 0;
    let mut j: usize = 0;
    assert(ext.take(0) =~= Seq::<char>::empty());
    while j < 3
        invariant
            j <= 3,
            from <= to <= s@.len(),
            f == s@.subrange(from as int, to as int),
            ext == f + seq!['0', '0', '0'],
            forall|k: int| 0 <= k < f.len() ==> is_digit(#[trigger] f[k]),
            ms == numeral_value(ext.take(j as int)),
            j == 0 ==> ms == 0,
            j == 1 ==> ms <= 9,
            j == 2 ==> ms <= 99,
            j == 3 ==> ms <= 999,
        decreases 3 - j,
    {
        let d: u64 = if j < to - from {
            let c = s.get_char(from + j);
            assert(is_digit(f[j as int]));
            (c as u32 - '0' as u32) as u64
        } else {
            0
        };
        assert(ext.take(j + 1).drop_last() =~= ext.take(j as int));
        assert(digit_value(ext[j as int]) == d);
        ms = ms * 10 + d;
        j = j + 1;
    }
    Some(ms)
}

/// The milliseconds in `s[from..to]` read as seconds, whole or decimal.
fn parse_seconds(s: &str, from: usize, to: usize) -> (r: Option<u64>)
    requires
        from <= to <= s@.len(),
    ensures
        r == seconds_text_ms(s@.subrange(from as int, to as int)),
{
    let ghost d = s@.subrange(from as int, to as int);
    if let Some(v) = parse_u64(s, from, to) {
        return Some(secs_to_ms(v));
    }
    let start = if from < to && s.get_char(from) == '+' {
        from + 1
    } else {
        from
    };
    let ghost u = unsigned_digits(d);
    assert(u =~= s@.subrange(start as int, to as int));
    let mut k: usize = start;
    while k < to && s.get_char(k) != '.'
        invariant
            start <= k <= to <= s@.len(),
            u == s@.subrange(start as int, to as int),
            forall|j: int| 0 <= j < k - start ==> #[trigger] u[j] != '.',
        decreases to - k,
    {
        k = k + 1;
    }
    let ghost p = k - start;
    if k == to {
        assert forall|q: int| !decimal_at(u, q) by {
            if decimal_at(u, q) {
                assert(u[q] == '.');
            }
        }
        return None;
    }
    assert forall|q: int| decimal_at(u, q) implies q == p by {
        if q < p {
            assert(u[q] == '.');
        } else if q > p {
            assert(u.take(q)[p] == '.');
            assert(!is_digit(u.take(q)[p]));
        }
    }
    assert(u.take(p) =~= s@.subrange(start as int, k as int));
    assert(u.skip(p + 1) =~= s@.subrange(k + 1, to as int));
    if to - start < 2 {
        return None;
    }
    let whole = match parse_digits(s, start, k) {
        Some(v) => v,
        None => {
            return None;
        },
    };
    let frac = match parse_fraction_ms(s, k + 1, to) {
        Some(ms) => ms,
        None => {
            return None;
        },
    };
    assert(decimal_at(u, p));
    if whole > (u64::MAX - frac) / 1000 {
        assert(whole * 1000 + frac > u64::MAX) by (nonlinear_arith)
            requires
                whole > (u64::MAX - frac) / 1000,
                frac <= u64::MAX,
        ;
        Some(u64::MAX)
    } else {
        assert(whole * 1000 + frac <= u64::MAX) by (nonlinear_arith)
            requires
                whole <= (u64::MAX - frac) / 1000,
                frac <= u64::MAX,
        ;
        Some(whole * 1000 + frac)
    }
}

/// Reads a timeout setting as milliseconds.
pub fn parse_duration(s: &str) -> (r: u64)
    ensures
        r == duration_ms(s@),
{
    let (a, b) = trim_bounds(s);
    let ghost t = trim(s@);
    assert(t =~= s@.subrange(a as int, b as int));
    let n = b - a;
    if n >= 2 && s.get_char(b - 2) == 'm' && s.get_char(b - 1) == 's' {
        assert(s@.subrange(a as int, b - 2) =~= t.take(n - 2));
        match parse_u64(s, a, b - 2) {
            Some(v) => v,
            None => DEFAULT_TIMEOUT_MS,
        }
    } else if n >= 1 && s.get_char(b - 1) == 's' {
        assert(s@.subrange(a as int, b - 1) =~= t.take(n - 1));
        match parse_seconds(s, a, b - 1) {
            Some(ms) => ms,
            None => DEFAULT_TIMEOUT_MS,
        }
    } else {
        match parse_u64(s, a, b) {
            Some(v) => secs_to_ms(v),
            None => DEFAULT_TIMEOUT_MS,
        }
    }
}

} // verus!
