//! Recognisers for the textual forms of numbers: decimal integers (read and
//! clamped to a bound) and floating-point literals (recognised, not
//! converted).

use vstd::prelude::*;
use crate::text::{find_first, first_of};

verus! {

pub open spec fn is_digit(c: char) -> bool {
    '0' <= c && c <= '9'
}

pub open spec fn digit_value(c: char) -> int {
    (c as u32) as int - ('0' as u32) as int
}

pub open spec fn all_digits(s: Seq<char>) -> bool {
    forall|i: int| 0 <= i < s.len() ==> is_digit(#[trigger] s[i])
}

/// The value of a string of decimal digits, most significant first.
pub open spec fn digits_value(s: Seq<char>) -> int
    decreases s.len(),
{
    if s.len() == 0 {
        0
    } else {
        10 * digits_value(s.drop_last()) + digit_value(s.last())
    }
}

/// Length of an optional leading sign.
pub open spec fn sign_len(s: Seq<char>) -> int {
    if s.len() > 0 && (s[0] == '-' || s[0] == '+') {
        1
    } else {
        0
    }
}

/// The integer written by `s`: an optional `+` or `-`, then one or more
/// decimal digits, and nothing else.
pub open spec fn integer_of(s: Seq<char>) -> Option<int> {
    let body = s.skip(sign_len(s));
    if body.len() > 0 && all_digits(body) {
        Some(
            if s[0] == '-' {
                -digits_value(body)
            } else {
                digits_value(body)
            },
        )
    } else {
        None
    }
}

/// `n` brought into [-limit, limit].
pub open spec fn clamp(n: int, limit: int) -> int {
    if n > limit {
        limit
    } else if n < -limit {
        -limit
    } else {
        n
    }
}

pub proof fn lemma_digits_value_nonneg(s: Seq<char>)
    requires
        all_digits(s),
    ensures
        digits_value(s) >= 0,
    decreases s.len(),
{
    if s.len() > 0 {
        assert(all_digits(s.drop_last()));
        assert(is_digit(s[s.len() - 1]));
        lemma_digits_value_nonneg(s.drop_last());
    }
}

/// Reads `s` as a signed decimal integer of any length, brought into
/// [-limit, limit]: every integer beyond `limit` reads as `limit` (or
/// `-limit`), so no digit string is too long to read.
pub fn parse_clamped(s: &str, limit: u16) -> (r: Option<isize>)
    ensures
        r matches Some(v) ==> integer_of(s@) matches Some(n) && v == clamp(n, limit as int),
        r is None ==> integer_of(s@) is None,
{
    let n = s.unicode_len();
    if n == 0 {
        return None;
    }
    let first = s.get_char(0);
    let neg = first == '-';
    let start: usize = if first == '-' || first == '+' {
        1
    } else {
        0
    };
    assert(start == sign_len(s@));
    if start == n {
        assert(s@.skip(start as int).len() == 0);
        return None;
    }
    let ghost body = s@.skip(start as int);
    let cap = limit as u64;
    let mut mag: u64 = 0;
    let mut i: usize = start;
    while i < n
        invariant
            n == s@.len(),
            start <= i <= n,
            start == sign_len(s@),
            body == s@.skip(start as int),
            neg == (s@[0] == '-'),
            cap == limit,
            all_digits(body.take(i - start)),
            mag == (if digits_value(body.take(i - start)) > cap {
                cap as int
            } else {
                digits_value(body.take(i - start))
            }),
        decreases n - i,
    {
        let c = s.get_char(i);
        assert(body[i - start] == c);
        if !('0' <= c && c <= '9') {
            assert(!all_digits(body));
            return None;
        }
        let ghost pre = body.take(i - start);
        let ghost next = body.take(i + 1 - start);
        assert(next.drop_last() =~= pre);
        assert(all_digits(next));
        let d = (c as u32 - '0' as u32) as u64;
        assert(digits_value(next) == 10 * digits_value(pre) + d);
        proof {
            lemma_digits_value_nonneg(pre);
        }
        if mag < cap {
            let stepped = mag * 10 + d;
            mag = if stepped > cap {
                cap
            } else {
                stepped
            };
        }
        i = i + 1;
    }
    assert(body.take(n - start) =~= body);
    proof {
        lemma_digits_value_nonneg(body);
    }
    if neg {
        Some(-(mag as isize))
    } else {
        Some(mag as isize)
    }
}

/// `s` spells `lo` with each letter in the case of `lo` or of `up`.
pub open spec fn spells(s: Seq<char>, lo: Seq<char>, up: Seq<char>) -> bool {
    s.len() == lo.len() && forall|i: int| 0 <= i < s.len() ==> (#[trigger] s[i] == lo[i] || s[i] == up[i])
}

/// Digits with at most one decimal point, and at least one digit.
pub open spec fn is_mantissa(m: Seq<char>) -> bool {
    let d = first_of(m, '.', '.');
    all_digits(m.take(d)) && if d == m.len() {
        m.len() > 0
    } else {
        all_digits(m.skip(d + 1)) && m.len() > 1
    }
}

/// `e` or `E`, an optional sign, then one or more digits.
pub open spec fn is_exponent(x: Seq<char>) -> bool {
    let r = x.skip(1);
    let ds = r.skip(sign_len(r));
    x.len() > 0 && (x[0] == 'e' || x[0] == 'E') && ds.len() > 0 && all_digits(ds)
}

/// A decimal number: a mantissa, then an optional exponent.
pub open spec fn is_decimal(s: Seq<char>) -> bool {
    let e = first_of(s, 'e', 'E');
    is_mantissa(s.take(e)) && (e == s.len() || is_exponent(s.skip(e)))
}

/// The textual forms of a floating-point number: an optional sign, then
/// `inf`, `infinity` or `nan` in any case, or a decimal number.
pub open spec fn is_float_literal(s: Seq<char>) -> bool {
    let body = s.skip(sign_len(s));
    spells(body, "inf"@, "INF"@) || spells(body, "infinity"@, "INFINITY"@) || spells(
        body,
        "nan"@,
        "NAN"@,
    ) || is_decimal(body)
}

/// Whether every character of `s` is a decimal digit.
pub fn only_digits(s: &str) -> (r: bool)
    ensures
        r == all_digits(s@),
{
    let n = s.unicode_len();
    let mut i: usize = 0;
    while i < n
        invariant
            n == s@.len(),
            i <= n,
            all_digits(s@.take(i as int)),
        decreases n - i,
    {
        let c = s.get_char(i);
        if !('0' <= c && c <= '9') {
            assert(!is_digit(s@[i as int]));
            return false;
        }
        assert(all_digits(s@.take(i + 1)));
        i = i + 1;
    }
    assert(s@.take(n as int) =~= s@);
    true
}

fn spells_exec(s: &str, lo: &str, up: &str) -> (r: bool)
    requires
        lo@.len() == up@.len(),
    ensures
        r == spells(s@, lo@, up@),
{
    let n = s.unicode_len();
    if n != lo.unicode_len() {
        return false;
    }
    let mut i: usize = 0;
    while i < n
        invariant
            n == s@.len(),
            n == lo@.len(),
            n == up@.len(),
            i <= n,
            forall|j: int| 0 <= j < i ==> (#[trigger] s@[j] == lo@[j] || s@[j] == up@[j]),
        decreases n - i,
    {
        let c = s.get_char(i);
        if c != lo.get_char(i) && c != up.get_char(i) {
            return false;
        }
        i = i + 1;
    }
    true
}

fn mantissa_exec(m: &str) -> (r: bool)
    ensures
        r == is_mantissa(m@),
{
    let n = m.unicode_len();
    let d = find_first(m, '.', '.');
    if !only_digits(m.substring_char(0, d)) {
        return false;
    }
    if d == n {
        n > 0
    } else {
        only_digits(m.substring_char(d + 1, n)) && n > 1
    }
}

fn exponent_exec(x: &str) -> (r: bool)
    ensures
        r == is_exponent(x@),
{
    let n = x.unicode_len();
    if n == 0 {
        return false;
    }
    let c = x.get_char(0);
    if c != 'e' && c != 'E' {
        return false;
    }
    let r = x.substring_char(1, n);
    let k = r.unicode_len();
    let sign: usize = if k > 0 && (r.get_char(0) == '-' || r.get_char(0) == '+') {
        1
    } else {
        0
    };
    let ds = r.substring_char(sign, k);
    ds.unicode_len() > 0 && only_digits(ds)
}

fn decimal_exec(s: &str) -> (r: bool)
    ensures
        r == is_decimal(s@),
{
    let n = s.unicode_len();
    let e = find_first(s, 'e', 'E');
    mantissa_exec(s.substring_char(0, e)) && (e == n || exponent_exec(s.substring_char(e, n)))
}

/// Whether `s` is the text of a floating-point number.
pub fn float_literal(s: &str) -> (r: bool)
    ensures
        r == is_float_literal(s@),
{
    let n = s.unicode_len();
    let sign: usize = if n > 0 && (s.get_char(0) == '-' || s.get_char(0) == '+') {
        1
    } else {
        0
    };
    let body = s.substring_char(sign, n);
    proof {
        reveal_strlit("inf");
        reveal_strlit("INF");
        reveal_strlit("infinity");
        reveal_strlit("INFINITY");
        reveal_strlit("nan");
        reveal_strlit("NAN");
    }
    spells_exec(body, "inf", "INF") || spells_exec(body, "infinity", "INFINITY") || spells_exec(
        body,
        "nan",
        "NAN",
    ) || decimal_exec(body)
}

} // verus!
