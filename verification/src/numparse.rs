//! Reading numbers out of C strings the way the C library's `strtoull` does.
//!
//! A text is a byte sequence; reading past its end gives the zero byte that ends a
//! C string.
use vstd::prelude::*;
use crate::ctype::{is_space, isspace};

verus! {

/// The byte at `i`, or 0 outside the text.
pub open spec fn ch(s: Seq<u8>, i: int) -> u8 {
    if 0 <= i < s.len() {
        s[i]
    } else {
        0
    }
}

/// The byte at `i`, or 0 outside the text.
pub fn ch_at(s: &[u8], i: usize) -> (r: u8)
    ensures
        r == ch(s@, i as int),
{
    if i < s.len() {
        s[i]
    } else {
        0
    }
}

/// The first position from `i` on that holds no white space.
pub open spec fn skip_ws(s: Seq<u8>, i: int) -> int
    decreases s.len() - i,
{
    if i < 0 || i >= s.len() || !is_space(s[i]) {
        i
    } else {
        skip_ws(s, i + 1)
    }
}

/// Skipping white space moves forward and stops at a byte that is none.
pub proof fn lemma_skip_ws(s: Seq<u8>, i: int)
    requires
        0 <= i,
    ensures
        i <= skip_ws(s, i),
        skip_ws(s, i) <= i || skip_ws(s, i) <= s.len(),
        !is_space(ch(s, skip_ws(s, i))),
    decreases s.len() - i,
{
    if 0 <= i < s.len() && is_space(s[i]) {
        lemma_skip_ws(s, i + 1);
    }
}

/// Skips white space from `i` on.
pub fn skip_spaces(s: &[u8], i: usize) -> (r: usize)
    ensures
        r == skip_ws(s@, i as int),
{
    let mut j = i;
    while j < s.len() && isspace(s[j])
        invariant
            i <= j,
            skip_ws(s@, j as int) == skip_ws(s@, i as int),
        decreases s.len() - j,
    {
        j = j + 1;
    }
    j
}

/// The value of `c` as a digit in `base` (10 or 16), where it is one.
pub open spec fn base_digit(c: u8, base: u64) -> Option<nat> {
    let v: int = if 48 <= c <= 57 {
        c - 48
    } else if 97 <= c <= 122 {
        c - 87
    } else if 65 <= c <= 90 {
        c - 55
    } else {
        base as int
    };
    if v < base {
        Some(v as nat)
    } else {
        None
    }
}

fn digit_in_base(c: u8, base: u64) -> (r: Option<u64>)
    ensures
        r is Some <==> base_digit(c, base) is Some,
        r is Some ==> r->0 == base_digit(c, base)->0,
{
    let v: u64 = if 48 <= c && c <= 57 {
        (c - 48) as u64
    } else if 97 <= c && c <= 122 {
        (c - 87) as u64
    } else if 65 <= c && c <= 90 {
        (c - 55) as u64
    } else {
        base
    };
    if v < base {
        Some(v)
    } else {
        None
    }
}

/// The end of the run of digits in `base` that starts at `i`.
pub open spec fn digits_run_end(s: Seq<u8>, i: int, base: u64) -> int
    decreases s.len() - i,
{
    if i < 0 || i >= s.len() || base_digit(s[i], base) is None {
        i
    } else {
        digits_run_end(s, i + 1, base)
    }
}

/// The value of the digits `s[i..j]` in `base`.
pub open spec fn digits_value(s: Seq<u8>, i: int, j: int, base: u64) -> nat
    decreases j - i,
{
    if j <= i {
        0
    } else {
        digits_value(s, i, j - 1, base) * (base as nat) + base_digit(ch(s, j - 1), base).unwrap_or(0)
    }
}

/// `strtoull(s + i, &end, base)` for base 10 or 16: white space, a sign, in base 16
/// an optional `0x`, then digits. The value and the end position; where there are no
/// digits, 0 and `i`. A value past `u64::MAX` gives `u64::MAX`; a minus sign negates
/// modulo 2^64.
pub open spec fn strtoull(s: Seq<u8>, i: int, base: u64) -> (u64, int) {
    let j = skip_ws(s, i);
    let neg = ch(s, j) == '-' as u8;
    let j1 = if ch(s, j) == '+' as u8 || neg { j + 1 } else { j };
    let j2 = if base == 16 && ch(s, j1) == '0' as u8 && (ch(s, j1 + 1) == 'x' as u8 || ch(s, j1 + 1) == 'X' as u8)
        && base_digit(ch(s, j1 + 2), 16) is Some {
        j1 + 2
    } else {
        j1
    };
    let e = digits_run_end(s, j2, base);
    if e == j2 {
        (0, i)
    } else {
        let v = digits_value(s, j2, e, base);
        if v > u64::MAX {
            (u64::MAX, e)
        } else if neg {
            (((0x1_0000_0000_0000_0000 - v) % 0x1_0000_0000_0000_0000) as u64, e)
        } else {
            (v as u64, e)
        }
    }
}

proof fn lemma_digits_value_grows(s: Seq<u8>, i: int, j: int, base: u64)
    requires
        i <= j,
        base >= 1,
    ensures
        digits_value(s, i, j, base) <= digits_value(s, i, j + 1, base),
{
    assert(digits_value(s, i, j + 1, base) == digits_value(s, i, j, base) * (base as nat) + base_digit(ch(s, j), base).unwrap_or(0));
    assert(digits_value(s, i, j, base) * (base as nat) >= digits_value(s, i, j, base)) by (nonlinear_arith)
        requires
            base >= 1,
    ;
}

/// `strtoull` on `s` from `i`, for base 10 or 16.
pub fn strtoull_at(s: &[u8], i: usize, base: u64) -> (r: (u64, usize))
    requires
        base == 10 || base == 16,
        i + 3 <= usize::MAX,
        s@.len() + 3 <= usize::MAX,
    ensures
        r.0 == strtoull(s@, i as int, base).0,
        r.1 as int == strtoull(s@, i as int, base).1,
{
    let j = skip_spaces(s, i);
    proof {
        lemma_skip_ws(s@, i as int);
    }
    let c = ch_at(s, j);
    let neg = c == '-' as u8;
    let j1 = if c == '+' as u8 || neg { j + 1 } else { j };
    let mut j2 = j1;
    if base == 16 && ch_at(s, j1) == '0' as u8 {
        let x = ch_at(s, j1 + 1);
        if (x == 'x' as u8 || x == 'X' as u8) && digit_in_base(ch_at(s, j1 + 2), 16).is_some() {
            j2 = j1 + 2;
        }
    }
    let mut k = j2;
    let mut acc: u64 = 0;
    let mut overflow = false;
    while k < s.len() && digit_in_base(s[k], base).is_some()
        invariant
            j2 <= k,
            j2 <= i + 3 || j2 <= s.len() + 3,
            base == 10 || base == 16,
            digits_run_end(s@, k as int, base) == digits_run_end(s@, j2 as int, base),
            !overflow ==> acc == digits_value(s@, j2 as int, k as int, base),
            overflow ==> digits_value(s@, j2 as int, k as int, base) > u64::MAX,
        decreases s.len() - k,
    {
        let d = digit_in_base(s[k], base).unwrap();
        proof {
            lemma_digits_value_grows(s@, j2 as int, k as int, base);
            assert(digits_value(s@, j2 as int, k + 1, base) == digits_value(s@, j2 as int, k as int, base) * (base as nat) + d);
        }
        if !overflow {
            let lim = (u64::MAX - d) / base;
            if acc > lim {
                overflow = true;
                assert(acc * base + d > u64::MAX) by (nonlinear_arith)
                    requires
                        acc > lim,
                        lim == (u64::MAX - d) / (base as int),
                        base > 0,
                        d <= u64::MAX,
                ;
            } else {
                assert(acc * base + d <= u64::MAX) by (nonlinear_arith)
                    requires
                        acc <= lim,
                        lim == (u64::MAX - d) / (base as int),
                        base > 0,
                        d <= u64::MAX,
                ;
                acc = acc * base + d;
            }
        }
        k = k + 1;
    }
    if k == j2 {
        return (0, i);
    }
    if overflow {
        (u64::MAX, k)
    } else if neg {
        (if acc == 0 { 0 } else { u64::MAX - acc + 1 }, k)
    } else {
        (acc, k)
    }
}

/// Where a run of digits ends.
pub proof fn lemma_digits_run_end(s: Seq<u8>, i: int, base: u64)
    ensures
        i <= digits_run_end(s, i, base),
        digits_run_end(s, i, base) == i || digits_run_end(s, i, base) <= s.len(),
    decreases s.len() - i,
{
    if 0 <= i < s.len() && base_digit(s[i], base) is Some {
        lemma_digits_run_end(s, i + 1, base);
    }
}

/// Where `strtoull` stops: where it started, or inside the text.
pub proof fn lemma_strtoull_end(s: Seq<u8>, i: int, base: u64)
    ensures
        strtoull(s, i, base).1 == i || strtoull(s, i, base).1 <= s.len(),
{
    let j = skip_ws(s, i);
    let neg = ch(s, j) == '-' as u8;
    let j1 = if ch(s, j) == '+' as u8 || neg { j + 1 } else { j };
    let j2 = if base == 16 && ch(s, j1) == '0' as u8 && (ch(s, j1 + 1) == 'x' as u8 || ch(s, j1 + 1) == 'X' as u8)
        && base_digit(ch(s, j1 + 2), 16) is Some {
        j1 + 2
    } else {
        j1
    };
    lemma_digits_run_end(s, j2, base);
}

/// The digits `strtoull` reads: `0` to `9` stand for 0 to 9, letters in either
/// case for 10 and up (`a` and `A` 10, `z` and `Z` 35), each only below the base.
pub proof fn law_base_digits(c: u8, base: u64)
    ensures
        48 <= c <= 57 ==> (base_digit(c, base) == if c - 48 < base { Some((c - 48) as nat) } else { None::<nat> }),
        97 <= c <= 122 ==> (base_digit(c, base) == if c - 87 < base { Some((c - 87) as nat) } else { None::<nat> }),
        65 <= c <= 90 ==> (base_digit(c, base) == if c - 55 < base { Some((c - 55) as nat) } else { None::<nat> }),
        !(48 <= c <= 57 || 97 <= c <= 122 || 65 <= c <= 90) ==> base_digit(c, base) is None,
{
}

} // verus!
