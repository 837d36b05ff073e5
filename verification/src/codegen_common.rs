//! Reading integer and character literals into target words.
//!
//! Literal texts are handed over as the bytes of the literal (no terminating zero).
use vstd::prelude::*;
use vstd::arithmetic::power2::{pow2, lemma_pow2_adds, lemma2_to64, lemma2_to64_rest, lemma_pow2_strictly_increases};
use vstd::arithmetic::mul::lemma_mul_inequality;
use vstd::bits::lemma_u64_shl_is_mul;
use crate::ctype::{isdigit, tolower, is_digit, to_lower};
use crate::ir::{Radix, radix_base};

verus! {

/// The bytes that can stand in a literal of `radix` here: decimal digits, and in
/// hexadecimal also any byte whose lower case is at least `a` (the lexer only lets
/// `a` to `f` through).
pub open spec fn digit_ok(c: u8, radix: Radix) -> bool {
    is_digit(c) || (radix == Radix::Hex && to_lower(c) >= 97)
}

/// The value of such a byte as a digit.
pub open spec fn digit_value(c: u8) -> nat {
    if is_digit(c) {
        (c - 48) as nat
    } else {
        (to_lower(c) - 87) as nat
    }
}

/// The value of the digits `s` in base `radix`.
pub open spec fn int_value(s: Seq<u8>, radix: Radix) -> nat
    decreases s.len(),
{
    if s.len() == 0 {
        0
    } else {
        int_value(s.drop_last(), radix) * (radix_base(radix) as nat) + digit_value(s.last())
    }
}

/// The value of bytes read little-endian: `s[0]` is the lowest byte.
pub open spec fn le_value(s: Seq<u8>) -> nat
    decreases s.len(),
{
    if s.len() == 0 {
        0
    } else {
        le_value(s.drop_last()) + s.last() as nat * pow2((8 * (s.len() - 1)) as nat)
    }
}

/// The value of bytes read big-endian: `s[0]` is the highest byte.
pub open spec fn be_value(s: Seq<u8>) -> nat
    decreases s.len(),
{
    if s.len() == 0 {
        0
    } else {
        be_value(s.drop_last()) * 256nat + s.last() as nat
    }
}

fn parse_digit(c: u8, radix: Radix) -> (d: u8)
    requires
        digit_ok(c, radix),
    ensures
        d == digit_value(c),
{
    if isdigit(c) {
        return c - 48;
    }
    let lc = tolower(c);
    lc - 97 + 10
}

proof fn lemma_int_value_step(s: Seq<u8>, radix: Radix, i: int)
    requires
        0 <= i < s.len(),
    ensures
        int_value(s.take(i + 1), radix) == int_value(s.take(i), radix) * radix_base(radix) + digit_value(s[i]),
{
    assert(s.take(i + 1).drop_last() =~= s.take(i));
}

proof fn lemma_int_value_mono(s: Seq<u8>, radix: Radix, i: int)
    requires
        0 <= i <= s.len(),
    ensures
        int_value(s.take(i), radix) <= int_value(s, radix),
    decreases s.len() - i,
{
    if i == s.len() {
        assert(s.take(i) =~= s);
    } else {
        lemma_int_value_step(s, radix, i);
        let v = int_value(s.take(i), radix);
        assert(v <= v * radix_base(radix)) by (nonlinear_arith)
            requires
                radix_base(radix) >= 1,
                v >= 0,
        ;
        lemma_int_value_mono(s, radix, i + 1);
    }
}

/// The value of an integer literal as a `u64`; `None` when it does not fit.
pub fn parse_int_literal_to_u64(value: &[u8], radix: Radix) -> (r: Option<u64>)
    requires
        forall|i: int| 0 <= i < value@.len() ==> digit_ok(#[trigger] value@[i], radix),
    ensures
        r == (if int_value(value@, radix) <= u64::MAX {
            Some(int_value(value@, radix) as u64)
        } else {
            None
        }),
{
    let count = value.len();
    let base = radix.base();
    let mut result: u64 = 0;
    let mut i: usize = 0;
    proof {
        assert(value@.take(0) =~= Seq::<u8>::empty());
    }
    while i < count
        invariant
            count == value@.len(),
            base == radix_base(radix),
            i <= count,
            result == int_value(value@.take(i as int), radix),
            forall|k: int| 0 <= k < value@.len() ==> digit_ok(#[trigger] value@[k], radix),
        decreases count - i,
    {
        let digit = parse_digit(value[i], radix);
        proof {
            lemma_int_value_step(value@, radix, i as int);
            lemma_int_value_mono(value@, radix, i + 1);
        }
        let r = match result.checked_mul(base as u64) {
            Some(r) => r,
            None => {
                return None;
            },
        };
        result = r;
        let r = match result.checked_add(digit as u64) {
            Some(r) => r,
            None => {
                return None;
            },
        };
        result = r;
        i = i + 1;
    }
    proof {
        assert(value@.take(count as int) =~= value@);
    }
    Some(result)
}

/// The value of an integer literal as a `u16`; `Err` when it does not fit.
pub fn parse_int_literal_to_u16(value: &[u8], radix: Radix) -> (r: Result<u16, ()>)
    requires
        forall|i: int| 0 <= i < value@.len() ==> digit_ok(#[trigger] value@[i], radix),
    ensures
        r == (if int_value(value@, radix) <= u16::MAX {
            Ok::<u16, ()>(int_value(value@, radix) as u16)
        } else {
            Err(())
        }),
{
    let count = value.len();
    let base = radix.base();
    let mut result: u16 = 0;
    let mut i: usize = 0;
    proof {
        assert(value@.take(0) =~= Seq::<u8>::empty());
    }
    while i < count
        invariant
            count == value@.len(),
            base == radix_base(radix),
            i <= count,
            result == int_value(value@.take(i as int), radix),
            forall|k: int| 0 <= k < value@.len() ==> digit_ok(#[trigger] value@[k], radix),
        decreases count - i,
    {
        let digit = parse_digit(value[i], radix);
        proof {
            lemma_int_value_step(value@, radix, i as int);
            lemma_int_value_mono(value@, radix, i + 1);
        }
        let r = match result.checked_mul(base as u16) {
            Some(r) => r,
            None => {
                return Err(());
            },
        };
        result = r;
        let r = match result.checked_add(digit as u16) {
            Some(r) => r,
            None => {
                return Err(());
            },
        };
        result = r;
        i = i + 1;
    }
    proof {
        assert(value@.take(count as int) =~= value@);
    }
    Ok(result)
}

/// The value of an integer literal as a `u8`; `Err` when it does not fit.
pub fn parse_int_literal_to_u8(value: &[u8], radix: Radix) -> (r: Result<u8, ()>)
    requires
        forall|i: int| 0 <= i < value@.len() ==> digit_ok(#[trigger] value@[i], radix),
    ensures
        r == (if int_value(value@, radix) <= u8::MAX {
            Ok::<u8, ()>(int_value(value@, radix) as u8)
        } else {
            Err(())
        }),
{
    let count = value.len();
    let base = radix.base();
    let mut result: u8 = 0;
    let mut i: usize = 0;
    proof {
        assert(value@.take(0) =~= Seq::<u8>::empty());
    }
    while i < count
        invariant
            count == value@.len(),
            base == radix_base(radix),
            i <= count,
            result == int_value(value@.take(i as int), radix),
            forall|k: int| 0 <= k < value@.len() ==> digit_ok(#[trigger] value@[k], radix),
        decreases count - i,
    {
        let digit = parse_digit(value[i], radix);
        proof {
            lemma_int_value_step(value@, radix, i as int);
            lemma_int_value_mono(value@, radix, i + 1);
        }
        let r = match result.checked_mul(base) {
            Some(r) => r,
            None => {
                return Err(());
            },
        };
        result = r;
        let r = match result.checked_add(digit) {
            Some(r) => r,
            None => {
                return Err(());
            },
        };
        result = r;
        i = i + 1;
    }
    proof {
        assert(value@.take(count as int) =~= value@);
    }
    Ok(result)
}

proof fn lemma_le_step(s: Seq<u8>, i: int)
    requires
        0 <= i < s.len(),
        le_value(s.take(i)) < pow2((8 * i) as nat),
    ensures
        le_value(s.take(i + 1)) == le_value(s.take(i)) + s[i] as nat * pow2((8 * i) as nat),
        le_value(s.take(i + 1)) < pow2((8 * (i + 1)) as nat),
{
    assert(s.take(i + 1).drop_last() =~= s.take(i));
    let p = pow2((8 * i) as nat);
    lemma_pow2_adds((8 * i) as nat, 8);
    lemma2_to64();
    lemma_mul_inequality(s[i] as int, 255, p as int);
    assert(pow2((8 * (i + 1)) as nat) == p * 256);
}

/// The value of a character literal of at most 8 bytes as a little-endian `u64`
/// (the first character is the lowest byte); `None` for a longer literal.
pub fn parse_char_literal_to_u64_le(char_literal: &[u8]) -> (r: Option<u64>)
    ensures
        r == (if char_literal@.len() <= 8 { Some(le_value(char_literal@) as u64) } else { None }),
{
    let word_bytes: usize = 8;
    let count = char_literal.len();
    let mut result: u64 = 0;
    let mut i: usize = 0;
    proof {
        assert(char_literal@.take(0) =~= Seq::<u8>::empty());
        lemma2_to64();
    }
    while i < count
        invariant
            count == char_literal@.len(),
            i <= count,
            i > 0 ==> count <= word_bytes,
            word_bytes == 8,
            result == le_value(char_literal@.take(i as int)),
            le_value(char_literal@.take(i as int)) < pow2((8 * i) as nat),
        decreases count - i,
    {
        if count > word_bytes {
            return None;
        }
        let shift_amount = i * 8;
        let char_byte = char_literal[i];
        proof {
            lemma_le_step(char_literal@, i as int);
            lemma2_to64();
            lemma2_to64_rest();
            if i < 7 {
                lemma_pow2_strictly_increases((8 * i) as nat, 56);
            }
            lemma_mul_inequality(char_byte as int, 255, pow2((8 * i) as nat) as int);
            lemma_mul_inequality(pow2((8 * i) as nat) as int, pow2(56) as int, 255);
            lemma_u64_shl_is_mul(char_byte as u64, shift_amount as u64);
        }
        let shifted_char = (char_byte as u64) << (shift_amount as u64);
        let r = match result.checked_add(shifted_char) {
            Some(r) => r,
            None => {
                proof {
                    lemma_pow2_strictly_increases((8 * (i + 1)) as nat, 64);
                    lemma2_to64();
                }
                return None;
            },
        };
        result = r;
        i = i + 1;
    }
    proof {
        assert(char_literal@.take(count as int) =~= char_literal@);
    }
    Some(result)
}

proof fn lemma_be_step(s: Seq<u8>, i: int)
    requires
        0 <= i < s.len(),
    ensures
        be_value(s.take(i + 1)) == be_value(s.take(i)) * 256 + s[i] as nat,
{
    assert(s.take(i + 1).drop_last() =~= s.take(i));
}

/// The value of a character literal of at most 2 bytes as a big-endian `u16`
/// (the first character is the highest byte); `Err` for a longer literal.
pub fn parse_char_literal_to_u16_be(char_literal: &[u8]) -> (r: Result<u16, ()>)
    ensures
        r == (if char_literal@.len() <= 2 { Ok::<u16, ()>(be_value(char_literal@) as u16) } else { Err(()) }),
{
    let word_bytes: usize = 2;
    let count = char_literal.len();
    let mut result: u16 = 0;
    let mut i: usize = 0;
    proof {
        assert(char_literal@.take(0) =~= Seq::<u8>::empty());
    }
    while i < count
        invariant
            count == char_literal@.len(),
            i <= count,
            i > 0 ==> count <= word_bytes,
            word_bytes == 2,
            i > 0 ==> result as nat == be_value(char_literal@.take(i as int)) * (if i + 1 == count {
                256nat
            } else {
                1nat
            }),
            i == 0 ==> result == 0,
        decreases count - i,
    {
        if count > word_bytes {
            return Err(());
        }
        let shift_amount = (count - 1 - i) * 8;
        let char_byte = char_literal[i];
        let c16 = char_byte as u16;
        proof {
            lemma_be_step(char_literal@, i as int);
            if i == 0 {
                assert(be_value(char_literal@.take(0)) == 0);
            }
        }
        let shifted_char: u16 = if shift_amount == 8 {
            assert(c16 << 8u16 == c16 * 256 && c16 * 256 <= 0xff00) by (bit_vector)
                requires
                    c16 <= 255,
            ;
            c16 << 8u16
        } else {
            assert(c16 << 0u16 == c16) by (bit_vector);
            c16 << 0u16
        };
        let r = match result.checked_add(shifted_char) {
            Some(r) => r,
            None => {
                return Err(());
            },
        };
        result = r;
        i = i + 1;
    }
    proof {
        assert(char_literal@.take(count as int) =~= char_literal@);
    }
    Ok(result)
}

/// The value of a character literal of at most 2 bytes as a little-endian `u16`
/// (the first character is the lowest byte); `Err` for a longer literal.
pub fn parse_char_literal_to_u16_le(char_literal: &[u8]) -> (r: Result<u16, ()>)
    ensures
        r == (if char_literal@.len() <= 2 { Ok::<u16, ()>(le_value(char_literal@) as u16) } else { Err(()) }),
{
    let word_bytes: usize = 2;
    let count = char_literal.len();
    let mut result: u16 = 0;
    let mut i: usize = 0;
    proof {
        assert(char_literal@.take(0) =~= Seq::<u8>::empty());
        lemma2_to64();
    }
    while i < count
        invariant
            count == char_literal@.len(),
            i <= count,
            i > 0 ==> count <= word_bytes,
            word_bytes == 2,
            result == le_value(char_literal@.take(i as int)),
            le_value(char_literal@.take(i as int)) < pow2((8 * i) as nat),
        decreases count - i,
    {
        if count > word_bytes {
            return Err(());
        }
        let shift_amount = i * 8;
        let char_byte = char_literal[i];
        let c16 = char_byte as u16;
        proof {
            lemma_le_step(char_literal@, i as int);
            lemma2_to64();
            let p = pow2((8 * i) as nat);
            let b = char_byte as nat;
            if i == 0 {
                assert(b * p == b) by (nonlinear_arith)
                    requires
                        p == 1,
                ;
            } else {
                assert(b * p == b * 256) by (nonlinear_arith)
                    requires
                        p == 256,
                ;
            }
        }
        let shifted_char: u16 = if shift_amount == 8 {
            assert(c16 << 8u16 == c16 * 256 && c16 * 256 <= 0xff00) by (bit_vector)
                requires
                    c16 <= 255,
            ;
            c16 << 8u16
        } else {
            assert(c16 << 0u16 == c16) by (bit_vector);
            c16 << 0u16
        };
        let r = match result.checked_add(shifted_char) {
            Some(r) => r,
            None => {
                return Err(());
            },
        };
        result = r;
        i = i + 1;
    }
    proof {
        assert(char_literal@.take(count as int) =~= char_literal@);
    }
    Ok(result)
}

/// A character literal of one byte as that byte; `Err` for a longer literal.
pub fn parse_char_literal_to_u8(char_literal: &[u8]) -> (r: Result<u8, ()>)
    requires
        char_literal@.len() >= 1,
    ensures
        r == (if char_literal@.len() > 1 { Err::<u8, ()>(()) } else { Ok(char_literal@[0]) }),
{
    if char_literal.len() > 1 {
        return Err(());
    }
    match 0u8.checked_add(char_literal[0]) {
        Some(r) => Ok(r),
        None => Err(()),
    }
}

/// The digits of B literals and their values: `0` to `9` stand for 0 to 9, and in
/// hexadecimal `a` to `f`, in either case, for 10 to 15; a literal's value is read
/// most significant digit first, in base 8, 10 or 16.
pub proof fn law_digit_values(s: Seq<u8>, c: u8, radix: Radix)
    ensures
        48 <= c <= 57 ==> digit_value(c) == c - 48,
        97 <= c <= 102 ==> digit_value(c) == c - 87,
        65 <= c <= 70 ==> digit_value(c) == c - 55,
        radix == Radix::Oct ==> radix_base(radix) == 8,
        radix == Radix::Dec ==> radix_base(radix) == 10,
        radix == Radix::Hex ==> radix_base(radix) == 16,
        int_value(s.push(c), radix) == int_value(s, radix) * radix_base(radix) + digit_value(c),
        int_value(seq![c], radix) == digit_value(c),
{
    assert(s.push(c).drop_last() =~= s);
    assert(seq![c].drop_last() =~= Seq::<u8>::empty());
    assert(int_value(Seq::<u8>::empty(), radix) == 0);
    assert(int_value(seq![c], radix) == int_value(seq![c].drop_last(), radix) * radix_base(radix) + digit_value(c));
}

} // verus!
