//! Character classification of the C library in the "C" locale, on bytes.
use vstd::prelude::*;

verus! {

/// `isspace`: space, `\t`, `\n`, `\v`, `\f` or `\r`.
pub open spec fn is_space(c: u8) -> bool {
    c == 32 || (9 <= c && c <= 13)
}

/// `isdigit`: `0` to `9`.
pub open spec fn is_digit(c: u8) -> bool {
    48 <= c && c <= 57
}

/// `isalpha`: an ASCII letter.
pub open spec fn is_alpha(c: u8) -> bool {
    (65 <= c && c <= 90) || (97 <= c && c <= 122)
}

/// `isalnum`: an ASCII letter or digit.
pub open spec fn is_alnum(c: u8) -> bool {
    is_alpha(c) || is_digit(c)
}

/// `tolower`: upper-case ASCII letters are mapped to lower case, other bytes are kept.
pub open spec fn to_lower(c: u8) -> u8 {
    if 65 <= c && c <= 90 {
        (c + 32) as u8
    } else {
        c
    }
}

/// `toupper`: lower-case ASCII letters are mapped to upper case, other bytes are kept.
pub open spec fn to_upper(c: u8) -> u8 {
    if 97 <= c && c <= 122 {
        (c - 32) as u8
    } else {
        c
    }
}

/// `isspace` on a byte.
pub fn isspace(c: u8) -> (r: bool)
    ensures
        r == is_space(c),
{
    c == 32 || (9 <= c && c <= 13)
}

/// `isdigit` on a byte.
pub fn isdigit(c: u8) -> (r: bool)
    ensures
        r == is_digit(c),
{
    48 <= c && c <= 57
}

/// `isalpha` on a byte.
pub fn isalpha(c: u8) -> (r: bool)
    ensures
        r == is_alpha(c),
{
    (65 <= c && c <= 90) || (97 <= c && c <= 122)
}

/// `isalnum` on a byte.
pub fn isalnum(c: u8) -> (r: bool)
    ensures
        r == is_alnum(c),
{
    isalpha(c) || isdigit(c)
}

/// `tolower` on a byte.
pub fn tolower(c: u8) -> (r: u8)
    ensures
        r == to_lower(c),
{
    if 65 <= c && c <= 90 {
        c + 32
    } else {
        c
    }
}

/// `toupper` on a byte.
pub fn toupper(c: u8) -> (r: u8)
    ensures
        r == to_upper(c),
{
    if 97 <= c && c <= 122 {
        c - 32
    } else {
        c
    }
}

} // verus!
