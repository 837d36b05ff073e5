//! The mathematical model of the lexer: positions, locations, and what each
//! lexing step does to the lexer's state.
use vstd::prelude::*;
use crate::ctype::{is_space, is_digit, is_alpha, is_alnum, to_lower};
use crate::errors::MAX_ERROR_COUNT;
use crate::ir::{Radix, radix_base};
use super::{Token, Loc, Parse_Point, LexDiag};
use super::tables::{PunctTable, punct, punct_count, keyword_token, s1, s2};

verus! {

/// What a lexer reads: its input, where the input ends, the mode, and the file.
pub struct LexInput {
    pub input: Seq<u8>,
    pub eof: int,
    pub historical: bool,
    pub path: usize,
}

/// What a lexer changes as it goes.
pub struct LexState {
    /// Index of the next byte to read.
    pub pos: int,
    pub error_count: int,
    /// The diagnostics reported so far, oldest first.
    pub diags: Seq<LexDiag>,
    pub token: Token,
    /// The text of the current token, where it has one.
    pub string: Option<Seq<u8>>,
    /// The scratch buffer in which token texts are built.
    pub storage: Seq<u8>,
    pub radix: Radix,
    /// Where the current token starts.
    pub loc: Loc,
}

/// Number of newlines among the first `i` bytes of `s`.
pub open spec fn count_nl(s: Seq<u8>, i: int) -> int
    decreases i,
{
    if i <= 0 {
        0
    } else {
        count_nl(s, i - 1) + if s[i - 1] == 10 { 1int } else { 0int }
    }
}

/// Index where the line holding position `i` starts.
pub open spec fn line_start_of(s: Seq<u8>, i: int) -> int
    decreases i,
{
    if i <= 0 {
        0
    } else if s[i - 1] == 10 {
        i
    } else {
        line_start_of(s, i - 1)
    }
}

/// The parse point of position `i`: the line it is on, and where that line starts.
pub open spec fn pp_at(s: Seq<u8>, i: int) -> Parse_Point {
    Parse_Point {
        current: i as usize,
        line_start: line_start_of(s, i) as usize,
        line_number: (1 + count_nl(s, i)) as usize,
    }
}

/// The location reported for position `i`: one-based line and column.
pub open spec fn loc_at(inp: LexInput, i: int) -> Loc {
    Loc {
        input_path: inp.path,
        line_number: (1 + count_nl(inp.input, i)) as i32,
        line_offset: (i - line_start_of(inp.input, i) + 1) as i32,
    }
}

/// Line counts and line starts stay within the position.
pub proof fn lemma_line_bounds(s: Seq<u8>, i: int)
    requires
        0 <= i,
    ensures
        0 <= count_nl(s, i) <= i,
        0 <= line_start_of(s, i) <= i,
    decreases i,
{
    if i > 0 {
        lemma_line_bounds(s, i - 1);
    }
}

/// `pre` occurs in the input at `p`, before the end.
pub open spec fn matches_at(inp: LexInput, p: int, pre: Seq<u8>) -> bool {
    &&& 0 <= p
    &&& p + pre.len() <= inp.eof
    &&& inp.input.subrange(p, p + pre.len()) == pre
}

/// The first position at or after `p` that is the end of the input or holds no white space.
pub open spec fn ws_end(inp: LexInput, p: int) -> int
    decreases inp.eof - p,
{
    if p < 0 || p >= inp.eof || !is_space(inp.input[p]) {
        p
    } else {
        ws_end(inp, p + 1)
    }
}

/// The first position at or after `p` where `pre` occurs, if any.
pub open spec fn find_from(inp: LexInput, p: int, pre: Seq<u8>) -> Option<int>
    decreases inp.eof - p,
{
    if p < 0 || p >= inp.eof {
        None
    } else if matches_at(inp, p, pre) {
        Some(p)
    } else {
        find_from(inp, p + 1, pre)
    }
}

/// Where skipping past the next occurrence of `pre` from `p` ends: just after that
/// occurrence, or at the end of the input.
pub open spec fn until_end(inp: LexInput, p: int, pre: Seq<u8>) -> int {
    match find_from(inp, p, pre) {
        Some(j) => j + pre.len(),
        None => inp.eof,
    }
}

/// A subrange one longer is the shorter one and the next byte.
pub proof fn lemma_subrange_push(s: Seq<u8>, a: int, b: int)
    requires
        0 <= a <= b < s.len(),
    ensures
        s.subrange(a, b + 1) == s.subrange(a, b).push(s[b]),
{
    assert(s.subrange(a, b + 1) =~= s.subrange(a, b).push(s[b]));
}

/// Where a run of identifier characters ends.
pub proof fn lemma_ident_end(inp: LexInput, p: int)
    requires
        0 <= p <= inp.eof,
    ensures
        p <= ident_end(inp, p) <= inp.eof,
    decreases inp.eof - p,
{
    if p < inp.eof && is_ident_char(inp.input[p]) {
        lemma_ident_end(inp, p + 1);
    }
}

/// Where a run of digits ends.
pub proof fn lemma_digits_end(inp: LexInput, p: int, radix: Radix)
    requires
        0 <= p <= inp.eof,
    ensures
        p <= digits_end(inp, p, radix) <= inp.eof,
    decreases inp.eof - p,
{
    if p < inp.eof && lex_digit(inp.input[p], radix) {
        lemma_digits_end(inp, p + 1, radix);
    }
}

/// A punctuation token found is non-empty and lies in the input.
pub proof fn lemma_first_punct(inp: LexInput, p: int, t: PunctTable, i: int)
    ensures
        first_punct(inp, p, t, i) matches Some((n, tok)) ==> 0 <= p && p + n <= inp.eof && n > 0,
    decreases punct_count(t) - i,
{
    if 0 <= i < punct_count(t) && !matches_at(inp, p, punct(t, i).0) {
        lemma_first_punct(inp, p, t, i + 1);
    }
}

/// Skipping white space stops at a byte that is none, or at the end.
pub proof fn lemma_ws_end(inp: LexInput, p: int)
    requires
        0 <= p <= inp.eof,
    ensures
        p <= ws_end(inp, p) <= inp.eof,
        ws_end(inp, p) < inp.eof ==> !is_space(inp.input[ws_end(inp, p)]),
        forall|k: int| p <= k < ws_end(inp, p) ==> is_space(#[trigger] inp.input[k]),
    decreases inp.eof - p,
{
    if p < inp.eof && is_space(inp.input[p]) {
        lemma_ws_end(inp, p + 1);
    }
}

/// Where a text is found, it starts.
pub proof fn lemma_find_from(inp: LexInput, p: int, pre: Seq<u8>)
    requires
        0 <= p,
    ensures
        find_from(inp, p, pre) matches Some(j) ==> p <= j < inp.eof && matches_at(inp, j, pre),
    decreases inp.eof - p,
{
    if 0 <= p < inp.eof && !matches_at(inp, p, pre) {
        lemma_find_from(inp, p + 1, pre);
    }
}

/// Skipping up to a text stays in the input.
pub proof fn lemma_until_end(inp: LexInput, p: int, pre: Seq<u8>)
    requires
        0 <= p <= inp.eof,
    ensures
        p <= until_end(inp, p, pre) <= inp.eof,
{
    lemma_find_from(inp, p, pre);
}

/// `\n`.
pub open spec fn newline() -> Seq<u8> {
    seq![10u8]
}

/// `//`.
pub open spec fn slash_slash() -> Seq<u8> {
    s2('/', '/')
}

/// `/*`.
pub open spec fn slash_star() -> Seq<u8> {
    s2('/', '*')
}

/// `*/`.
pub open spec fn star_slash() -> Seq<u8> {
    s2('*', '/')
}

/// One more error, with its diagnostic.
pub open spec fn bump(st: LexState, d: LexDiag) -> LexState {
    LexState { error_count: st.error_count + 1, diags: st.diags.push(d), ..st }
}

/// Skipping white space and comments from `st.pos`.
///
/// `//` comments run to the end of the line (and are an error in the historical
/// mode); `/* */` comments to the first `*/`, an unfinished one is an error that
/// ends the token with `Token::ParseError`. The flag is false where lexing has to
/// stop: an unfinished comment, or too many errors.
pub open spec fn skip_wc(inp: LexInput, st: LexState) -> (LexState, bool)
    decreases inp.eof - st.pos,
{
    if st.pos < 0 || st.pos > inp.eof {
        (st, true)
    } else {
        let q = ws_end(inp, st.pos);
        if matches_at(inp, q, slash_slash()) {
            let r = until_end(inp, q + 2, newline());
            proof {
                lemma_ws_end(inp, st.pos);
                lemma_until_end(inp, q + 2, newline());
            }
            if inp.historical {
                let st2 = bump(LexState { pos: r, ..st }, LexDiag::CppCommentInHistorical { loc: loc_at(inp, q) });
                if st2.error_count >= MAX_ERROR_COUNT {
                    (st2, false)
                } else {
                    skip_wc(inp, st2)
                }
            } else {
                skip_wc(inp, LexState { pos: r, ..st })
            }
        } else if matches_at(inp, q, slash_star()) {
            proof {
                lemma_ws_end(inp, st.pos);
                lemma_find_from(inp, q + 2, star_slash());
            }
            match find_from(inp, q + 2, star_slash()) {
                Some(j) => skip_wc(inp, LexState { pos: j + 2, ..st }),
                None => (
                    LexState {
                        pos: inp.eof,
                        token: Token::ParseError,
                        diags: st.diags.push(
                            LexDiag::UnfinishedComment { loc: loc_at(inp, inp.eof), begin: loc_at(inp, q) },
                        ),
                        ..st
                    },
                    false,
                ),
            }
        } else {
            (LexState { pos: q, ..st }, true)
        }
    }
}

/// The escape characters: `*`, and also `\` outside the historical mode.
pub open spec fn is_escape_char(inp: LexInput, c: u8) -> bool {
    c == '*' as u8 || (!inp.historical && c == '\\' as u8)
}

/// The byte that an escape sequence `esc y` stands for, inside a literal delimited by `delim`.
pub open spec fn escape_value(y: u8, delim: u8, esc: u8) -> Option<u8> {
    if y == '0' as u8 {
        Some(0u8)
    } else if y == 'n' as u8 {
        Some(10u8)
    } else if y == 't' as u8 {
        Some(9u8)
    } else if y == 'r' as u8 {
        Some(13u8)
    } else if y == 'e' as u8 {
        Some(4u8)
    } else if y == delim {
        Some(delim)
    } else if y == esc {
        Some(esc)
    } else {
        None
    }
}

/// The escapes of B and the bytes they stand for, whatever the delimiter and the
/// escape character: `0` NUL, `n` newline (10), `t` tab (9), `r` carriage return
/// (13), `e` end of transmission (4); the delimiter and the escape character stand
/// for themselves, and no other byte makes an escape.
pub proof fn law_escape_values(delim: u8, esc: u8)
    ensures
        escape_value('0' as u8, delim, esc) == Some(0u8),
        escape_value('n' as u8, delim, esc) == Some(10u8),
        escape_value('t' as u8, delim, esc) == Some(9u8),
        escape_value('r' as u8, delim, esc) == Some(13u8),
        escape_value('e' as u8, delim, esc) == Some(4u8),
        forall|y: u8| y != '0' as u8 && y != 'n' as u8 && y != 't' as u8 && y != 'r' as u8 && y != 'e' as u8
            ==> #[trigger] escape_value(y, delim, esc) == (if y == delim {
                Some(delim)
            } else if y == esc {
                Some(esc)
            } else {
                None
            }),
{
}

/// Two different escapes stand for two different bytes, where the delimiter and the
/// escape character differ, stand for no other escape and are no escape letter.
pub proof fn law_escapes_distinct(y1: u8, y2: u8, delim: u8, esc: u8)
    requires
        y1 != y2,
        delim != esc,
        escape_value(y1, delim, esc) is Some,
        escape_value(y2, delim, esc) is Some,
        delim != 0 && delim != 10 && delim != 9 && delim != 13 && delim != 4,
        esc != 0 && esc != 10 && esc != 9 && esc != 13 && esc != 4,
        delim != '0' as u8 && delim != 'n' as u8 && delim != 't' as u8 && delim != 'r' as u8 && delim != 'e' as u8,
        esc != '0' as u8 && esc != 'n' as u8 && esc != 't' as u8 && esc != 'r' as u8 && esc != 'e' as u8,
    ensures
        escape_value(y1, delim, esc) != escape_value(y2, delim, esc),
{
}

/// Reading the body of a literal delimited by `delim` into the storage, up to
/// (not past) the closing delimiter or the end of the input. The flag is false
/// where lexing has to stop: an escape at the end of the input (the token becomes
/// `Token::ParseError`), or too many errors from unknown escapes.
pub open spec fn str_scan(inp: LexInput, delim: u8, st: LexState) -> (LexState, bool)
    decreases inp.eof - st.pos,
{
    if st.pos < 0 || st.pos >= inp.eof {
        (st, true)
    } else {
        let x = inp.input[st.pos];
        if is_escape_char(inp, x) {
            let p1 = st.pos + 1;
            if p1 >= inp.eof {
                (
                    LexState {
                        pos: p1,
                        token: Token::ParseError,
                        diags: st.diags.push(LexDiag::UnfinishedEscape { loc: loc_at(inp, p1) }),
                        ..st
                    },
                    false,
                )
            } else {
                let y = inp.input[p1];
                match escape_value(y, delim, x) {
                    Some(v) => str_scan(inp, delim, LexState { pos: p1 + 1, storage: st.storage.push(v), ..st }),
                    None => {
                        let st2 = bump(LexState { pos: p1 + 1, ..st }, LexDiag::UnknownEscape { loc: loc_at(inp, p1), c: y });
                        if st2.error_count >= MAX_ERROR_COUNT {
                            (st2, false)
                        } else {
                            str_scan(inp, delim, st2)
                        }
                    },
                }
            }
        } else if x == delim {
            (st, true)
        } else {
            str_scan(inp, delim, LexState { pos: st.pos + 1, storage: st.storage.push(x), ..st })
        }
    }
}

/// Reading a literal leaves the token location alone.
pub proof fn lemma_str_scan_keeps_loc(inp: LexInput, delim: u8, st: LexState)
    ensures
        str_scan(inp, delim, st).0.loc == st.loc,
    decreases inp.eof - st.pos,
{
    if 0 <= st.pos < inp.eof {
        let x = inp.input[st.pos];
        let p1 = st.pos + 1;
        if is_escape_char(inp, x) {
            if p1 < inp.eof {
                let y = inp.input[p1];
                match escape_value(y, delim, x) {
                    Some(v) => lemma_str_scan_keeps_loc(inp, delim, LexState { pos: p1 + 1, storage: st.storage.push(v), ..st }),
                    None => lemma_str_scan_keeps_loc(
                        inp,
                        delim,
                        bump(LexState { pos: p1 + 1, ..st }, LexDiag::UnknownEscape { loc: loc_at(inp, p1), c: y }),
                    ),
                }
            }
        } else if x != delim {
            lemma_str_scan_keeps_loc(inp, delim, LexState { pos: st.pos + 1, storage: st.storage.push(x), ..st });
        }
    }
}

/// The bytes of a C string: everything before the first zero byte.
pub open spec fn cstr(s: Seq<u8>) -> Seq<u8>
    decreases s.len(),
{
    if s.len() == 0 {
        s
    } else if s[0] == 0 {
        Seq::empty()
    } else {
        seq![s[0]] + cstr(s.drop_first())
    }
}

/// A digit of a number literal in the given radix.
pub open spec fn lex_digit(c: u8, radix: Radix) -> bool {
    ||| is_digit(c) && c - 48 < radix_base(radix)
    ||| radix == Radix::Hex && 97 <= to_lower(c) <= 102
}

/// The end of the run of digits that starts at `p`.
pub open spec fn digits_end(inp: LexInput, p: int, radix: Radix) -> int
    decreases inp.eof - p,
{
    if p < 0 || p >= inp.eof || !lex_digit(inp.input[p], radix) {
        p
    } else {
        digits_end(inp, p + 1, radix)
    }
}

/// Reading the digits of a number at `st.pos` into the storage. The text of the
/// token becomes the C string in the storage; the flag says it is not empty.
pub open spec fn scan_number(inp: LexInput, st: LexState, radix: Radix) -> (LexState, bool) {
    let d = digits_end(inp, st.pos, radix);
    let storage = st.storage + inp.input.subrange(st.pos, d) + seq![0u8];
    (
        LexState { pos: d, storage, radix, string: Some(cstr(storage)), ..st },
        cstr(storage).len() > 0,
    )
}

/// Identifier characters: letters, digits and `_`.
pub open spec fn is_ident_char(c: u8) -> bool {
    is_alnum(c) || c == '_' as u8
}

/// Characters that start an identifier: letters and `_`.
pub open spec fn is_ident_start(c: u8) -> bool {
    is_alpha(c) || c == '_' as u8
}

/// The end of the run of identifier characters that starts at `p`.
pub open spec fn ident_end(inp: LexInput, p: int) -> int
    decreases inp.eof - p,
{
    if p < 0 || p >= inp.eof || !is_ident_char(inp.input[p]) {
        p
    } else {
        ident_end(inp, p + 1)
    }
}

/// The first entry of table `t`, from entry `i` on, whose text occurs at `p`: its length and token.
pub open spec fn first_punct(inp: LexInput, p: int, t: PunctTable, i: int) -> Option<(int, Token)>
    decreases punct_count(t) - i,
{
    if i < 0 || i >= punct_count(t) {
        None
    } else if matches_at(inp, p, punct(t, i).0) {
        Some((punct(t, i).0.len() as int, punct(t, i).1))
    } else {
        first_punct(inp, p, t, i + 1)
    }
}

/// The punctuation token at `p`: the historical table is searched first, then,
/// outside the historical mode, the modern one, then the common one.
pub open spec fn punct_at(inp: LexInput, p: int) -> Option<(int, Token)> {
    match first_punct(inp, p, PunctTable::Historical, 0) {
        Some(r) => Some(r),
        None => {
            if !inp.historical && first_punct(inp, p, PunctTable::Modern, 0) is Some {
                first_punct(inp, p, PunctTable::Modern, 0)
            } else {
                first_punct(inp, p, PunctTable::Common, 0)
            }
        },
    }
}

/// A quoted literal (string or character) whose opening delimiter is at `st.pos`.
pub open spec fn lex_quoted(inp: LexInput, st: LexState, delim: u8, token: Token) -> (LexState, bool) {
    let (s2, ok) = str_scan(inp, delim, LexState { pos: st.pos + 1, token, storage: Seq::empty(), ..st });
    if !ok {
        (s2, false)
    } else if s2.pos >= inp.eof {
        let d = if token == Token::String {
            LexDiag::UnfinishedString { loc: loc_at(inp, s2.pos), start: st.loc }
        } else {
            LexDiag::UnfinishedChar { loc: loc_at(inp, s2.pos), start: st.loc }
        };
        (LexState { token: Token::ParseError, diags: s2.diags.push(d), ..s2 }, false)
    } else {
        let s3 = LexState { pos: s2.pos + 1, ..s2 };
        if token == Token::CharLit && s3.storage.len() == 0 {
            let s4 = bump(s3, LexDiag::EmptyChar { loc: st.loc });
            if s4.error_count >= MAX_ERROR_COUNT {
                (s4, false)
            } else {
                let storage = s4.storage.push(0);
                (LexState { storage, string: Some(cstr(storage)), ..s4 }, true)
            }
        } else {
            let storage = s3.storage.push(0);
            (LexState { storage, string: Some(cstr(storage)), ..s3 }, true)
        }
    }
}

/// A token that is not punctuation, starting at `st.pos` (before the end of input).
pub open spec fn lex_word(inp: LexInput, st: LexState) -> (LexState, bool) {
    let p = st.pos;
    let x = inp.input[p];
    if is_ident_start(x) {
        let e = ident_end(inp, p);
        let id = inp.input.subrange(p, e);
        (LexState { pos: e, token: keyword_token(id), storage: id.push(0), string: Some(id), ..st }, true)
    } else if matches_at(inp, p, s2('0', 'x')) {
        let (s1, ok) = scan_number(inp, LexState { pos: p + 2, ..st }, Radix::Hex);
        if inp.historical {
            let sb = bump(s1, LexDiag::HexInHistorical { loc: loc_at(inp, p) });
            if sb.error_count >= MAX_ERROR_COUNT {
                (sb, false)
            } else {
                (LexState { token: Token::IntLit, storage: Seq::empty(), ..sb }, ok)
            }
        } else {
            (LexState { token: Token::IntLit, storage: Seq::empty(), ..s1 }, ok)
        }
    } else if matches_at(inp, p, s1('0')) && scan_number(
        inp,
        LexState { pos: p + 1, token: Token::IntLit, storage: Seq::empty(), ..st },
        Radix::Oct,
    ).1 {
        (
            scan_number(inp, LexState { pos: p + 1, token: Token::IntLit, storage: Seq::empty(), ..st }, Radix::Oct).0,
            true,
        )
    } else if is_digit(x) {
        scan_number(inp, LexState { token: Token::IntLit, storage: Seq::empty(), ..st }, Radix::Dec)
    } else if x == '"' as u8 {
        lex_quoted(inp, st, '"' as u8, Token::String)
    } else if x == '\'' as u8 {
        lex_quoted(inp, st, '\'' as u8, Token::CharLit)
    } else {
        (
            bump(
                LexState { pos: p + 1, token: Token::ParseError, ..st },
                LexDiag::UnknownToken { loc: st.loc, c: x },
            ),
            false,
        )
    }
}

/// Lexing one token from `st`: the state afterwards, and whether a token was read.
pub open spec fn lex_token(inp: LexInput, st0: LexState) -> (LexState, bool) {
    let (s1, ok) = skip_wc(inp, LexState { string: None, ..st0 });
    if !ok {
        (s1, false)
    } else {
        let s2 = LexState { loc: loc_at(inp, s1.pos), ..s1 };
        if s2.pos >= inp.eof {
            (LexState { token: Token::EOF, ..s2 }, true)
        } else {
            match punct_at(inp, s2.pos) {
                Some((n, t)) => (LexState { pos: s2.pos + n, token: t, ..s2 }, true),
                None => lex_word(inp, s2),
            }
        }
    }
}

/// Lexing until a token is read: tokens that fail are skipped. The flag is false
/// at the end of the input.
pub open spec fn next_valid_token(inp: LexInput, st: LexState) -> (LexState, bool)
    decreases inp.eof - st.pos,
{
    let (s1, ok) = lex_token(inp, st);
    if ok {
        (s1, s1.token != Token::EOF)
    } else if st.pos < s1.pos <= inp.eof {
        next_valid_token(inp, s1)
    } else {
        (s1, false)
    }
}

/// The digits the lexer takes into a number: `0` to `7` in octal, `0` to `9` in
/// decimal, and in hexadecimal also `a` to `f` in either case.
pub proof fn law_number_digits(c: u8, radix: Radix)
    ensures
        lex_digit(c, radix) <==> (48 <= c && c <= 57 && c < 48 + radix_base(radix))
            || (radix == Radix::Hex && ((97 <= c && c <= 102) || (65 <= c && c <= 70))),
        radix == Radix::Oct ==> radix_base(radix) == 8,
        radix == Radix::Dec ==> radix_base(radix) == 10,
        radix == Radix::Hex ==> radix_base(radix) == 16,
{
    if 65 <= c <= 90 {
        assert(to_lower(c) == c + 32);
    } else {
        assert(to_lower(c) == c);
    }
}

} // verus!
