//! The punctuation and keyword tables of the lexer.
//!
//! The order inside the punctuation tables matters: the tables are checked as
//! prefixes of the input one entry after another, so a token whose text is a
//! prefix of another one's must come after it (`+=` before `+`).
use vstd::prelude::*;
use super::Token;

verus! {

/// The three punctuation tables.
#[derive(Clone, Copy, PartialEq, Eq, Structural, Debug)]
pub enum PunctTable {
    /// `=-`, `=+`, ... : always recognised, also outside the historical mode.
    Historical,
    /// `-=`, `+=`, ... : recognised only outside the historical mode.
    Modern,
    /// Everything else.
    Common,
}

/// The sizes of the punctuation tables and of the keyword table.
pub const HISTORICAL_PUNCTS_COUNT: usize = 10;
pub const MODERN_PUNCTS_COUNT: usize = 9;
pub const COMMON_PUNCTS_COUNT: usize = 30;
pub const KEYWORDS_COUNT: usize = 11;

/// The number of entries of a punctuation table.
pub open spec fn punct_count(t: PunctTable) -> int {
    match t {
        PunctTable::Historical => HISTORICAL_PUNCTS_COUNT as int,
        PunctTable::Modern => MODERN_PUNCTS_COUNT as int,
        PunctTable::Common => COMMON_PUNCTS_COUNT as int,
    }
}

/// The bytes of one character.
pub open spec fn s1(a: char) -> Seq<u8> {
    seq![a as u8]
}

/// The bytes of two characters.
pub open spec fn s2(a: char, b: char) -> Seq<u8> {
    seq![a as u8, b as u8]
}

/// The bytes of three characters.
pub open spec fn s3(a: char, b: char, c: char) -> Seq<u8> {
    seq![a as u8, b as u8, c as u8]
}

/// Entry `i` of the historical table.
pub open spec fn historical_punct(i: int) -> (Seq<u8>, Token) {
    if i == 0 { (s2('=', '-'), Token::MinusEq) }
    else if i == 1 { (s2('=', '+'), Token::PlusEq) }
    else if i == 2 { (s2('=', '*'), Token::MulEq) }
    else if i == 3 { (s2('=', '%'), Token::ModEq) }
    else if i == 4 { (s2('=', '/'), Token::DivEq) }
    else if i == 5 { (s2('=', '|'), Token::OrEq) }
    else if i == 6 { (s2('=', '&'), Token::AndEq) }
    else if i == 7 { (s2('=', '='), Token::EqEq) }
    else if i == 8 { (s3('=', '<', '<'), Token::ShlEq) }
    else { (s3('=', '>', '>'), Token::ShrEq) }
}

/// Entry `i` of the modern table.
pub open spec fn modern_punct(i: int) -> (Seq<u8>, Token) {
    if i == 0 { (s2('-', '='), Token::MinusEq) }
    else if i == 1 { (s2('+', '='), Token::PlusEq) }
    else if i == 2 { (s2('*', '='), Token::MulEq) }
    else if i == 3 { (s2('%', '='), Token::ModEq) }
    else if i == 4 { (s2('/', '='), Token::DivEq) }
    else if i == 5 { (s2('|', '='), Token::OrEq) }
    else if i == 6 { (s2('&', '='), Token::AndEq) }
    else if i == 7 { (s3('<', '<', '='), Token::ShlEq) }
    else { (s3('>', '>', '='), Token::ShrEq) }
}

/// Entry `i` of the common table.
pub open spec fn common_punct(i: int) -> (Seq<u8>, Token) {
    if i == 0 { (s1('?'), Token::Question) }
    else if i == 1 { (s1('{'), Token::OCurly) }
    else if i == 2 { (s1('}'), Token::CCurly) }
    else if i == 3 { (s1('('), Token::OParen) }
    else if i == 4 { (s1(')'), Token::CParen) }
    else if i == 5 { (s1('['), Token::OBracket) }
    else if i == 6 { (s1(']'), Token::CBracket) }
    else if i == 7 { (s1(';'), Token::SemiColon) }
    else if i == 8 { (s1(':'), Token::Colon) }
    else if i == 9 { (s1(','), Token::Comma) }
    else if i == 10 { (s2('-', '-'), Token::MinusMinus) }
    else if i == 11 { (s1('-'), Token::Minus) }
    else if i == 12 { (s2('+', '+'), Token::PlusPlus) }
    else if i == 13 { (s1('+'), Token::Plus) }
    else if i == 14 { (s1('-'), Token::Minus) }
    else if i == 15 { (s1('*'), Token::Mul) }
    else if i == 16 { (s1('%'), Token::Mod) }
    else if i == 17 { (s1('/'), Token::Div) }
    else if i == 18 { (s1('|'), Token::Or) }
    else if i == 19 { (s1('&'), Token::And) }
    else if i == 20 { (s2('=', '='), Token::EqEq) }
    else if i == 21 { (s2('!', '='), Token::NotEq) }
    else if i == 22 { (s1('!'), Token::Not) }
    else if i == 23 { (s2('<', '<'), Token::Shl) }
    else if i == 24 { (s2('<', '='), Token::LessEq) }
    else if i == 25 { (s1('<'), Token::Less) }
    else if i == 26 { (s2('>', '>'), Token::Shr) }
    else if i == 27 { (s2('>', '='), Token::GreaterEq) }
    else if i == 28 { (s1('='), Token::Eq) }
    else { (s1('>'), Token::Greater) }
}

/// Entry `i` of table `t`.
pub open spec fn punct(t: PunctTable, i: int) -> (Seq<u8>, Token) {
    match t {
        PunctTable::Historical => historical_punct(i),
        PunctTable::Modern => modern_punct(i),
        PunctTable::Common => common_punct(i),
    }
}

/// Entry `i` of the keyword table.
pub open spec fn keyword(i: int) -> (Seq<u8>, Token) {
    if i == 0 { (seq!['a' as u8, 'u' as u8, 't' as u8, 'o' as u8], Token::Auto) }
    else if i == 1 { (seq!['e' as u8, 'x' as u8, 't' as u8, 'r' as u8, 'n' as u8], Token::Extrn) }
    else if i == 2 { (seq!['c' as u8, 'a' as u8, 's' as u8, 'e' as u8], Token::Case) }
    else if i == 3 { (seq!['i' as u8, 'f' as u8], Token::If) }
    else if i == 4 { (seq!['e' as u8, 'l' as u8, 's' as u8, 'e' as u8], Token::Else) }
    else if i == 5 { (seq!['w' as u8, 'h' as u8, 'i' as u8, 'l' as u8, 'e' as u8], Token::While) }
    else if i == 6 { (seq!['s' as u8, 'w' as u8, 'i' as u8, 't' as u8, 'c' as u8, 'h' as u8], Token::Switch) }
    else if i == 7 { (seq!['g' as u8, 'o' as u8, 't' as u8, 'o' as u8], Token::Goto) }
    else if i == 8 { (seq!['r' as u8, 'e' as u8, 't' as u8, 'u' as u8, 'r' as u8, 'n' as u8], Token::Return) }
    else if i == 9 {
        (seq!['_' as u8, '_' as u8, 'a' as u8, 's' as u8, 'm' as u8, '_' as u8, '_' as u8], Token::Asm)
    } else {
        (seq![
            '_' as u8, '_' as u8, 'v' as u8, 'a' as u8, 'r' as u8, 'i' as u8,
            'a' as u8, 'd' as u8, 'i' as u8, 'c' as u8, '_' as u8, '_' as u8,
        ], Token::Variadic)
    }
}

/// The token of the first keyword spelled `id`, searching from entry `i` on;
/// `Token::ID` when there is none.
pub open spec fn keyword_token_from(id: Seq<u8>, i: int) -> Token
    decreases KEYWORDS_COUNT - i,
{
    if i < 0 || i >= KEYWORDS_COUNT {
        Token::ID
    } else if keyword(i).0 == id {
        keyword(i).1
    } else {
        keyword_token_from(id, i + 1)
    }
}

/// The token of an identifier spelled `id`: its keyword, or `Token::ID`.
pub open spec fn keyword_token(id: Seq<u8>) -> Token {
    keyword_token_from(id, 0)
}

/// The number of entries of a punctuation table.
pub fn punct_count_of(t: PunctTable) -> (n: usize)
    ensures
        n == punct_count(t),
{
    match t {
        PunctTable::Historical => HISTORICAL_PUNCTS_COUNT,
        PunctTable::Modern => MODERN_PUNCTS_COUNT,
        PunctTable::Common => COMMON_PUNCTS_COUNT,
    }
}

/// A vector of one byte.
pub fn v1(a: u8) -> (r: Vec<u8>)
    ensures
        r@ == seq![a],
{
    let mut r = Vec::new();
    r.push(a);
    r
}

/// A vector of two bytes.
pub fn v2(a: u8, b: u8) -> (r: Vec<u8>)
    ensures
        r@ == seq![a, b],
{
    let mut r = Vec::new();
    r.push(a);
    r.push(b);
    r
}

/// A vector of three bytes.
pub fn v3(a: u8, b: u8, c: u8) -> (r: Vec<u8>)
    ensures
        r@ == seq![a, b, c],
{
    let mut r = Vec::new();
    r.push(a);
    r.push(b);
    r.push(c);
    r
}

fn historical_entry(i: usize) -> (r: (Vec<u8>, Token))
    requires
        i < HISTORICAL_PUNCTS_COUNT,
    ensures
        r.0@ == historical_punct(i as int).0,
        r.1 == historical_punct(i as int).1,
{
    if i == 0 { (v2('=' as u8, '-' as u8), Token::MinusEq) }
    else if i == 1 { (v2('=' as u8, '+' as u8), Token::PlusEq) }
    else if i == 2 { (v2('=' as u8, '*' as u8), Token::MulEq) }
    else if i == 3 { (v2('=' as u8, '%' as u8), Token::ModEq) }
    else if i == 4 { (v2('=' as u8, '/' as u8), Token::DivEq) }
    else if i == 5 { (v2('=' as u8, '|' as u8), Token::OrEq) }
    else if i == 6 { (v2('=' as u8, '&' as u8), Token::AndEq) }
    else if i == 7 { (v2('=' as u8, '=' as u8), Token::EqEq) }
    else if i == 8 { (v3('=' as u8, '<' as u8, '<' as u8), Token::ShlEq) }
    else { (v3('=' as u8, '>' as u8, '>' as u8), Token::ShrEq) }
}

fn modern_entry(i: usize) -> (r: (Vec<u8>, Token))
    requires
        i < MODERN_PUNCTS_COUNT,
    ensures
        r.0@ == modern_punct(i as int).0,
        r.1 == modern_punct(i as int).1,
{
    if i == 0 { (v2('-' as u8, '=' as u8), Token::MinusEq) }
    else if i == 1 { (v2('+' as u8, '=' as u8), Token::PlusEq) }
    else if i == 2 { (v2('*' as u8, '=' as u8), Token::MulEq) }
    else if i == 3 { (v2('%' as u8, '=' as u8), Token::ModEq) }
    else if i == 4 { (v2('/' as u8, '=' as u8), Token::DivEq) }
    else if i == 5 { (v2('|' as u8, '=' as u8), Token::OrEq) }
    else if i == 6 { (v2('&' as u8, '=' as u8), Token::AndEq) }
    else if i == 7 { (v3('<' as u8, '<' as u8, '=' as u8), Token::ShlEq) }
    else { (v3('>' as u8, '>' as u8, '=' as u8), Token::ShrEq) }
}

fn common_entry(i: usize) -> (r: (Vec<u8>, Token))
    requires
        i < COMMON_PUNCTS_COUNT,
    ensures
        r.0@ == common_punct(i as int).0,
        r.1 == common_punct(i as int).1,
{
    if i == 0 { (v1('?' as u8), Token::Question) }
    else if i == 1 { (v1('{' as u8), Token::OCurly) }
    else if i == 2 { (v1('}' as u8), Token::CCurly) }
    else if i == 3 { (v1('(' as u8), Token::OParen) }
    else if i == 4 { (v1(')' as u8), Token::CParen) }
    else if i == 5 { (v1('[' as u8), Token::OBracket) }
    else if i == 6 { (v1(']' as u8), Token::CBracket) }
    else if i == 7 { (v1(';' as u8), Token::SemiColon) }
    else if i == 8 { (v1(':' as u8), Token::Colon) }
    else if i == 9 { (v1(',' as u8), Token::Comma) }
    else if i == 10 { (v2('-' as u8, '-' as u8), Token::MinusMinus) }
    else if i == 11 { (v1('-' as u8), Token::Minus) }
    else if i == 12 { (v2('+' as u8, '+' as u8), Token::PlusPlus) }
    else if i == 13 { (v1('+' as u8), Token::Plus) }
    else if i == 14 { (v1('-' as u8), Token::Minus) }
    else if i == 15 { (v1('*' as u8), Token::Mul) }
    else if i == 16 { (v1('%' as u8), Token::Mod) }
    else if i == 17 { (v1('/' as u8), Token::Div) }
    else if i == 18 { (v1('|' as u8), Token::Or) }
    else if i == 19 { (v1('&' as u8), Token::And) }
    else if i == 20 { (v2('=' as u8, '=' as u8), Token::EqEq) }
    else if i == 21 { (v2('!' as u8, '=' as u8), Token::NotEq) }
    else if i == 22 { (v1('!' as u8), Token::Not) }
    else if i == 23 { (v2('<' as u8, '<' as u8), Token::Shl) }
    else if i == 24 { (v2('<' as u8, '=' as u8), Token::LessEq) }
    else if i == 25 { (v1('<' as u8), Token::Less) }
    else if i == 26 { (v2('>' as u8, '>' as u8), Token::Shr) }
    else if i == 27 { (v2('>' as u8, '=' as u8), Token::GreaterEq) }
    else if i == 28 { (v1('=' as u8), Token::Eq) }
    else { (v1('>' as u8), Token::Greater) }
}

/// The text and token of entry `i` of table `t`.
pub fn punct_entry(t: PunctTable, i: usize) -> (r: (Vec<u8>, Token))
    requires
        i < punct_count(t),
    ensures
        r.0@ == punct(t, i as int).0,
        r.1 == punct(t, i as int).1,
{
    match t {
        PunctTable::Historical => historical_entry(i),
        PunctTable::Modern => modern_entry(i),
        PunctTable::Common => common_entry(i),
    }
}

/// The text and token of entry `i` of the keyword table.
pub fn keyword_entry(i: usize) -> (r: (Vec<u8>, Token))
    requires
        i < KEYWORDS_COUNT,
    ensures
        r.0@ == keyword(i as int).0,
        r.1 == keyword(i as int).1,
{
    let mut v: Vec<u8> = Vec::new();
    let tok;
    if i == 0 {
        v.push('a' as u8); v.push('u' as u8); v.push('t' as u8); v.push('o' as u8);
        tok = Token::Auto;
    } else if i == 1 {
        v.push('e' as u8); v.push('x' as u8); v.push('t' as u8); v.push('r' as u8); v.push('n' as u8);
        tok = Token::Extrn;
    } else if i == 2 {
        v.push('c' as u8); v.push('a' as u8); v.push('s' as u8); v.push('e' as u8);
        tok = Token::Case;
    } else if i == 3 {
        v.push('i' as u8); v.push('f' as u8);
        tok = Token::If;
    } else if i == 4 {
        v.push('e' as u8); v.push('l' as u8); v.push('s' as u8); v.push('e' as u8);
        tok = Token::Else;
    } else if i == 5 {
        v.push('w' as u8); v.push('h' as u8); v.push('i' as u8); v.push('l' as u8); v.push('e' as u8);
        tok = Token::While;
    } else if i == 6 {
        v.push('s' as u8); v.push('w' as u8); v.push('i' as u8); v.push('t' as u8); v.push('c' as u8);
        v.push('h' as u8);
        tok = Token::Switch;
    } else if i == 7 {
        v.push('g' as u8); v.push('o' as u8); v.push('t' as u8); v.push('o' as u8);
        tok = Token::Goto;
    } else if i == 8 {
        v.push('r' as u8); v.push('e' as u8); v.push('t' as u8); v.push('u' as u8); v.push('r' as u8);
        v.push('n' as u8);
        tok = Token::Return;
    } else if i == 9 {
        v.push('_' as u8); v.push('_' as u8); v.push('a' as u8); v.push('s' as u8); v.push('m' as u8);
        v.push('_' as u8); v.push('_' as u8);
        tok = Token::Asm;
    } else {
        v.push('_' as u8); v.push('_' as u8); v.push('v' as u8); v.push('a' as u8); v.push('r' as u8);
        v.push('i' as u8); v.push('a' as u8); v.push('d' as u8); v.push('i' as u8); v.push('c' as u8);
        v.push('_' as u8); v.push('_' as u8);
        tok = Token::Variadic;
    }
    proof {
        assert(v@ == keyword(i as int).0);
    }
    (v, tok)
}

/// Whether `a` is a prefix of `b` and shorter than it.
pub open spec fn is_proper_prefix(a: Seq<u8>, b: Seq<u8>) -> bool {
    a.len() < b.len() && b.subrange(0, a.len() as int) == a
}

/// In each punctuation table a token that is a prefix of another one comes after
/// it, so that checking the entries in order finds the longest token.
pub proof fn law_longer_punct_first(t: PunctTable, i: int, j: int)
    requires
        0 <= i < j < punct_count(t),
    ensures
        !is_proper_prefix(punct(t, i).0, punct(t, j).0),
{
    let a = punct(t, i).0;
    let b = punct(t, j).0;
    if a.len() < b.len() && b.subrange(0, a.len() as int) == a {
        assert(b[0] == a[0]);
        assert(a.len() == 2 ==> b[1] == a[1]);
    }
}

/// Every keyword is recognised as itself: looking up the text of keyword `i` gives
/// its token, not `Token::ID`.
pub proof fn law_keywords_recognised(i: int)
    requires
        0 <= i < KEYWORDS_COUNT,
    ensures
        keyword_token(keyword(i).0) == keyword(i).1,
        keyword(i).1 != Token::ID,
{
    let w = keyword(i).0;
    assert forall|k: int| 0 <= k < i implies keyword(k).0 != w by {
        if keyword(k).0 == w {
            assert(keyword(k).0.len() == w.len());
            assert(keyword(k).0[0] == w[0]);
            assert(keyword(k).0[1] == w[1]);
            assert(keyword(k).0[2] == w[2]);
        }
    }
    lemma_keyword_token_from(w, 0, i);
}

proof fn lemma_keyword_token_from(id: Seq<u8>, k: int, i: int)
    requires
        0 <= k <= i < KEYWORDS_COUNT,
        keyword(i).0 == id,
        forall|m: int| k <= m < i ==> keyword(m).0 != id,
    ensures
        keyword_token_from(id, k) == keyword(i).1,
    decreases i - k,
{
    if k < i {
        lemma_keyword_token_from(id, k + 1, i);
    }
}

} // verus!
