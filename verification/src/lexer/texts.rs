//! The texts that name tokens in messages, held against the lexer's tables.
use vstd::prelude::*;
use super::{Token, token_text};
use super::tables::{PunctTable, punct, punct_count, keyword, s1, s2, s3, KEYWORDS_COUNT};

verus! {

/// Bytes read as characters, one for one.
pub open spec fn byte_chars(b: Seq<u8>) -> Seq<char> {
    b.map_values(|c: u8| c as char)
}

/// A spelling between backquotes.
pub open spec fn quoted(b: Seq<u8>) -> Seq<char> {
    seq!['`'] + byte_chars(b) + seq!['`']
}

/// A keyword's spelling between backquotes, after the word `keyword` and a space.
pub open spec fn keyword_text(b: Seq<u8>) -> Seq<char> {
    seq!['k', 'e', 'y', 'w', 'o', 'r', 'd', ' '] + quoted(b)
}

/// A token of the modern or of the common punctuation table is named by its
/// spelling in that table, between backquotes. (The historical table spells
/// `=-` what is named `-=`: its entries are named by their modern spelling.)
pub proof fn law_punct_texts(t: PunctTable, i: int)
    requires
        t != PunctTable::Historical,
        0 <= i < punct_count(t),
    ensures
        token_text(punct(t, i).1) == quoted(punct(t, i).0),
{
    if t == PunctTable::Modern {
        if i == 0 {
            reveal_strlit("`-=`");
            assert(quoted(s2('-', '=')) =~= token_text(Token::MinusEq));
        } else if i == 1 {
            reveal_strlit("`+=`");
            assert(quoted(s2('+', '=')) =~= token_text(Token::PlusEq));
        } else if i == 2 {
            reveal_strlit("`*=`");
            assert(quoted(s2('*', '=')) =~= token_text(Token::MulEq));
        } else if i == 3 {
            reveal_strlit("`%=`");
            assert(quoted(s2('%', '=')) =~= token_text(Token::ModEq));
        } else if i == 4 {
            reveal_strlit("`/=`");
            assert(quoted(s2('/', '=')) =~= token_text(Token::DivEq));
        } else if i == 5 {
            reveal_strlit("`|=`");
            assert(quoted(s2('|', '=')) =~= token_text(Token::OrEq));
        } else if i == 6 {
            reveal_strlit("`&=`");
            assert(quoted(s2('&', '=')) =~= token_text(Token::AndEq));
        } else if i == 7 {
            reveal_strlit("`<<=`");
            assert(quoted(s3('<', '<', '=')) =~= token_text(Token::ShlEq));
        } else if i == 8 {
            reveal_strlit("`>>=`");
            assert(quoted(s3('>', '>', '=')) =~= token_text(Token::ShrEq));
        }
    } else {
        if i == 0 {
            reveal_strlit("`?`");
            assert(quoted(s1('?')) =~= token_text(Token::Question));
        } else if i == 1 {
            reveal_strlit("`{`");
            assert(quoted(s1('{')) =~= token_text(Token::OCurly));
        } else if i == 2 {
            reveal_strlit("`}`");
            assert(quoted(s1('}')) =~= token_text(Token::CCurly));
        } else if i == 3 {
            reveal_strlit("`(`");
            assert(quoted(s1('(')) =~= token_text(Token::OParen));
        } else if i == 4 {
            reveal_strlit("`)`");
            assert(quoted(s1(')')) =~= token_text(Token::CParen));
        } else if i == 5 {
            reveal_strlit("`[`");
            assert(quoted(s1('[')) =~= token_text(Token::OBracket));
        } else if i == 6 {
            reveal_strlit("`]`");
            assert(quoted(s1(']')) =~= token_text(Token::CBracket));
        } else if i == 7 {
            reveal_strlit("`;`");
            assert(quoted(s1(';')) =~= token_text(Token::SemiColon));
        } else if i == 8 {
            reveal_strlit("`:`");
            assert(quoted(s1(':')) =~= token_text(Token::Colon));
        } else if i == 9 {
            reveal_strlit("`,`");
            assert(quoted(s1(',')) =~= token_text(Token::Comma));
        } else if i == 10 {
            reveal_strlit("`--`");
            assert(quoted(s2('-', '-')) =~= token_text(Token::MinusMinus));
        } else if i == 11 {
            reveal_strlit("`-`");
            assert(quoted(s1('-')) =~= token_text(Token::Minus));
        } else if i == 12 {
            reveal_strlit("`++`");
            assert(quoted(s2('+', '+')) =~= token_text(Token::PlusPlus));
        } else if i == 13 {
            reveal_strlit("`+`");
            assert(quoted(s1('+')) =~= token_text(Token::Plus));
        } else if i == 14 {
            reveal_strlit("`-`");
            assert(quoted(s1('-')) =~= token_text(Token::Minus));
        } else if i == 15 {
            reveal_strlit("`*`");
            assert(quoted(s1('*')) =~= token_text(Token::Mul));
        } else if i == 16 {
            reveal_strlit("`%`");
            assert(quoted(s1('%')) =~= token_text(Token::Mod));
        } else if i == 17 {
            reveal_strlit("`/`");
            assert(quoted(s1('/')) =~= token_text(Token::Div));
        } else if i == 18 {
            reveal_strlit("`|`");
            assert(quoted(s1('|')) =~= token_text(Token::Or));
        } else if i == 19 {
            reveal_strlit("`&`");
            assert(quoted(s1('&')) =~= token_text(Token::And));
        } else if i == 20 {
            reveal_strlit("`==`");
            assert(quoted(s2('=', '=')) =~= token_text(Token::EqEq));
        } else if i == 21 {
            reveal_strlit("`!=`");
            assert(quoted(s2('!', '=')) =~= token_text(Token::NotEq));
        } else if i == 22 {
            reveal_strlit("`!`");
            assert(quoted(s1('!')) =~= token_text(Token::Not));
        } else if i == 23 {
            reveal_strlit("`<<`");
            assert(quoted(s2('<', '<')) =~= token_text(Token::Shl));
        } else if i == 24 {
            reveal_strlit("`<=`");
            assert(quoted(s2('<', '=')) =~= token_text(Token::LessEq));
        } else if i == 25 {
            reveal_strlit("`<`");
            assert(quoted(s1('<')) =~= token_text(Token::Less));
        } else if i == 26 {
            reveal_strlit("`>>`");
            assert(quoted(s2('>', '>')) =~= token_text(Token::Shr));
        } else if i == 27 {
            reveal_strlit("`>=`");
            assert(quoted(s2('>', '=')) =~= token_text(Token::GreaterEq));
        } else if i == 28 {
            reveal_strlit("`=`");
            assert(quoted(s1('=')) =~= token_text(Token::Eq));
        } else if i == 29 {
            reveal_strlit("`>`");
            assert(quoted(s1('>')) =~= token_text(Token::Greater));
        }
    }
}

/// A keyword is named by the word `keyword` and its spelling in the keyword
/// table, between backquotes.
pub proof fn law_keyword_texts(i: int)
    requires
        0 <= i < KEYWORDS_COUNT,
    ensures
        token_text(keyword(i).1) == keyword_text(keyword(i).0),
{
    if i == 0 {
        reveal_strlit("keyword `auto`");
        assert(keyword_text(keyword(0).0) =~= token_text(Token::Auto));
    } else if i == 1 {
        reveal_strlit("keyword `extrn`");
        assert(keyword_text(keyword(1).0) =~= token_text(Token::Extrn));
    } else if i == 2 {
        reveal_strlit("keyword `case`");
        assert(keyword_text(keyword(2).0) =~= token_text(Token::Case));
    } else if i == 3 {
        reveal_strlit("keyword `if`");
        assert(keyword_text(keyword(3).0) =~= token_text(Token::If));
    } else if i == 4 {
        reveal_strlit("keyword `else`");
        assert(keyword_text(keyword(4).0) =~= token_text(Token::Else));
    } else if i == 5 {
        reveal_strlit("keyword `while`");
        assert(keyword_text(keyword(5).0) =~= token_text(Token::While));
    } else if i == 6 {
        reveal_strlit("keyword `switch`");
        assert(keyword_text(keyword(6).0) =~= token_text(Token::Switch));
    } else if i == 7 {
        reveal_strlit("keyword `goto`");
        assert(keyword_text(keyword(7).0) =~= token_text(Token::Goto));
    } else if i == 8 {
        reveal_strlit("keyword `return`");
        assert(keyword_text(keyword(8).0) =~= token_text(Token::Return));
    } else if i == 9 {
        reveal_strlit("keyword `__asm__`");
        assert(keyword_text(keyword(9).0) =~= token_text(Token::Asm));
    } else if i == 10 {
        reveal_strlit("keyword `__variadic__`");
        assert(keyword_text(keyword(10).0) =~= token_text(Token::Variadic));
    }
}

/// The character at index `i` of `s` as its code; `-1` past the end.
spec fn char_at(s: Seq<char>, i: int) -> int {
    if 0 <= i < s.len() { s[i] as int } else { -1 }
}

/// What tells the texts of `token_text` apart: the length and the characters at
/// indices 0, 1, 2 and 9, each as its code (`-1` past the end).
spec fn text_key(s: Seq<char>) -> (int, int, int, int, int) {
    (s.len() as int, char_at(s, 0), char_at(s, 1), char_at(s, 2), char_at(s, 9))
}

/// The token whose text has key `k`; `Token::ParseError` for a key that is no token's.
spec fn token_of_key(k: (int, int, int, int, int)) -> Token {
    if k == (11int, 101int, 110int, 100int, 108int) {
        Token::EOF
    } else if k == (11int, 112int, 97int, 114int, 111int) {
        Token::ParseError
    } else if k == (10int, 105int, 100int, 101int, 114int) {
        Token::ID
    } else if k == (6int, 115int, 116int, 114int, -1int) {
        Token::String
    } else if k == (9int, 99int, 104int, 97int, -1int) {
        Token::CharLit
    } else if k == (15int, 105int, 110int, 116int, 105int) {
        Token::IntLit
    } else if k == (3int, 96int, 123int, 96int, -1int) {
        Token::OCurly
    } else if k == (3int, 96int, 125int, 96int, -1int) {
        Token::CCurly
    } else if k == (3int, 96int, 40int, 96int, -1int) {
        Token::OParen
    } else if k == (3int, 96int, 41int, 96int, -1int) {
        Token::CParen
    } else if k == (3int, 96int, 91int, 96int, -1int) {
        Token::OBracket
    } else if k == (3int, 96int, 93int, 96int, -1int) {
        Token::CBracket
    } else if k == (3int, 96int, 33int, 96int, -1int) {
        Token::Not
    } else if k == (3int, 96int, 42int, 96int, -1int) {
        Token::Mul
    } else if k == (3int, 96int, 47int, 96int, -1int) {
        Token::Div
    } else if k == (3int, 96int, 37int, 96int, -1int) {
        Token::Mod
    } else if k == (3int, 96int, 38int, 96int, -1int) {
        Token::And
    } else if k == (3int, 96int, 43int, 96int, -1int) {
        Token::Plus
    } else if k == (4int, 96int, 43int, 43int, -1int) {
        Token::PlusPlus
    } else if k == (3int, 96int, 45int, 96int, -1int) {
        Token::Minus
    } else if k == (4int, 96int, 45int, 45int, -1int) {
        Token::MinusMinus
    } else if k == (3int, 96int, 60int, 96int, -1int) {
        Token::Less
    } else if k == (4int, 96int, 60int, 61int, -1int) {
        Token::LessEq
    } else if k == (3int, 96int, 62int, 96int, -1int) {
        Token::Greater
    } else if k == (4int, 96int, 62int, 61int, -1int) {
        Token::GreaterEq
    } else if k == (3int, 96int, 124int, 96int, -1int) {
        Token::Or
    } else if k == (4int, 96int, 33int, 61int, -1int) {
        Token::NotEq
    } else if k == (3int, 96int, 61int, 96int, -1int) {
        Token::Eq
    } else if k == (4int, 96int, 61int, 61int, -1int) {
        Token::EqEq
    } else if k == (4int, 96int, 60int, 60int, -1int) {
        Token::Shl
    } else if k == (5int, 96int, 60int, 60int, -1int) {
        Token::ShlEq
    } else if k == (4int, 96int, 62int, 62int, -1int) {
        Token::Shr
    } else if k == (5int, 96int, 62int, 62int, -1int) {
        Token::ShrEq
    } else if k == (4int, 96int, 37int, 61int, -1int) {
        Token::ModEq
    } else if k == (4int, 96int, 124int, 61int, -1int) {
        Token::OrEq
    } else if k == (4int, 96int, 38int, 61int, -1int) {
        Token::AndEq
    } else if k == (4int, 96int, 43int, 61int, -1int) {
        Token::PlusEq
    } else if k == (4int, 96int, 45int, 61int, -1int) {
        Token::MinusEq
    } else if k == (4int, 96int, 42int, 61int, -1int) {
        Token::MulEq
    } else if k == (4int, 96int, 47int, 61int, -1int) {
        Token::DivEq
    } else if k == (3int, 96int, 63int, 96int, -1int) {
        Token::Question
    } else if k == (3int, 96int, 58int, 96int, -1int) {
        Token::Colon
    } else if k == (3int, 96int, 59int, 96int, -1int) {
        Token::SemiColon
    } else if k == (3int, 96int, 44int, 96int, -1int) {
        Token::Comma
    } else if k == (14int, 107int, 101int, 121int, 97int) {
        Token::Auto
    } else if k == (15int, 107int, 101int, 121int, 101int) {
        Token::Extrn
    } else if k == (14int, 107int, 101int, 121int, 99int) {
        Token::Case
    } else if k == (12int, 107int, 101int, 121int, 105int) {
        Token::If
    } else if k == (14int, 107int, 101int, 121int, 101int) {
        Token::Else
    } else if k == (15int, 107int, 101int, 121int, 119int) {
        Token::While
    } else if k == (16int, 107int, 101int, 121int, 115int) {
        Token::Switch
    } else if k == (14int, 107int, 101int, 121int, 103int) {
        Token::Goto
    } else if k == (16int, 107int, 101int, 121int, 114int) {
        Token::Return
    } else if k == (17int, 107int, 101int, 121int, 95int) {
        Token::Asm
    } else if k == (22int, 107int, 101int, 121int, 95int) {
        Token::Variadic
    } else {
        Token::ParseError
    }
}

/// Reading a token's text back gives the token.
proof fn lemma_text_names_token(t: Token)
    ensures
        token_of_key(text_key(token_text(t))) == t,
{
    match t {
        Token::EOF => {
            reveal_strlit("end of file");
        },
        Token::ParseError => {
            reveal_strlit("parse error");
        },
        Token::ID => {
            reveal_strlit("identifier");
        },
        Token::String => {
            reveal_strlit("string");
        },
        Token::CharLit => {
            reveal_strlit("character");
        },
        Token::IntLit => {
            reveal_strlit("integer literal");
        },
        Token::OCurly => {
            reveal_strlit("`{`");
        },
        Token::CCurly => {
            reveal_strlit("`}`");
        },
        Token::OParen => {
            reveal_strlit("`(`");
        },
        Token::CParen => {
            reveal_strlit("`)`");
        },
        Token::OBracket => {
            reveal_strlit("`[`");
        },
        Token::CBracket => {
            reveal_strlit("`]`");
        },
        Token::Not => {
            reveal_strlit("`!`");
        },
        Token::Mul => {
            reveal_strlit("`*`");
        },
        Token::Div => {
            reveal_strlit("`/`");
        },
        Token::Mod => {
            reveal_strlit("`%`");
        },
        Token::And => {
            reveal_strlit("`&`");
        },
        Token::Plus => {
            reveal_strlit("`+`");
        },
        Token::PlusPlus => {
            reveal_strlit("`++`");
        },
        Token::Minus => {
            reveal_strlit("`-`");
        },
        Token::MinusMinus => {
            reveal_strlit("`--`");
        },
        Token::Less => {
            reveal_strlit("`<`");
        },
        Token::LessEq => {
            reveal_strlit("`<=`");
        },
        Token::Greater => {
            reveal_strlit("`>`");
        },
        Token::GreaterEq => {
            reveal_strlit("`>=`");
        },
        Token::Or => {
            reveal_strlit("`|`");
        },
        Token::NotEq => {
            reveal_strlit("`!=`");
        },
        Token::Eq => {
            reveal_strlit("`=`");
        },
        Token::EqEq => {
            reveal_strlit("`==`");
        },
        Token::Shl => {
            reveal_strlit("`<<`");
        },
        Token::ShlEq => {
            reveal_strlit("`<<=`");
        },
        Token::Shr => {
            reveal_strlit("`>>`");
        },
        Token::ShrEq => {
            reveal_strlit("`>>=`");
        },
        Token::ModEq => {
            reveal_strlit("`%=`");
        },
        Token::OrEq => {
            reveal_strlit("`|=`");
        },
        Token::AndEq => {
            reveal_strlit("`&=`");
        },
        Token::PlusEq => {
            reveal_strlit("`+=`");
        },
        Token::MinusEq => {
            reveal_strlit("`-=`");
        },
        Token::MulEq => {
            reveal_strlit("`*=`");
        },
        Token::DivEq => {
            reveal_strlit("`/=`");
        },
        Token::Question => {
            reveal_strlit("`?`");
        },
        Token::Colon => {
            reveal_strlit("`:`");
        },
        Token::SemiColon => {
            reveal_strlit("`;`");
        },
        Token::Comma => {
            reveal_strlit("`,`");
        },
        Token::Auto => {
            reveal_strlit("keyword `auto`");
        },
        Token::Extrn => {
            reveal_strlit("keyword `extrn`");
        },
        Token::Case => {
            reveal_strlit("keyword `case`");
        },
        Token::If => {
            reveal_strlit("keyword `if`");
        },
        Token::Else => {
            reveal_strlit("keyword `else`");
        },
        Token::While => {
            reveal_strlit("keyword `while`");
        },
        Token::Switch => {
            reveal_strlit("keyword `switch`");
        },
        Token::Goto => {
            reveal_strlit("keyword `goto`");
        },
        Token::Return => {
            reveal_strlit("keyword `return`");
        },
        Token::Asm => {
            reveal_strlit("keyword `__asm__`");
        },
        Token::Variadic => {
            reveal_strlit("keyword `__variadic__`");
        },
    }
}

/// No two tokens are named by the same text.
pub proof fn law_token_texts_distinct(t1: Token, t2: Token)
    requires
        t1 != t2,
    ensures
        token_text(t1) != token_text(t2),
{
    lemma_text_names_token(t1);
    lemma_text_names_token(t2);
}

} // verus!
