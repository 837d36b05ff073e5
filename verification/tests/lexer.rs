use b_lang::ir::Radix;
use b_lang::lexer::{self, display_token, get_next_valid_token, get_token, LexDiag, Lexer, Loc, Token};
use b_lang::lexer::tables::{keyword_entry, punct_entry, PunctTable, COMMON_PUNCTS_COUNT, KEYWORDS_COUNT, MODERN_PUNCTS_COUNT};

fn lexer_for(src: &str, historical: bool) -> Lexer {
    let bytes = src.as_bytes().to_vec();
    let eof = bytes.len();
    lexer::new(0, bytes, eof, historical, 0)
}

fn tokens(src: &str, historical: bool) -> Vec<(Token, Option<Vec<u8>>)> {
    let mut l = lexer_for(src, historical);
    let mut out = Vec::new();
    loop {
        let ok = get_token(&mut l);
        out.push((l.token, l.string.clone()));
        if ok.is_some() && l.token == Token::EOF {
            break;
        }
        if out.len() > 1000 {
            panic!("lexer does not stop");
        }
    }
    out
}

fn kinds(src: &str) -> Vec<Token> {
    tokens(src, false).into_iter().map(|(t, _)| t).collect()
}

#[test]
fn test_empty_input_is_eof() {
    assert_eq!(kinds(""), vec![Token::EOF]);
    assert_eq!(kinds("   \n\t "), vec![Token::EOF]);
}

#[test]
fn test_keywords_and_identifiers() {
    let toks = tokens("auto extrn if else while switch goto return case __asm__ __variadic__ autox", false);
    let ks: Vec<Token> = toks.iter().map(|(t, _)| *t).collect();
    assert_eq!(
        ks,
        vec![
            Token::Auto,
            Token::Extrn,
            Token::If,
            Token::Else,
            Token::While,
            Token::Switch,
            Token::Goto,
            Token::Return,
            Token::Case,
            Token::Asm,
            Token::Variadic,
            Token::ID,
            Token::EOF,
        ]
    );
    assert_eq!(toks[11].1.as_deref(), Some(&b"autox"[..]));
}

#[test]
fn test_longest_punctuation_wins() {
    assert_eq!(
        kinds("a <<= b >>= c == d != e <= f >= g ++ h -- i"),
        vec![
            Token::ID,
            Token::ShlEq,
            Token::ID,
            Token::ShrEq,
            Token::ID,
            Token::EqEq,
            Token::ID,
            Token::NotEq,
            Token::ID,
            Token::LessEq,
            Token::ID,
            Token::GreaterEq,
            Token::ID,
            Token::PlusPlus,
            Token::ID,
            Token::MinusMinus,
            Token::ID,
            Token::EOF,
        ]
    );
}

#[test]
fn test_numbers_in_three_radixes() {
    let toks = tokens("42 017 0x1F 0", false);
    assert_eq!(toks[0].0, Token::IntLit);
    assert_eq!(toks[0].1.as_deref(), Some(&b"42"[..]));
    assert_eq!(toks[1].0, Token::IntLit);
    assert_eq!(toks[1].1.as_deref(), Some(&b"17"[..]));
    assert_eq!(toks[2].0, Token::IntLit);
    assert_eq!(toks[3].0, Token::IntLit);
    assert_eq!(toks[3].1.as_deref(), Some(&b"0"[..]));
    let toks = tokens("0x1F", false);
    assert_eq!(toks[0].0, Token::IntLit);
    assert_eq!(toks[0].1.as_deref(), Some(&b"1F"[..]));
}

#[test]
fn test_hex_digits_follow_what_the_storage_held() {
    // The storage is emptied after a hexadecimal number is read, not before, so its
    // text is whatever C string the storage held first.
    let toks = tokens("017 0x1F", false);
    assert_eq!(toks[1].0, Token::IntLit);
    assert_eq!(toks[1].1.as_deref(), Some(&b"17"[..]));
}

#[test]
fn test_radix_is_recorded() {
    let mut l = lexer_for("0x10 010 10", false);
    assert!(get_token(&mut l).is_some());
    assert_eq!(l.radix, Radix::Hex);
    assert!(get_token(&mut l).is_some());
    assert_eq!(l.radix, Radix::Oct);
    assert!(get_token(&mut l).is_some());
    assert_eq!(l.radix, Radix::Dec);
}

#[test]
fn test_string_and_char_escapes() {
    let toks = tokens("\"a*nb*e\" 'x*t'", false);
    assert_eq!(toks[0].0, Token::String);
    assert_eq!(toks[0].1.as_deref(), Some(&[b'a', 10, b'b', 4][..]));
    assert_eq!(toks[1].0, Token::CharLit);
    assert_eq!(toks[1].1.as_deref(), Some(&[b'x', 9][..]));
}

#[test]
fn test_backslash_escape_only_outside_historical_mode() {
    let toks = tokens("\"a\\nb\"", false);
    assert_eq!(toks[0].1.as_deref(), Some(&[b'a', 10, b'b'][..]));
    let toks = tokens("\"a\\nb\"", true);
    assert_eq!(toks[0].1.as_deref(), Some(&[b'a', b'\\', b'n', b'b'][..]));
}

#[test]
fn test_comments_are_skipped() {
    assert_eq!(kinds("a /* comment */ b // line\n c"), vec![Token::ID, Token::ID, Token::ID, Token::EOF]);
}

#[test]
fn test_line_comment_in_historical_mode_is_an_error() {
    let mut l = lexer_for("a // c\n", true);
    assert!(get_token(&mut l).is_some());
    assert_eq!(l.token, Token::ID);
    let _ = get_token(&mut l);
    assert!(l.error_count >= 1);
    assert!(matches!(l.diagnostics[0], LexDiag::CppCommentInHistorical { .. }));
}

#[test]
fn test_hex_in_historical_mode_is_an_error() {
    let mut l = lexer_for("0x10", true);
    let r = get_token(&mut l);
    assert!(r.is_some());
    assert_eq!(l.token, Token::IntLit);
    assert_eq!(l.error_count, 1);
    assert!(matches!(l.diagnostics[0], LexDiag::HexInHistorical { .. }));
}

#[test]
fn test_unknown_token_is_reported_and_skipped() {
    let mut l = lexer_for("@ a", false);
    assert!(get_token(&mut l).is_none());
    assert_eq!(l.token, Token::ParseError);
    assert_eq!(l.error_count, 1);
    assert_eq!(l.diagnostics[0], LexDiag::UnknownToken { loc: Loc { input_path: 0, line_number: 1, line_offset: 1 }, c: b'@' });
    assert!(get_token(&mut l).is_some());
    assert_eq!(l.token, Token::ID);
}

#[test]
fn test_unfinished_string_is_a_parse_error() {
    let mut l = lexer_for("\"abc", false);
    assert!(get_token(&mut l).is_none());
    assert_eq!(l.token, Token::ParseError);
    assert!(matches!(l.diagnostics[0], LexDiag::UnfinishedString { .. }));
}

#[test]
fn test_empty_char_literal_is_an_error() {
    let mut l = lexer_for("''", false);
    assert!(get_token(&mut l).is_some());
    assert_eq!(l.token, Token::CharLit);
    assert_eq!(l.error_count, 1);
    assert!(matches!(l.diagnostics[0], LexDiag::EmptyChar { .. }));
}

#[test]
fn test_locations_count_lines_and_columns() {
    let mut l = lexer_for("a\n  bc", false);
    assert!(get_token(&mut l).is_some());
    assert_eq!(l.loc, Loc { input_path: 0, line_number: 1, line_offset: 1 });
    assert!(get_token(&mut l).is_some());
    assert_eq!(l.loc, Loc { input_path: 0, line_number: 2, line_offset: 3 });
}

#[test]
fn test_next_valid_token_skips_errors() {
    let mut l = lexer_for("@ x", false);
    assert!(get_next_valid_token(&mut l).is_some());
    assert_eq!(l.token, Token::ID);
    assert!(get_next_valid_token(&mut l).is_none());
    assert_eq!(l.token, Token::EOF);
}

#[test]
fn test_display_token_texts() {
    assert_eq!(display_token(Token::EOF), "end of file");
    assert_eq!(display_token(Token::ShlEq), "`<<=`");
    assert_eq!(display_token(Token::Asm), "keyword `__asm__`");
}

#[test]
fn test_low_level_cursor() {
    let mut l = lexer_for("ab", false);
    assert_eq!(lexer::peek_char(&l), Some(b'a'));
    lexer::skip_char(&mut l);
    assert_eq!(lexer::peek_char(&l), Some(b'b'));
    assert!(!lexer::is_eof(&l));
    assert!(lexer::skip_prefix(&mut l, b"b"));
    assert!(lexer::is_eof(&l));
    assert_eq!(lexer::peek_char(&l), None);
}

#[test]
fn test_identifier_classes() {
    assert!(lexer::is_identifier_start(b'_'));
    assert!(lexer::is_identifier_start(b'Z'));
    assert!(!lexer::is_identifier_start(b'1'));
    assert!(lexer::is_identifier(b'1'));
    assert!(!lexer::is_identifier(b'-'));
}

#[test]
fn test_more_lexer_errors() {
    let mut l = lexer_for("/* never closed", false);
    assert!(get_token(&mut l).is_none());
    assert!(matches!(l.diagnostics[0], LexDiag::UnfinishedComment { .. }));
    let mut l = lexer_for("\"ab*", false);
    assert!(get_token(&mut l).is_none());
    assert!(matches!(l.diagnostics[0], LexDiag::UnfinishedEscape { .. }));
    let mut l = lexer_for("\"a*qb\"", false);
    assert!(get_token(&mut l).is_some());
    assert_eq!(l.error_count, 1);
    assert!(matches!(l.diagnostics[0], LexDiag::UnknownEscape { c: b'q', .. }));
    let mut l = lexer_for("'ab", false);
    assert!(get_token(&mut l).is_none());
    assert!(matches!(l.diagnostics[0], LexDiag::UnfinishedChar { .. }));
}

#[test]
fn test_display_token_follows_tables() {
    for (t, n) in [(PunctTable::Modern, MODERN_PUNCTS_COUNT), (PunctTable::Common, COMMON_PUNCTS_COUNT)] {
        for i in 0..n {
            let (spelling, token) = punct_entry(t, i);
            let expected = format!("`{}`", String::from_utf8(spelling).unwrap());
            assert_eq!(display_token(token), expected);
        }
    }
    for i in 0..KEYWORDS_COUNT {
        let (spelling, token) = keyword_entry(i);
        let expected = format!("keyword `{}`", String::from_utf8(spelling).unwrap());
        assert_eq!(display_token(token), expected);
    }
    // The historical table spells `=-` the token that is named `-=`.
    let (spelling, token) = punct_entry(PunctTable::Historical, 0);
    assert_eq!(spelling, b"=-".to_vec());
    assert_eq!(display_token(token), "`-=`");
}

#[test]
fn test_display_token_texts_distinct() {
    let all = [
        Token::EOF, Token::ParseError, Token::ID, Token::String, Token::CharLit, Token::IntLit,
        Token::OCurly, Token::CCurly, Token::OParen, Token::CParen, Token::OBracket, Token::CBracket,
        Token::Not, Token::Mul, Token::Div, Token::Mod, Token::And, Token::Plus, Token::PlusPlus,
        Token::Minus, Token::MinusMinus, Token::Less, Token::LessEq, Token::Greater, Token::GreaterEq,
        Token::Or, Token::Eq, Token::EqEq, Token::NotEq, Token::Shl, Token::ShlEq, Token::Shr,
        Token::ShrEq, Token::ModEq, Token::OrEq, Token::AndEq, Token::PlusEq, Token::MinusEq,
        Token::MulEq, Token::DivEq, Token::Question, Token::Colon, Token::SemiColon, Token::Comma,
        Token::Auto, Token::Extrn, Token::Case, Token::If, Token::Else, Token::While, Token::Switch,
        Token::Goto, Token::Return, Token::Asm, Token::Variadic,
    ];
    assert_eq!(all.len(), 55);
    for (i, a) in all.iter().enumerate() {
        for (j, b) in all.iter().enumerate() {
            assert_eq!(i == j, display_token(*a) == display_token(*b));
        }
    }
}
