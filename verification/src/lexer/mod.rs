//! The lexer of B: turns source bytes into tokens.
use vstd::prelude::*;
use crate::bytes::{bytes_eq, copy_bytes, c_string};
use crate::ctype::{isalnum, isalpha, isdigit, isspace, tolower, is_digit, to_lower};
use crate::errors::{bump_error_count, MAX_ERROR_COUNT};
use crate::ir::{Radix};

pub mod model;
pub mod tables;
pub mod texts;

use model::{LexInput, LexState, pp_at, loc_at, lemma_line_bounds, matches_at, ws_end, until_end, find_from, skip_wc, str_scan, lex_digit, digits_end, scan_number, is_ident_char, is_ident_start, ident_end, first_punct, lex_quoted, lex_word, lex_token, next_valid_token, escape_value, lemma_ws_end, lemma_str_scan_keeps_loc, lemma_subrange_push, lemma_ident_end, lemma_digits_end, lemma_first_punct, lemma_find_from, lemma_until_end, newline, slash_slash, slash_star, star_slash};
use tables::{PunctTable, punct_count, punct_entry, punct_count_of, keyword, keyword_entry, keyword_token_from, KEYWORDS_COUNT, s1, s2, v1, v2};

verus! {

/// A place in a source file: the file (an index into the caller's table of input
/// paths), the one-based line and the one-based column.
#[derive(Clone, Copy, PartialEq, Eq, Structural, Debug)]
pub struct Loc {
    pub input_path: usize,
    pub line_number: i32,
    pub line_offset: i32,
}

/// The tokens of B.
#[derive(Clone, Copy, PartialEq, Eq, Structural, Debug)]
pub enum Token {
    // Terminal
    EOF,
    ParseError,

    // Values
    ID,
    String,
    CharLit,
    IntLit,

    // Puncts
    OCurly,
    CCurly,
    OParen,
    CParen,
    OBracket,
    CBracket,
    Not,
    Mul,
    Div,
    Mod,
    And,
    Plus,
    PlusPlus,
    Minus,
    MinusMinus,
    Less,
    LessEq,
    Greater,
    GreaterEq,
    Or,
    Eq,
    EqEq,
    NotEq,
    Shl,
    ShlEq,
    Shr,
    ShrEq,
    ModEq,
    OrEq,
    AndEq,
    PlusEq,
    MinusEq,
    MulEq,
    DivEq,
    Question,
    Colon,
    SemiColon,
    Comma,

    // Keywords
    Auto,
    Extrn,
    Case,
    If,
    Else,
    While,
    Switch,
    Goto,
    Return,
    Asm,
    Variadic,
}

/// A position in the input: the index of the next byte, where its line starts,
/// and the one-based number of that line.
#[allow(non_camel_case_types)]
#[derive(Clone, Copy, PartialEq, Eq, Structural, Debug)]
pub struct Parse_Point {
    pub current: usize,
    pub line_start: usize,
    pub line_number: usize,
}

/// An error found by the lexer.
#[derive(Clone, Copy, PartialEq, Eq, Structural, Debug)]
pub enum LexDiag {
    /// `//` comment in the historical mode.
    CppCommentInHistorical { loc: Loc },
    /// `/*` without `*/`; `begin` is where the comment starts.
    UnfinishedComment { loc: Loc, begin: Loc },
    /// An escape character at the end of the input.
    UnfinishedEscape { loc: Loc },
    /// An escape character followed by `c`, which is no escape sequence.
    UnknownEscape { loc: Loc, c: u8 },
    /// `0x` literal in the historical mode.
    HexInHistorical { loc: Loc },
    /// A string literal that the input ends in; `start` is where it starts.
    UnfinishedString { loc: Loc, start: Loc },
    /// A character literal that the input ends in; `start` is where it starts.
    UnfinishedChar { loc: Loc, start: Loc },
    /// `''`.
    EmptyChar { loc: Loc },
    /// A byte that starts no token.
    UnknownToken { loc: Loc, c: u8 },
}

/// The state of lexing one input.
pub struct Lexer {
    pub input_path: usize,
    pub input_stream: Vec<u8>,
    /// Lexing stops at this index of `input_stream`.
    pub eof: usize,
    pub parse_point: Parse_Point,

    pub historical: bool,
    pub string_storage: Vec<u8>,
    pub token: Token,
    /// The text of the current token (identifiers, literals).
    pub string: Option<Vec<u8>>,
    pub radix: Radix,
    pub loc: Loc,
    pub error_count: usize,
    /// Errors found so far, oldest first.
    pub diagnostics: Vec<LexDiag>,
}

/// An optional byte vector taken as an optional sequence.
pub open spec fn opt_view(o: Option<Vec<u8>>) -> Option<Seq<u8>> {
    match o {
        Some(v) => Some(v@),
        None => None,
    }
}

impl Lexer {
    /// The parse point is the one of its position, and every position fits a `Loc`.
    pub open spec fn wf(&self) -> bool {
        &&& self.eof <= self.input_stream@.len()
        &&& self.input_stream@.len() < i32::MAX
        &&& self.parse_point.current <= self.eof
        &&& self.parse_point == pp_at(self.input_stream@, self.parse_point.current as int)
    }

    /// What the lexer reads: the input, its end, the mode, the file.
    pub open spec fn lex_input(&self) -> LexInput {
        LexInput {
            input: self.input_stream@,
            eof: self.eof as int,
            historical: self.historical,
            path: self.input_path,
        }
    }

    /// Where the lexer stands, as a value of the lexing model.
    pub open spec fn state(&self) -> LexState {
        LexState {
            pos: self.parse_point.current as int,
            error_count: self.error_count as int,
            diags: self.diagnostics@,
            token: self.token,
            string: opt_view(self.string),
            storage: self.string_storage@,
            radix: self.radix,
            loc: self.loc,
        }
    }
}

/// The text shown for a token in messages.
pub open spec fn token_text(token: Token) -> Seq<char> {
    match token {
        Token::EOF => "end of file"@,
        Token::ParseError => "parse error"@,
        Token::ID => "identifier"@,
        Token::String => "string"@,
        Token::CharLit => "character"@,
        Token::IntLit => "integer literal"@,
        Token::OCurly => "`{`"@,
        Token::CCurly => "`}`"@,
        Token::OParen => "`(`"@,
        Token::CParen => "`)`"@,
        Token::OBracket => "`[`"@,
        Token::CBracket => "`]`"@,
        Token::Not => "`!`"@,
        Token::Mul => "`*`"@,
        Token::Div => "`/`"@,
        Token::Mod => "`%`"@,
        Token::And => "`&`"@,
        Token::Plus => "`+`"@,
        Token::PlusPlus => "`++`"@,
        Token::Minus => "`-`"@,
        Token::MinusMinus => "`--`"@,
        Token::Less => "`<`"@,
        Token::LessEq => "`<=`"@,
        Token::Greater => "`>`"@,
        Token::GreaterEq => "`>=`"@,
        Token::Or => "`|`"@,
        Token::NotEq => "`!=`"@,
        Token::Eq => "`=`"@,
        Token::EqEq => "`==`"@,
        Token::Shl => "`<<`"@,
        Token::ShlEq => "`<<=`"@,
        Token::Shr => "`>>`"@,
        Token::ShrEq => "`>>=`"@,
        Token::ModEq => "`%=`"@,
        Token::OrEq => "`|=`"@,
        Token::AndEq => "`&=`"@,
        Token::PlusEq => "`+=`"@,
        Token::MinusEq => "`-=`"@,
        Token::MulEq => "`*=`"@,
        Token::DivEq => "`/=`"@,
        Token::Question => "`?`"@,
        Token::Colon => "`:`"@,
        Token::SemiColon => "`;`"@,
        Token::Comma => "`,`"@,
        Token::Auto => "keyword `auto`"@,
        Token::Extrn => "keyword `extrn`"@,
        Token::Case => "keyword `case`"@,
        Token::If => "keyword `if`"@,
        Token::Else => "keyword `else`"@,
        Token::While => "keyword `while`"@,
        Token::Switch => "keyword `switch`"@,
        Token::Goto => "keyword `goto`"@,
        Token::Return => "keyword `return`"@,
        Token::Asm => "keyword `__asm__`"@,
        Token::Variadic => "keyword `__variadic__`"@,
    }
}

/// How a token is named in messages.
pub fn display_token(token: Token) -> (r: &'static str)
    ensures
        r@ == token_text(token),
{
    match token {
        Token::EOF => "end of file",
        Token::ParseError => "parse error",
        Token::ID => "identifier",
        Token::String => "string",
        Token::CharLit => "character",
        Token::IntLit => "integer literal",
        Token::OCurly => "`{`",
        Token::CCurly => "`}`",
        Token::OParen => "`(`",
        Token::CParen => "`)`",
        Token::OBracket => "`[`",
        Token::CBracket => "`]`",
        Token::Not => "`!`",
        Token::Mul => "`*`",
        Token::Div => "`/`",
        Token::Mod => "`%`",
        Token::And => "`&`",
        Token::Plus => "`+`",
        Token::PlusPlus => "`++`",
        Token::Minus => "`-`",
        Token::MinusMinus => "`--`",
        Token::Less => "`<`",
        Token::LessEq => "`<=`",
        Token::Greater => "`>`",
        Token::GreaterEq => "`>=`",
        Token::Or => "`|`",
        Token::NotEq => "`!=`",
        Token::Eq => "`=`",
        Token::EqEq => "`==`",
        Token::Shl => "`<<`",
        Token::ShlEq => "`<<=`",
        Token::Shr => "`>>`",
        Token::ShrEq => "`>>=`",
        Token::ModEq => "`%=`",
        Token::OrEq => "`|=`",
        Token::AndEq => "`&=`",
        Token::PlusEq => "`+=`",
        Token::MinusEq => "`-=`",
        Token::MulEq => "`*=`",
        Token::DivEq => "`/=`",
        Token::Question => "`?`",
        Token::Colon => "`:`",
        Token::SemiColon => "`;`",
        Token::Comma => "`,`",
        Token::Auto => "keyword `auto`",
        Token::Extrn => "keyword `extrn`",
        Token::Case => "keyword `case`",
        Token::If => "keyword `if`",
        Token::Else => "keyword `else`",
        Token::While => "keyword `while`",
        Token::Switch => "keyword `switch`",
        Token::Goto => "keyword `goto`",
        Token::Return => "keyword `return`",
        Token::Asm => "keyword `__asm__`",
        Token::Variadic => "keyword `__variadic__`",
    }
}

/// A lexer at the start of `input_stream`, which it reads up to index `eof`.
/// No token has been read yet: the token is `EOF`, the radix `Dec`, and the
/// location line 0, column 0.
pub fn new(input_path: usize, input_stream: Vec<u8>, eof: usize, historical: bool, error_count: usize) -> (l: Lexer)
    requires
        eof <= input_stream@.len(),
        input_stream@.len() < i32::MAX,
    ensures
        l.wf(),
        l.lex_input() == (LexInput { input: input_stream@, eof: eof as int, historical, path: input_path }),
        l.state() == (LexState {
            pos: 0,
            error_count: error_count as int,
            diags: Seq::empty(),
            token: Token::EOF,
            string: None,
            storage: Seq::empty(),
            radix: Radix::Dec,
            loc: Loc { input_path, line_number: 0, line_offset: 0 },
        }),
{
    let l = Lexer {
        input_path,
        input_stream,
        eof,
        parse_point: Parse_Point { current: 0, line_start: 0, line_number: 1 },
        historical,
        string_storage: Vec::new(),
        token: Token::EOF,
        string: None,
        radix: Radix::Dec,
        loc: Loc { input_path, line_number: 0, line_offset: 0 },
        error_count,
        diagnostics: Vec::new(),
    };
    proof {
        assert(l.parse_point == pp_at(l.input_stream@, 0));
    }
    l
}

/// Whether the whole input has been read.
pub fn is_eof(l: &Lexer) -> (r: bool)
    requires
        l.wf(),
    ensures
        r == (l.parse_point.current >= l.eof),
{
    l.parse_point.current >= l.eof
}

/// The next byte, unless the input has ended.
pub fn peek_char(l: &Lexer) -> (r: Option<u8>)
    requires
        l.wf(),
    ensures
        r == (if l.parse_point.current < l.eof {
            Some(l.input_stream@[l.parse_point.current as int])
        } else {
            None
        }),
{
    if is_eof(l) {
        None
    } else {
        Some(l.input_stream[l.parse_point.current])
    }
}

/// Moves past the next byte, keeping track of lines.
pub fn skip_char(l: &mut Lexer)
    requires
        old(l).wf(),
        old(l).parse_point.current < old(l).eof,
    ensures
        final(l).wf(),
        final(l).lex_input() == old(l).lex_input(),
        final(l).state() == (LexState { pos: old(l).state().pos + 1, ..old(l).state() }),
{
    let ghost s = l.input_stream@;
    let ghost i = l.parse_point.current as int;
    proof {
        lemma_line_bounds(s, i);
    }
    let x = l.input_stream[l.parse_point.current];
    l.parse_point.current = l.parse_point.current + 1;
    if x == 10 {
        l.parse_point.line_start = l.parse_point.current;
        l.parse_point.line_number = l.parse_point.line_number + 1;
    }
    proof {
        assert(l.parse_point == pp_at(s, i + 1));
    }
}

/// Moves past the white space at the current position.
pub fn skip_whitespaces(l: &mut Lexer)
    requires
        old(l).wf(),
    ensures
        final(l).wf(),
        final(l).lex_input() == old(l).lex_input(),
        final(l).state() == (LexState { pos: ws_end(old(l).lex_input(), old(l).state().pos), ..old(l).state() }),
{
    let ghost inp = l.lex_input();
    let ghost st0 = l.state();
    loop
        invariant
            0 <= st0.pos,
            l.wf(),
            l.lex_input() == inp,
            st0.pos <= l.state().pos,
            ws_end(inp, l.state().pos) == ws_end(inp, st0.pos),
            l.state() == (LexState { pos: l.state().pos, ..st0 }),
        ensures
            l.wf(),
            l.lex_input() == inp,
            l.state() == (LexState { pos: ws_end(inp, st0.pos), ..st0 }),
        decreases l.eof - l.parse_point.current,
    {
        let c = peek_char(l);
        if c.is_none() {
            break;
        }
        let x = c.unwrap();
        if !isspace(x) {
            break;
        }
        skip_char(l);
    }
}

/// Moves past `prefix` when the input continues with it (and says so); otherwise
/// stays where it is.
pub fn skip_prefix(l: &mut Lexer, prefix: &[u8]) -> (r: bool)
    requires
        old(l).wf(),
    ensures
        final(l).wf(),
        final(l).lex_input() == old(l).lex_input(),
        r == matches_at(old(l).lex_input(), old(l).state().pos, prefix@),
        final(l).state() == (if r {
            LexState { pos: old(l).state().pos + prefix@.len(), ..old(l).state() }
        } else {
            old(l).state()
        }),
{
    let ghost inp = l.lex_input();
    let ghost st0 = l.state();
    let saved_point = l.parse_point;
    let mut i: usize = 0;
    let mut ok = true;
    while i < prefix.len()
        invariant_except_break
            l.state() == (LexState { pos: st0.pos + i, ..st0 }),
            inp.input.subrange(st0.pos, st0.pos + i) == prefix@.subrange(0, i as int),
            ok,
        invariant
            0 <= st0.pos,
            l.wf(),
            l.lex_input() == inp,
            0 <= i <= prefix@.len(),
            saved_point.current + i <= l.eof,
            saved_point == pp_at(inp.input, saved_point.current as int),
            saved_point.current == st0.pos,
        ensures
            ok ==> l.state() == (LexState { pos: st0.pos + prefix@.len(), ..st0 })
                && inp.input.subrange(st0.pos, st0.pos + prefix@.len()) == prefix@,
            !ok ==> l.state() == st0 && !matches_at(inp, st0.pos, prefix@),
        decreases prefix@.len() - i,
    {
        let c = peek_char(l);
        if c.is_none() {
            l.parse_point = saved_point;
            ok = false;
            break;
        }
        let x = c.unwrap();
        if x != prefix[i] {
            proof {
                if matches_at(inp, st0.pos, prefix@) {
                    assert(inp.input.subrange(st0.pos, st0.pos + prefix@.len())[i as int] == prefix@[i as int]);
                }
            }
            l.parse_point = saved_point;
            ok = false;
            break;
        }
        skip_char(l);
        i = i + 1;
        proof {
            assert(inp.input.subrange(st0.pos, st0.pos + i) =~= prefix@.subrange(0, i as int));
            if i == prefix@.len() {
                assert(prefix@.subrange(0, i as int) =~= prefix@);
            }
        }
    }
    proof {
        if ok && prefix@.len() == 0 {
            assert(inp.input.subrange(st0.pos, st0.pos) =~= prefix@);
        }
    }
    ok
}

/// Moves past the next occurrence of `prefix`, or to the end of the input.
pub fn skip_until(l: &mut Lexer, prefix: &[u8])
    requires
        old(l).wf(),
    ensures
        final(l).wf(),
        final(l).lex_input() == old(l).lex_input(),
        final(l).state() == (LexState {
            pos: until_end(old(l).lex_input(), old(l).state().pos, prefix@),
            ..old(l).state()
        }),
{
    let ghost inp = l.lex_input();
    let ghost st0 = l.state();
    loop
        invariant_except_break
            until_end(inp, l.state().pos, prefix@) == until_end(inp, st0.pos, prefix@),
        invariant
            0 <= st0.pos,
            l.wf(),
            l.lex_input() == inp,
            st0.pos <= l.state().pos,
            l.state() == (LexState { pos: l.state().pos, ..st0 }),
        ensures
            l.state().pos == until_end(inp, st0.pos, prefix@),
        decreases l.eof - l.parse_point.current,
    {
        if is_eof(l) {
            break;
        }
        let ghost p = l.state().pos;
        if skip_prefix(l, prefix) {
            break;
        }
        skip_char(l);
    }
}

/// Letters, digits and `_`.
pub fn is_identifier(x: u8) -> (r: bool)
    ensures
        r == is_ident_char(x),
{
    isalnum(x) || x == '_' as u8
}

/// Letters and `_`.
pub fn is_identifier_start(x: u8) -> (r: bool)
    ensures
        r == is_ident_start(x),
{
    isalpha(x) || x == '_' as u8
}

/// The location of the current position.
pub fn loc(l: &Lexer) -> (r: Loc)
    requires
        l.wf(),
    ensures
        r == loc_at(l.lex_input(), l.parse_point.current as int),
{
    proof {
        lemma_line_bounds(l.input_stream@, l.parse_point.current as int);
    }
    Loc {
        input_path: l.input_path,
        line_number: l.parse_point.line_number as i32,
        line_offset: (l.parse_point.current - l.parse_point.line_start) as i32 + 1,
    }
}

} // verus!

verus! {

/// Moves past white space and comments. `None` where lexing has to stop: an
/// unfinished `/*` comment (the token becomes `ParseError`), or too many errors
/// (`//` comments are errors in the historical mode).
pub fn skip_whitespaces_and_comments(l: &mut Lexer) -> (r: Option<()>)
    requires
        old(l).wf(),
        old(l).error_count < usize::MAX,
    ensures
        final(l).wf(),
        final(l).lex_input() == old(l).lex_input(),
        (final(l).state(), r is Some) == skip_wc(old(l).lex_input(), old(l).state()),
        old(l).state().pos <= final(l).state().pos <= old(l).eof,
        r is None ==> final(l).state().pos > old(l).state().pos,
        r is Some ==> final(l).error_count == old(l).error_count || final(l).error_count < MAX_ERROR_COUNT,
        final(l).error_count <= old(l).error_count + 1 || final(l).error_count <= MAX_ERROR_COUNT,
{
    let ghost inp = l.lex_input();
    let ghost st0 = l.state();
    let mut result: Option<()> = Some(());
    let slash_slash_b = v2('/' as u8, '/' as u8);
    let slash_star_b = v2('/' as u8, '*' as u8);
    let star_slash_b = v2('*' as u8, '/' as u8);
    let newline_b = v1(10u8);
    proof {
        assert(slash_slash_b@ == slash_slash());
        assert(slash_star_b@ == slash_star());
        assert(star_slash_b@ == star_slash());
        assert(newline_b@ == newline());
    }
    loop
        invariant_except_break
            skip_wc(inp, l.state()) == skip_wc(inp, st0),
            l.error_count == st0.error_count || l.error_count < MAX_ERROR_COUNT,
            result is Some,
        invariant
            0 <= st0.pos,
            st0.error_count < usize::MAX,
            l.wf(),
            l.lex_input() == inp,
            st0.pos <= l.state().pos <= inp.eof,
            slash_slash_b@ == slash_slash(),
            slash_star_b@ == slash_star(),
            star_slash_b@ == star_slash(),
            newline_b@ == newline(),
        ensures
            (l.state(), result is Some) == skip_wc(inp, st0),
            result is None ==> l.state().pos > st0.pos,
            result is Some ==> l.error_count == st0.error_count || l.error_count < MAX_ERROR_COUNT,
            l.error_count <= st0.error_count + 1 || l.error_count <= MAX_ERROR_COUNT,
        decreases l.eof - l.parse_point.current,
    {
        let ghost head = l.state();
        proof {
            lemma_ws_end(inp, head.pos);
        }
        skip_whitespaces(l);
        let saved_point = l.parse_point;
        let ghost q = l.state().pos;
        if skip_prefix(l, slash_slash_b.as_slice()) {
            skip_until(l, newline_b.as_slice());
            proof {
                lemma_until_end(inp, q + 2, newline());
            }
            if l.historical {
                let end_point = l.parse_point;
                l.parse_point = saved_point;
                let lc = loc(l);
                l.parse_point = end_point;
                l.diagnostics.push(LexDiag::CppCommentInHistorical { loc: lc });
                if bump_error_count(&mut l.error_count).is_none() {
                    result = None;
                    break;
                }
            }
            assert(skip_wc(inp, head) == skip_wc(inp, l.state()));
            continue;
        }
        let begin_loc = loc(l);
        if skip_prefix(l, slash_star_b.as_slice()) {
            let ghost q2 = l.state().pos;
            let ghost before = l.state();
            let mut closed = false;
            loop
                invariant_except_break
                    find_from(inp, l.state().pos, star_slash()) == find_from(inp, q2, star_slash()),
                    !closed,
                invariant
                    0 <= q2,
                    l.wf(),
                    l.lex_input() == inp,
                    q2 <= l.state().pos <= inp.eof,
                    l.state() == (LexState { pos: l.state().pos, ..before }),
                    star_slash_b@ == star_slash(),
                ensures
                    closed ==> find_from(inp, q2, star_slash()) == Some(l.state().pos - 2),
                    !closed ==> find_from(inp, q2, star_slash()) is None && l.state().pos == inp.eof,
                decreases l.eof - l.parse_point.current,
            {
                let ghost p = l.state().pos;
                if skip_prefix(l, star_slash_b.as_slice()) {
                    assert(find_from(inp, p, star_slash()) == Some(p));
                    closed = true;
                    break;
                }
                if is_eof(l) {
                    break;
                }
                skip_char(l);
            }
            if !closed {
                let lc = loc(l);
                l.diagnostics.push(LexDiag::UnfinishedComment { loc: lc, begin: begin_loc });
                l.token = Token::ParseError;
                result = None;
                break;
            }
            proof {
                lemma_find_from(inp, q2, star_slash());
            }
            assert(skip_wc(inp, head) == skip_wc(inp, l.state()));
            continue;
        }
        assert(skip_wc(inp, head) == (l.state(), true));
        break;
    }
    result
}

/// The byte that the escape sequence `esc y` stands for in a literal delimited by
/// `delim`: `0`, `n`, `t`, `r`, `e` (the control character 4), the delimiter, or
/// the escape character itself.
fn escape_byte(y: u8, delim: u8, esc: u8) -> (r: Option<u8>)
    ensures
        r == escape_value(y, delim, esc),
{
    if y == '0' as u8 {
        Some(0u8)
    } else if y == 'n' as u8 {
        Some(10u8)
    } else if y == 't' as u8 {
        Some(9u8)
    } else if y == 'r' as u8 {
        Some(13u8)
    } else if y == 'e' as u8 {
        Some(4u8)
    } else if y == delim {
        Some(delim)
    } else if y == esc {
        Some(esc)
    } else {
        None
    }
}

/// Reads the body of a literal delimited by `delim` into the storage, resolving
/// escape sequences, up to the closing delimiter (which it does not consume) or
/// the end of the input.
pub fn parse_string_into_storage(l: &mut Lexer, delim: u8) -> (r: Option<()>)
    requires
        old(l).wf(),
        old(l).error_count < usize::MAX,
    ensures
        final(l).wf(),
        final(l).lex_input() == old(l).lex_input(),
        (final(l).state(), r is Some) == str_scan(old(l).lex_input(), delim, old(l).state()),
        old(l).state().pos <= final(l).state().pos <= old(l).eof,
        r is Some ==> final(l).error_count == old(l).error_count || final(l).error_count < MAX_ERROR_COUNT,
        final(l).error_count <= old(l).error_count + 1 || final(l).error_count <= MAX_ERROR_COUNT,
{
    let ghost inp = l.lex_input();
    let ghost st0 = l.state();
    let mut result: Option<()> = Some(());
    loop
        invariant_except_break
            str_scan(inp, delim, l.state()) == str_scan(inp, delim, st0),
            l.error_count == st0.error_count || l.error_count < MAX_ERROR_COUNT,
            result is Some,
        invariant
            0 <= st0.pos,
            st0.error_count < usize::MAX,
            l.wf(),
            l.lex_input() == inp,
            st0.pos <= l.state().pos <= inp.eof,
        ensures
            (l.state(), result is Some) == str_scan(inp, delim, st0),
            result is Some ==> l.error_count == st0.error_count || l.error_count < MAX_ERROR_COUNT,
            l.error_count <= st0.error_count + 1 || l.error_count <= MAX_ERROR_COUNT,
        decreases l.eof - l.parse_point.current,
    {
        let ghost head = l.state();
        let c = peek_char(l);
        if c.is_none() {
            assert(str_scan(inp, delim, head) == (l.state(), true));
            break;
        }
        let x = c.unwrap();
        if x == '*' as u8 || (!l.historical && x == '\\' as u8) {
            let current_escape = x;
            skip_char(l);
            let c2 = peek_char(l);
            if c2.is_none() {
                l.token = Token::ParseError;
                let lc = loc(l);
                l.diagnostics.push(LexDiag::UnfinishedEscape { loc: lc });
                result = None;
                break;
            }
            let y = c2.unwrap();
            match escape_byte(y, delim, current_escape) {
                Some(v) => {
                    l.string_storage.push(v);
                    skip_char(l);
                },
                None => {
                    let lc = loc(l);
                    l.diagnostics.push(LexDiag::UnknownEscape { loc: lc, c: y });
                    skip_char(l);
                    if bump_error_count(&mut l.error_count).is_none() {
                        result = None;
                        break;
                    }
                },
            }
            assert(str_scan(inp, delim, head) == str_scan(inp, delim, l.state()));
        } else if x == delim {
            assert(str_scan(inp, delim, head) == (l.state(), true));
            break;
        } else {
            l.string_storage.push(x);
            skip_char(l);
            assert(str_scan(inp, delim, head) == str_scan(inp, delim, l.state()));
        }
    }
    result
}

/// A digit of a number literal in `radix`, and its value.
fn parse_digit(c: u8, radix: Radix) -> (r: Option<u8>)
    ensures
        r is Some <==> lex_digit(c, radix),
        r matches Some(d) ==> d == (if is_digit(c) { (c - 48) as u8 } else { (to_lower(c) - 97 + 10) as u8 }),
{
    if isdigit(c) {
        let digit = c - 48;
        if digit >= radix.base() {
            return None;
        }
        return Some(digit);
    }
    if radix == Radix::Hex {
        let lc = tolower(c);
        if !(97 <= lc && lc <= 102) {
            return None;
        }
        return Some(lc - 97 + 10);
    }
    None
}

/// Reads the digits of a number into the storage and ends the C string there;
/// the token's text becomes that C string. `None` when it is empty.
fn parse_number(l: &mut Lexer, radix: Radix) -> (r: Option<()>)
    requires
        old(l).wf(),
    ensures
        final(l).wf(),
        final(l).lex_input() == old(l).lex_input(),
        (final(l).state(), r is Some) == scan_number(old(l).lex_input(), old(l).state(), radix),
        old(l).state().pos <= final(l).state().pos <= old(l).eof,
{
    let ghost inp = l.lex_input();
    let ghost st0 = l.state();
    loop
        invariant_except_break
            digits_end(inp, l.state().pos, radix) == digits_end(inp, st0.pos, radix),
        invariant
            0 <= st0.pos,
            l.wf(),
            l.lex_input() == inp,
            st0.pos <= l.state().pos <= inp.eof,
            l.state() == (LexState {
                pos: l.state().pos,
                storage: st0.storage + inp.input.subrange(st0.pos, l.state().pos),
                ..st0
            }),
        ensures
            l.state().pos == digits_end(inp, st0.pos, radix),
        decreases l.eof - l.parse_point.current,
    {
        let c = peek_char(l);
        if c.is_none() {
            break;
        }
        let x = c.unwrap();
        if parse_digit(x, radix).is_none() {
            break;
        }
        let ghost p = l.state().pos;
        assert(x == inp.input[p]);
        l.string_storage.push(x);
        skip_char(l);
        proof {
            lemma_subrange_push(inp.input, st0.pos, p);
            assert(st0.storage + inp.input.subrange(st0.pos, p + 1) =~= (st0.storage + inp.input.subrange(
                st0.pos,
                p,
            )).push(x));
        }
    }
    let ghost before = l.string_storage@;
    l.string_storage.push(0);
    proof {
        assert(l.string_storage@ =~= st0.storage + inp.input.subrange(st0.pos, l.state().pos) + seq![0u8]);
    }
    l.radix = radix;
    let s = c_string(l.string_storage.as_slice());
    let empty = s.len() == 0;
    l.string = Some(s);
    if empty {
        None
    } else {
        Some(())
    }
}

/// Reads the token of the first entry of table `t` that the input continues with.
fn match_puncts(l: &mut Lexer, t: PunctTable) -> (r: bool)
    requires
        old(l).wf(),
    ensures
        final(l).wf(),
        final(l).lex_input() == old(l).lex_input(),
        r == first_punct(old(l).lex_input(), old(l).state().pos, t, 0) is Some,
        final(l).state() == (match first_punct(old(l).lex_input(), old(l).state().pos, t, 0) {
            Some((n, tok)) => LexState { pos: old(l).state().pos + n, token: tok, ..old(l).state() },
            None => old(l).state(),
        }),
{
    let ghost inp = l.lex_input();
    let ghost st0 = l.state();
    let n = punct_count_of(t);
    let mut i: usize = 0;
    let mut found = false;
    while i < n
        invariant_except_break
            first_punct(inp, st0.pos, t, 0) == first_punct(inp, st0.pos, t, i as int),
            l.state() == st0,
            !found,
        invariant
            0 <= st0.pos,
            l.wf(),
            l.lex_input() == inp,
            n == punct_count(t),
            i <= n,
        ensures
            found ==> (first_punct(inp, st0.pos, t, 0) matches Some((k, tok))
                && l.state() == (LexState { pos: st0.pos + k, token: tok, ..st0 })),
            !found ==> first_punct(inp, st0.pos, t, 0) is None && l.state() == st0,
        decreases n - i,
    {
        let (pre, tok) = punct_entry(t, i);
        if skip_prefix(l, pre.as_slice()) {
            l.token = tok;
            found = true;
            break;
        }
        i = i + 1;
    }
    found
}

/// Reads an identifier or keyword.
fn lex_identifier(l: &mut Lexer)
    requires
        old(l).wf(),
        old(l).parse_point.current < old(l).eof,
        is_ident_start(old(l).input_stream@[old(l).parse_point.current as int]),
    ensures
        final(l).wf(),
        final(l).lex_input() == old(l).lex_input(),
        final(l).state() == lex_word(old(l).lex_input(), old(l).state()).0,
        lex_word(old(l).lex_input(), old(l).state()).1,
{
    let ghost inp = l.lex_input();
    let ghost st0 = l.state();
    l.string_storage.clear();
    proof {
        assert(inp.input.subrange(st0.pos, st0.pos) =~= Seq::<u8>::empty());
    }
    loop
        invariant_except_break
            ident_end(inp, l.state().pos) == ident_end(inp, st0.pos),
        invariant
            0 <= st0.pos,
            l.wf(),
            l.lex_input() == inp,
            st0.pos <= l.state().pos <= inp.eof,
            l.state() == (LexState {
                pos: l.state().pos,
                storage: inp.input.subrange(st0.pos, l.state().pos),
                ..st0
            }),
        ensures
            l.state().pos == ident_end(inp, st0.pos),
        decreases l.eof - l.parse_point.current,
    {
        let c = peek_char(l);
        if c.is_none() {
            break;
        }
        let x = c.unwrap();
        if !is_identifier(x) {
            break;
        }
        let ghost p = l.state().pos;
        assert(x == inp.input[p]);
        l.string_storage.push(x);
        skip_char(l);
        proof {
            lemma_subrange_push(inp.input, st0.pos, p);
        }
    }
    let id = copy_bytes(l.string_storage.as_slice());
    l.string_storage.push(0);
    let mut tok = Token::ID;
    let mut i: usize = 0;
    while i < KEYWORDS_COUNT
        invariant_except_break
            keyword_token_from(id@, 0) == keyword_token_from(id@, i as int),
            tok == Token::ID,
        invariant
            i <= KEYWORDS_COUNT,
        ensures
            tok == keyword_token_from(id@, 0),
        decreases KEYWORDS_COUNT - i,
    {
        let (kw, t) = keyword_entry(i);
        if bytes_eq(id.as_slice(), kw.as_slice()) {
            tok = t;
            break;
        }
        i = i + 1;
    }
    l.token = tok;
    l.string = Some(id);
}

/// Reads a literal delimited by `delim` (whose opening delimiter is the next byte)
/// as a token of kind `token`.
fn lex_literal(l: &mut Lexer, delim: u8, token: Token) -> (r: Option<()>)
    requires
        old(l).wf(),
        old(l).error_count < usize::MAX,
        old(l).parse_point.current < old(l).eof,
        token == Token::String || token == Token::CharLit,
    ensures
        final(l).wf(),
        final(l).lex_input() == old(l).lex_input(),
        (final(l).state(), r is Some) == lex_quoted(old(l).lex_input(), old(l).state(), delim, token),
        old(l).state().pos < final(l).state().pos <= old(l).eof,
        final(l).error_count <= old(l).error_count + 1 || final(l).error_count <= MAX_ERROR_COUNT,
{
    let ghost inp = l.lex_input();
    let ghost st0 = l.state();
    skip_char(l);
    l.token = token;
    l.string_storage.clear();
    let ghost s1 = l.state();
    assert(s1 == (LexState { pos: st0.pos + 1, token, storage: Seq::empty(), ..st0 }));
    let scanned = parse_string_into_storage(l, delim);
    let ghost s2 = l.state();
    assert(str_scan(inp, delim, s1) == (s2, scanned is Some));
    proof {
        lemma_str_scan_keeps_loc(inp, delim, s1);
    }
    if scanned.is_none() {
        return None;
    }
    if is_eof(l) {
        let lc = loc(l);
        let d = if token == Token::String {
            LexDiag::UnfinishedString { loc: lc, start: l.loc }
        } else {
            LexDiag::UnfinishedChar { loc: lc, start: l.loc }
        };
        l.diagnostics.push(d);
        l.token = Token::ParseError;
        return None;
    }
    skip_char(l);
    if token == Token::CharLit && l.string_storage.len() == 0 {
        l.diagnostics.push(LexDiag::EmptyChar { loc: l.loc });
        if bump_error_count(&mut l.error_count).is_none() {
            return None;
        }
    }
    l.string_storage.push(0);
    l.string = Some(c_string(l.string_storage.as_slice()));
    Some(())
}

/// Reads a token that is no punctuation; `x` is the next byte.
fn lex_word_exec(l: &mut Lexer, x: u8) -> (r: Option<()>)
    requires
        old(l).wf(),
        old(l).error_count < usize::MAX,
        old(l).parse_point.current < old(l).eof,
        x == old(l).input_stream@[old(l).parse_point.current as int],
    ensures
        final(l).wf(),
        final(l).lex_input() == old(l).lex_input(),
        (final(l).state(), r is Some) == lex_word(old(l).lex_input(), old(l).state()),
        old(l).state().pos < final(l).state().pos <= old(l).eof,
        final(l).error_count <= old(l).error_count + 1 || final(l).error_count <= MAX_ERROR_COUNT,
{
    let ghost inp = l.lex_input();
    let ghost st0 = l.state();
    if is_identifier_start(x) {
        proof {
            lemma_ident_end(inp, st0.pos + 1);
        }
        lex_identifier(l);
        return Some(());
    }
    let start_of_number = l.parse_point;
    let zero_x = v2('0' as u8, 'x' as u8);
    let zero = v1('0' as u8);
    proof {
        assert(zero_x@ == s2('0', 'x'));
        assert(zero@ == s1('0'));
    }
    if skip_prefix(l, zero_x.as_slice()) {
        let value = parse_number(l, Radix::Hex);
        if l.historical {
            let end_point = l.parse_point;
            l.parse_point = start_of_number;
            let lc = loc(l);
            l.parse_point = end_point;
            l.diagnostics.push(LexDiag::HexInHistorical { loc: lc });
            if bump_error_count(&mut l.error_count).is_none() {
                return None;
            }
        }
        l.token = Token::IntLit;
        l.string_storage.clear();
        return value;
    }
    if skip_prefix(l, zero.as_slice()) {
        l.token = Token::IntLit;
        l.string_storage.clear();
        if parse_number(l, Radix::Oct).is_some() {
            return Some(());
        } else {
            l.parse_point = start_of_number;
        }
    }
    proof {
        if matches_at(inp, st0.pos, s1('0')) {
            assert(inp.input.subrange(st0.pos, st0.pos + 1)[0] == '0' as u8);
            assert(x == '0' as u8);
        }
        lemma_digits_end(inp, st0.pos, Radix::Dec);
        lemma_digits_end(inp, st0.pos + 1, Radix::Dec);
    }
    if isdigit(x) {
        l.token = Token::IntLit;
        l.string_storage.clear();
        let r = parse_number(l, Radix::Dec);
        proof {
            assert(is_digit(x));
            assert(lex_digit(x, Radix::Dec));
        }
        return r;
    }
    if x == '"' as u8 {
        return lex_literal(l, '"' as u8, Token::String);
    }
    if x == '\'' as u8 {
        return lex_literal(l, '\'' as u8, Token::CharLit);
    }
    l.diagnostics.push(LexDiag::UnknownToken { loc: l.loc, c: x });
    skip_char(l);
    l.token = Token::ParseError;
    let _ = bump_error_count(&mut l.error_count);
    None
}

/// Reads the next token. `None` when it failed: the error has been recorded, and
/// lexing can go on from the position reached (which is past where it started).
pub fn get_token(l: &mut Lexer) -> (r: Option<()>)
    requires
        old(l).wf(),
        old(l).error_count < usize::MAX,
    ensures
        final(l).wf(),
        final(l).lex_input() == old(l).lex_input(),
        (final(l).state(), r is Some) == lex_token(old(l).lex_input(), old(l).state()),
        old(l).state().pos <= final(l).state().pos <= old(l).eof,
        r is None ==> final(l).state().pos > old(l).state().pos,
        r is Some && final(l).token != Token::EOF ==> final(l).state().pos > old(l).state().pos,
        final(l).error_count <= old(l).error_count + 1 || final(l).error_count <= MAX_ERROR_COUNT,
{
    l.string = None;
    if skip_whitespaces_and_comments(l).is_none() {
        return None;
    }
    l.loc = loc(l);
    let c = peek_char(l);
    if c.is_none() {
        l.token = Token::EOF;
        return Some(());
    }
    let x = c.unwrap();
    proof {
        let p = l.state().pos;
        lemma_first_punct(l.lex_input(), p, PunctTable::Historical, 0);
        lemma_first_punct(l.lex_input(), p, PunctTable::Modern, 0);
        lemma_first_punct(l.lex_input(), p, PunctTable::Common, 0);
    }
    if match_puncts(l, PunctTable::Historical) {
        return Some(());
    }
    if !l.historical {
        if match_puncts(l, PunctTable::Modern) {
            return Some(());
        }
    }
    if match_puncts(l, PunctTable::Common) {
        return Some(());
    }
    lex_word_exec(l, x)
}

/// Reads tokens until one is read without error; `None` at the end of the input.
pub fn get_next_valid_token(l: &mut Lexer) -> (r: Option<()>)
    requires
        old(l).wf(),
        old(l).error_count + old(l).eof + MAX_ERROR_COUNT < usize::MAX,
    ensures
        final(l).wf(),
        final(l).lex_input() == old(l).lex_input(),
        (final(l).state(), r is Some) == next_valid_token(old(l).lex_input(), old(l).state()),
{
    let ghost inp = l.lex_input();
    let ghost st0 = l.state();
    let mut result: Option<()> = None;
    loop
        invariant_except_break
            next_valid_token(inp, l.state()) == next_valid_token(inp, st0),
            l.error_count <= st0.error_count + MAX_ERROR_COUNT + (l.state().pos - st0.pos),
        invariant
            0 <= st0.pos,
            0 <= st0.error_count,
            l.wf(),
            l.lex_input() == inp,
            st0.pos <= l.state().pos <= inp.eof,
            st0.error_count + inp.eof + MAX_ERROR_COUNT < usize::MAX,
        ensures
            (l.state(), result is Some) == next_valid_token(inp, st0),
        decreases l.eof - l.parse_point.current,
    {
        let ghost head = l.state();
        if get_token(l).is_some() {
            if l.token == Token::EOF {
                result = None;
            } else {
                result = Some(());
            }
            break;
        }
        assert(next_valid_token(inp, head) == next_valid_token(inp, l.state()));
    }
    result
}

} // verus!
