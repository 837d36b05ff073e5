//! Inline assembly: one statement per line, either a label (`name:`) or a
//! mnemonic with its operand.
use vstd::prelude::*;
use crate::bytes::{copy_bytes, cstr_from};
use crate::ctype::{is_digit, isdigit, to_upper, toupper};
use crate::lexer::Loc;
use crate::lexer::model::{cstr, is_ident_start, is_ident_char};
use crate::lexer::{is_identifier, is_identifier_start};
use crate::numparse::{ch, ch_at, skip_ws, skip_spaces, strtoull, strtoull_at, lemma_skip_ws};
use super::opcodes::{Instr, AddrMode, opcode_of, opcode, INVL, first_named, instr_from_string};
use super::assembler::{
    grows,
    Assembler, Errors, Diag, Byte, RelocationKind, RelocKindV, GenState, ErrsV, gen_state, diag_view, count_ok,
    err_bump, st_bump, st_byte, st_word, st_reloc, st_add_external, write_byte, write_word, add_reloc,
    add_external,
};
use super::emit::report;

verus! {

/// `loc` moved `p + 1` columns on: where an error at position `p` of a line is shown.
pub open spec fn at_offset(loc: Loc, p: int) -> Loc {
    Loc { line_offset: (loc.line_offset + p + 1) as i32, ..loc }
}

/// Room in the column of `loc` for `k` more moves within a line of `n` bytes.
pub open spec fn room(loc: Loc, n: int, k: int) -> bool {
    &&& n + 10 <= i32::MAX
    &&& loc.line_offset + k * (n + 10) <= i32::MAX
}

fn moved(loc: Loc, p: usize, Ghost(n): Ghost<int>, Ghost(k): Ghost<int>) -> (r: Loc)
    requires
        room(loc, n, k),
        k >= 1,
        n >= 0,
        p <= n + 8,
    ensures
        r == at_offset(loc, p as int),
        room(r, n, k - 1),
        r.line_offset <= loc.line_offset + (n + 10),
{
    assert(loc.line_offset + (p + 1) <= loc.line_offset + k * (n + 10)) by (nonlinear_arith)
        requires
            k >= 1,
            p <= n + 8,
            n >= 0,
    ;
    assert((k - 1) * (n + 10) + (p + 1) <= k * (n + 10)) by (nonlinear_arith)
        requires
            p <= n + 8,
    ;
    Loc { line_offset: loc.line_offset + (p + 1) as i32, ..loc }
}

/// The end of the run of identifier characters that starts at `i`.
pub open spec fn ident_run_end(s: Seq<u8>, i: int) -> int
    decreases s.len() - i,
{
    if i < 0 || i >= s.len() || !is_ident_char(s[i]) {
        i
    } else {
        ident_run_end(s, i + 1)
    }
}

/// The end of the word (no white space, no zero byte) that starts at `i`.
pub open spec fn word_end(s: Seq<u8>, i: int) -> int
    decreases s.len() - i,
{
    if i < 0 || i >= s.len() || s[i] == 0 || crate::ctype::is_space(s[i]) {
        i
    } else {
        word_end(s, i + 1)
    }
}

/// An address operand: a number or a label.
pub enum Address {
    Literal(u16),
    Label(Vec<u8>),
}

/// The mathematical value of an `Address`.
pub enum AddressV {
    Literal(u16),
    Label(Seq<u8>),
}

impl View for Address {
    type V = AddressV;

    open spec fn view(&self) -> AddressV {
        match self {
            Address::Literal(v) => AddressV::Literal(*v),
            Address::Label(s) => AddressV::Label(s@),
        }
    }
}

/// Reading a number (`$` and hex digits, or decimal digits) at `p`: the errors, whether
/// to go on, the value (cut to 16 bits) and the position after the number and the
/// white space behind it.
pub open spec fn st_parse_num(e: ErrsV, line: Seq<u8>, p: int, loc: Loc) -> (ErrsV, bool, u16, int) {
    let j = skip_ws(line, p);
    let c = ch(line, j);
    if c == '$' as u8 || is_digit(c) {
        let r = if c == '$' as u8 {
            strtoull(line, j + 1, 16)
        } else {
            strtoull(line, j, 10)
        };
        if r.0 > 0xFFFF {
            let (e1, ok) = err_bump(e, Diag::NumberOutOfRange { loc: at_offset(loc, j), value: r.0 });
            (e1, ok, r.0 as u16, skip_ws(line, r.1))
        } else {
            (e, true, r.0 as u16, skip_ws(line, r.1))
        }
    } else {
        let (e1, ok) = err_bump(e, Diag::UnexpectedCharInNumber { loc: at_offset(loc, j), c });
        (e1, ok, 0, skip_ws(line, j + 1))
    }
}

/// Reading an address at `p`: a label (an identifier) or a number.
pub open spec fn st_parse_addr(e: ErrsV, line: Seq<u8>, p: int, loc: Loc) -> (ErrsV, bool, AddressV, int) {
    let j = skip_ws(line, p);
    if is_ident_start(ch(line, j)) {
        let k = ident_run_end(line, j);
        (e, true, AddressV::Label(line.subrange(j, k)), skip_ws(line, k))
    } else {
        let (e1, ok, v, q) = st_parse_num(e, line, j, loc);
        (e1, ok, AddressV::Literal(v), skip_ws(line, q))
    }
}

/// Where a run of identifier characters ends.
pub proof fn lemma_ident_run_end(s: Seq<u8>, i: int)
    requires
        0 <= i,
    ensures
        i <= ident_run_end(s, i),
        ident_run_end(s, i) == i || ident_run_end(s, i) <= s.len(),
    decreases s.len() - i,
{
    if 0 <= i < s.len() && is_ident_char(s[i]) {
        lemma_ident_run_end(s, i + 1);
    }
}

/// Where a word ends.
pub proof fn lemma_word_end(s: Seq<u8>, i: int)
    requires
        0 <= i,
    ensures
        i <= word_end(s, i),
        word_end(s, i) == i || word_end(s, i) <= s.len(),
    decreases s.len() - i,
{
    if 0 <= i < s.len() && s[i] != 0 && !crate::ctype::is_space(s[i]) {
        lemma_word_end(s, i + 1);
    }
}

/// Lines short enough that positions and columns stay in range.
pub open spec fn line_ok(line: Seq<u8>) -> bool {
    line.len() + 10 <= i32::MAX
}

/// Reads a number (`$` and hex digits, or decimal digits) at `p`, and the white space
/// behind it; `None` once there are too many errors.
pub fn parse_num(line: &[u8], p: usize, loc: Loc, errs: &mut Errors) -> (r: Option<(u16, usize)>)
    requires
        line_ok(line@),
        p <= line@.len() + 4,
        room(loc, line@.len() as int, 1),
        old(errs).error_count < usize::MAX,
    ensures
        ({
            let (e, ok, v, q) = st_parse_num(old(errs)@, line@, p as int, loc);
            &&& final(errs)@ == e
            &&& (r is Some <==> ok)
            &&& (r matches Some(x) ==> x.0 == v && x.1 == q)
            &&& (ok ==> q <= line@.len() + 5)
        }),
        count_ok(old(errs).error_count, final(errs).error_count, r is Some),
{
    let j = skip_spaces(line, p);
    proof {
        lemma_skip_ws(line@, p as int);
    }
    let c = ch_at(line, j);
    if c == '$' as u8 || isdigit(c) {
        let (v, end) = if c == '$' as u8 {
            strtoull_at(line, j + 1, 16)
        } else {
            strtoull_at(line, j, 10)
        };
        proof {
            lemma_skip_ws(line@, end as int);
        }
        assert(end <= line@.len() + 5) by {
            crate::numparse::lemma_strtoull_end(line@, if c == '$' as u8 { j + 1 } else { j as int }, if c == '$' as u8 { 16 } else { 10 });
        }
        if v > 0xFFFF {
            let d = Diag::NumberOutOfRange { loc: moved(loc, j, Ghost(line@.len() as int), Ghost(1)), value: v };
            if report(errs, d).is_none() {
                return None;
            }
        }
        let q = skip_spaces(line, end);
        Some((v as u16, q))
    } else {
        let d = Diag::UnexpectedCharInNumber { loc: moved(loc, j, Ghost(line@.len() as int), Ghost(1)), c };
        if report(errs, d).is_none() {
            return None;
        }
        proof {
            lemma_skip_ws(line@, j + 1);
        }
        Some((0, skip_spaces(line, j + 1)))
    }
}

/// Reads an address at `p` (a label or a number), and the white space behind it;
/// `None` once there are too many errors.
pub fn parse_addr_or_label(line: &[u8], p: usize, loc: Loc, errs: &mut Errors) -> (r: Option<(Address, usize)>)
    requires
        line_ok(line@),
        p <= line@.len() + 4,
        room(loc, line@.len() as int, 1),
        old(errs).error_count < usize::MAX,
    ensures
        ({
            let (e, ok, a, q) = st_parse_addr(old(errs)@, line@, p as int, loc);
            &&& final(errs)@ == e
            &&& (r is Some <==> ok)
            &&& (r matches Some(x) ==> x.0@ == a && x.1 == q)
            &&& (ok ==> q <= line@.len() + 5)
        }),
        count_ok(old(errs).error_count, final(errs).error_count, r is Some),
{
    let j = skip_spaces(line, p);
    proof {
        lemma_skip_ws(line@, p as int);
    }
    if is_identifier_start(ch_at(line, j)) {
        let mut k = j;
        while k < line.len() && is_identifier(line[k])
            invariant
                j <= k,
                j < line@.len(),
                ident_run_end(line@, k as int) == ident_run_end(line@, j as int),
            decreases line.len() - k,
        {
            k = k + 1;
        }
        proof {
            lemma_ident_run_end(line@, j as int);
            lemma_skip_ws(line@, k as int);
        }
        let label = slice_copy(line, j, k);
        Some((Address::Label(label), skip_spaces(line, k)))
    } else {
        match parse_num(line, j, loc, errs) {
            Some((v, q)) => {
                proof {
                    lemma_skip_ws(line@, q as int);
                }
                Some((Address::Literal(v), skip_spaces(line, q)))
            },
            None => None,
        }
    }
}

/// A copy of `s[i..j]`.
fn slice_copy(s: &[u8], i: usize, j: usize) -> (r: Vec<u8>)
    requires
        i <= j <= s@.len(),
    ensures
        r@ == s@.subrange(i as int, j as int),
{
    let mut r: Vec<u8> = Vec::new();
    let mut k = i;
    while k < j
        invariant
            i <= k <= j <= s@.len(),
            r@ == s@.subrange(i as int, k as int),
        decreases j - k,
    {
        r.push(s[k]);
        k = k + 1;
        proof {
            assert(r@ =~= s@.subrange(i as int, k as int));
        }
    }
    r
}

/// The operand of a statement: its addressing mode and what follows the opcode.
pub struct Operand {
    pub mode: AddrMode,
    pub arg8: Option<u8>,
    pub arg16: Option<u16>,
    pub label: Option<Vec<u8>>,
}

/// The mathematical value of an `Operand`.
pub struct OperandV {
    pub mode: AddrMode,
    pub arg8: Option<u8>,
    pub arg16: Option<u16>,
    pub label: Option<Seq<u8>>,
}

/// An optional byte vector taken as an optional sequence.
pub open spec fn opt_bytes(o: Option<Vec<u8>>) -> Option<Seq<u8>> {
    match o {
        Some(v) => Some(v@),
        None => None,
    }
}

impl View for Operand {
    type V = OperandV;

    open spec fn view(&self) -> OperandV {
        OperandV { mode: self.mode, arg8: self.arg8, arg16: self.arg16, label: opt_bytes(self.label) }
    }
}

/// Where reading a statement stands: the errors, the location that errors are shown
/// at (each error moves it on), the position in the line.
pub struct ReadV {
    pub errs: ErrsV,
    pub loc: Loc,
    pub pos: int,
}

/// An error `d` (shown at the position, which moves the location) where `bad` holds.
pub open spec fn check(r: ReadV, bad: bool, d: Diag<Seq<u8>>) -> (ReadV, bool) {
    if bad {
        let (e1, ok) = err_bump(r.errs, d);
        (ReadV { errs: e1, loc: at_offset(r.loc, r.pos), ..r }, ok)
    } else {
        (r, true)
    }
}

/// The operand of an instruction that takes none.
pub open spec fn no_operand() -> OperandV {
    OperandV { mode: AddrMode::IMPL, arg8: None, arg16: None, label: None }
}

/// The branch offset of `*+n` or `*-n`: the number as a 16-bit word, read as an 8-bit one.
pub open spec fn rel_of(v: u64) -> i8 {
    ((v as u16) as i16) as i8
}

/// `*`, `*+n` or `*-n` at `p`: a relative branch; the position after it and the offset byte.
pub open spec fn st_star(line: Seq<u8>, p: int) -> (int, u8) {
    let q = p + 1;
    if ch(line, q) == '+' as u8 || ch(line, q) == '-' as u8 {
        let (v, end) = strtoull(line, q, 10);
        (end, (rel_of(v) - 2) as u8)
    } else {
        (q, 254)
    }
}

/// `#n`: an immediate byte.
pub open spec fn st_imm(r: ReadV, line: Seq<u8>) -> (ReadV, bool, OperandV) {
    let (e1, ok, num, q) = st_parse_num(r.errs, line, r.pos + 1, r.loc);
    if !ok {
        (ReadV { errs: e1, ..r }, false, no_operand())
    } else {
        let r1 = ReadV { errs: e1, pos: q, ..r };
        let (r2, ok2) = check(r1, num > 0xFF, Diag::ImmediateOutOfRange { loc: at_offset(r1.loc, q), value: num });
        (r2, ok2, OperandV { mode: AddrMode::IMM, arg8: Some(num as u8), arg16: None, label: None })
    }
}

/// The number of an address operand; 0 for a label.
pub open spec fn addr_num(a: AddressV) -> u16 {
    match a {
        AddressV::Literal(v) => v,
        AddressV::Label(_) => 0,
    }
}

/// `(zp,X)`, after the address.
pub open spec fn st_ind_x(r1: ReadV, line: Seq<u8>, addr: AddressV) -> (ReadV, bool, OperandV) {
    let (r2, ok2) = check(r1, addr is Label, Diag::LabelForIndirectX { loc: at_offset(r1.loc, r1.pos) });
    let num = addr_num(addr);
    let (r3, ok3) = check(r2, num > 0xFF, Diag::IndirectXOutOfRange { loc: at_offset(r2.loc, r2.pos), value: num });
    let r4 = ReadV { pos: skip_ws(line, r3.pos + 1), ..r3 };
    let (r5, ok5) = check(r4, to_upper(ch(line, r4.pos)) != 'X' as u8, Diag::XExpected { loc: at_offset(r4.loc, r4.pos) });
    let r6 = ReadV { pos: skip_ws(line, r5.pos + 1), ..r5 };
    let (r7, ok7) = check(r6, to_upper(ch(line, r6.pos)) != ')' as u8, Diag::ParenExpectedAfterX {
        loc: at_offset(r6.loc, r6.pos),
    });
    if !ok2 {
        (r2, false, no_operand())
    } else if !ok3 {
        (r3, false, no_operand())
    } else if !ok5 {
        (r5, false, no_operand())
    } else if !ok7 {
        (r7, false, no_operand())
    } else {
        (ReadV { pos: r7.pos + 1, ..r7 }, true, OperandV {
            mode: AddrMode::IND_X,
            arg8: Some(num as u8),
            arg16: None,
            label: None,
        })
    }
}

/// `(addr)` or `(zp),Y`, after the address.
pub open spec fn st_ind_y(r1: ReadV, line: Seq<u8>, addr: AddressV) -> (ReadV, bool, OperandV) {
    let (r2, ok2) = check(r1, ch(line, r1.pos) != ')' as u8, Diag::CommaOrParenExpected { loc: at_offset(r1.loc, r1.pos) });
    let r3 = ReadV { pos: skip_ws(line, r2.pos + 1), ..r2 };
    let (r4, ok4) = check(r3, addr is Label, Diag::LabelForIndirectY { loc: at_offset(r3.loc, r3.pos) });
    let num = addr_num(addr);
    let (r5, ok5) = check(r4, num > 0xFF, Diag::IndirectYOutOfRange { loc: at_offset(r4.loc, r4.pos), value: num });
    let r6 = ReadV { pos: skip_ws(line, r5.pos + 1), ..r5 };
    let (r7, ok7) = check(r6, to_upper(ch(line, r6.pos)) != 'Y' as u8, Diag::YExpected { loc: at_offset(r6.loc, r6.pos) });
    if !ok2 {
        (r2, false, no_operand())
    } else if ch(line, r3.pos) != ',' as u8 {
        (r3, true, OperandV { mode: AddrMode::IND, arg8: None, arg16: addr_lit(addr), label: addr_label(addr) })
    } else if !ok4 {
        (r4, false, no_operand())
    } else if !ok5 {
        (r5, false, no_operand())
    } else if !ok7 {
        (r7, false, no_operand())
    } else {
        (ReadV { pos: r7.pos + 1, ..r7 }, true, OperandV {
            mode: AddrMode::IND_Y,
            arg8: Some(num as u8),
            arg16: None,
            label: None,
        })
    }
}

/// The number of an address operand, where it is one.
pub open spec fn addr_lit(a: AddressV) -> Option<u16> {
    match a {
        AddressV::Literal(v) => Some(v),
        AddressV::Label(_) => None,
    }
}

/// The label of an address operand, where it is one.
pub open spec fn addr_label(a: AddressV) -> Option<Seq<u8>> {
    match a {
        AddressV::Literal(_) => None,
        AddressV::Label(l) => Some(l),
    }
}

/// An operand in parentheses.
pub open spec fn st_paren(r: ReadV, line: Seq<u8>) -> (ReadV, bool, OperandV) {
    let (e1, ok, addr, q) = st_parse_addr(r.errs, line, r.pos + 1, r.loc);
    let r1 = ReadV { errs: e1, pos: q, ..r };
    if !ok {
        (r1, false, no_operand())
    } else if ch(line, q) == ',' as u8 {
        st_ind_x(r1, line, addr)
    } else {
        st_ind_y(r1, line, addr)
    }
}

/// An absolute operand, optionally indexed with `,X` or `,Y`.
pub open spec fn st_plain(r: ReadV, line: Seq<u8>) -> (ReadV, bool, OperandV) {
    let (e1, ok, addr, q) = st_parse_addr(r.errs, line, r.pos, r.loc);
    let r1 = ReadV { errs: e1, pos: q, ..r };
    let o = OperandV { mode: AddrMode::ABS, arg8: None, arg16: addr_lit(addr), label: addr_label(addr) };
    if !ok {
        (r1, false, no_operand())
    } else if ch(line, q) == ',' as u8 {
        let q2 = skip_ws(line, q + 1);
        let c = to_upper(ch(line, q2));
        if c == 'X' as u8 {
            (ReadV { pos: q2 + 1, ..r1 }, true, OperandV { mode: AddrMode::ABS_X, ..o })
        } else if c == 'Y' as u8 {
            (ReadV { pos: q2 + 1, ..r1 }, true, OperandV { mode: AddrMode::ABS_Y, ..o })
        } else {
            (ReadV { pos: q2, ..r1 }, true, o)
        }
    } else {
        (r1, true, o)
    }
}

/// The operand that starts at `r.pos`.
pub open spec fn st_operand(r: ReadV, line: Seq<u8>) -> (ReadV, bool, OperandV) {
    let c = ch(line, r.pos);
    if c == 0 {
        (r, true, no_operand())
    } else if c == '*' as u8 {
        let (q, b) = st_star(line, r.pos);
        (ReadV { pos: q, ..r }, true, OperandV { mode: AddrMode::REL, arg8: Some(b), arg16: None, label: None })
    } else if c == '#' as u8 {
        st_imm(r, line)
    } else if c == '(' as u8 {
        st_paren(r, line)
    } else {
        st_plain(r, line)
    }
}

/// In a statement that is no label, an operand `*+n` or `*-n` has an offset of at
/// least -126 (a lower one would take the offset byte below -128).
pub open spec fn star_ok(line: Seq<u8>) -> bool {
    let p0 = skip_ws(line, 0);
    let p1 = word_end(line, p0);
    let p2 = skip_ws(line, p1);
    let q = p2 + 1;
    (!(p1 > p0 && ch(line, p1 - 1) == ':' as u8) && ch(line, p2) == '*' as u8 && (ch(line, q) == '+' as u8
        || ch(line, q) == '-' as u8)) ==> rel_of(strtoull(line, q, 10).0) >= -126
}

/// The state of reading, as a value.
pub open spec fn read_state(e: ErrsV, loc: Loc, pos: usize) -> ReadV {
    ReadV { errs: e, loc, pos: pos as int }
}

/// What each reader promises about its result.
pub open spec fn read_result(st: (ReadV, bool), o: OperandV, e: ErrsV, loc: Loc, pos: usize, r: Option<OperandV>) -> bool {
    &&& e == st.0.errs
    &&& (r is Some <==> st.1)
    &&& (r matches Some(x) ==> x == o && loc == st.0.loc && pos == st.0.pos)
}

/// An optional operand taken by its value.
pub open spec fn opt_operand(r: Option<Operand>) -> Option<OperandV> {
    match r {
        Some(o) => Some(o@),
        None => None,
    }
}

fn read_imm(line: &[u8], pos: &mut usize, loc: &mut Loc, errs: &mut Errors) -> (r: Option<Operand>)
    requires
        line_ok(line@),
        *old(pos) <= line@.len(),
        room(*old(loc), line@.len() as int, 2),
        old(errs).error_count < usize::MAX,
    ensures
        ({
            let (r1, ok, o) = st_imm(read_state(old(errs)@, *old(loc), *old(pos)), line@);
            read_result((r1, ok), o, final(errs)@, *final(loc), *final(pos), opt_operand(r))
        }),
        count_ok(old(errs).error_count, final(errs).error_count, r is Some),
        r is Some ==> *final(pos) <= line@.len() + 5,
        r is Some ==> final(loc).line_offset <= old(loc).line_offset + (line@.len() + 10),
{
    let (num, q) = match parse_num(line, *pos + 1, *loc, errs) {
        Some(x) => x,
        None => {
            return None;
        },
    };
    *pos = q;
    if num > 0xFF {
        *loc = moved(*loc, q, Ghost(line@.len() as int), Ghost(2));
        if report(errs, Diag::ImmediateOutOfRange { loc: *loc, value: num }).is_none() {
            return None;
        }
    }
    Some(Operand { mode: AddrMode::IMM, arg8: Some(num as u8), arg16: None, label: None })
}

fn read_ind_x(line: &[u8], pos: &mut usize, loc: &mut Loc, errs: &mut Errors, addr: &Address) -> (r: Option<Operand>)
    requires
        line_ok(line@),
        *old(pos) <= line@.len() + 5,
        room(*old(loc), line@.len() as int, 4),
        old(errs).error_count < usize::MAX,
    ensures
        ({
            let (r1, ok, o) = st_ind_x(read_state(old(errs)@, *old(loc), *old(pos)), line@, addr@);
            read_result((r1, ok), o, final(errs)@, *final(loc), *final(pos), opt_operand(r))
        }),
        count_ok(old(errs).error_count, final(errs).error_count, r is Some),
        r is Some ==> *final(pos) <= line@.len() + 8,
        r is Some ==> final(loc).line_offset <= old(loc).line_offset + 4 * (line@.len() + 10),
{
    let ghost n = line@.len() as int;
    let ghost r1 = read_state(errs@, *loc, *pos);
    let is_label = match addr {
        Address::Label(_) => true,
        Address::Literal(_) => false,
    };
    if is_label {
        *loc = moved(*loc, *pos, Ghost(n), Ghost(4));
        if report(errs, Diag::LabelForIndirectX { loc: *loc }).is_none() {
            return None;
        }
    }
    let ghost r2 = read_state(errs@, *loc, *pos);
    assert(check(r1, addr@ is Label, Diag::LabelForIndirectX { loc: at_offset(r1.loc, r1.pos) }) == (r2, true));
    let num: u16 = match addr {
        Address::Literal(v) => *v,
        Address::Label(_) => 0,
    };
    if num > 0xFF {
        *loc = moved(*loc, *pos, Ghost(n), Ghost(3));
        if report(errs, Diag::IndirectXOutOfRange { loc: *loc, value: num }).is_none() {
            return None;
        }
    }
    let ghost r3 = read_state(errs@, *loc, *pos);
    assert(check(r2, num > 0xFF, Diag::IndirectXOutOfRange { loc: at_offset(r2.loc, r2.pos), value: num }) == (r3, true));
    proof {
        lemma_skip_ws(line@, *pos + 1);
    }
    *pos = skip_spaces(line, *pos + 1);
    if toupper(ch_at(line, *pos)) != 'X' as u8 {
        *loc = moved(*loc, *pos, Ghost(n), Ghost(2));
        if report(errs, Diag::XExpected { loc: *loc }).is_none() {
            return None;
        }
    }
    let ghost r5 = read_state(errs@, *loc, *pos);
    proof {
        lemma_skip_ws(line@, *pos + 1);
    }
    *pos = skip_spaces(line, *pos + 1);
    if toupper(ch_at(line, *pos)) != ')' as u8 {
        *loc = moved(*loc, *pos, Ghost(n), Ghost(1));
        if report(errs, Diag::ParenExpectedAfterX { loc: *loc }).is_none() {
            return None;
        }
    }
    *pos = *pos + 1;
    Some(Operand { mode: AddrMode::IND_X, arg8: Some(num as u8), arg16: None, label: None })
}

fn addr_parts(addr: &Address) -> (r: (Option<u16>, Option<Vec<u8>>))
    ensures
        r.0 == addr_lit(addr@),
        opt_bytes(r.1) == addr_label(addr@),
{
    match addr {
        Address::Literal(v) => (Some(*v), None),
        Address::Label(l) => (None, Some(copy_bytes(l))),
    }
}

fn read_ind_y(line: &[u8], pos: &mut usize, loc: &mut Loc, errs: &mut Errors, addr: &Address) -> (r: Option<Operand>)
    requires
        line_ok(line@),
        *old(pos) <= line@.len() + 5,
        room(*old(loc), line@.len() as int, 4),
        old(errs).error_count < usize::MAX,
    ensures
        ({
            let (r1, ok, o) = st_ind_y(read_state(old(errs)@, *old(loc), *old(pos)), line@, addr@);
            read_result((r1, ok), o, final(errs)@, *final(loc), *final(pos), opt_operand(r))
        }),
        count_ok(old(errs).error_count, final(errs).error_count, r is Some),
        r is Some ==> *final(pos) <= line@.len() + 8,
        r is Some ==> final(loc).line_offset <= old(loc).line_offset + 4 * (line@.len() + 10),
{
    let ghost n = line@.len() as int;
    if ch_at(line, *pos) != ')' as u8 {
        *loc = moved(*loc, *pos, Ghost(n), Ghost(4));
        if report(errs, Diag::CommaOrParenExpected { loc: *loc }).is_none() {
            return None;
        }
    }
    proof {
        lemma_skip_ws(line@, *pos + 1);
    }
    *pos = skip_spaces(line, *pos + 1);
    let ghost r3 = read_state(errs@, *loc, *pos);
    if ch_at(line, *pos) != ',' as u8 {
        let (lit, label) = addr_parts(addr);
        return Some(Operand { mode: AddrMode::IND, arg8: None, arg16: lit, label });
    }
    let is_label = match addr {
        Address::Label(_) => true,
        Address::Literal(_) => false,
    };
    if is_label {
        *loc = moved(*loc, *pos, Ghost(n), Ghost(3));
        if report(errs, Diag::LabelForIndirectY { loc: *loc }).is_none() {
            return None;
        }
    }
    let ghost r4 = read_state(errs@, *loc, *pos);
    assert(check(r3, addr@ is Label, Diag::LabelForIndirectY { loc: at_offset(r3.loc, r3.pos) }) == (r4, true));
    let num: u16 = match addr {
        Address::Literal(v) => *v,
        Address::Label(_) => 0,
    };
    if num > 0xFF {
        *loc = moved(*loc, *pos, Ghost(n), Ghost(2));
        if report(errs, Diag::IndirectYOutOfRange { loc: *loc, value: num }).is_none() {
            return None;
        }
    }
    proof {
        lemma_skip_ws(line@, *pos + 1);
    }
    *pos = skip_spaces(line, *pos + 1);
    if toupper(ch_at(line, *pos)) != 'Y' as u8 {
        *loc = moved(*loc, *pos, Ghost(n), Ghost(1));
        if report(errs, Diag::YExpected { loc: *loc }).is_none() {
            return None;
        }
    }
    *pos = *pos + 1;
    Some(Operand { mode: AddrMode::IND_Y, arg8: Some(num as u8), arg16: None, label: None })
}

fn read_paren(line: &[u8], pos: &mut usize, loc: &mut Loc, errs: &mut Errors) -> (r: Option<Operand>)
    requires
        line_ok(line@),
        *old(pos) <= line@.len(),
        room(*old(loc), line@.len() as int, 4),
        old(errs).error_count < usize::MAX,
    ensures
        ({
            let (r1, ok, o) = st_paren(read_state(old(errs)@, *old(loc), *old(pos)), line@);
            read_result((r1, ok), o, final(errs)@, *final(loc), *final(pos), opt_operand(r))
        }),
        count_ok(old(errs).error_count, final(errs).error_count, r is Some),
        r is Some ==> *final(pos) <= line@.len() + 8,
        r is Some ==> final(loc).line_offset <= old(loc).line_offset + 4 * (line@.len() + 10),
{
    let (addr, q) = match parse_addr_or_label(line, *pos + 1, *loc, errs) {
        Some(x) => x,
        None => {
            return None;
        },
    };
    *pos = q;
    if ch_at(line, q) == ',' as u8 {
        read_ind_x(line, pos, loc, errs, &addr)
    } else {
        read_ind_y(line, pos, loc, errs, &addr)
    }
}

fn read_plain(line: &[u8], pos: &mut usize, loc: &mut Loc, errs: &mut Errors) -> (r: Option<Operand>)
    requires
        line_ok(line@),
        *old(pos) <= line@.len(),
        room(*old(loc), line@.len() as int, 1),
        old(errs).error_count < usize::MAX,
    ensures
        ({
            let (r1, ok, o) = st_plain(read_state(old(errs)@, *old(loc), *old(pos)), line@);
            read_result((r1, ok), o, final(errs)@, *final(loc), *final(pos), opt_operand(r))
        }),
        count_ok(old(errs).error_count, final(errs).error_count, r is Some),
        r is Some ==> *final(pos) <= line@.len() + 7,
        r is Some ==> final(loc).line_offset == old(loc).line_offset,
{
    let (addr, q) = match parse_addr_or_label(line, *pos, *loc, errs) {
        Some(x) => x,
        None => {
            return None;
        },
    };
    *pos = q;
    let (lit, label) = addr_parts(&addr);
    let mut mode = AddrMode::ABS;
    if ch_at(line, q) == ',' as u8 {
        proof {
            lemma_skip_ws(line@, q + 1);
        }
        let q2 = skip_spaces(line, q + 1);
        let c = toupper(ch_at(line, q2));
        if c == 'X' as u8 {
            *pos = q2 + 1;
            mode = AddrMode::ABS_X;
        } else if c == 'Y' as u8 {
            *pos = q2 + 1;
            mode = AddrMode::ABS_Y;
        } else {
            *pos = q2;
        }
    }
    Some(Operand { mode, arg8: None, arg16: lit, label })
}

/// Reads the operand that starts at `pos`.
fn read_operand(line: &[u8], pos: &mut usize, loc: &mut Loc, errs: &mut Errors) -> (r: Option<Operand>)
    requires
        line_ok(line@),
        *old(pos) <= line@.len(),
        room(*old(loc), line@.len() as int, 4),
        old(errs).error_count < usize::MAX,
        ch(line@, *old(pos) as int) == '*' as u8 && (ch(line@, *old(pos) + 1) == '+' as u8 || ch(line@, *old(pos) + 1)
            == '-' as u8) ==> rel_of(strtoull(line@, *old(pos) + 1, 10).0) >= -126,
    ensures
        ({
            let (r1, ok, o) = st_operand(read_state(old(errs)@, *old(loc), *old(pos)), line@);
            read_result((r1, ok), o, final(errs)@, *final(loc), *final(pos), opt_operand(r))
        }),
        count_ok(old(errs).error_count, final(errs).error_count, r is Some),
        r is Some ==> *final(pos) <= line@.len() + 8,
        r is Some ==> final(loc).line_offset <= old(loc).line_offset + 4 * (line@.len() + 10),
{
    let c = ch_at(line, *pos);
    if c == 0 {
        Some(Operand { mode: AddrMode::IMPL, arg8: None, arg16: None, label: None })
    } else if c == '*' as u8 {
        *pos = *pos + 1;
        let d = ch_at(line, *pos);
        let mut rel: i8 = 0;
        if d == '+' as u8 || d == '-' as u8 {
            let (v, end) = strtoull_at(line, *pos, 10);
            proof {
                crate::numparse::lemma_strtoull_end(line@, *pos as int, 10);
            }
            *pos = end;
            rel = v as u16 as i16 as i8;
            assert(rel == rel_of(v)) by (bit_vector)
                requires
                    rel == v as u16 as i16 as i8,
            ;
        }
        let b = rel - 2;
        assert((rel - 2) as u8 == (b as u8) && (rel == 0 ==> b as u8 == 254)) by (bit_vector)
            requires
                b == rel - 2,
        ;
        Some(Operand { mode: AddrMode::REL, arg8: Some(b as u8), arg16: None, label: None })
    } else if c == '#' as u8 {
        read_imm(line, pos, loc, errs)
    } else if c == '(' as u8 {
        read_paren(line, pos, loc, errs)
    } else {
        read_plain(line, pos, loc, errs)
    }
}

/// An absolute operand below `$100` in its zero-page form where the instruction has
/// one; a label operand of an instruction that only branches becomes relative.
pub open spec fn shape(i: Instr, o: OperandV) -> OperandV {
    let o1 = match o.arg16 {
        Some(v) => if o.mode == AddrMode::ABS && v <= 0xFF && opcode_of(i, AddrMode::ZP) != INVL {
            OperandV { mode: AddrMode::ZP, arg8: Some(v as u8), arg16: None, ..o }
        } else if o.mode == AddrMode::ABS_X && v <= 0xFF && opcode_of(i, AddrMode::ZP_X) != INVL {
            OperandV { mode: AddrMode::ZP_X, arg8: Some(v as u8), arg16: None, ..o }
        } else if o.mode == AddrMode::ABS_Y && v <= 0xFF && opcode_of(i, AddrMode::ZP_Y) != INVL {
            OperandV { mode: AddrMode::ZP_Y, arg8: Some(v as u8), arg16: None, ..o }
        } else {
            o
        },
        None => o,
    };
    if o1.label is Some && o1.mode == AddrMode::ABS && opcode_of(i, AddrMode::ABS) == INVL && opcode_of(i, AddrMode::REL)
        != INVL {
        OperandV { mode: AddrMode::REL, ..o1 }
    } else {
        o1
    }
}

/// The opcode and then the operand: a byte, a word, or room for the label's address.
pub open spec fn st_emit(s: GenState, i: Instr, o: OperandV) -> GenState {
    let s1 = st_byte(s, opcode_of(i, o.mode));
    match o.arg8 {
        Some(b) => st_byte(s1, b),
        None => match o.arg16 {
            Some(w) => st_word(s1, w),
            None => match o.label {
                Some(l) => st_reloc(s1, RelocKindV::External {
                    name: l,
                    offset: 0,
                    byte: Byte::Both,
                    relative: o.mode == AddrMode::REL,
                }),
                None => s1,
            },
        },
    }
}

/// A label line `name:`, the word ending at `p1`: `name` is defined at the end of the
/// output; text after it is an error.
pub open spec fn st_assemble_label(s: GenState, line: Seq<u8>, loc: Loc, p0: int, p1: int) -> (GenState, bool) {
    let lloc = at_offset(loc, p1);
    let (s1, ok) = st_add_external(s, line.subrange(p0, p1 - 1), s.out.len() as u16, lloc);
    if !ok {
        (s1, false)
    } else if ch(line, p1) != 0 {
        st_bump(s1, Diag::TrailingGarbageAfterLabel { loc: lloc, rest: cstr(line.skip(p1)) })
    } else {
        (s1, true)
    }
}

/// An instruction line, the mnemonic being `line[p0..p1]`.
pub open spec fn st_assemble_instr(s: GenState, line: Seq<u8>, loc: Loc, p0: int, p1: int) -> (GenState, bool) {
    let name = line.subrange(p0, p1).map_values(|c: u8| to_upper(c));
    let found = first_named(name, 0);
    let (s1, ok1) = if found is Some {
        (s, true)
    } else {
        st_bump(s, Diag::InvalidMnemonic { loc: at_offset(loc, p1), name })
    };
    let loc1 = if found is Some { loc } else { at_offset(loc, p1) };
    let i = match found {
        Some(i) => i,
        None => Instr::ADC,
    };
    let p2 = skip_ws(line, p1);
    let (r, ok2, o) = st_operand(ReadV { errs: s1.errs, loc: loc1, pos: p2 }, line);
    let o1 = shape(i, o);
    let op = opcode_of(i, o1.mode);
    let (r2, ok3) = check(r, op == INVL, Diag::InvalidOperand {
        loc: at_offset(r.loc, r.pos),
        name,
        operand: cstr(line.skip(p2)),
    });
    let s3 = st_emit(GenState { errs: r2.errs, ..s1 }, i, o1);
    if !ok1 {
        (s1, false)
    } else if !ok2 {
        (GenState { errs: r.errs, ..s1 }, false)
    } else if !ok3 {
        (GenState { errs: r2.errs, ..s1 }, false)
    } else if ch(line, r2.pos) != 0 {
        st_bump(s3, Diag::TrailingGarbage { loc: at_offset(r2.loc, r2.pos), rest: cstr(line.skip(r2.pos)) })
    } else {
        (s3, true)
    }
}

/// `assemble_statement`: one line of assembly.
pub open spec fn st_assemble(s: GenState, line: Seq<u8>, loc: Loc) -> (GenState, bool) {
    let p0 = skip_ws(line, 0);
    let p1 = word_end(line, p0);
    if p1 > p0 && line[p1 - 1] == ':' as u8 {
        st_assemble_label(s, line, loc, p0, p1)
    } else {
        st_assemble_instr(s, line, loc, p0, p1)
    }
}

fn shape_operand(i: Instr, o: Operand) -> (r: Operand)
    ensures
        r@ == shape(i, o@),
{
    let mut o = o;
    if let Some(v) = o.arg16 {
        if o.mode == AddrMode::ABS && v <= 0xFF && opcode(i, AddrMode::ZP) != INVL {
            o = Operand { mode: AddrMode::ZP, arg8: Some(v as u8), arg16: None, label: o.label };
        } else if o.mode == AddrMode::ABS_X && v <= 0xFF && opcode(i, AddrMode::ZP_X) != INVL {
            o = Operand { mode: AddrMode::ZP_X, arg8: Some(v as u8), arg16: None, label: o.label };
        } else if o.mode == AddrMode::ABS_Y && v <= 0xFF && opcode(i, AddrMode::ZP_Y) != INVL {
            o = Operand { mode: AddrMode::ZP_Y, arg8: Some(v as u8), arg16: None, label: o.label };
        }
    }
    if o.label.is_some() && o.mode == AddrMode::ABS && opcode(i, AddrMode::ABS) == INVL && opcode(i, AddrMode::REL) != INVL {
        o = Operand { mode: AddrMode::REL, arg8: o.arg8, arg16: o.arg16, label: o.label };
    }
    o
}

fn emit_operand(out: &mut Vec<u8>, i: Instr, o: Operand, assembler: &mut Assembler)
    ensures
        grows(old(out)@, final(out)@),
        forall|e: ErrsV| #![trigger gen_state(final(out)@, final(assembler)@, e)]
            st_emit(gen_state(old(out)@, old(assembler)@, e), i, o@) == gen_state(final(out)@, final(assembler)@, e),
        final(assembler).frame_sz == old(assembler).frame_sz,
        final(assembler).addresses@ == old(assembler).addresses@,
        final(assembler).code_start == old(assembler).code_start,
{
    write_byte(out, opcode(i, o.mode));
    let ghost o1 = out@;
    if let Some(b) = o.arg8 {
        write_byte(out, b);
    } else if let Some(w) = o.arg16 {
        write_word(out, w);
    } else if let Some(l) = o.label {
        let k = RelocationKind::External { name: l, offset: 0, byte: Byte::Both, relative: o.mode == AddrMode::REL };
        add_reloc(out, k, assembler);
        assert forall|e: ErrsV| #![trigger gen_state(out@, assembler@, e)]
            st_emit(gen_state(old(out)@, old(assembler)@, e), i, o@) == gen_state(out@, assembler@, e) by {
            assert(st_reloc(gen_state(o1, old(assembler)@, e), k@) == gen_state(out@, assembler@, e));
        }
    }
}

/// The upper-case copy of `line[i..j]`.
fn upper_copy(line: &[u8], i: usize, j: usize) -> (r: Vec<u8>)
    requires
        i <= j <= line@.len(),
    ensures
        r@ == line@.subrange(i as int, j as int).map_values(|c: u8| to_upper(c)),
{
    let mut r: Vec<u8> = Vec::new();
    let mut k = i;
    while k < j
        invariant
            i <= k <= j <= line@.len(),
            r@ == line@.subrange(i as int, k as int).map_values(|c: u8| to_upper(c)),
        decreases j - k,
    {
        r.push(toupper(line[k]));
        k = k + 1;
        proof {
            assert(r@ =~= line@.subrange(i as int, k as int).map_values(|c: u8| to_upper(c)));
        }
    }
    r
}

fn assemble_label(
    out: &mut Vec<u8>,
    line: &[u8],
    loc: Loc,
    p0: usize,
    p1: usize,
    assembler: &mut Assembler,
    errs: &mut Errors,
) -> (r: Option<()>)
    requires
        line_ok(line@),
        room(loc, line@.len() as int, 8),
        p0 < p1 <= line@.len(),
        old(errs).error_count < usize::MAX,
    ensures
        grows(old(out)@, final(out)@),
        st_assemble_label(gen_state(old(out)@, old(assembler)@, old(errs)@), line@, loc, p0 as int, p1 as int)
            == (gen_state(final(out)@, final(assembler)@, final(errs)@), r is Some),
        count_ok(old(errs).error_count, final(errs).error_count, r is Some),
        final(assembler).frame_sz == old(assembler).frame_sz,
        final(assembler).addresses@ == old(assembler).addresses@,
        final(assembler).code_start == old(assembler).code_start,
{
    let ghost s0 = gen_state(out@, assembler@, errs@);
    let name = slice_copy(line, p0, p1 - 1);
    let lloc = moved(loc, p1, Ghost(line@.len() as int), Ghost(8));
    let r = add_external(&name, out.len() as u16, lloc, assembler, errs);
    assert(st_add_external(s0, name@, s0.out.len() as u16, lloc) == (gen_state(out@, assembler@, errs@), r is Some));
    if r.is_none() {
        return None;
    }
    if ch_at(line, p1) != 0 {
        let ghost s1 = gen_state(out@, assembler@, errs@);
        let rest = cstr_from(line, p1);
        let d = Diag::TrailingGarbageAfterLabel { loc: lloc, rest };
        let ok = report(errs, d);
        assert(st_bump(s1, diag_view(d)) == (gen_state(out@, assembler@, errs@), ok is Some));
        return ok;
    }
    Some(())
}

#[verifier::rlimit(60)]
fn assemble_instr(
    out: &mut Vec<u8>,
    line: &[u8],
    loc: Loc,
    p0: usize,
    p1: usize,
    assembler: &mut Assembler,
    errs: &mut Errors,
) -> (r: Option<()>)
    requires
        line_ok(line@),
        room(loc, line@.len() as int, 8),
        p0 <= p1 <= line@.len(),
        ch(line@, skip_ws(line@, p1 as int)) == '*' as u8 && (ch(line@, skip_ws(line@, p1 as int) + 1) == '+' as u8
            || ch(line@, skip_ws(line@, p1 as int) + 1) == '-' as u8)
            ==> rel_of(strtoull(line@, skip_ws(line@, p1 as int) + 1, 10).0) >= -126,
        old(errs).error_count < usize::MAX,
    ensures
        grows(old(out)@, final(out)@),
        st_assemble_instr(gen_state(old(out)@, old(assembler)@, old(errs)@), line@, loc, p0 as int, p1 as int)
            == (gen_state(final(out)@, final(assembler)@, final(errs)@), r is Some),
        count_ok(old(errs).error_count, final(errs).error_count, r is Some),
        final(assembler).frame_sz == old(assembler).frame_sz,
        final(assembler).addresses@ == old(assembler).addresses@,
        final(assembler).code_start == old(assembler).code_start,
{
    let ghost n = line@.len() as int;
    let name = upper_copy(line, p0, p1);
    let mut loc = loc;
    let found = instr_from_string(&name);
    let inst = match found {
        Some(i) => i,
        None => {
            loc = moved(loc, p1, Ghost(n), Ghost(8));
            let d = Diag::InvalidMnemonic { loc, name: copy_bytes(&name) };
            if report(errs, d).is_none() {
                return None;
            }
            Instr::ADC
        },
    };
    let p2 = skip_spaces(line, p1);
    proof {
        lemma_skip_ws(line@, p1 as int);
    }
    let mut pos = p2;
    let operand = match read_operand(line, &mut pos, &mut loc, errs) {
        Some(o) => o,
        None => {
            return None;
        },
    };
    let o = shape_operand(inst, operand);
    let op = opcode(inst, o.mode);
    if op == INVL {
        loc = moved(loc, pos, Ghost(n), Ghost(3));
        let d = Diag::InvalidOperand { loc, name: copy_bytes(&name), operand: cstr_from(line, p2) };
        if report(errs, d).is_none() {
            return None;
        }
    }
    let ghost s2 = gen_state(out@, assembler@, errs@);
    emit_operand(out, inst, o, assembler);
    let ghost s3 = gen_state(out@, assembler@, errs@);
    assert(s3 == st_emit(s2, inst, o@));
    if ch_at(line, pos) != 0 {
        loc = moved(loc, pos, Ghost(n), Ghost(2));
        let rest = cstr_from(line, pos);
        let d = Diag::TrailingGarbage { loc, rest };
        let ok = report(errs, d);
        assert(st_bump(s3, diag_view(d)) == (gen_state(out@, assembler@, errs@), ok is Some));
        return ok;
    }
    Some(())
}

/// Assembles one line of inline assembly: a label (defined at the end of the output),
/// or an instruction and its operand. Errors are reported and assembling goes on;
/// `None` once there are too many errors.
pub fn assemble_statement(
    out: &mut Vec<u8>,
    line: &[u8],
    loc: Loc,
    assembler: &mut Assembler,
    errs: &mut Errors,
) -> (r: Option<()>)
    requires
        line_ok(line@),
        room(loc, line@.len() as int, 8),
        star_ok(line@),
        old(errs).error_count < usize::MAX,
    ensures
        grows(old(out)@, final(out)@),
        st_assemble(gen_state(old(out)@, old(assembler)@, old(errs)@), line@, loc)
            == (gen_state(final(out)@, final(assembler)@, final(errs)@), r is Some),
        count_ok(old(errs).error_count, final(errs).error_count, r is Some),
        final(assembler).frame_sz == old(assembler).frame_sz,
        final(assembler).addresses@ == old(assembler).addresses@,
        final(assembler).code_start == old(assembler).code_start,
{
    let p0 = skip_spaces(line, 0);
    proof {
        lemma_skip_ws(line@, 0);
    }
    let mut p = p0;
    while p < line.len() && line[p] != 0 && !crate::ctype::isspace(line[p])
        invariant
            p0 <= p <= line@.len(),
            word_end(line@, p as int) == word_end(line@, p0 as int),
        decreases line.len() - p,
    {
        p = p + 1;
    }
    if p > p0 && line[p - 1] == ':' as u8 {
        assemble_label(out, line, loc, p0, p, assembler, errs)
    } else {
        assemble_instr(out, line, loc, p0, p, assembler, errs)
    }
}

} // verus!
