//! The 16-bit operations that the 6502 has no instruction for, written out as
//! instruction sequences.
use vstd::prelude::*;
use crate::ir::{Arg, Binop};
use crate::lexer::Loc;
use super::opcodes::{Instr, AddrMode, opcode_of, INVL};
use super::assembler::{
    grows,Assembler, Errors, Byte, RelocationKind, RelocKindV, GenState, AsmV, ErrsV, gen_state, count_ok, st_reloc, st_new_label, st_link_here, e0, e1, e2, op0, op1, op2, add_reloc, create_address_label, create_address_label_here, link_address_label_here};
use super::emit::{arg_ok, st_load_arg, load_arg, ZP_RHS_L, ZP_RHS_H, ZP_TMP_0, ZP_TMP_1, ZP_TMP_2, ZP_TMP_3, ZP_TMP_4, ZP_TMP_5, auto_var_ok, st_push16, st_pop16_discard, push16, pop16_discard, st_store_auto, store_auto};

verus! {

/// An instruction with a zero-page operand.
pub open spec fn zp(s: GenState, i: Instr, v: u8) -> GenState {
    e2(s, i, AddrMode::ZP, v)
}

/// An instruction with an immediate operand.
pub open spec fn imm(s: GenState, i: Instr, v: u8) -> GenState {
    e2(s, i, AddrMode::IMM, v)
}

/// A branch by a fixed offset.
pub open spec fn rel(s: GenState, i: Instr, v: u8) -> GenState {
    e2(s, i, AddrMode::REL, v)
}

/// A new address label pointing at the end of the output.
pub open spec fn st_label_here(s: GenState) -> GenState {
    GenState { assembler: AsmV { addresses: s.assembler.addresses.push(s.out.len() as u16), ..s.assembler }, ..s }
}

/// A branch or jump to address label `idx`.
pub open spec fn to_label(s: GenState, i: Instr, m: AddrMode, idx: int) -> GenState {
    st_reloc(e0(s, i, m), RelocKindV::Address { idx: idx as usize, relative: m == AddrMode::REL })
}

/// Code after a failed step is not generated.
pub open spec fn then(r: (GenState, bool), f: spec_fn(GenState) -> GenState) -> (GenState, bool) {
    if r.1 {
        (f(r.0), true)
    } else {
        r
    }
}

/// A further step that may fail, after one that did not.
pub open spec fn and_then(r: (GenState, bool), f: spec_fn(GenState) -> (GenState, bool)) -> (GenState, bool) {
    if r.1 {
        f(r.0)
    } else {
        r
    }
}

/// `load_two_args`: `rhs` into `ZP_RHS_L:ZP_RHS_H`, then `lhs` into `Y:A`.
pub open spec fn st_load_two(s: GenState, lhs: Arg, rhs: Arg, loc: Loc) -> (GenState, bool) {
    and_then(
        then(st_load_arg(s, rhs, loc), |s1: GenState| zp(zp(s1, Instr::STA, ZP_RHS_L), Instr::STY, ZP_RHS_H)),
        |s2: GenState| st_load_arg(s2, lhs, loc),
    )
}

/// What `st_load_arg` leaves alone: the frame and the address labels, and the output
/// only grows.
pub proof fn lemma_load_arg_keeps(s: GenState, arg: Arg, loc: Loc)
    ensures
        st_load_arg(s, arg, loc).0.assembler.frame_sz == s.assembler.frame_sz,
        st_load_arg(s, arg, loc).0.assembler.addresses == s.assembler.addresses,
        st_load_arg(s, arg, loc).0.assembler.code_start == s.assembler.code_start,
{
}

/// A frame that grows keeps every operand in reach.
pub proof fn lemma_arg_ok_grow(arg: Arg, f: u8, g: u8)
    requires
        arg_ok(arg, f),
        f <= g,
    ensures
        arg_ok(arg, g),
{
}

/// Loads `rhs` into `ZP_RHS_L:ZP_RHS_H` and `lhs` into `Y:A`.
pub fn load_two_args(
    out: &mut Vec<u8>,
    lhs: &Arg,
    rhs: &Arg,
    loc: Loc,
    assembler: &mut Assembler,
    errs: &mut Errors,
) -> (r: Option<()>)
    requires
        arg_ok(*lhs, old(assembler).frame_sz),
        arg_ok(*rhs, old(assembler).frame_sz),
        old(errs).error_count < usize::MAX,
    ensures
        grows(old(out)@, final(out)@),
        st_load_two(gen_state(old(out)@, old(assembler)@, old(errs)@), *lhs, *rhs, loc)
            == (gen_state(final(out)@, final(assembler)@, final(errs)@), r is Some),
        count_ok(old(errs).error_count, final(errs).error_count, r is Some),
        final(assembler).code_start == old(assembler).code_start,
        final(assembler).addresses@ == old(assembler).addresses@,
        r is Some ==> final(assembler).frame_sz == old(assembler).frame_sz,
{
    let ghost s0 = gen_state(out@, assembler@, errs@);
    proof {
        lemma_load_arg_keeps(s0, *rhs, loc);
    }
    let r1 = load_arg(rhs, loc, out, assembler, errs);
    if r1.is_none() {
        return None;
    }
    op2(out, Instr::STA, AddrMode::ZP, ZP_RHS_L);
    op2(out, Instr::STY, AddrMode::ZP, ZP_RHS_H);
    let ghost s2 = gen_state(out@, assembler@, errs@);
    proof {
        lemma_load_arg_keeps(s2, *lhs, loc);
    }
    load_arg(lhs, loc, out, assembler, errs)
}

/// `tmp = -tmp` for the word in `ZP_TMP_0:ZP_TMP_1`.
pub open spec fn st_negate_tmp(s: GenState) -> GenState {
    let s1 = zp(e1(imm(s, Instr::LDA, 0), Instr::SEC), Instr::SBC, ZP_TMP_0);
    zp(zp(imm(zp(s1, Instr::STA, ZP_TMP_0), Instr::LDA, 0), Instr::SBC, ZP_TMP_1), Instr::STA, ZP_TMP_1)
}

/// `save_and_remove_signs`: two tests of the same sign, that of `Y` (the high byte
/// of the left operand). Where `Y` is negative, the first negates the word in
/// `ZP_TMP_0:ZP_TMP_1` and sets `ZP_TMP_4` to 1, and the second negates that word
/// again and flips `ZP_TMP_4`. The right operand is never negated, and where `Y`
/// is not negative `ZP_TMP_4` is left as it was.
pub open spec fn st_signs(s: GenState) -> GenState {
    let if0_end = s.assembler.addresses.len() as int;
    let if1_end = if0_end + 1;
    let s1 = to_label(imm(st_new_label(st_new_label(s)), Instr::CPY, 0), Instr::BPL, AddrMode::REL, if0_end);
    let s2 = st_link_here(zp(imm(st_negate_tmp(s1), Instr::LDA, 1), Instr::STA, ZP_TMP_4), if0_end);
    let s3 = to_label(imm(s2, Instr::CPY, 0), Instr::BPL, AddrMode::REL, if1_end);
    let s4 = zp(imm(zp(st_negate_tmp(s3), Instr::LDA, ZP_TMP_4), Instr::EOR, 1), Instr::STA, ZP_TMP_4);
    st_link_here(s4, if1_end)
}

fn negate_tmp(out: &mut Vec<u8>)
    ensures
        grows(old(out)@, final(out)@),
        forall|a: AsmV, e: ErrsV| #![trigger gen_state(final(out)@, a, e)]
            st_negate_tmp(gen_state(old(out)@, a, e)) == gen_state(final(out)@, a, e),
{
    op2(out, Instr::LDA, AddrMode::IMM, 0);
    op1(out, Instr::SEC);
    op2(out, Instr::SBC, AddrMode::ZP, ZP_TMP_0);
    op2(out, Instr::STA, AddrMode::ZP, ZP_TMP_0);
    op2(out, Instr::LDA, AddrMode::IMM, 0);
    op2(out, Instr::SBC, AddrMode::ZP, ZP_TMP_1);
    op2(out, Instr::STA, AddrMode::ZP, ZP_TMP_1);
}

/// Emits the sign handling before a multiplication, as `st_signs` spells it out:
/// two `BPL`-guarded blocks, both testing the sign of `Y`, each negating the word
/// in `ZP_TMP_0:ZP_TMP_1` and setting, then flipping, the flag in `ZP_TMP_4`.
pub fn save_and_remove_signs(out: &mut Vec<u8>, assembler: &mut Assembler) -> (r: Option<()>)
    requires
        old(assembler).addresses@.len() + 2 <= usize::MAX,
    ensures
        grows(old(out)@, final(out)@),
        r is Some,
        forall|e: ErrsV| #![trigger gen_state(final(out)@, final(assembler)@, e)]
            st_signs(gen_state(old(out)@, old(assembler)@, e)) == gen_state(final(out)@, final(assembler)@, e),
        final(assembler).frame_sz == old(assembler).frame_sz,
        final(assembler).code_start == old(assembler).code_start,
        final(assembler).addresses@.len() == old(assembler).addresses@.len() + 2,
{
    let ghost o0 = out@;
    let ghost a0 = assembler@;
    let if0_end = create_address_label(assembler);
    let if1_end = create_address_label(assembler);
    op2(out, Instr::CPY, AddrMode::IMM, 0);
    op0(out, Instr::BPL, AddrMode::REL);
    let ghost o1 = out@;
    let ghost a1 = assembler@;
    add_reloc(out, RelocationKind::Address { idx: if0_end, relative: true }, assembler);
    let ghost o2 = out@;
    let ghost a2 = assembler@;
    negate_tmp(out);
    let ghost o3 = out@;
    op2(out, Instr::LDA, AddrMode::IMM, 1);
    op2(out, Instr::STA, AddrMode::ZP, ZP_TMP_4);
    link_address_label_here(if0_end, out, assembler);

    op2(out, Instr::CPY, AddrMode::IMM, 0);
    op0(out, Instr::BPL, AddrMode::REL);
    let ghost o4 = out@;
    let ghost a4 = assembler@;
    add_reloc(out, RelocationKind::Address { idx: if1_end, relative: true }, assembler);
    let ghost o5 = out@;
    let ghost a5 = assembler@;
    negate_tmp(out);
    let ghost o6 = out@;
    op2(out, Instr::LDA, AddrMode::ZP, ZP_TMP_4);
    op2(out, Instr::EOR, AddrMode::IMM, 1);
    op2(out, Instr::STA, AddrMode::ZP, ZP_TMP_4);
    link_address_label_here(if1_end, out, assembler);
    proof {
        assert forall|e: ErrsV| #![trigger gen_state(out@, assembler@, e)]
            st_signs(gen_state(o0, a0, e)) == gen_state(out@, assembler@, e) by {
            let s1 = imm(st_new_label(st_new_label(gen_state(o0, a0, e))), Instr::CPY, 0);
            assert(e0(s1, Instr::BPL, AddrMode::REL) == gen_state(o1, a1, e));
            assert(to_label(s1, Instr::BPL, AddrMode::REL, if0_end as int) == gen_state(o2, a2, e));
            assert(st_negate_tmp(gen_state(o2, a2, e)) == gen_state(o3, a2, e));
            assert(gen_state(o5, a5, e) == st_reloc(gen_state(o4, a4, e), RelocKindV::Address { idx: if1_end, relative: true }));
            assert(st_negate_tmp(gen_state(o5, a5, e)) == gen_state(o6, a5, e));
        }
    }
    Some(())
}

/// A word operation on `Y:A` and `ZP_RHS_L:ZP_RHS_H`, byte by byte, result in `Y:A`.
pub open spec fn st_word_op(s: GenState, i: Instr) -> GenState {
    e1(e1(zp(e1(e1(zp(s, i, ZP_RHS_L), Instr::TAX), Instr::TYA), i, ZP_RHS_H), Instr::TAY), Instr::TXA)
}

/// Comparison by subtraction: `X` starts at `x0`, `Y:A - rhs` is computed byte by
/// byte, and `X` takes `step` unless the `N` flag is set after the high byte, that is
/// unless bit 7 of the difference's high byte is set (the overflow flag is not
/// looked at); the result, zero-extended, in `Y:A`.
pub open spec fn st_sub_compare(s: GenState, x0: u8, step: Instr) -> GenState {
    let s1 = zp(e1(zp(e1(imm(s, Instr::LDX, x0), Instr::SEC), Instr::SBC, ZP_RHS_L), Instr::TYA), Instr::SBC, ZP_RHS_H);
    imm(e1(e1(rel(s1, Instr::BMI, 1), step), Instr::TXA), Instr::LDY, 0)
}

/// Equality test: `X` starts at `x0` and takes `step` when both bytes are equal; the
/// result, zero-extended, in `Y:A`.
pub open spec fn st_eq_compare(s: GenState, x0: u8, step: Instr) -> GenState {
    let s1 = rel(zp(rel(zp(imm(s, Instr::LDX, x0), Instr::CMP, ZP_RHS_L), Instr::BNE, 5), Instr::CPY, ZP_RHS_H), Instr::BNE, 1);
    imm(e1(e1(s1, step), Instr::TXA), Instr::LDY, 0)
}

/// A shift loop, `ZP_RHS_L` times, of the word in `ZP_TMP_0:ZP_TMP_1`: `a` on byte
/// `za` then `b` on byte `zb`; the result in `Y:A`.
pub open spec fn st_shift(s: GenState, a: Instr, za: u8, b: Instr, zb: u8) -> GenState {
    let s1 = zp(zp(zp(s, Instr::STA, ZP_TMP_0), Instr::STY, ZP_TMP_1), Instr::LDX, ZP_RHS_L);
    let loop_start = s1.assembler.addresses.len() as int;
    let s2 = e1(zp(zp(rel(st_label_here(s1), Instr::BEQ, 8), a, za), b, zb), Instr::DEX);
    zp(zp(to_label(s2, Instr::JMP, AddrMode::ABS, loop_start), Instr::LDA, ZP_TMP_0), Instr::LDY, ZP_TMP_1)
}

/// The body of the shift-and-add multiplication, after the operands were loaded.
pub open spec fn st_mult(s: GenState) -> GenState {
    let s1 = zp(imm(zp(zp(s, Instr::STA, ZP_TMP_0), Instr::STY, ZP_TMP_1), Instr::LDA, 16), Instr::STA, ZP_TMP_5);
    let s2 = zp(zp(imm(st_signs(s1), Instr::LDA, 0), Instr::STA, ZP_TMP_2), Instr::STA, ZP_TMP_3);
    let loop_start = s2.assembler.addresses.len() as int;
    let cont = loop_start + 1;
    let finished = loop_start + 2;
    let s3 = st_new_label(st_new_label(st_label_here(s2)));
    let s4 = to_label(to_label(zp(s3, Instr::LDA, ZP_TMP_5), Instr::BNE, AddrMode::REL, cont), Instr::JMP, AddrMode::ABS, finished);
    let s5 = zp(zp(zp(zp(zp(st_link_here(s4, cont), Instr::DEC, ZP_TMP_5), Instr::ASL, ZP_TMP_2), Instr::ROL, ZP_TMP_3), Instr::ASL, ZP_RHS_L), Instr::ROL, ZP_RHS_H);
    let s6 = zp(zp(zp(e1(to_label(s5, Instr::BCC, AddrMode::REL, loop_start), Instr::CLC), Instr::LDA, ZP_TMP_2), Instr::ADC, ZP_TMP_0), Instr::STA, ZP_TMP_2);
    let s7 = to_label(zp(zp(zp(s6, Instr::LDA, ZP_TMP_3), Instr::ADC, ZP_TMP_1), Instr::STA, ZP_TMP_3), Instr::JMP, AddrMode::ABS, loop_start);
    let s8 = rel(zp(zp(zp(st_link_here(s7, finished), Instr::LDA, ZP_TMP_2), Instr::LDY, ZP_TMP_3), Instr::LDX, ZP_TMP_4), Instr::BEQ, 12);
    let s9 = zp(e1(e1(imm(s8, Instr::LDA, 0), Instr::TAY), Instr::SEC), Instr::SBC, ZP_TMP_2);
    e1(e1(zp(e1(e1(s9, Instr::TAX), Instr::TYA), Instr::SBC, ZP_TMP_3), Instr::TXA), Instr::TAY)
}

/// A call of the runtime routine `name` (`_div` or `_rem`): `rhs` pushed, `lhs` in
/// `Y:A`, the pushed word dropped after the call.
pub open spec fn st_runtime_call(s: GenState, lhs: Arg, rhs: Arg, loc: Loc, name: Seq<u8>) -> (GenState, bool) {
    and_then(
        then(st_load_arg(s, rhs, loc), |s1: GenState| st_push16(s1)),
        |s2: GenState| then(
            st_load_arg(s2, lhs, loc),
            |s3: GenState| e1(
                st_pop16_discard(e1(st_reloc(e0(s3, Instr::JSR, AddrMode::ABS), RelocKindV::External {
                    name,
                    offset: 0,
                    byte: Byte::Both,
                    relative: false,
                }), Instr::TAX)),
                Instr::TXA,
            ),
        ),
    )
}

/// The name of the runtime routine for division.
pub open spec fn div_name() -> Seq<u8> {
    seq!['_' as u8, 'd' as u8, 'i' as u8, 'v' as u8]
}

/// The name of the runtime routine for the remainder.
pub open spec fn rem_name() -> Seq<u8> {
    seq!['_' as u8, 'r' as u8, 'e' as u8, 'm' as u8]
}

/// Whether the operation loads its operands the other way round (`a > b` as `b < a`,
/// `a <= b` as `b >= a`).
pub open spec fn swaps(binop: Binop) -> bool {
    binop == Binop::Greater || binop == Binop::LessEqual
}

/// The code of a two-operand operation after its operands were loaded.
pub open spec fn st_binop_tail(s: GenState, binop: Binop) -> GenState {
    match binop {
        Binop::BitOr => st_word_op(s, Instr::ORA),
        Binop::BitAnd => st_word_op(s, Instr::AND),
        Binop::BitShl => st_shift(s, Instr::ASL, ZP_TMP_0, Instr::ROL, ZP_TMP_1),
        Binop::BitShr => st_shift(s, Instr::LSR, ZP_TMP_1, Instr::ROR, ZP_TMP_0),
        Binop::Plus => st_word_op(e1(s, Instr::CLC), Instr::ADC),
        Binop::Minus => st_word_op(e1(s, Instr::SEC), Instr::SBC),
        Binop::Mult => st_mult(s),
        Binop::Less | Binop::Greater => st_sub_compare(s, 1, Instr::DEX),
        Binop::GreaterEqual | Binop::LessEqual => st_sub_compare(s, 0, Instr::INX),
        Binop::Equal => st_eq_compare(s, 0, Instr::INX),
        Binop::NotEqual => st_eq_compare(s, 1, Instr::DEX),
        Binop::Mod | Binop::Div => s,
    }
}

/// The code that leaves `lhs binop rhs` in `Y:A`.
pub open spec fn st_binop_value(s: GenState, binop: Binop, lhs: Arg, rhs: Arg, loc: Loc) -> (GenState, bool) {
    match binop {
        Binop::Mod => st_runtime_call(s, lhs, rhs, loc, rem_name()),
        Binop::Div => st_runtime_call(s, lhs, rhs, loc, div_name()),
        _ => then(
            if swaps(binop) {
                st_load_two(s, rhs, lhs, loc)
            } else {
                st_load_two(s, lhs, rhs, loc)
            },
            |s1: GenState| st_binop_tail(s1, binop),
        ),
    }
}

/// The code of `index = lhs binop rhs`.
pub open spec fn st_binop(s: GenState, binop: Binop, index: usize, lhs: Arg, rhs: Arg, loc: Loc) -> (GenState, bool) {
    then(st_binop_value(s, binop, lhs, rhs, loc), |s2: GenState| st_store_auto(s2, index))
}

fn word_op(out: &mut Vec<u8>, i: Instr)
    requires
        opcode_of(i, AddrMode::ZP) != INVL,
    ensures
        grows(old(out)@, final(out)@),
        forall|a: AsmV, e: ErrsV| #![trigger gen_state(final(out)@, a, e)]
            st_word_op(gen_state(old(out)@, a, e), i) == gen_state(final(out)@, a, e),
{
    op2(out, i, AddrMode::ZP, ZP_RHS_L);
    op1(out, Instr::TAX);
    op1(out, Instr::TYA);
    op2(out, i, AddrMode::ZP, ZP_RHS_H);
    op1(out, Instr::TAY);
    op1(out, Instr::TXA);
}

fn sub_compare(out: &mut Vec<u8>, x0: u8, step: Instr)
    requires
        step == Instr::DEX || step == Instr::INX,
    ensures
        grows(old(out)@, final(out)@),
        forall|a: AsmV, e: ErrsV| #![trigger gen_state(final(out)@, a, e)]
            st_sub_compare(gen_state(old(out)@, a, e), x0, step) == gen_state(final(out)@, a, e),
{
    op2(out, Instr::LDX, AddrMode::IMM, x0);
    op1(out, Instr::SEC);
    op2(out, Instr::SBC, AddrMode::ZP, ZP_RHS_L);
    op1(out, Instr::TYA);
    op2(out, Instr::SBC, AddrMode::ZP, ZP_RHS_H);
    op2(out, Instr::BMI, AddrMode::REL, 1);
    op1(out, step);
    op1(out, Instr::TXA);
    op2(out, Instr::LDY, AddrMode::IMM, 0);
}

fn eq_compare(out: &mut Vec<u8>, x0: u8, step: Instr)
    requires
        step == Instr::DEX || step == Instr::INX,
    ensures
        grows(old(out)@, final(out)@),
        forall|a: AsmV, e: ErrsV| #![trigger gen_state(final(out)@, a, e)]
            st_eq_compare(gen_state(old(out)@, a, e), x0, step) == gen_state(final(out)@, a, e),
{
    op2(out, Instr::LDX, AddrMode::IMM, x0);
    op2(out, Instr::CMP, AddrMode::ZP, ZP_RHS_L);
    op2(out, Instr::BNE, AddrMode::REL, 5);
    op2(out, Instr::CPY, AddrMode::ZP, ZP_RHS_H);
    op2(out, Instr::BNE, AddrMode::REL, 1);
    op1(out, step);
    op1(out, Instr::TXA);
    op2(out, Instr::LDY, AddrMode::IMM, 0);
}

fn shift(out: &mut Vec<u8>, assembler: &mut Assembler, a: Instr, za: u8, b: Instr, zb: u8)
    requires
        opcode_of(a, AddrMode::ZP) != INVL,
        opcode_of(b, AddrMode::ZP) != INVL,
        old(assembler).addresses@.len() < usize::MAX,
    ensures
        grows(old(out)@, final(out)@),
        forall|e: ErrsV| #![trigger gen_state(final(out)@, final(assembler)@, e)]
            st_shift(gen_state(old(out)@, old(assembler)@, e), a, za, b, zb) == gen_state(final(out)@, final(assembler)@, e),
        final(assembler).frame_sz == old(assembler).frame_sz,
        final(assembler).code_start == old(assembler).code_start,
        final(assembler).addresses@.len() == old(assembler).addresses@.len() + 1,
{
    let ghost a0 = assembler@;
    op2(out, Instr::STA, AddrMode::ZP, ZP_TMP_0);
    op2(out, Instr::STY, AddrMode::ZP, ZP_TMP_1);
    op2(out, Instr::LDX, AddrMode::ZP, ZP_RHS_L);
    let ghost o1 = out@;
    let loop_start = create_address_label_here(out, assembler);
    op2(out, Instr::BEQ, AddrMode::REL, 8);
    op2(out, a, AddrMode::ZP, za);
    op2(out, b, AddrMode::ZP, zb);
    op1(out, Instr::DEX);
    op0(out, Instr::JMP, AddrMode::ABS);
    let ghost o2 = out@;
    let ghost a2 = assembler@;
    add_reloc(out, RelocationKind::Address { idx: loop_start, relative: false }, assembler);
    let ghost o3 = out@;
    op2(out, Instr::LDA, AddrMode::ZP, ZP_TMP_0);
    op2(out, Instr::LDY, AddrMode::ZP, ZP_TMP_1);
    proof {
        assert forall|e: ErrsV| #![trigger gen_state(out@, assembler@, e)]
            st_shift(gen_state(old(out)@, a0, e), a, za, b, zb) == gen_state(out@, assembler@, e) by {
            assert(st_label_here(gen_state(o1, a0, e)) == gen_state(o1, a2, e));
            assert(st_reloc(gen_state(o2, a2, e), RelocKindV::Address { idx: loop_start, relative: false })
                == gen_state(o3, assembler@, e));
        }
    }
}

#[verifier::rlimit(60)]
fn mult(out: &mut Vec<u8>, assembler: &mut Assembler)
    requires
        old(assembler).addresses@.len() + 5 <= usize::MAX,
    ensures
        grows(old(out)@, final(out)@),
        forall|e: ErrsV| #![trigger gen_state(final(out)@, final(assembler)@, e)]
            st_mult(gen_state(old(out)@, old(assembler)@, e)) == gen_state(final(out)@, final(assembler)@, e),
        final(assembler).frame_sz == old(assembler).frame_sz,
        final(assembler).code_start == old(assembler).code_start,
        final(assembler).addresses@.len() == old(assembler).addresses@.len() + 5,
{
    let ghost a0 = assembler@;
    op2(out, Instr::STA, AddrMode::ZP, ZP_TMP_0);
    op2(out, Instr::STY, AddrMode::ZP, ZP_TMP_1);
    op2(out, Instr::LDA, AddrMode::IMM, 16);
    op2(out, Instr::STA, AddrMode::ZP, ZP_TMP_5);
    let ghost o1 = out@;
    save_and_remove_signs(out, assembler);
    let ghost o2 = out@;
    let ghost a2 = assembler@;
    op2(out, Instr::LDA, AddrMode::IMM, 0);
    op2(out, Instr::STA, AddrMode::ZP, ZP_TMP_2);
    op2(out, Instr::STA, AddrMode::ZP, ZP_TMP_3);
    let ghost o3 = out@;
    let loop_start = create_address_label_here(out, assembler);
    let cont = create_address_label(assembler);
    let finished = create_address_label(assembler);
    let ghost a4 = assembler@;
    op2(out, Instr::LDA, AddrMode::ZP, ZP_TMP_5);
    op0(out, Instr::BNE, AddrMode::REL);
    let ghost o5 = out@;
    add_reloc(out, RelocationKind::Address { idx: cont, relative: true }, assembler);
    let ghost o6 = out@;
    let ghost a6 = assembler@;
    op0(out, Instr::JMP, AddrMode::ABS);
    let ghost o7 = out@;
    add_reloc(out, RelocationKind::Address { idx: finished, relative: false }, assembler);
    let ghost o8 = out@;
    let ghost a8 = assembler@;
    link_address_label_here(cont, out, assembler);
    let ghost a9 = assembler@;
    op2(out, Instr::DEC, AddrMode::ZP, ZP_TMP_5);
    op2(out, Instr::ASL, AddrMode::ZP, ZP_TMP_2);
    op2(out, Instr::ROL, AddrMode::ZP, ZP_TMP_3);
    op2(out, Instr::ASL, AddrMode::ZP, ZP_RHS_L);
    op2(out, Instr::ROL, AddrMode::ZP, ZP_RHS_H);
    op0(out, Instr::BCC, AddrMode::REL);
    let ghost o10 = out@;
    add_reloc(out, RelocationKind::Address { idx: loop_start, relative: true }, assembler);
    let ghost o11 = out@;
    let ghost a11 = assembler@;
    op1(out, Instr::CLC);
    op2(out, Instr::LDA, AddrMode::ZP, ZP_TMP_2);
    op2(out, Instr::ADC, AddrMode::ZP, ZP_TMP_0);
    op2(out, Instr::STA, AddrMode::ZP, ZP_TMP_2);
    op2(out, Instr::LDA, AddrMode::ZP, ZP_TMP_3);
    op2(out, Instr::ADC, AddrMode::ZP, ZP_TMP_1);
    op2(out, Instr::STA, AddrMode::ZP, ZP_TMP_3);
    op0(out, Instr::JMP, AddrMode::ABS);
    let ghost o12 = out@;
    add_reloc(out, RelocationKind::Address { idx: loop_start, relative: false }, assembler);
    let ghost o13 = out@;
    let ghost a13 = assembler@;
    link_address_label_here(finished, out, assembler);
    let ghost a14 = assembler@;
    op2(out, Instr::LDA, AddrMode::ZP, ZP_TMP_2);
    op2(out, Instr::LDY, AddrMode::ZP, ZP_TMP_3);
    op2(out, Instr::LDX, AddrMode::ZP, ZP_TMP_4);
    op2(out, Instr::BEQ, AddrMode::REL, 12);
    op2(out, Instr::LDA, AddrMode::IMM, 0);
    op1(out, Instr::TAY);
    op1(out, Instr::SEC);
    op2(out, Instr::SBC, AddrMode::ZP, ZP_TMP_2);
    op1(out, Instr::TAX);
    op1(out, Instr::TYA);
    op2(out, Instr::SBC, AddrMode::ZP, ZP_TMP_3);
    op1(out, Instr::TXA);
    op1(out, Instr::TAY);
    proof {
        assert forall|e: ErrsV| #![trigger gen_state(out@, assembler@, e)]
            st_mult(gen_state(old(out)@, a0, e)) == gen_state(out@, assembler@, e) by {
            assert(st_signs(gen_state(o1, a0, e)) == gen_state(o2, a2, e));
            assert(st_new_label(st_new_label(st_label_here(gen_state(o3, a2, e)))) == gen_state(o3, a4, e));
            assert(st_reloc(gen_state(o5, a4, e), RelocKindV::Address { idx: cont, relative: true }) == gen_state(o6, a6, e));
            assert(st_reloc(gen_state(o7, a6, e), RelocKindV::Address { idx: finished, relative: false }) == gen_state(o8, a8, e));
            assert(st_link_here(gen_state(o8, a8, e), cont as int) == gen_state(o8, a9, e));
            assert(st_reloc(gen_state(o10, a9, e), RelocKindV::Address { idx: loop_start, relative: true }) == gen_state(o11, a11, e));
            assert(st_reloc(gen_state(o12, a11, e), RelocKindV::Address { idx: loop_start, relative: false }) == gen_state(o13, a13, e));
            assert(st_link_here(gen_state(o13, a13, e), finished as int) == gen_state(o13, a14, e));
        }
    }
}

/// The name of a runtime routine, `_` and three letters.
fn routine_name(b1: u8, b2: u8, b3: u8) -> (r: Vec<u8>)
    ensures
        r@ == seq!['_' as u8, b1, b2, b3],
{
    let mut r: Vec<u8> = Vec::new();
    r.push('_' as u8);
    r.push(b1);
    r.push(b2);
    r.push(b3);
    r
}

fn runtime_call(
    out: &mut Vec<u8>,
    lhs: &Arg,
    rhs: &Arg,
    loc: Loc,
    name: Vec<u8>,
    assembler: &mut Assembler,
    errs: &mut Errors,
) -> (r: Option<()>)
    requires
        arg_ok(*lhs, old(assembler).frame_sz),
        arg_ok(*rhs, old(assembler).frame_sz),
        old(assembler).frame_sz + 2 <= u8::MAX,
        old(errs).error_count < usize::MAX,
    ensures
        grows(old(out)@, final(out)@),
        st_runtime_call(gen_state(old(out)@, old(assembler)@, old(errs)@), *lhs, *rhs, loc, name@)
            == (gen_state(final(out)@, final(assembler)@, final(errs)@), r is Some),
        count_ok(old(errs).error_count, final(errs).error_count, r is Some),
        r is Some ==> final(assembler).frame_sz == old(assembler).frame_sz,
        final(assembler).code_start == old(assembler).code_start,
        final(assembler).addresses@.len() == old(assembler).addresses@.len(),
{
    let ghost s0 = gen_state(out@, assembler@, errs@);
    proof {
        lemma_load_arg_keeps(s0, *rhs, loc);
    }
    if load_arg(rhs, loc, out, assembler, errs).is_none() {
        return None;
    }
    let ghost s1 = gen_state(out@, assembler@, errs@);
    push16(out, assembler);
    assert(gen_state(out@, assembler@, errs@) == st_push16(s1));
    let ghost s2 = gen_state(out@, assembler@, errs@);
    proof {
        lemma_load_arg_keeps(s2, *lhs, loc);
        lemma_arg_ok_grow(*lhs, s0.assembler.frame_sz, assembler.frame_sz);
    }
    if load_arg(lhs, loc, out, assembler, errs).is_none() {
        return None;
    }
    op0(out, Instr::JSR, AddrMode::ABS);
    let ghost s4 = gen_state(out@, assembler@, errs@);
    let k = RelocationKind::External { name, offset: 0, byte: Byte::Both, relative: false };
    add_reloc(out, k, assembler);
    assert(gen_state(out@, assembler@, errs@) == st_reloc(s4, k@));
    op1(out, Instr::TAX);
    let ghost s5 = gen_state(out@, assembler@, errs@);
    pop16_discard(out, assembler);
    assert(gen_state(out@, assembler@, errs@) == st_pop16_discard(s5));
    op1(out, Instr::TXA);
    Some(())
}

fn binop_tail(out: &mut Vec<u8>, assembler: &mut Assembler, binop: Binop)
    requires
        binop != Binop::Mod && binop != Binop::Div,
        old(assembler).addresses@.len() + 5 <= usize::MAX,
    ensures
        grows(old(out)@, final(out)@),
        forall|e: ErrsV| #![trigger gen_state(final(out)@, final(assembler)@, e)]
            st_binop_tail(gen_state(old(out)@, old(assembler)@, e), binop) == gen_state(final(out)@, final(assembler)@, e),
        final(assembler).frame_sz == old(assembler).frame_sz,
        final(assembler).code_start == old(assembler).code_start,
        old(assembler).addresses@.len() <= final(assembler).addresses@.len() <= old(assembler).addresses@.len() + 5,
{
    let ghost a0 = assembler@;
    let ghost o0 = out@;
    match binop {
        Binop::BitOr => word_op(out, Instr::ORA),
        Binop::BitAnd => word_op(out, Instr::AND),
        Binop::BitShl => shift(out, assembler, Instr::ASL, ZP_TMP_0, Instr::ROL, ZP_TMP_1),
        Binop::BitShr => shift(out, assembler, Instr::LSR, ZP_TMP_1, Instr::ROR, ZP_TMP_0),
        Binop::Plus => {
            op1(out, Instr::CLC);
            let ghost o1 = out@;
            word_op(out, Instr::ADC);
            assert forall|e: ErrsV| #![trigger gen_state(out@, assembler@, e)]
                st_binop_tail(gen_state(o0, a0, e), binop) == gen_state(out@, assembler@, e) by {
                assert(st_word_op(gen_state(o1, a0, e), Instr::ADC) == gen_state(out@, a0, e));
            }
        },
        Binop::Minus => {
            op1(out, Instr::SEC);
            let ghost o1 = out@;
            word_op(out, Instr::SBC);
            assert forall|e: ErrsV| #![trigger gen_state(out@, assembler@, e)]
                st_binop_tail(gen_state(o0, a0, e), binop) == gen_state(out@, assembler@, e) by {
                assert(st_word_op(gen_state(o1, a0, e), Instr::SBC) == gen_state(out@, a0, e));
            }
        },
        Binop::Mult => mult(out, assembler),
        Binop::Less | Binop::Greater => sub_compare(out, 1, Instr::DEX),
        Binop::GreaterEqual | Binop::LessEqual => sub_compare(out, 0, Instr::INX),
        Binop::Equal => eq_compare(out, 0, Instr::INX),
        Binop::NotEqual => eq_compare(out, 1, Instr::DEX),
        Binop::Mod | Binop::Div => {},
    }
}

/// Leaves `lhs binop rhs` in `Y:A`.
fn binop_value(
    out: &mut Vec<u8>,
    binop: Binop,
    lhs: &Arg,
    rhs: &Arg,
    loc: Loc,
    assembler: &mut Assembler,
    errs: &mut Errors,
) -> (r: Option<()>)
    requires
        arg_ok(*lhs, old(assembler).frame_sz),
        arg_ok(*rhs, old(assembler).frame_sz),
        (binop == Binop::Mod || binop == Binop::Div) ==> old(assembler).frame_sz + 2 <= u8::MAX,
        old(assembler).addresses@.len() + 5 <= usize::MAX,
        old(errs).error_count < usize::MAX,
    ensures
        grows(old(out)@, final(out)@),
        st_binop_value(gen_state(old(out)@, old(assembler)@, old(errs)@), binop, *lhs, *rhs, loc)
            == (gen_state(final(out)@, final(assembler)@, final(errs)@), r is Some),
        count_ok(old(errs).error_count, final(errs).error_count, r is Some),
        r is Some ==> final(assembler).frame_sz == old(assembler).frame_sz,
        final(assembler).code_start == old(assembler).code_start,
        old(assembler).addresses@.len() <= final(assembler).addresses@.len() <= old(assembler).addresses@.len() + 5,
{
    let ghost s0 = gen_state(out@, assembler@, errs@);
    match binop {
        Binop::Mod => runtime_call(out, lhs, rhs, loc, routine_name('r' as u8, 'e' as u8, 'm' as u8), assembler, errs),
        Binop::Div => runtime_call(out, lhs, rhs, loc, routine_name('d' as u8, 'i' as u8, 'v' as u8), assembler, errs),
        _ => {
            let swapped = match binop {
                Binop::Greater | Binop::LessEqual => true,
                _ => false,
            };
            let loaded = if swapped {
                load_two_args(out, rhs, lhs, loc, assembler, errs)
            } else {
                load_two_args(out, lhs, rhs, loc, assembler, errs)
            };
            if loaded.is_none() {
                return None;
            }
            proof {
                if swapped {
                    lemma_load_arg_keeps(s0, *lhs, loc);
                    lemma_load_arg_keeps(st_load_arg(s0, *lhs, loc).0, *rhs, loc);
                } else {
                    lemma_load_arg_keeps(s0, *rhs, loc);
                    lemma_load_arg_keeps(st_load_arg(s0, *rhs, loc).0, *lhs, loc);
                }
            }
            let ghost s1 = gen_state(out@, assembler@, errs@);
            binop_tail(out, assembler, binop);
            assert(gen_state(out@, assembler@, errs@) == st_binop_tail(s1, binop));
            Some(())
        },
    }
}

/// Generates `index = lhs binop rhs`.
pub fn binop_code(
    out: &mut Vec<u8>,
    binop: Binop,
    index: usize,
    lhs: &Arg,
    rhs: &Arg,
    loc: Loc,
    assembler: &mut Assembler,
    errs: &mut Errors,
) -> (r: Option<()>)
    requires
        arg_ok(*lhs, old(assembler).frame_sz),
        arg_ok(*rhs, old(assembler).frame_sz),
        auto_var_ok(index, old(assembler).frame_sz),
        (binop == Binop::Mod || binop == Binop::Div) ==> old(assembler).frame_sz + 2 <= u8::MAX,
        old(assembler).addresses@.len() + 5 <= usize::MAX,
        old(errs).error_count < usize::MAX,
    ensures
        grows(old(out)@, final(out)@),
        st_binop(gen_state(old(out)@, old(assembler)@, old(errs)@), binop, index, *lhs, *rhs, loc)
            == (gen_state(final(out)@, final(assembler)@, final(errs)@), r is Some),
        count_ok(old(errs).error_count, final(errs).error_count, r is Some),
        r is Some ==> final(assembler).frame_sz == old(assembler).frame_sz,
        final(assembler).code_start == old(assembler).code_start,
        old(assembler).addresses@.len() <= final(assembler).addresses@.len() <= old(assembler).addresses@.len() + 5,
{
    if binop_value(out, binop, lhs, rhs, loc, assembler, errs).is_none() {
        return None;
    }
    let ghost s3 = gen_state(out@, assembler@, errs@);
    store_auto(out, index, assembler);
    assert(gen_state(out@, assembler@, errs@) == st_store_auto(s3, index));
    Some(())
}

} // verus!
