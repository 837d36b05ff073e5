//! Code generation for one function of the IR.
use vstd::prelude::*;
use crate::bytes::copy_bytes;
use crate::codegen_common::{parse_int_literal_to_u16, parse_char_literal_to_u16_le, int_value, le_value};
use crate::ir::{Arg, Binop, Op, OpWithLocation, AsmStmt};
use crate::lexer::Loc;
use super::opcodes::{Instr, AddrMode};
use super::assembler::{
    grows,Assembler, Errors, Diag, Byte, RelocationKind, RelocKindV, GenState, AsmV, ErrsV, LabelV, Label, gen_state, count_ok, lemma_map_push, st_bump, st_note, st_add_external, add_external, st_reloc, st_new_label, st_link_here, e0, e1, e2, e3, op0, op1, op2, op3, add_reloc, diag_view};
use super::emit::{st_frame, st_sub_sp, sub_sp, st_add_sp, add_sp, STACK_PAGE, arg_ok, auto_var_ok, st_load_arg, load_arg, st_store_auto, store_auto, st_load_auto_var, load_auto_var, st_push16, push16, st_pop16_discard, pop16_discard, report, ZP_DEREF_STORE_0, ZP_DEREF_STORE_1, ZP_DEREF_FUN_0, ZP_DEREF_FUN_1, ZP_RHS_L, ZP_RHS_H, ZP_TMP_0, ZP_TMP_1};
use super::ops::{zp, imm, rel, then, and_then, to_label, st_word_op, st_load_two, load_two_args, st_binop, binop_code, lemma_load_arg_keeps, lemma_arg_ok_grow};
use super::assembly::{st_assemble, assemble_statement, line_ok, room, star_ok};

verus! {

/// `*(Y:A address in ZP_DEREF_STORE) = Y:A`, high byte first.
pub open spec fn st_store_through(s: GenState) -> GenState {
    let s1 = imm(e1(e1(s, Instr::TAX), Instr::TYA), Instr::LDY, 1);
    e2(e1(e1(e2(s1, Instr::STA, AddrMode::IND_Y, ZP_DEREF_STORE_0), Instr::DEY), Instr::TXA), Instr::STA, AddrMode::IND_Y, ZP_DEREF_STORE_0)
}

/// `Y:A = 0 - Y:A`.
pub open spec fn st_negate_ya(s: GenState) -> GenState {
    let s1 = e1(imm(zp(zp(s, Instr::STA, ZP_TMP_0), Instr::STY, ZP_TMP_1), Instr::LDA, 0), Instr::TAY);
    let s2 = e1(e1(zp(e1(s1, Instr::SEC), Instr::SBC, ZP_TMP_0), Instr::TAX), Instr::TYA);
    e1(e1(zp(s2, Instr::SBC, ZP_TMP_1), Instr::TAY), Instr::TXA)
}

/// `X = 0`, then `X = 1` unless the low byte `A` is zero and the high byte `Y` is
/// not (a non-zero `A` takes the first `BNE` straight to the `INX`); then
/// `Y:A = X`. So the result is `Y:A == 0` for every value whose low byte is zero,
/// and 1 for every other value.
pub open spec fn st_not_ya(s: GenState) -> GenState {
    let s1 = rel(imm(imm(s, Instr::LDX, 0), Instr::CMP, 0), Instr::BNE, 5);
    let s2 = e1(rel(imm(e1(s1, Instr::TYA), Instr::CMP, 0), Instr::BNE, 1), Instr::INX);
    imm(e1(s2, Instr::TXA), Instr::LDY, 0)
}

/// `Y:A = Y:A + 2 * rhs`: the address of a word in a vector.
pub open spec fn st_index_tail(s: GenState) -> GenState {
    st_word_op(e1(zp(zp(s, Instr::ASL, ZP_RHS_L), Instr::ROL, ZP_RHS_H), Instr::CLC), Instr::ADC)
}

/// A word at a 16-bit address that wraps around.
pub open spec fn add16(a: u16, b: int) -> u16 {
    ((a + b) % 65536) as u16
}

/// Whether the callee is named or constant, so that no pointer is loaded first.
pub open spec fn fun_direct(fun: Arg) -> bool {
    fun is RefExternal || fun is External || fun is IntLiteral || fun is CharLiteral
}

/// Loading the arguments `args[k-1]` down to `args[0]`, each but the first pushed.
pub open spec fn st_push_args(s: GenState, args: Seq<Arg>, loc: Loc, k: int) -> (GenState, bool)
    decreases k,
{
    if k <= 0 {
        (s, true)
    } else {
        let (s1, ok) = st_load_arg(s, args[k - 1], loc);
        if !ok {
            (s1, false)
        } else {
            st_push_args(if k - 1 != 0 { st_push16(s1) } else { s1 }, args, loc, k - 1)
        }
    }
}

/// The call itself: `JSR` to a name or a constant address, or through the pointer in
/// `ZP_DEREF_FUN` (a `JSR` to a `JMP (ZP_DEREF_FUN)` placed behind a `JMP` over it).
pub open spec fn st_call(s: GenState, fun: Arg, loc: Loc) -> (GenState, bool) {
    match fun {
        Arg::RefExternal(n) => (st_reloc(e0(s, Instr::JSR, AddrMode::ABS), RelocKindV::External {
            name: n@,
            offset: 0,
            byte: Byte::Both,
            relative: false,
        }), true),
        Arg::External(n) => (st_reloc(e0(s, Instr::JSR, AddrMode::ABS), RelocKindV::External {
            name: n@,
            offset: 0,
            byte: Byte::Both,
            relative: false,
        }), true),
        Arg::IntLiteral(lit, radix) => {
            if int_value(lit@, radix) <= u16::MAX {
                (e3(s, Instr::JSR, AddrMode::ABS, int_value(lit@, radix) as u16), true)
            } else {
                let (s1, ok) = st_bump(s, Diag::FunctionAddressOutOfRange { loc, literal: lit@ });
                if !ok {
                    (s1, false)
                } else {
                    (e3(s1, Instr::JSR, AddrMode::ABS, 0), true)
                }
            }
        },
        Arg::CharLiteral(lit) => {
            if lit@.len() <= 2 {
                (e3(s, Instr::JSR, AddrMode::ABS, le_value(lit@) as u16), true)
            } else {
                let (s1, ok) = st_bump(s, Diag::FunctionAddressCharOutOfRange { loc, literal: lit@ });
                if !ok {
                    (s1, false)
                } else {
                    (e3(s1, Instr::JSR, AddrMode::ABS, 0), true)
                }
            }
        },
        _ => {
            let s1 = e3(s, Instr::JSR, AddrMode::ABS, add16(s.assembler.code_start, s.out.len() as u16 + 6));
            let s2 = e3(s1, Instr::JMP, AddrMode::ABS, add16(s.assembler.code_start, s1.out.len() as u16 + 6));
            (e3(s2, Instr::JMP, AddrMode::IND, ZP_DEREF_FUN_0 as u16), true)
        },
    }
}

/// `k` words dropped from the stack.
pub open spec fn st_pops(s: GenState, k: int) -> GenState
    decreases k,
{
    if k <= 0 {
        s
    } else {
        st_pop16_discard(st_pops(s, k - 1))
    }
}

/// `result = fun(args...)`.
pub open spec fn st_funcall(s: GenState, result: usize, fun: Arg, args: Seq<Arg>, loc: Loc) -> (GenState, bool) {
    let r1 = if fun_direct(fun) {
        (s, true)
    } else {
        then(st_load_arg(s, fun, loc), |s1: GenState| zp(zp(s1, Instr::STA, ZP_DEREF_FUN_0), Instr::STY, ZP_DEREF_FUN_1))
    };
    let r2 = and_then(r1, |s1: GenState| st_push_args(s1, args, loc, args.len() as int));
    let r3 = and_then(r2, |s2: GenState| st_call(s2, fun, loc));
    then(
        r3,
        |s3: GenState| st_store_auto(
            if args.len() > 1 {
                e1(st_pops(e1(s3, Instr::TAX), args.len() - 1), Instr::TXA)
            } else {
                s3
            },
            result,
        ),
    )
}

/// The statements `stmts[i..]` of an assembly block.
pub open spec fn st_stmts(s: GenState, stmts: Seq<AsmStmt>, i: int) -> (GenState, bool)
    decreases stmts.len() - i,
{
    if i < 0 || i >= stmts.len() {
        (s, true)
    } else {
        let (s1, ok) = st_assemble(s, stmts[i].line@, stmts[i].loc);
        if !ok {
            (s1, false)
        } else {
            st_stmts(s1, stmts, i + 1)
        }
    }
}

/// The code of one operation of function `name`, whose return code is at address
/// label `ret`.
pub open spec fn st_op(s: GenState, op: OpWithLocation, name: Seq<u8>, ret: int) -> (GenState, bool) {
    let loc = op.loc;
    match op.opcode {
        Op::Bogus => (s, true),
        Op::Return { arg } => then(
            match arg {
                Some(a) => st_load_arg(s, a, loc),
                None => (s, true),
            },
            |s1: GenState| to_label(s1, Instr::JMP, AddrMode::ABS, ret),
        ),
        Op::Store { index, arg } => {
            let s1 = zp(zp(st_load_auto_var(s, index), Instr::STA, ZP_DEREF_STORE_0), Instr::STY, ZP_DEREF_STORE_1);
            then(st_load_arg(s1, arg, loc), |s2: GenState| st_store_through(s2))
        },
        Op::ExternalAssign { name: ext, arg } => then(
            st_load_arg(s, arg, loc),
            |s1: GenState| {
                let s2 = st_reloc(e0(s1, Instr::STA, AddrMode::ABS), RelocKindV::External {
                    name: ext@,
                    offset: 0,
                    byte: Byte::Both,
                    relative: false,
                });
                st_reloc(e0(s2, Instr::STY, AddrMode::ABS), RelocKindV::External {
                    name: ext@,
                    offset: 1,
                    byte: Byte::Both,
                    relative: false,
                })
            },
        ),
        Op::AutoAssign { index, arg } => then(st_load_arg(s, arg, loc), |s1: GenState| st_store_auto(s1, index)),
        Op::Negate { result, arg } => then(
            st_load_arg(s, arg, loc),
            |s1: GenState| st_store_auto(st_negate_ya(s1), result),
        ),
        Op::UnaryNot { result, arg } => then(
            st_load_arg(s, arg, loc),
            |s1: GenState| st_store_auto(st_not_ya(s1), result),
        ),
        Op::Binop { binop, index, lhs, rhs } => st_binop(s, binop, index, lhs, rhs, loc),
        Op::Funcall { result, fun, args } => st_funcall(s, result, fun, args@, loc),
        Op::Asm { stmts } => st_stmts(s, stmts@, 0),
        Op::Label { label } => (
            GenState {
                assembler: AsmV {
                    op_labels: s.assembler.op_labels.push(LabelV { func_name: name, label, addr: s.out.len() as u16 }),
                    ..s.assembler
                },
                ..s
            },
            true,
        ),
        Op::JmpLabel { label } => (
            st_reloc(e0(s, Instr::JMP, AddrMode::ABS), RelocKindV::Label { func_name: name, label }),
            true,
        ),
        Op::JmpIfNotLabel { label, arg } => then(
            st_load_arg(s, arg, loc),
            |s1: GenState| st_reloc(
                e0(rel(imm(rel(imm(s1, Instr::CMP, 0), Instr::BNE, 7), Instr::CPY, 0), Instr::BNE, 3), Instr::JMP, AddrMode::ABS),
                RelocKindV::Label { func_name: name, label },
            ),
        ),
        Op::Index { result, arg, offset } => then(
            st_load_two(s, arg, offset, loc),
            |s1: GenState| st_store_auto(st_index_tail(s1), result),
        ),
    }
}

/// A statement of inline assembly that can be assembled.
pub open spec fn stmt_ok(st: AsmStmt) -> bool {
    line_ok(st.line@) && room(st.loc, st.line@.len() as int, 8) && star_ok(st.line@)
}

/// What generating an operation needs of it, with a frame of `f` bytes.
pub open spec fn op_ok(op: Op, f: u8) -> bool {
    match op {
        Op::Bogus => false,
        Op::Return { arg } => match arg {
            Some(a) => arg_ok(a, f),
            None => true,
        },
        Op::Store { index, arg } => auto_var_ok(index, f) && arg_ok(arg, f),
        Op::ExternalAssign { arg, .. } => arg_ok(arg, f),
        Op::AutoAssign { index, arg } => auto_var_ok(index, f) && arg_ok(arg, f),
        Op::Negate { result, arg } => auto_var_ok(result, f) && arg_ok(arg, f),
        Op::UnaryNot { result, arg } => auto_var_ok(result, f) && arg_ok(arg, f),
        Op::Binop { binop, index, lhs, rhs } => {
            &&& auto_var_ok(index, f)
            &&& arg_ok(lhs, f)
            &&& arg_ok(rhs, f)
            &&& (binop == Binop::Mod || binop == Binop::Div) ==> f + 2 <= u8::MAX
        },
        Op::Funcall { result, fun, args } => {
            &&& auto_var_ok(result, f)
            &&& (fun_direct(fun) || arg_ok(fun, f))
            &&& (fun is IntLiteral ==> arg_ok(fun, f))
            &&& forall|k: int| 0 <= k < args@.len() ==> arg_ok(#[trigger] args@[k], f)
            &&& f + 2 * args@.len() <= u8::MAX + 2
        },
        Op::Asm { stmts } => forall|k: int| 0 <= k < stmts@.len() ==> stmt_ok(#[trigger] stmts@[k]),
        Op::Label { .. } => true,
        Op::JmpLabel { .. } => true,
        Op::JmpIfNotLabel { arg, .. } => arg_ok(arg, f),
        Op::Index { result, arg, offset } => auto_var_ok(result, f) && arg_ok(arg, f) && arg_ok(offset, f),
    }
}

fn store_through(out: &mut Vec<u8>)
    ensures
        grows(old(out)@, final(out)@),
        forall|a: AsmV, e: ErrsV| #![trigger gen_state(final(out)@, a, e)]
            st_store_through(gen_state(old(out)@, a, e)) == gen_state(final(out)@, a, e),
{
    op1(out, Instr::TAX);
    op1(out, Instr::TYA);
    op2(out, Instr::LDY, AddrMode::IMM, 1);
    op2(out, Instr::STA, AddrMode::IND_Y, ZP_DEREF_STORE_0);
    op1(out, Instr::DEY);
    op1(out, Instr::TXA);
    op2(out, Instr::STA, AddrMode::IND_Y, ZP_DEREF_STORE_0);
}

fn negate_ya(out: &mut Vec<u8>)
    ensures
        grows(old(out)@, final(out)@),
        forall|a: AsmV, e: ErrsV| #![trigger gen_state(final(out)@, a, e)]
            st_negate_ya(gen_state(old(out)@, a, e)) == gen_state(final(out)@, a, e),
{
    op2(out, Instr::STA, AddrMode::ZP, ZP_TMP_0);
    op2(out, Instr::STY, AddrMode::ZP, ZP_TMP_1);
    op2(out, Instr::LDA, AddrMode::IMM, 0);
    op1(out, Instr::TAY);
    op1(out, Instr::SEC);
    op2(out, Instr::SBC, AddrMode::ZP, ZP_TMP_0);
    op1(out, Instr::TAX);
    op1(out, Instr::TYA);
    op2(out, Instr::SBC, AddrMode::ZP, ZP_TMP_1);
    op1(out, Instr::TAY);
    op1(out, Instr::TXA);
}

fn not_ya(out: &mut Vec<u8>)
    ensures
        grows(old(out)@, final(out)@),
        forall|a: AsmV, e: ErrsV| #![trigger gen_state(final(out)@, a, e)]
            st_not_ya(gen_state(old(out)@, a, e)) == gen_state(final(out)@, a, e),
{
    op2(out, Instr::LDX, AddrMode::IMM, 0);
    op2(out, Instr::CMP, AddrMode::IMM, 0);
    op2(out, Instr::BNE, AddrMode::REL, 5);
    op1(out, Instr::TYA);
    op2(out, Instr::CMP, AddrMode::IMM, 0);
    op2(out, Instr::BNE, AddrMode::REL, 1);
    op1(out, Instr::INX);
    op1(out, Instr::TXA);
    op2(out, Instr::LDY, AddrMode::IMM, 0);
}

fn index_tail(out: &mut Vec<u8>)
    ensures
        grows(old(out)@, final(out)@),
        forall|a: AsmV, e: ErrsV| #![trigger gen_state(final(out)@, a, e)]
            st_index_tail(gen_state(old(out)@, a, e)) == gen_state(final(out)@, a, e),
{
    op2(out, Instr::ASL, AddrMode::ZP, ZP_RHS_L);
    op2(out, Instr::ROL, AddrMode::ZP, ZP_RHS_H);
    op1(out, Instr::CLC);
    op2(out, Instr::ADC, AddrMode::ZP, ZP_RHS_L);
    op1(out, Instr::TAX);
    op1(out, Instr::TYA);
    op2(out, Instr::ADC, AddrMode::ZP, ZP_RHS_H);
    op1(out, Instr::TAY);
    op1(out, Instr::TXA);
}

/// What every generator of an operation promises besides its code.
pub open spec fn keeps(a0: AsmV, a1: AsmV, ok: bool) -> bool {
    &&& ok ==> a1.frame_sz == a0.frame_sz
    &&& a1.code_start == a0.code_start
    &&& a0.addresses.len() <= a1.addresses.len() <= a0.addresses.len() + 5
}

/// The operations that load one operand, do a fixed sequence and store the result:
/// which one is told by `kind` (0 assignment, 1 negation, 2 logical not).
fn gen_unary(
    out: &mut Vec<u8>,
    kind: u8,
    result: usize,
    arg: &Arg,
    loc: Loc,
    assembler: &mut Assembler,
    errs: &mut Errors,
) -> (r: Option<()>)
    requires
        kind <= 2,
        auto_var_ok(result, old(assembler).frame_sz),
        arg_ok(*arg, old(assembler).frame_sz),
        old(errs).error_count < usize::MAX,
    ensures
        grows(old(out)@, final(out)@),
        then(
            st_load_arg(gen_state(old(out)@, old(assembler)@, old(errs)@), *arg, loc),
            |s1: GenState| st_store_auto(
                if kind == 1 {
                    st_negate_ya(s1)
                } else if kind == 2 {
                    st_not_ya(s1)
                } else {
                    s1
                },
                result,
            ),
        ) == (gen_state(final(out)@, final(assembler)@, final(errs)@), r is Some),
        count_ok(old(errs).error_count, final(errs).error_count, r is Some),
        keeps(old(assembler)@, final(assembler)@, r is Some),
{
    let ghost s0 = gen_state(out@, assembler@, errs@);
    proof {
        lemma_load_arg_keeps(s0, *arg, loc);
    }
    if load_arg(arg, loc, out, assembler, errs).is_none() {
        return None;
    }
    let ghost s1 = gen_state(out@, assembler@, errs@);
    if kind == 1 {
        negate_ya(out);
        assert(gen_state(out@, assembler@, errs@) == st_negate_ya(s1));
    } else if kind == 2 {
        not_ya(out);
        assert(gen_state(out@, assembler@, errs@) == st_not_ya(s1));
    }
    let ghost s2 = gen_state(out@, assembler@, errs@);
    store_auto(out, result, assembler);
    assert(gen_state(out@, assembler@, errs@) == st_store_auto(s2, result));
    Some(())
}

fn gen_store(out: &mut Vec<u8>, index: usize, arg: &Arg, loc: Loc, assembler: &mut Assembler, errs: &mut Errors) -> (r: Option<()>)
    requires
        auto_var_ok(index, old(assembler).frame_sz),
        arg_ok(*arg, old(assembler).frame_sz),
        old(errs).error_count < usize::MAX,
    ensures
        grows(old(out)@, final(out)@),
        ({
            let s = gen_state(old(out)@, old(assembler)@, old(errs)@);
            let s1 = zp(zp(st_load_auto_var(s, index), Instr::STA, ZP_DEREF_STORE_0), Instr::STY, ZP_DEREF_STORE_1);
            then(st_load_arg(s1, *arg, loc), |s2: GenState| st_store_through(s2))
        }) == (gen_state(final(out)@, final(assembler)@, final(errs)@), r is Some),
        count_ok(old(errs).error_count, final(errs).error_count, r is Some),
        keeps(old(assembler)@, final(assembler)@, r is Some),
{
    let ghost s = gen_state(out@, assembler@, errs@);
    load_auto_var(out, index, assembler);
    assert(gen_state(out@, assembler@, errs@) == st_load_auto_var(s, index));
    op2(out, Instr::STA, AddrMode::ZP, ZP_DEREF_STORE_0);
    op2(out, Instr::STY, AddrMode::ZP, ZP_DEREF_STORE_1);
    let ghost s1 = gen_state(out@, assembler@, errs@);
    proof {
        lemma_load_arg_keeps(s1, *arg, loc);
    }
    if load_arg(arg, loc, out, assembler, errs).is_none() {
        return None;
    }
    let ghost s2 = gen_state(out@, assembler@, errs@);
    store_through(out);
    assert(gen_state(out@, assembler@, errs@) == st_store_through(s2));
    Some(())
}

fn gen_external_assign(
    out: &mut Vec<u8>,
    name: &Vec<u8>,
    arg: &Arg,
    loc: Loc,
    assembler: &mut Assembler,
    errs: &mut Errors,
) -> (r: Option<()>)
    requires
        arg_ok(*arg, old(assembler).frame_sz),
        old(errs).error_count < usize::MAX,
    ensures
        grows(old(out)@, final(out)@),
        then(
            st_load_arg(gen_state(old(out)@, old(assembler)@, old(errs)@), *arg, loc),
            |s1: GenState| {
                let s2 = st_reloc(e0(s1, Instr::STA, AddrMode::ABS), RelocKindV::External {
                    name: name@,
                    offset: 0,
                    byte: Byte::Both,
                    relative: false,
                });
                st_reloc(e0(s2, Instr::STY, AddrMode::ABS), RelocKindV::External {
                    name: name@,
                    offset: 1,
                    byte: Byte::Both,
                    relative: false,
                })
            },
        ) == (gen_state(final(out)@, final(assembler)@, final(errs)@), r is Some),
        count_ok(old(errs).error_count, final(errs).error_count, r is Some),
        keeps(old(assembler)@, final(assembler)@, r is Some),
{
    let ghost s0 = gen_state(out@, assembler@, errs@);
    proof {
        lemma_load_arg_keeps(s0, *arg, loc);
    }
    if load_arg(arg, loc, out, assembler, errs).is_none() {
        return None;
    }
    op0(out, Instr::STA, AddrMode::ABS);
    let ghost s1 = gen_state(out@, assembler@, errs@);
    let k1 = RelocationKind::External { name: copy_bytes(name), offset: 0, byte: Byte::Both, relative: false };
    add_reloc(out, k1, assembler);
    assert(gen_state(out@, assembler@, errs@) == st_reloc(s1, k1@));
    op0(out, Instr::STY, AddrMode::ABS);
    let ghost s2 = gen_state(out@, assembler@, errs@);
    let k2 = RelocationKind::External { name: copy_bytes(name), offset: 1, byte: Byte::Both, relative: false };
    add_reloc(out, k2, assembler);
    assert(gen_state(out@, assembler@, errs@) == st_reloc(s2, k2@));
    Some(())
}

fn gen_return(out: &mut Vec<u8>, arg: &Option<Arg>, loc: Loc, ret: usize, assembler: &mut Assembler, errs: &mut Errors) -> (r: Option<()>)
    requires
        match *arg {
            Some(a) => arg_ok(a, old(assembler).frame_sz),
            None => true,
        },
        old(errs).error_count < usize::MAX,
    ensures
        grows(old(out)@, final(out)@),
        then(
            match *arg {
                Some(a) => st_load_arg(gen_state(old(out)@, old(assembler)@, old(errs)@), a, loc),
                None => (gen_state(old(out)@, old(assembler)@, old(errs)@), true),
            },
            |s1: GenState| to_label(s1, Instr::JMP, AddrMode::ABS, ret as int),
        ) == (gen_state(final(out)@, final(assembler)@, final(errs)@), r is Some),
        count_ok(old(errs).error_count, final(errs).error_count, r is Some),
        keeps(old(assembler)@, final(assembler)@, r is Some),
{
    let ghost s0 = gen_state(out@, assembler@, errs@);
    if let Some(a) = arg {
        proof {
            lemma_load_arg_keeps(s0, *a, loc);
        }
        if load_arg(a, loc, out, assembler, errs).is_none() {
            return None;
        }
    }
    op0(out, Instr::JMP, AddrMode::ABS);
    let ghost s1 = gen_state(out@, assembler@, errs@);
    let k = RelocationKind::Address { idx: ret, relative: false };
    add_reloc(out, k, assembler);
    assert(gen_state(out@, assembler@, errs@) == st_reloc(s1, k@));
    Some(())
}

fn gen_jmp_if_not(
    out: &mut Vec<u8>,
    name: &Vec<u8>,
    label: usize,
    arg: &Arg,
    loc: Loc,
    assembler: &mut Assembler,
    errs: &mut Errors,
) -> (r: Option<()>)
    requires
        arg_ok(*arg, old(assembler).frame_sz),
        old(errs).error_count < usize::MAX,
    ensures
        grows(old(out)@, final(out)@),
        then(
            st_load_arg(gen_state(old(out)@, old(assembler)@, old(errs)@), *arg, loc),
            |s1: GenState| st_reloc(
                e0(rel(imm(rel(imm(s1, Instr::CMP, 0), Instr::BNE, 7), Instr::CPY, 0), Instr::BNE, 3), Instr::JMP, AddrMode::ABS),
                RelocKindV::Label { func_name: name@, label },
            ),
        ) == (gen_state(final(out)@, final(assembler)@, final(errs)@), r is Some),
        count_ok(old(errs).error_count, final(errs).error_count, r is Some),
        keeps(old(assembler)@, final(assembler)@, r is Some),
{
    let ghost s0 = gen_state(out@, assembler@, errs@);
    proof {
        lemma_load_arg_keeps(s0, *arg, loc);
    }
    if load_arg(arg, loc, out, assembler, errs).is_none() {
        return None;
    }
    op2(out, Instr::CMP, AddrMode::IMM, 0);
    op2(out, Instr::BNE, AddrMode::REL, 7);
    op2(out, Instr::CPY, AddrMode::IMM, 0);
    op2(out, Instr::BNE, AddrMode::REL, 3);
    op0(out, Instr::JMP, AddrMode::ABS);
    let ghost s1 = gen_state(out@, assembler@, errs@);
    let k = RelocationKind::Label { func_name: copy_bytes(name), label };
    add_reloc(out, k, assembler);
    assert(gen_state(out@, assembler@, errs@) == st_reloc(s1, k@));
    Some(())
}

fn gen_index(
    out: &mut Vec<u8>,
    result: usize,
    arg: &Arg,
    offset: &Arg,
    loc: Loc,
    assembler: &mut Assembler,
    errs: &mut Errors,
) -> (r: Option<()>)
    requires
        auto_var_ok(result, old(assembler).frame_sz),
        arg_ok(*arg, old(assembler).frame_sz),
        arg_ok(*offset, old(assembler).frame_sz),
        old(errs).error_count < usize::MAX,
    ensures
        grows(old(out)@, final(out)@),
        then(
            st_load_two(gen_state(old(out)@, old(assembler)@, old(errs)@), *arg, *offset, loc),
            |s1: GenState| st_store_auto(st_index_tail(s1), result),
        ) == (gen_state(final(out)@, final(assembler)@, final(errs)@), r is Some),
        count_ok(old(errs).error_count, final(errs).error_count, r is Some),
        keeps(old(assembler)@, final(assembler)@, r is Some),
{
    let ghost s0 = gen_state(out@, assembler@, errs@);
    proof {
        lemma_load_arg_keeps(s0, *offset, loc);
        lemma_load_arg_keeps(st_load_arg(s0, *offset, loc).0, *arg, loc);
    }
    if load_two_args(out, arg, offset, loc, assembler, errs).is_none() {
        return None;
    }
    let ghost s1 = gen_state(out@, assembler@, errs@);
    index_tail(out);
    assert(gen_state(out@, assembler@, errs@) == st_index_tail(s1));
    let ghost s2 = gen_state(out@, assembler@, errs@);
    store_auto(out, result, assembler);
    assert(gen_state(out@, assembler@, errs@) == st_store_auto(s2, result));
    Some(())
}

/// How many words are on the stack after the arguments from `i` on were loaded.
pub open spec fn pushed(n: int, i: int) -> int {
    if i == 0 {
        if n > 0 { n - 1 } else { 0 }
    } else {
        n - i
    }
}

fn add16_exec(a: u16, l: u16) -> (r: u16)
    ensures
        r == add16(a, l + 6),
{
    let t: u32 = a as u32 + l as u32 + 6;
    (t % 65536) as u16
}

fn push_args(out: &mut Vec<u8>, args: &Vec<Arg>, loc: Loc, assembler: &mut Assembler, errs: &mut Errors) -> (r: Option<()>)
    requires
        forall|k: int| 0 <= k < args@.len() ==> arg_ok(#[trigger] args@[k], old(assembler).frame_sz),
        old(assembler).frame_sz + 2 * args@.len() <= u8::MAX + 2,
        old(errs).error_count < usize::MAX,
    ensures
        grows(old(out)@, final(out)@),
        st_push_args(gen_state(old(out)@, old(assembler)@, old(errs)@), args@, loc, args@.len() as int)
            == (gen_state(final(out)@, final(assembler)@, final(errs)@), r is Some),
        count_ok(old(errs).error_count, final(errs).error_count, r is Some),
        r is Some ==> final(assembler).frame_sz == old(assembler).frame_sz + 2 * pushed(args@.len() as int, 0),
        final(assembler).code_start == old(assembler).code_start,
        final(assembler).addresses@ == old(assembler).addresses@,
{
    let ghost s0 = gen_state(out@, assembler@, errs@);
    let ghost f = assembler.frame_sz;
    let ghost c0 = errs.error_count;
    let n = args.len();
    let mut i = n;
    let mut failed = false;
    while i > 0
        invariant_except_break
            !failed,
            st_push_args(s0, args@, loc, n as int) == st_push_args(gen_state(out@, assembler@, errs@), args@, loc, i as int),
            assembler.frame_sz == f + 2 * pushed(n as int, i as int),
            count_ok(c0, errs.error_count, true),
        invariant
            grows(old(out)@, out@),
            i <= n == args@.len(),
            f + 2 * n <= u8::MAX + 2,
            c0 < usize::MAX,
            forall|k: int| 0 <= k < args@.len() ==> arg_ok(#[trigger] args@[k], f),
            count_ok(c0, errs.error_count, !failed),
            assembler.code_start == s0.assembler.code_start,
            assembler.addresses@ == s0.assembler.addresses,
        ensures
            st_push_args(s0, args@, loc, n as int) == (gen_state(out@, assembler@, errs@), !failed),
            !failed ==> assembler.frame_sz == f + 2 * pushed(n as int, 0),
        decreases i,
    {
        i = i - 1;
        let ghost s1 = gen_state(out@, assembler@, errs@);
        proof {
            lemma_arg_ok_grow(args@[i as int], f, assembler.frame_sz);
            lemma_load_arg_keeps(s1, args@[i as int], loc);
        }
        if load_arg(&args[i], loc, out, assembler, errs).is_none() {
            failed = true;
            break;
        }
        if i != 0 {
            let ghost s2 = gen_state(out@, assembler@, errs@);
            push16(out, assembler);
            assert(gen_state(out@, assembler@, errs@) == st_push16(s2));
        }
    }
    if failed {
        None
    } else {
        Some(())
    }
}

fn call(out: &mut Vec<u8>, fun: &Arg, loc: Loc, assembler: &mut Assembler, errs: &mut Errors) -> (r: Option<()>)
    requires
        fun is IntLiteral ==> arg_ok(*fun, old(assembler).frame_sz),
        old(errs).error_count < usize::MAX,
    ensures
        grows(old(out)@, final(out)@),
        st_call(gen_state(old(out)@, old(assembler)@, old(errs)@), *fun, loc)
            == (gen_state(final(out)@, final(assembler)@, final(errs)@), r is Some),
        count_ok(old(errs).error_count, final(errs).error_count, r is Some),
        final(assembler).frame_sz == old(assembler).frame_sz,
        final(assembler).code_start == old(assembler).code_start,
        final(assembler).addresses@ == old(assembler).addresses@,
{
    let ghost s0 = gen_state(out@, assembler@, errs@);
    match fun {
        Arg::RefExternal(name) | Arg::External(name) => {
            op0(out, Instr::JSR, AddrMode::ABS);
            let ghost s1 = gen_state(out@, assembler@, errs@);
            let k = RelocationKind::External { name: copy_bytes(name), offset: 0, byte: Byte::Both, relative: false };
            add_reloc(out, k, assembler);
            assert(gen_state(out@, assembler@, errs@) == st_reloc(s1, k@));
        },
        Arg::IntLiteral(lit, radix) => {
            let value: u16 = match parse_int_literal_to_u16(lit.as_slice(), *radix) {
                Ok(v) => v,
                Err(()) => {
                    let d = Diag::FunctionAddressOutOfRange { loc, literal: copy_bytes(lit) };
                    let ok = report(errs, d);
                    assert(st_bump(s0, diag_view(d)) == (gen_state(out@, assembler@, errs@), ok is Some));
                    if ok.is_none() {
                        return None;
                    }
                    0
                },
            };
            op3(out, Instr::JSR, AddrMode::ABS, value);
        },
        Arg::CharLiteral(lit) => {
            let value: u16 = match parse_char_literal_to_u16_le(lit.as_slice()) {
                Ok(v) => v,
                Err(()) => {
                    let d = Diag::FunctionAddressCharOutOfRange { loc, literal: copy_bytes(lit) };
                    let ok = report(errs, d);
                    assert(st_bump(s0, diag_view(d)) == (gen_state(out@, assembler@, errs@), ok is Some));
                    if ok.is_none() {
                        return None;
                    }
                    0
                },
            };
            op3(out, Instr::JSR, AddrMode::ABS, value);
        },
        _ => {
            let a1 = add16_exec(assembler.code_start, out.len() as u16);
            op3(out, Instr::JSR, AddrMode::ABS, a1);
            let a2 = add16_exec(assembler.code_start, out.len() as u16);
            op3(out, Instr::JMP, AddrMode::ABS, a2);
            op3(out, Instr::JMP, AddrMode::IND, ZP_DEREF_FUN_0 as u16);
        },
    }
    Some(())
}

fn pops(out: &mut Vec<u8>, k: usize, assembler: &mut Assembler)
    requires
        old(assembler).frame_sz >= 2 * k,
    ensures
        grows(old(out)@, final(out)@),
        forall|e: ErrsV| #![trigger gen_state(final(out)@, final(assembler)@, e)]
            st_pops(gen_state(old(out)@, old(assembler)@, e), k as int) == gen_state(final(out)@, final(assembler)@, e),
        final(assembler).frame_sz == old(assembler).frame_sz - 2 * k,
        final(assembler).code_start == old(assembler).code_start,
        final(assembler).addresses@ == old(assembler).addresses@,
{
    let ghost o0 = out@;
    let ghost a0 = assembler@;
    let mut i: usize = 0;
    while i < k
        invariant
            grows(old(out)@, out@),
            i <= k,
            a0.frame_sz >= 2 * k,
            assembler.frame_sz == a0.frame_sz - 2 * i,
            assembler.code_start == a0.code_start,
            assembler.addresses@ == a0.addresses,
            forall|e: ErrsV| #![trigger gen_state(out@, assembler@, e)]
                st_pops(gen_state(o0, a0, e), i as int) == gen_state(out@, assembler@, e),
        decreases k - i,
    {
        let ghost o1 = out@;
        let ghost a1 = assembler@;
        pop16_discard(out, assembler);
        i = i + 1;
        proof {
            assert forall|e: ErrsV| #![trigger gen_state(out@, assembler@, e)]
                st_pops(gen_state(o0, a0, e), i as int) == gen_state(out@, assembler@, e) by {
                assert(st_pops(gen_state(o0, a0, e), i - 1) == gen_state(o1, a1, e));
            }
        }
    }
}

fn gen_funcall(
    out: &mut Vec<u8>,
    result: usize,
    fun: &Arg,
    args: &Vec<Arg>,
    loc: Loc,
    assembler: &mut Assembler,
    errs: &mut Errors,
) -> (r: Option<()>)
    requires
        auto_var_ok(result, old(assembler).frame_sz),
        fun_direct(*fun) || arg_ok(*fun, old(assembler).frame_sz),
        fun is IntLiteral ==> arg_ok(*fun, old(assembler).frame_sz),
        forall|k: int| 0 <= k < args@.len() ==> arg_ok(#[trigger] args@[k], old(assembler).frame_sz),
        old(assembler).frame_sz + 2 * args@.len() <= u8::MAX + 2,
        old(errs).error_count < usize::MAX,
    ensures
        grows(old(out)@, final(out)@),
        st_funcall(gen_state(old(out)@, old(assembler)@, old(errs)@), result, *fun, args@, loc)
            == (gen_state(final(out)@, final(assembler)@, final(errs)@), r is Some),
        count_ok(old(errs).error_count, final(errs).error_count, r is Some),
        keeps(old(assembler)@, final(assembler)@, r is Some),
{
    let ghost s0 = gen_state(out@, assembler@, errs@);
    let direct = match fun {
        Arg::RefExternal(_) | Arg::External(_) | Arg::IntLiteral(_, _) | Arg::CharLiteral(_) => true,
        _ => false,
    };
    if !direct {
        proof {
            lemma_load_arg_keeps(s0, *fun, loc);
        }
        if load_arg(fun, loc, out, assembler, errs).is_none() {
            return None;
        }
        op2(out, Instr::STA, AddrMode::ZP, ZP_DEREF_FUN_0);
        op2(out, Instr::STY, AddrMode::ZP, ZP_DEREF_FUN_1);
    }
    let ghost s1 = gen_state(out@, assembler@, errs@);
    if push_args(out, args, loc, assembler, errs).is_none() {
        return None;
    }
    let ghost s2 = gen_state(out@, assembler@, errs@);
    if call(out, fun, loc, assembler, errs).is_none() {
        return None;
    }
    let ghost s3 = gen_state(out@, assembler@, errs@);
    if args.len() > 1 {
        op1(out, Instr::TAX);
        let ghost s4 = gen_state(out@, assembler@, errs@);
        pops(out, args.len() - 1, assembler);
        assert(gen_state(out@, assembler@, errs@) == st_pops(s4, args.len() - 1));
        op1(out, Instr::TXA);
    }
    let ghost s5 = gen_state(out@, assembler@, errs@);
    store_auto(out, result, assembler);
    assert(gen_state(out@, assembler@, errs@) == st_store_auto(s5, result));
    Some(())
}

fn gen_stmts(out: &mut Vec<u8>, stmts: &Vec<AsmStmt>, assembler: &mut Assembler, errs: &mut Errors) -> (r: Option<()>)
    requires
        forall|k: int| 0 <= k < stmts@.len() ==> stmt_ok(#[trigger] stmts@[k]),
        old(errs).error_count < usize::MAX,
    ensures
        grows(old(out)@, final(out)@),
        st_stmts(gen_state(old(out)@, old(assembler)@, old(errs)@), stmts@, 0)
            == (gen_state(final(out)@, final(assembler)@, final(errs)@), r is Some),
        count_ok(old(errs).error_count, final(errs).error_count, r is Some),
        final(assembler).frame_sz == old(assembler).frame_sz,
        final(assembler).code_start == old(assembler).code_start,
        final(assembler).addresses@ == old(assembler).addresses@,
{
    let ghost s0 = gen_state(out@, assembler@, errs@);
    let ghost c0 = errs.error_count;
    let mut i: usize = 0;
    let mut failed = false;
    while i < stmts.len()
        invariant_except_break
            !failed,
            st_stmts(s0, stmts@, 0) == st_stmts(gen_state(out@, assembler@, errs@), stmts@, i as int),
            count_ok(c0, errs.error_count, true),
        invariant
            grows(old(out)@, out@),
            i <= stmts@.len(),
            c0 < usize::MAX,
            forall|k: int| 0 <= k < stmts@.len() ==> stmt_ok(#[trigger] stmts@[k]),
            count_ok(c0, errs.error_count, !failed),
            assembler.frame_sz == s0.assembler.frame_sz,
            assembler.code_start == s0.assembler.code_start,
            assembler.addresses@ == s0.assembler.addresses,
        ensures
            st_stmts(s0, stmts@, 0) == (gen_state(out@, assembler@, errs@), !failed),
        decreases stmts.len() - i,
    {
        let stmt = &stmts[i];
        proof {
            assert(stmt_ok(stmts@[i as int]));
        }
        if assemble_statement(out, stmt.line.as_slice(), stmt.loc, assembler, errs).is_none() {
            failed = true;
            break;
        }
        i = i + 1;
    }
    if failed {
        None
    } else {
        Some(())
    }
}

/// Generates the code of one operation.
fn gen_op(
    out: &mut Vec<u8>,
    op: &OpWithLocation,
    name: &Vec<u8>,
    ret: usize,
    assembler: &mut Assembler,
    errs: &mut Errors,
) -> (r: Option<()>)
    requires
        op_ok(op.opcode, old(assembler).frame_sz),
        old(assembler).addresses@.len() + 5 <= usize::MAX,
        old(errs).error_count < usize::MAX,
    ensures
        grows(old(out)@, final(out)@),
        st_op(gen_state(old(out)@, old(assembler)@, old(errs)@), *op, name@, ret as int)
            == (gen_state(final(out)@, final(assembler)@, final(errs)@), r is Some),
        count_ok(old(errs).error_count, final(errs).error_count, r is Some),
        keeps(old(assembler)@, final(assembler)@, r is Some),
{
    let ghost s0 = gen_state(out@, assembler@, errs@);
    let loc = op.loc;
    match &op.opcode {
        Op::Bogus => Some(()),
        Op::Return { arg } => gen_return(out, arg, loc, ret, assembler, errs),
        Op::Store { index, arg } => gen_store(out, *index, arg, loc, assembler, errs),
        Op::ExternalAssign { name: ext, arg } => gen_external_assign(out, ext, arg, loc, assembler, errs),
        Op::AutoAssign { index, arg } => {
            let r = gen_unary(out, 0, *index, arg, loc, assembler, errs);
            assert((|s1: GenState| st_store_auto(s1, *index)) =~= (|s1: GenState| st_store_auto(
                if 0u8 == 1 {
                    st_negate_ya(s1)
                } else if 0u8 == 2 {
                    st_not_ya(s1)
                } else {
                    s1
                },
                *index,
            )));
            r
        },
        Op::Negate { result, arg } => {
            let r = gen_unary(out, 1, *result, arg, loc, assembler, errs);
            assert((|s1: GenState| st_store_auto(st_negate_ya(s1), *result)) =~= (|s1: GenState| st_store_auto(
                if 1u8 == 1 {
                    st_negate_ya(s1)
                } else if 1u8 == 2 {
                    st_not_ya(s1)
                } else {
                    s1
                },
                *result,
            )));
            r
        },
        Op::UnaryNot { result, arg } => {
            let r = gen_unary(out, 2, *result, arg, loc, assembler, errs);
            assert((|s1: GenState| st_store_auto(st_not_ya(s1), *result)) =~= (|s1: GenState| st_store_auto(
                if 2u8 == 1 {
                    st_negate_ya(s1)
                } else if 2u8 == 2 {
                    st_not_ya(s1)
                } else {
                    s1
                },
                *result,
            )));
            r
        },
        Op::Binop { binop, index, lhs, rhs } => {
            binop_code(out, *binop, *index, lhs, rhs, loc, assembler, errs)
        },
        Op::Funcall { result, fun, args } => gen_funcall(out, *result, fun, args, loc, assembler, errs),
        Op::Asm { stmts } => gen_stmts(out, stmts, assembler, errs),
        Op::Label { label } => {
            let l = Label { func_name: copy_bytes(name), label: *label, addr: out.len() as u16 };
            let ghost hl = assembler.op_labels@;
            assembler.op_labels.push(l);
            proof {
                lemma_map_push(hl, l, |l: Label| l@);
            }
            Some(())
        },
        Op::JmpLabel { label } => {
            op0(out, Instr::JMP, AddrMode::ABS);
            let ghost s1 = gen_state(out@, assembler@, errs@);
            let k = RelocationKind::Label { func_name: copy_bytes(name), label: *label };
            add_reloc(out, k, assembler);
            assert(gen_state(out@, assembler@, errs@) == st_reloc(s1, k@));
            Some(())
        },
        Op::JmpIfNotLabel { label, arg } => gen_jmp_if_not(out, name, *label, arg, loc, assembler, errs),
        Op::Index { result, arg, offset } => gen_index(out, *result, arg, offset, loc, assembler, errs),
    }
}

/// `k` new address labels.
pub open spec fn st_new_labels(s: GenState, k: nat) -> GenState
    decreases k,
{
    if k == 0 {
        s
    } else {
        st_new_label(st_new_labels(s, (k - 1) as nat))
    }
}

/// Copying parameter `i` (passed in `Y:A` for the first, on the stack for the others)
/// into its auto variable, in a frame of `ss` bytes.
pub open spec fn st_param(s: GenState, ss: u8, i: int) -> GenState {
    let s1 = e1(s, Instr::TSX);
    if i == 0 {
        e3(e1(e3(s1, Instr::STA, AddrMode::ABS_X, (0x100 + ss - 1) as u16), Instr::TYA), Instr::STA, AddrMode::ABS_X, (0x100 + ss) as u16)
    } else {
        let s2 = e3(e3(s1, Instr::LDA, AddrMode::ABS_X, (0x100 + ss + 2 * i + 1) as u16), Instr::STA, AddrMode::ABS_X, (0x100 + ss - 2 * i - 1) as u16);
        e3(e3(s2, Instr::LDA, AddrMode::ABS_X, (0x100 + ss + 2 * i + 2) as u16), Instr::STA, AddrMode::ABS_X, (0x100 + ss - 2 * i) as u16)
    }
}

/// Copying parameters `i` to `n - 1`.
pub open spec fn st_params(s: GenState, ss: u8, n: int, i: int) -> GenState
    decreases n - i,
{
    if i >= n {
        s
    } else {
        st_params(st_param(s, ss, i), ss, n, i + 1)
    }
}

/// The operations `body[i..]`, each preceded by linking its address label `base + i`.
pub open spec fn st_body(s: GenState, body: Seq<OpWithLocation>, name: Seq<u8>, base: int, i: int) -> (GenState, bool)
    decreases body.len() - i,
{
    if i < 0 || i >= body.len() {
        (s, true)
    } else {
        let (s1, ok) = st_op(st_link_here(s, base + i), body[i], name, base + body.len());
        if !ok {
            (s1, false)
        } else {
            st_body(s1, body, name, base, i + 1)
        }
    }
}

/// `generate_function`: the function is defined at the end of the output; an address
/// label for each operation and one for the return code; the frame for the auto
/// variables is reserved and the parameters copied into it; the operations; the
/// return code (`Y:A = 0` where no `return` gave a value), which frees the frame.
pub open spec fn st_function(
    s: GenState,
    name: Seq<u8>,
    loc: Loc,
    params_count: usize,
    auto_vars_count: usize,
    body: Seq<OpWithLocation>,
) -> (GenState, bool) {
    let (s1, ok) = st_add_external(st_frame(s, 0), name, s.out.len() as u16, loc);
    let base = s1.assembler.addresses.len() as int;
    let n = body.len() as int;
    let ss = (auto_vars_count * 2) as u8;
    let s2 = st_note(st_new_labels(s1, (n + 1) as nat), Diag::FunctionInfo { name, auto_vars_count });
    let s3 = st_params(st_sub_sp(s2, ss), ss, params_count as int, 0);
    let (s4, ok4) = st_body(s3, body, name, base, 0);
    let s5 = st_link_here(e1(imm(s4, Instr::LDA, 0), Instr::TAY), base + n);
    let s6 = if ss > 0 {
        zp(st_add_sp(zp(s5, Instr::STA, ZP_TMP_0), ss), Instr::LDA, ZP_TMP_0)
    } else {
        s5
    };
    if !ok {
        (s1, false)
    } else if !ok4 {
        (s4, false)
    } else {
        (e1(s6, Instr::RTS), true)
    }
}

/// The parameters fit the frame: every stack address that copying them uses lies in
/// 16 bits.
pub open spec fn params_fit(params_count: usize, ss: int) -> bool {
    params_count == 0 || 2 * (params_count - 1) + 1 <= 0x100 + ss
}

fn gen_params(out: &mut Vec<u8>, ss: u8, params_count: usize)
    requires
        params_fit(params_count, ss as int),
    ensures
        grows(old(out)@, final(out)@),
        forall|a: AsmV, e: ErrsV| #![trigger gen_state(final(out)@, a, e)]
            st_params(gen_state(old(out)@, a, e), ss, params_count as int, 0) == gen_state(final(out)@, a, e),
{
    let ghost o0 = out@;
    let mut i: usize = 0;
    while i < params_count
        invariant
            grows(old(out)@, out@),
            i <= params_count,
            params_fit(params_count, ss as int),
            forall|a: AsmV, e: ErrsV| #![trigger gen_state(out@, a, e)]
                st_params(gen_state(o0, a, e), ss, params_count as int, 0) == st_params(
                    gen_state(out@, a, e),
                    ss,
                    params_count as int,
                    i as int,
                ),
        decreases params_count - i,
    {
        let ghost o1 = out@;
        op1(out, Instr::TSX);
        let k = i as u16;
        if i == 0 {
            op3(out, Instr::STA, AddrMode::ABS_X, STACK_PAGE + ss as u16 - 1);
            op1(out, Instr::TYA);
            op3(out, Instr::STA, AddrMode::ABS_X, STACK_PAGE + ss as u16);
        } else {
            op3(out, Instr::LDA, AddrMode::ABS_X, STACK_PAGE + ss as u16 + 2 * k + 1);
            op3(out, Instr::STA, AddrMode::ABS_X, STACK_PAGE + ss as u16 - 2 * k - 1);
            op3(out, Instr::LDA, AddrMode::ABS_X, STACK_PAGE + ss as u16 + 2 * k + 2);
            op3(out, Instr::STA, AddrMode::ABS_X, STACK_PAGE + ss as u16 - 2 * k);
        }
        i = i + 1;
        proof {
            assert forall|a: AsmV, e: ErrsV| #![trigger gen_state(out@, a, e)]
                st_params(gen_state(o0, a, e), ss, params_count as int, 0) == st_params(
                    gen_state(out@, a, e),
                    ss,
                    params_count as int,
                    i as int,
                ) by {
                assert(st_param(gen_state(o1, a, e), ss, i - 1) == gen_state(out@, a, e));
            }
        }
    }
}

/// Generates the code of a function: its name is defined at the end of the output,
/// then come the frame set-up, the operations and the return code. `None` once there
/// are too many errors (the code of the function is then incomplete).
#[verifier::rlimit(60)]
pub fn generate_function(
    name: &[u8],
    loc: Loc,
    params_count: usize,
    auto_vars_count: usize,
    body: &[OpWithLocation],
    out: &mut Vec<u8>,
    assembler: &mut Assembler,
    errs: &mut Errors,
) -> (r: Option<()>)
    requires
        auto_vars_count * 2 < 256,
        params_fit(params_count, auto_vars_count * 2),
        forall|k: int| 0 <= k < body@.len() ==> op_ok((#[trigger] body@[k]).opcode, (auto_vars_count * 2) as u8),
        old(assembler).addresses@.len() + 6 * (body@.len() + 1) <= usize::MAX,
        old(errs).error_count < usize::MAX,
    ensures
        grows(old(out)@, final(out)@),
        st_function(gen_state(old(out)@, old(assembler)@, old(errs)@), name@, loc, params_count, auto_vars_count, body@)
            == (gen_state(final(out)@, final(assembler)@, final(errs)@), r is Some),
        count_ok(old(errs).error_count, final(errs).error_count, r is Some),
        final(assembler).code_start == old(assembler).code_start,
        old(assembler).addresses@.len() <= final(assembler).addresses@.len() <= old(assembler).addresses@.len() + 6 * (
        body@.len() + 1),
        r is Some ==> final(assembler).frame_sz == 0,
{
    let ghost s = gen_state(out@, assembler@, errs@);
    assembler.frame_sz = 0;
    let ghost sf = gen_state(out@, assembler@, errs@);
    assert(sf == st_frame(s, 0));
    let fun_addr = out.len() as u16;
    let ok = add_external(name, fun_addr, loc, assembler, errs);
    assert(st_add_external(sf, name@, fun_addr, loc) == (gen_state(out@, assembler@, errs@), ok is Some));
    if ok.is_none() {
        return None;
    }
    let ghost s1 = gen_state(out@, assembler@, errs@);
    let base = assembler.addresses.len();
    let n = body.len();
    let mut k: usize = 0;
    while k <= n
        invariant
            grows(old(out)@, out@),
            k <= n + 1,
            base == s1.assembler.addresses.len(),
            base + 6 * (n + 1) <= usize::MAX,
            n == body@.len(),
            gen_state(out@, assembler@, errs@) == st_new_labels(s1, k as nat),
            assembler.addresses@.len() == base + k,
            assembler.frame_sz == 0,
            assembler.code_start == s.assembler.code_start,
        decreases n + 1 - k,
    {
        assembler.addresses.push(0);
        k = k + 1;
    }
    let d = Diag::FunctionInfo { name: copy_bytes(name), auto_vars_count };
    let ghost hd = errs.diags@;
    errs.diags.push(d);
    proof {
        lemma_map_push(hd, d, |d: Diag<Vec<u8>>| diag_view(d));
    }
    let ghost s2 = gen_state(out@, assembler@, errs@);
    assert(s2 == st_note(st_new_labels(s1, (n + 1) as nat), Diag::FunctionInfo { name: name@, auto_vars_count }));
    let stack_size = (auto_vars_count * 2) as u8;
    sub_sp(out, stack_size, assembler);
    let ghost s2b = gen_state(out@, assembler@, errs@);
    assert(s2b == st_sub_sp(s2, stack_size));
    gen_params(out, stack_size, params_count);
    let ghost s3 = gen_state(out@, assembler@, errs@);
    assert(s3 == st_params(s2b, stack_size, params_count as int, 0));
    let name_vec = copy_bytes(name);
    let ghost c3 = errs.error_count;
    let mut i: usize = 0;
    let mut failed = false;
    while i < n
        invariant_except_break
            !failed,
            st_body(s3, body@, name@, base as int, 0) == st_body(gen_state(out@, assembler@, errs@), body@, name@, base as int, i as int),
            assembler.frame_sz == stack_size,
            count_ok(c3, errs.error_count, true),
            base + n + 1 <= assembler.addresses@.len() <= base + n + 1 + 5 * i,
        invariant
            grows(old(out)@, out@),
            i <= n == body@.len(),
            name_vec@ == name@,
            base + 6 * (n + 1) <= usize::MAX,
            c3 < usize::MAX,
            count_ok(c3, errs.error_count, !failed),
            stack_size == (auto_vars_count * 2) as u8,
            forall|k: int| 0 <= k < body@.len() ==> op_ok((#[trigger] body@[k]).opcode, stack_size),
            assembler.code_start == s.assembler.code_start,
            base <= assembler.addresses@.len() <= base + n + 1 + 5 * i + 5,
        ensures
            st_body(s3, body@, name@, base as int, 0) == (gen_state(out@, assembler@, errs@), !failed),
            !failed ==> assembler.frame_sz == stack_size,
            !failed ==> base + n + 1 <= assembler.addresses@.len(),
        decreases n - i,
    {
        let ghost sa = gen_state(out@, assembler@, errs@);
        link_address_label_here_at(base + i, out, assembler);
        assert(gen_state(out@, assembler@, errs@) == st_link_here(sa, base + i));
        proof {
            assert(op_ok(body@[i as int].opcode, stack_size));
        }
        if gen_op(out, &body[i], &name_vec, base + n, assembler, errs).is_none() {
            failed = true;
            break;
        }
        i = i + 1;
    }
    if failed {
        return None;
    }
    let ghost s4 = gen_state(out@, assembler@, errs@);
    op2(out, Instr::LDA, AddrMode::IMM, 0);
    op1(out, Instr::TAY);
    let ghost s4b = gen_state(out@, assembler@, errs@);
    link_address_label_here_at(base + n, out, assembler);
    assert(gen_state(out@, assembler@, errs@) == st_link_here(e1(imm(s4, Instr::LDA, 0), Instr::TAY), base + n));
    if stack_size > 0 {
        op2(out, Instr::STA, AddrMode::ZP, ZP_TMP_0);
        let ghost s5 = gen_state(out@, assembler@, errs@);
        add_sp(out, stack_size, assembler);
        assert(gen_state(out@, assembler@, errs@) == st_add_sp(s5, stack_size));
        op2(out, Instr::LDA, AddrMode::ZP, ZP_TMP_0);
    }
    op1(out, Instr::RTS);
    Some(())
}

/// Points address label `label` at the end of the output.
fn link_address_label_here_at(label: usize, out: &Vec<u8>, assembler: &mut Assembler)
    requires
        label < old(assembler).addresses@.len(),
    ensures
        forall|e: ErrsV| #![trigger gen_state(out@, final(assembler)@, e)]
            st_link_here(gen_state(out@, old(assembler)@, e), label as int) == gen_state(out@, final(assembler)@, e),
        final(assembler).frame_sz == old(assembler).frame_sz,
        final(assembler).code_start == old(assembler).code_start,
        final(assembler).addresses@.len() == old(assembler).addresses@.len(),
{
    super::assembler::link_address_label_here(label, out, assembler);
}

} // verus!
