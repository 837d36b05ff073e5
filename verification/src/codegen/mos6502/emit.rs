//! Code for loading and storing 16-bit values and for managing the stack frame.
use vstd::prelude::*;
use crate::codegen_common::{parse_int_literal_to_u16, parse_char_literal_to_u16_le, int_value, le_value, digit_ok};
use crate::bytes::copy_bytes;
use crate::errors::{bump_error_count};
use crate::ir::Arg;
use crate::lexer::Loc;
use super::opcodes::{Instr, AddrMode};
use super::assembler::{
    grows,Assembler, Errors, Diag, RelocationKind, RelocKindV, Byte, GenState, AsmV, ErrsV, gen_state, diag_view, lemma_map_push, count_ok, st_bump, err_bump, st_reloc, e0, e1, e2, e3, lo, hi, op0, op1, op2, op3, add_reloc};

verus! {

/// Zero-page bytes that the generated code uses: a pointer to read through,
pub const ZP_DEREF_0: u8 = 0;
pub const ZP_DEREF_1: u8 = 1;
/// a pointer to store through,
pub const ZP_DEREF_STORE_0: u8 = 2;
pub const ZP_DEREF_STORE_1: u8 = 3;
/// the right operand of a binary operation,
pub const ZP_RHS_L: u8 = 4;
pub const ZP_RHS_H: u8 = 5;
/// and scratch bytes.
pub const ZP_TMP_0: u8 = 6;
pub const ZP_TMP_1: u8 = 7;
pub const ZP_TMP_2: u8 = 8;
pub const ZP_TMP_3: u8 = 9;
pub const ZP_TMP_4: u8 = 10;
pub const ZP_TMP_5: u8 = 11;
/// Zero page pointer for indirect calls; not the same as `ZP_DEREF_0`, as it is
/// used before the arguments are loaded.
pub const ZP_DEREF_FUN_0: u8 = 12;
pub const ZP_DEREF_FUN_1: u8 = 13;

/// The page of the 6502's stack.
pub const STACK_PAGE: u16 = 0x0100;

/// Auto variable `index` fits below the stack page as seen from a frame of `frame` bytes.
pub open spec fn auto_var_ok(index: usize, frame: u8) -> bool {
    1 <= index && ((index - 1) as u16) * 2 + 1 <= 0x100 + frame
}

/// Auto variable `index` lies inside a frame of `frame` bytes.
pub open spec fn auto_ref_ok(index: usize, frame: u8) -> bool {
    1 <= index && ((index - 1) as u8) * 2 + 1 <= frame
}

/// Stack address of the low byte of auto variable `index`, relative to `S` (via `X`).
pub open spec fn auto_lo(index: usize, frame: u8) -> u16 {
    (0x100 + frame - ((index - 1) as u16) * 2 - 1) as u16
}

/// Stack address of the high byte of auto variable `index`, relative to `S` (via `X`).
pub open spec fn auto_hi(index: usize, frame: u8) -> u16 {
    (0x100 + frame - ((index - 1) as u16) * 2) as u16
}

/// `load_auto_var`: `Y:A` = auto variable `index`.
pub open spec fn st_load_auto_var(s: GenState, index: usize) -> GenState {
    let f = s.assembler.frame_sz;
    e3(e3(e1(s, Instr::TSX), Instr::LDA, AddrMode::ABS_X, auto_lo(index, f)), Instr::LDY, AddrMode::ABS_X, auto_hi(index, f))
}

/// `load_auto_var_ref`: `Y:A` = the address of auto variable `index`.
pub open spec fn st_load_auto_var_ref(s: GenState, index: usize) -> GenState {
    let f = s.assembler.frame_sz;
    let s1 = e1(e1(e1(s, Instr::TSX), Instr::TXA), Instr::CLC);
    e2(e2(s1, Instr::ADC, AddrMode::IMM, (f - ((index - 1) as u8) * 2 - 1) as u8), Instr::LDY, AddrMode::IMM, 1)
}

/// `store_auto`: auto variable `index` = `Y:A`.
pub open spec fn st_store_auto(s: GenState, index: usize) -> GenState {
    let f = s.assembler.frame_sz;
    let s1 = e3(e1(s, Instr::TSX), Instr::STA, AddrMode::ABS_X, auto_lo(index, f));
    e3(e1(s1, Instr::TYA), Instr::STA, AddrMode::ABS_X, auto_hi(index, f))
}

/// `n` times the same instruction without operand.
pub open spec fn e1_times(s: GenState, i: Instr, n: nat) -> GenState
    decreases n,
{
    if n == 0 {
        s
    } else {
        e1(e1_times(s, i, (n - 1) as nat), i)
    }
}

/// The frame size set to `f`.
pub open spec fn st_frame(s: GenState, f: u8) -> GenState {
    GenState { assembler: AsmV { frame_sz: f, ..s.assembler }, ..s }
}

/// `add_sp`: dropping `bytes` bytes from the stack.
pub open spec fn st_add_sp(s: GenState, bytes: u8) -> GenState {
    let s1 = st_frame(s, (s.assembler.frame_sz - bytes) as u8);
    if bytes < 8 {
        e1_times(s1, Instr::PLA, bytes as nat)
    } else {
        let s2 = e1(e1(e1(s1, Instr::TSX), Instr::TXA), Instr::CLC);
        e1(e1(e2(s2, Instr::ADC, AddrMode::IMM, bytes), Instr::TAX), Instr::TXS)
    }
}

/// `sub_sp`: reserving `bytes` bytes on the stack.
pub open spec fn st_sub_sp(s: GenState, bytes: u8) -> GenState {
    e1_times(st_frame(s, (s.assembler.frame_sz + bytes) as u8), Instr::PHA, bytes as nat)
}

/// `push16`: pushing `Y:A`, high byte first.
pub open spec fn st_push16(s: GenState) -> GenState {
    let s1 = st_frame(s, (s.assembler.frame_sz + 2) as u8);
    e1(e1(e1(e1(e1(s1, Instr::TAX), Instr::TYA), Instr::PHA), Instr::TXA), Instr::PHA)
}

/// `pop16_discard`: dropping a word from the stack.
pub open spec fn st_pop16_discard(s: GenState) -> GenState {
    let s1 = st_frame(s, (s.assembler.frame_sz - 2) as u8);
    e1(e1(s1, Instr::PLA), Instr::PLA)
}

/// `Y:A` = auto variable `index`.
pub fn load_auto_var(out: &mut Vec<u8>, index: usize, assembler: &mut Assembler) -> (r: Option<()>)
    requires
        auto_var_ok(index, old(assembler).frame_sz),
    ensures
        grows(old(out)@, final(out)@),
        r is Some,
        forall|e: ErrsV| #![trigger gen_state(final(out)@, final(assembler)@, e)]
            st_load_auto_var(gen_state(old(out)@, old(assembler)@, e), index) == gen_state(final(out)@, final(assembler)@, e),
{
    op1(out, Instr::TSX);
    op3(out, Instr::LDA, AddrMode::ABS_X, STACK_PAGE + assembler.frame_sz as u16 - (index - 1) as u16 * 2 - 1);
    op3(out, Instr::LDY, AddrMode::ABS_X, STACK_PAGE + assembler.frame_sz as u16 - (index - 1) as u16 * 2);
    Some(())
}

/// `Y:A` = the address of auto variable `index`.
pub fn load_auto_var_ref(out: &mut Vec<u8>, index: usize, assembler: &mut Assembler) -> (r: Option<()>)
    requires
        auto_ref_ok(index, old(assembler).frame_sz),
    ensures
        grows(old(out)@, final(out)@),
        r is Some,
        forall|e: ErrsV| #![trigger gen_state(final(out)@, final(assembler)@, e)]
            st_load_auto_var_ref(gen_state(old(out)@, old(assembler)@, e), index) == gen_state(final(out)@, final(assembler)@, e),
{
    op1(out, Instr::TSX);
    op1(out, Instr::TXA);
    op1(out, Instr::CLC);
    op2(out, Instr::ADC, AddrMode::IMM, assembler.frame_sz as u8 - (index - 1) as u8 * 2 - 1);
    assert(0x0100u16 >> 8u16 == 1u16) by (bit_vector);
    op2(out, Instr::LDY, AddrMode::IMM, (STACK_PAGE >> 8) as u8);
    Some(())
}

/// Auto variable `index` = `Y:A`.
pub fn store_auto(out: &mut Vec<u8>, index: usize, assembler: &mut Assembler) -> (r: Option<()>)
    requires
        auto_var_ok(index, old(assembler).frame_sz),
    ensures
        grows(old(out)@, final(out)@),
        r is Some,
        forall|e: ErrsV| #![trigger gen_state(final(out)@, final(assembler)@, e)]
            st_store_auto(gen_state(old(out)@, old(assembler)@, e), index) == gen_state(final(out)@, final(assembler)@, e),
{
    op1(out, Instr::TSX);
    op3(out, Instr::STA, AddrMode::ABS_X, STACK_PAGE + assembler.frame_sz as u16 - (index - 1) as u16 * 2 - 1);
    op1(out, Instr::TYA);
    op3(out, Instr::STA, AddrMode::ABS_X, STACK_PAGE + assembler.frame_sz as u16 - (index - 1) as u16 * 2);
    Some(())
}

/// Drops `bytes` bytes from the stack: `PLA` for each below 8 bytes, else by
/// adding to the stack pointer.
pub fn add_sp(out: &mut Vec<u8>, bytes: u8, assembler: &mut Assembler) -> (r: Option<()>)
    requires
        old(assembler).frame_sz >= bytes,
    ensures
        grows(old(out)@, final(out)@),
        r is Some,
        forall|e: ErrsV| #![trigger gen_state(final(out)@, final(assembler)@, e)]
            st_add_sp(gen_state(old(out)@, old(assembler)@, e), bytes) == gen_state(final(out)@, final(assembler)@, e),
        final(assembler).frame_sz == old(assembler).frame_sz - bytes,
        final(assembler).code_start == old(assembler).code_start,
        final(assembler).addresses@ == old(assembler).addresses@,
{
    assembler.frame_sz = assembler.frame_sz - bytes;
    if bytes < 8 {
        let ghost a1 = assembler@;
        let ghost o1 = out@;
        let mut i: u8 = 0;
        while i < bytes
            invariant
                grows(old(out)@, out@),
                i <= bytes,
                assembler@ == a1,
                forall|e: ErrsV| #![trigger gen_state(out@, a1, e)]
                    e1_times(gen_state(o1, a1, e), Instr::PLA, i as nat) == gen_state(out@, a1, e),
            decreases bytes - i,
        {
            let ghost prev = out@;
            op1(out, Instr::PLA);
            i = i + 1;
            proof {
                assert forall|e: ErrsV| #![trigger gen_state(out@, a1, e)]
                    e1_times(gen_state(o1, a1, e), Instr::PLA, i as nat) == gen_state(out@, a1, e) by {
                    assert(e1_times(gen_state(o1, a1, e), Instr::PLA, (i - 1) as nat) == gen_state(prev, a1, e));
                }
            }
        }
    } else {
        op1(out, Instr::TSX);
        op1(out, Instr::TXA);
        op1(out, Instr::CLC);
        op2(out, Instr::ADC, AddrMode::IMM, bytes);
        op1(out, Instr::TAX);
        op1(out, Instr::TXS);
    }
    Some(())
}

/// Reserves `bytes` bytes on the stack with `PHA` (`Y:A`, the first argument, is kept).
pub fn sub_sp(out: &mut Vec<u8>, bytes: u8, assembler: &mut Assembler) -> (r: Option<()>)
    requires
        old(assembler).frame_sz + bytes <= u8::MAX,
    ensures
        grows(old(out)@, final(out)@),
        r is Some,
        forall|e: ErrsV| #![trigger gen_state(final(out)@, final(assembler)@, e)]
            st_sub_sp(gen_state(old(out)@, old(assembler)@, e), bytes) == gen_state(final(out)@, final(assembler)@, e),
        final(assembler).frame_sz == old(assembler).frame_sz + bytes,
        final(assembler).code_start == old(assembler).code_start,
        final(assembler).addresses@ == old(assembler).addresses@,
{
    assembler.frame_sz = assembler.frame_sz + bytes;
    let ghost a1 = assembler@;
    let ghost o1 = out@;
    let mut i: u8 = 0;
    while i < bytes
        invariant
            grows(old(out)@, out@),
            i <= bytes,
            assembler@ == a1,
            forall|e: ErrsV| #![trigger gen_state(out@, a1, e)]
                e1_times(gen_state(o1, a1, e), Instr::PHA, i as nat) == gen_state(out@, a1, e),
        decreases bytes - i,
    {
        let ghost prev = out@;
        op1(out, Instr::PHA);
        i = i + 1;
        proof {
            assert forall|e: ErrsV| #![trigger gen_state(out@, a1, e)]
                e1_times(gen_state(o1, a1, e), Instr::PHA, i as nat) == gen_state(out@, a1, e) by {
                assert(e1_times(gen_state(o1, a1, e), Instr::PHA, (i - 1) as nat) == gen_state(prev, a1, e));
            }
        }
    }
    Some(())
}

/// Pushes `Y:A`, high byte first.
pub fn push16(out: &mut Vec<u8>, assembler: &mut Assembler) -> (r: Option<()>)
    requires
        old(assembler).frame_sz + 2 <= u8::MAX,
    ensures
        grows(old(out)@, final(out)@),
        r is Some,
        forall|e: ErrsV| #![trigger gen_state(final(out)@, final(assembler)@, e)]
            st_push16(gen_state(old(out)@, old(assembler)@, e)) == gen_state(final(out)@, final(assembler)@, e),
        final(assembler).frame_sz == old(assembler).frame_sz + 2,
        final(assembler).code_start == old(assembler).code_start,
        final(assembler).addresses@ == old(assembler).addresses@,
{
    assembler.frame_sz = assembler.frame_sz + 2;
    op1(out, Instr::TAX);
    op1(out, Instr::TYA);
    op1(out, Instr::PHA);
    op1(out, Instr::TXA);
    op1(out, Instr::PHA);
    Some(())
}

/// Drops a word from the stack.
pub fn pop16_discard(out: &mut Vec<u8>, assembler: &mut Assembler) -> (r: Option<()>)
    requires
        old(assembler).frame_sz >= 2,
    ensures
        grows(old(out)@, final(out)@),
        r is Some,
        forall|e: ErrsV| #![trigger gen_state(final(out)@, final(assembler)@, e)]
            st_pop16_discard(gen_state(old(out)@, old(assembler)@, e)) == gen_state(final(out)@, final(assembler)@, e),
        final(assembler).frame_sz == old(assembler).frame_sz - 2,
        final(assembler).code_start == old(assembler).code_start,
        final(assembler).addresses@ == old(assembler).addresses@,
{
    assembler.frame_sz = assembler.frame_sz - 2;
    op1(out, Instr::PLA);
    op1(out, Instr::PLA);
    Some(())
}

/// What `load_arg` needs of an operand: it is no `Bogus`, its auto variable lies in
/// the frame, its digits are digits, its data offset fits 16 bits.
pub open spec fn arg_ok(arg: Arg, frame: u8) -> bool {
    match arg {
        Arg::Bogus => false,
        Arg::AutoVar(i) => auto_var_ok(i, frame),
        Arg::Deref(i) => auto_var_ok(i, frame),
        Arg::RefAutoVar(i) => auto_ref_ok(i, frame),
        Arg::IntLiteral(lit, radix) => forall|k: int| 0 <= k < lit@.len() ==> digit_ok(#[trigger] lit@[k], radix),
        Arg::DataOffset(off) => off < 65536,
        _ => true,
    }
}

/// `Y:A` = `v`.
pub open spec fn lda_ldy(s: GenState, v: u16) -> GenState {
    e2(e2(s, Instr::LDA, AddrMode::IMM, lo(v)), Instr::LDY, AddrMode::IMM, hi(v))
}

/// `load_arg`: `Y:A` = the value of `arg`. A literal that does not fit 16 bits is an
/// error, and then 0 is loaded; the flag is false once there are too many errors.
pub open spec fn st_load_arg(s: GenState, arg: Arg, loc: Loc) -> (GenState, bool) {
    match arg {
        Arg::Deref(index) => {
            let s1 = st_load_auto_var(s, index);
            let s2 = e2(e2(s1, Instr::STA, AddrMode::ZP, ZP_DEREF_0), Instr::STY, AddrMode::ZP, ZP_DEREF_1);
            let s3 = e1(e2(e2(s2, Instr::LDY, AddrMode::IMM, 1), Instr::LDA, AddrMode::IND_Y, ZP_DEREF_0), Instr::TAY);
            (e2(e2(s3, Instr::LDX, AddrMode::IMM, 0), Instr::LDA, AddrMode::IND_X, ZP_DEREF_0), true)
        },
        Arg::RefExternal(name) => {
            let s1 = st_reloc(e0(s, Instr::LDA, AddrMode::IMM), RelocKindV::External { name: name@, offset: 0, byte: Byte::Low, relative: false });
            (st_reloc(e0(s1, Instr::LDY, AddrMode::IMM), RelocKindV::External { name: name@, offset: 0, byte: Byte::High, relative: false }), true)
        },
        Arg::External(name) => {
            let s1 = st_reloc(e0(s, Instr::LDA, AddrMode::ABS), RelocKindV::External { name: name@, offset: 0, byte: Byte::Both, relative: false });
            (st_reloc(e0(s1, Instr::LDY, AddrMode::ABS), RelocKindV::External { name: name@, offset: 1, byte: Byte::Both, relative: false }), true)
        },
        Arg::AutoVar(index) => (st_load_auto_var(s, index), true),
        Arg::RefAutoVar(index) => (st_load_auto_var_ref(s, index), true),
        Arg::IntLiteral(lit, radix) => {
            if int_value(lit@, radix) <= u16::MAX {
                (lda_ldy(s, int_value(lit@, radix) as u16), true)
            } else {
                let (s1, ok) = st_bump(s, Diag::ConstantOutOfRange { loc, literal: lit@ });
                if !ok {
                    (s1, false)
                } else {
                    (lda_ldy(s1, 0), true)
                }
            }
        },
        Arg::CharLiteral(lit) => {
            if lit@.len() <= 2 {
                (lda_ldy(s, le_value(lit@) as u16), true)
            } else {
                let (s1, ok) = st_bump(s, Diag::CharOutOfRange { loc, literal: lit@ });
                if !ok {
                    (s1, false)
                } else {
                    (lda_ldy(s1, 0), true)
                }
            }
        },
        Arg::DataOffset(offset) => {
            let s1 = st_reloc(e0(s, Instr::LDA, AddrMode::IMM), RelocKindV::DataOffset { off: offset as u16, byte: Byte::Low });
            (st_reloc(e0(s1, Instr::LDY, AddrMode::IMM), RelocKindV::DataOffset { off: offset as u16, byte: Byte::High }), true)
        },
        Arg::Bogus => (s, true),
    }
}

/// Reports an error; `None` once there are too many errors.
pub fn report(errs: &mut Errors, d: Diag<Vec<u8>>) -> (r: Option<()>)
    requires
        old(errs).error_count < usize::MAX,
    ensures
        forall|o: Seq<u8>, a: AsmV| #![trigger gen_state(o, a, final(errs)@)]
            st_bump(gen_state(o, a, old(errs)@), diag_view(d)) == (gen_state(o, a, final(errs)@), r is Some),
        final(errs).error_count == old(errs).error_count + 1,
        err_bump(old(errs)@, diag_view(d)) == (final(errs)@, r is Some),
{
    let ghost hd = errs.diags@;
    errs.diags.push(d);
    proof {
        lemma_map_push(hd, d, |d: Diag<Vec<u8>>| diag_view(d));
    }
    bump_error_count(&mut errs.error_count)
}

fn lda_ldy_exec(out: &mut Vec<u8>, value: u16)
    ensures
        grows(old(out)@, final(out)@),
        forall|a: AsmV, e: ErrsV| #![trigger gen_state(final(out)@, a, e)]
            lda_ldy(gen_state(old(out)@, a, e), value) == gen_state(final(out)@, a, e),
{
    assert(value as u8 == (value % 256) as u8 && (value >> 8) as u8 == (value / 256) as u8) by (bit_vector);
    op2(out, Instr::LDA, AddrMode::IMM, value as u8);
    op2(out, Instr::LDY, AddrMode::IMM, (value >> 8) as u8);
}

/// Loads an operand into `Y:A`.
pub fn load_arg(arg: &Arg, loc: Loc, out: &mut Vec<u8>, assembler: &mut Assembler, errs: &mut Errors) -> (r: Option<()>)
    requires
        arg_ok(*arg, old(assembler).frame_sz),
        old(errs).error_count < usize::MAX,
    ensures
        grows(old(out)@, final(out)@),
        st_load_arg(gen_state(old(out)@, old(assembler)@, old(errs)@), *arg, loc)
            == (gen_state(final(out)@, final(assembler)@, final(errs)@), r is Some),
        count_ok(old(errs).error_count, final(errs).error_count, r is Some),
{
    let ghost s0 = gen_state(out@, assembler@, errs@);
    match arg {
        Arg::Deref(index) => {
            load_auto_var(out, *index, assembler);
            assert(gen_state(out@, assembler@, errs@) == st_load_auto_var(s0, *index));
            op2(out, Instr::STA, AddrMode::ZP, ZP_DEREF_0);
            op2(out, Instr::STY, AddrMode::ZP, ZP_DEREF_1);
            op2(out, Instr::LDY, AddrMode::IMM, 1);
            op2(out, Instr::LDA, AddrMode::IND_Y, ZP_DEREF_0);
            op1(out, Instr::TAY);
            op2(out, Instr::LDX, AddrMode::IMM, 0);
            op2(out, Instr::LDA, AddrMode::IND_X, ZP_DEREF_0);
        },
        Arg::RefExternal(name) => {
            op0(out, Instr::LDA, AddrMode::IMM);
            let k1 = RelocationKind::External { name: copy_bytes(name), offset: 0, byte: Byte::Low, relative: false };
            let ghost s1 = gen_state(out@, assembler@, errs@);
            add_reloc(out, k1, assembler);
            assert(gen_state(out@, assembler@, errs@) == st_reloc(s1, k1@));
            op0(out, Instr::LDY, AddrMode::IMM);
            let k2 = RelocationKind::External { name: copy_bytes(name), offset: 0, byte: Byte::High, relative: false };
            let ghost s2 = gen_state(out@, assembler@, errs@);
            add_reloc(out, k2, assembler);
            assert(gen_state(out@, assembler@, errs@) == st_reloc(s2, k2@));
        },
        Arg::External(name) => {
            op0(out, Instr::LDA, AddrMode::ABS);
            let k1 = RelocationKind::External { name: copy_bytes(name), offset: 0, byte: Byte::Both, relative: false };
            let ghost s1 = gen_state(out@, assembler@, errs@);
            add_reloc(out, k1, assembler);
            assert(gen_state(out@, assembler@, errs@) == st_reloc(s1, k1@));
            op0(out, Instr::LDY, AddrMode::ABS);
            let k2 = RelocationKind::External { name: copy_bytes(name), offset: 1, byte: Byte::Both, relative: false };
            let ghost s2 = gen_state(out@, assembler@, errs@);
            add_reloc(out, k2, assembler);
            assert(gen_state(out@, assembler@, errs@) == st_reloc(s2, k2@));
        },
        Arg::AutoVar(index) => {
            load_auto_var(out, *index, assembler);
            assert(gen_state(out@, assembler@, errs@) == st_load_auto_var(s0, *index));
        },
        Arg::RefAutoVar(index) => {
            load_auto_var_ref(out, *index, assembler);
            assert(gen_state(out@, assembler@, errs@) == st_load_auto_var_ref(s0, *index));
        },
        Arg::IntLiteral(int_literal, radix) => {
            let value: u16;
            match parse_int_literal_to_u16(int_literal.as_slice(), *radix) {
                Ok(v) => {
                    value = v;
                },
                Err(()) => {
                    let ok = report(errs, Diag::ConstantOutOfRange { loc, literal: copy_bytes(int_literal) });
                    if ok.is_none() {
                        return None;
                    }
                    value = 0;
                },
            }
            lda_ldy_exec(out, value);
        },
        Arg::CharLiteral(char_literal) => {
            let value: u16;
            match parse_char_literal_to_u16_le(char_literal.as_slice()) {
                Ok(v) => {
                    value = v;
                },
                Err(()) => {
                    let ok = report(errs, Diag::CharOutOfRange { loc, literal: copy_bytes(char_literal) });
                    if ok.is_none() {
                        return None;
                    }
                    value = 0;
                },
            }
            lda_ldy_exec(out, value);
        },
        Arg::DataOffset(offset) => {
            op0(out, Instr::LDA, AddrMode::IMM);
            let k1 = RelocationKind::DataOffset { off: *offset as u16, byte: Byte::Low };
            let ghost s1 = gen_state(out@, assembler@, errs@);
            add_reloc(out, k1, assembler);
            assert(gen_state(out@, assembler@, errs@) == st_reloc(s1, k1@));
            op0(out, Instr::LDY, AddrMode::IMM);
            let k2 = RelocationKind::DataOffset { off: *offset as u16, byte: Byte::High };
            let ghost s2 = gen_state(out@, assembler@, errs@);
            add_reloc(out, k2, assembler);
            assert(gen_state(out@, assembler@, errs@) == st_reloc(s2, k2@));
        },
        Arg::Bogus => {},
    }
    Some(())
}

} // verus!
