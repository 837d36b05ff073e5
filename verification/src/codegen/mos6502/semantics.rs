//! What the generator's arithmetic code computes, run on the model of the 6502.
use vstd::prelude::*;
use crate::ir::Binop;
use super::opcodes::{Instr, AddrMode, opcode_of};
use super::assembler::{GenState, RelocationV, RelocKindV, lo, hi};
use super::link::{st_apply_one, wrap16};
use vstd::arithmetic::power2::pow2;
use super::emit::{ZP_RHS_L, ZP_RHS_H, ZP_TMP_0, ZP_TMP_1, auto_var_ok, auto_lo, auto_hi, st_store_auto, st_load_auto_var};
use super::ops::{st_binop_tail, st_load_two};
use crate::ir::{Arg, Radix};
use crate::lexer::Loc;
use crate::codegen_common::int_value;
use super::function::{st_negate_ya, st_not_ya};
use super::cpu::{Cpu, ya, exec_code, run, step, step_abs, read_mem, write_mem, nz, compare, sub_with_borrow, add_with_carry};

verus! {

/// The bytes that the step from `s0` to `s1` appended to the output.
pub open spec fn emitted(s0: GenState, s1: GenState) -> Seq<u8> {
    s1.out.subrange(s0.out.len() as int, s1.out.len() as int)
}

/// The right operand of a binary operation, where the generator leaves it: the
/// word in `ZP_RHS_L:ZP_RHS_H` (the left one is in `Y:A`).
pub open spec fn rhs_word(c: Cpu) -> int {
    c.zp[ZP_RHS_L as int] as int + 256 * c.zp[ZP_RHS_H as int] as int
}

proof fn lemma_run_step(code: Seq<u8>, pc: int, c: Cpu, fuel: nat)
    requires
        0 <= pc < code.len(),
        fuel > 0,
    ensures
        run(code, pc, c, fuel) == match step(code, pc, c) {
            Some((p, c2)) => run(code, p, c2, (fuel - 1) as nat),
            None => None,
        },
{
}

/// The code of an equality test: `X = x0`, `X` stepped when both bytes match.
spec fn eq_code(x0: u8, stp: u8) -> Seq<u8> {
    seq![0xA2u8, x0, 0xC5, ZP_RHS_L, 0xD0, 5, 0xC4, ZP_RHS_H, 0xD0, 1, stp, 0x8A, 0xA0, 0]
}

#[verifier::rlimit(40)]
proof fn lemma_eq_code_runs(c: Cpu, x0: u8, stp: u8)
    requires
        c.zp.len() == 256,
        stp == 0xE8 || stp == 0xCA,
    ensures
        exec_code(eq_code(x0, stp), c) matches Some(c2)
            && c2.y == 0
            && c2.a == (if c.a == c.zp[ZP_RHS_L as int] && c.y == c.zp[ZP_RHS_H as int] {
                (if stp == 0xE8 { ((x0 as int + 1) % 256) as u8 } else { ((x0 as int + 255) % 256) as u8 })
            } else {
                x0
            }),
{
    let code = eq_code(x0, stp);
    let c1 = nz(Cpu { x: x0, ..c }, x0);
    assert(code.len() == 14);
    assert(exec_code(code, c) == run(code, 0, c, 14));
    lemma_run_step(code, 0, c, 14);
    assert(step(code, 0, c) == Some((2int, c1))) by { reveal(step); }
    let c2 = compare(c1, c1.a, c1.zp[4]);
    lemma_run_step(code, 2, c1, 13);
    assert(step(code, 2, c1) == Some((4int, c2))) by { reveal(step); }
    lemma_run_step(code, 4, c2, 12);
    if c.a != c.zp[4] {
        assert(step(code, 4, c2) == Some((11int, c2))) by { reveal(step); }
        lemma_run_step(code, 11, c2, 11);
        let c3 = nz(Cpu { a: c2.x, ..c2 }, c2.x);
        assert(step(code, 11, c2) == Some((12int, c3))) by { reveal(step); }
        lemma_run_step(code, 12, c3, 10);
        assert(step(code, 12, c3) == Some((14int, nz(Cpu { y: 0, ..c3 }, 0)))) by { reveal(step); }
        assert(run(code, 14, nz(Cpu { y: 0, ..c3 }, 0), 9) == Some(nz(Cpu { y: 0, ..c3 }, 0)));
        assert(exec_code(code, c) == Some(nz(Cpu { y: 0, ..c3 }, 0)));
        assert(c3.a == x0);
    } else {
        assert(step(code, 4, c2) == Some((6int, c2))) by { reveal(step); }
        lemma_run_step(code, 6, c2, 11);
        let c3 = compare(c2, c2.y, c2.zp[5]);
        assert(step(code, 6, c2) == Some((8int, c3))) by { reveal(step); }
        lemma_run_step(code, 8, c3, 10);
        if c.y != c.zp[5] {
            assert(step(code, 8, c3) == Some((11int, c3))) by { reveal(step); }
            lemma_run_step(code, 11, c3, 9);
            let c5 = nz(Cpu { a: c3.x, ..c3 }, c3.x);
            assert(step(code, 11, c3) == Some((12int, c5))) by { reveal(step); }
            lemma_run_step(code, 12, c5, 8);
            assert(step(code, 12, c5) == Some((14int, nz(Cpu { y: 0, ..c5 }, 0)))) by { reveal(step); }
            assert(run(code, 14, nz(Cpu { y: 0, ..c5 }, 0), 7) == Some(nz(Cpu { y: 0, ..c5 }, 0)));
        } else {
            assert(step(code, 8, c3) == Some((10int, c3))) by { reveal(step); }
            lemma_run_step(code, 10, c3, 9);
            let v = if stp == 0xE8 { ((c3.x as int + 1) % 256) as u8 } else { ((c3.x as int + 255) % 256) as u8 };
            let c4 = nz(Cpu { x: v, ..c3 }, v);
            assert(step(code, 10, c3) == Some((11int, c4))) by { reveal(step); }
            lemma_run_step(code, 11, c4, 8);
            let c5 = nz(Cpu { a: c4.x, ..c4 }, c4.x);
            assert(step(code, 11, c4) == Some((12int, c5))) by { reveal(step); }
            lemma_run_step(code, 12, c5, 7);
            assert(step(code, 12, c5) == Some((14int, nz(Cpu { y: 0, ..c5 }, 0)))) by { reveal(step); }
            assert(run(code, 14, nz(Cpu { y: 0, ..c5 }, 0), 6) == Some(nz(Cpu { y: 0, ..c5 }, 0)));
        }
    }
}

/// `==` leaves 1 in `Y:A` when the two words are equal and 0 otherwise.
pub proof fn law_equal_tests_equality(s: GenState, c: Cpu)
    requires
        c.zp.len() == 256,
    ensures
        exec_code(emitted(s, st_binop_tail(s, Binop::Equal)), c) matches Some(c2)
            && ya(c2) == (if ya(c) == rhs_word(c) { 1int } else { 0int }),
{
    let code = emitted(s, st_binop_tail(s, Binop::Equal));
    assert(opcode_of(Instr::LDX, AddrMode::IMM) == 0xA2);
    assert(opcode_of(Instr::CMP, AddrMode::ZP) == 0xC5);
    assert(opcode_of(Instr::BNE, AddrMode::REL) == 0xD0);
    assert(opcode_of(Instr::CPY, AddrMode::ZP) == 0xC4);
    assert(opcode_of(Instr::INX, AddrMode::IMPL) == 0xE8);
    assert(opcode_of(Instr::TXA, AddrMode::IMPL) == 0x8A);
    assert(opcode_of(Instr::LDY, AddrMode::IMM) == 0xA0);
    assert(code =~= eq_code(0, 0xE8));
    lemma_eq_code_runs(c, 0, 0xE8);
}

/// `!=` leaves 0 in `Y:A` when the two words are equal and 1 otherwise.
pub proof fn law_not_equal_tests_difference(s: GenState, c: Cpu)
    requires
        c.zp.len() == 256,
    ensures
        exec_code(emitted(s, st_binop_tail(s, Binop::NotEqual)), c) matches Some(c2)
            && ya(c2) == (if ya(c) == rhs_word(c) { 0int } else { 1int }),
{
    let code = emitted(s, st_binop_tail(s, Binop::NotEqual));
    assert(opcode_of(Instr::LDX, AddrMode::IMM) == 0xA2);
    assert(opcode_of(Instr::CMP, AddrMode::ZP) == 0xC5);
    assert(opcode_of(Instr::BNE, AddrMode::REL) == 0xD0);
    assert(opcode_of(Instr::CPY, AddrMode::ZP) == 0xC4);
    assert(opcode_of(Instr::DEX, AddrMode::IMPL) == 0xCA);
    assert(opcode_of(Instr::TXA, AddrMode::IMPL) == 0x8A);
    assert(opcode_of(Instr::LDY, AddrMode::IMM) == 0xA0);
    assert(code =~= eq_code(1, 0xCA));
    lemma_eq_code_runs(c, 1, 0xCA);
}

/// The code of `Y:A = 0 - Y:A`.
spec fn negate_code() -> Seq<u8> {
    seq![0x85u8, ZP_TMP_0, 0x84, ZP_TMP_1, 0xA9, 0, 0xA8, 0x38, 0xE5, ZP_TMP_0, 0xAA, 0x98, 0xE5, ZP_TMP_1, 0xA8, 0x8A]
}

proof fn lemma_negate_arith(a0: u8, y0: u8)
    ensures
        ({
            let (v1, c1) = sub_with_borrow(0, a0, true);
            let (v2, c2) = sub_with_borrow(0, y0, c1);
            v1 as int + 256 * v2 as int == (65536 - (a0 as int + 256 * y0 as int)) % 65536
        }),
{
    if a0 == 0 {
        assert(sub_with_borrow(0, a0, true).0 == 0);
        assert(sub_with_borrow(0, a0, true).1);
    } else {
        assert(sub_with_borrow(0, a0, true).0 == 256 - a0);
        assert(!sub_with_borrow(0, a0, true).1);
        assert(sub_with_borrow(0, y0, false).0 == 255 - y0);
    }
}

/// Negation leaves `(0 - v) mod 2^16` in `Y:A` for the word `v` it finds there.
pub proof fn law_negate_negates(s: GenState, c: Cpu)
    requires
        c.zp.len() == 256,
    ensures
        exec_code(emitted(s, st_negate_ya(s)), c) matches Some(c2)
            && ya(c2) == (65536 - ya(c)) % 65536,
{
    let code = emitted(s, st_negate_ya(s));
    assert(opcode_of(Instr::STA, AddrMode::ZP) == 0x85);
    assert(opcode_of(Instr::STY, AddrMode::ZP) == 0x84);
    assert(opcode_of(Instr::LDA, AddrMode::IMM) == 0xA9);
    assert(opcode_of(Instr::TAY, AddrMode::IMPL) == 0xA8);
    assert(opcode_of(Instr::SEC, AddrMode::IMPL) == 0x38);
    assert(opcode_of(Instr::SBC, AddrMode::ZP) == 0xE5);
    assert(opcode_of(Instr::TAX, AddrMode::IMPL) == 0xAA);
    assert(opcode_of(Instr::TYA, AddrMode::IMPL) == 0x98);
    assert(opcode_of(Instr::TXA, AddrMode::IMPL) == 0x8A);
    assert(code =~= negate_code());
    let a0 = c.a;
    let y0 = c.y;
    let c1 = Cpu { zp: c.zp.update(6, c.a), ..c };
    lemma_run_step(code, 0, c, 16);
    assert(step(code, 0, c) == Some((2int, c1))) by { reveal(step); }
    let c2 = Cpu { zp: c1.zp.update(7, c1.y), ..c1 };
    lemma_run_step(code, 2, c1, 15);
    assert(step(code, 2, c1) == Some((4int, c2))) by { reveal(step); }
    let c3 = nz(Cpu { a: 0, ..c2 }, 0);
    lemma_run_step(code, 4, c2, 14);
    assert(step(code, 4, c2) == Some((6int, c3))) by { reveal(step); }
    let c4 = nz(Cpu { y: 0, ..c3 }, 0);
    lemma_run_step(code, 6, c3, 13);
    assert(step(code, 6, c3) == Some((7int, c4))) by { reveal(step); }
    let c5 = Cpu { c: true, ..c4 };
    lemma_run_step(code, 7, c4, 12);
    assert(step(code, 7, c4) == Some((8int, c5))) by { reveal(step); }
    let (v1, k1) = sub_with_borrow(0, a0, true);
    assert(c5.zp[6] == a0);
    let c6 = nz(Cpu { a: v1, c: k1, ..c5 }, v1);
    lemma_run_step(code, 8, c5, 11);
    assert(step(code, 8, c5) == Some((10int, c6))) by { reveal(step); }
    let c7 = nz(Cpu { x: v1, ..c6 }, v1);
    lemma_run_step(code, 10, c6, 10);
    assert(step(code, 10, c6) == Some((11int, c7))) by { reveal(step); }
    let c8 = nz(Cpu { a: 0, ..c7 }, 0);
    lemma_run_step(code, 11, c7, 9);
    assert(step(code, 11, c7) == Some((12int, c8))) by { reveal(step); }
    let (v2, k2) = sub_with_borrow(0, y0, k1);
    assert(c8.zp[7] == y0);
    let c9 = nz(Cpu { a: v2, c: k2, ..c8 }, v2);
    lemma_run_step(code, 12, c8, 8);
    assert(step(code, 12, c8) == Some((14int, c9))) by { reveal(step); }
    let c10 = nz(Cpu { y: v2, ..c9 }, v2);
    lemma_run_step(code, 14, c9, 7);
    assert(step(code, 14, c9) == Some((15int, c10))) by { reveal(step); }
    let c11 = nz(Cpu { a: v1, ..c10 }, v1);
    lemma_run_step(code, 15, c10, 6);
    assert(step(code, 15, c10) == Some((16int, c11))) by { reveal(step); }
    assert(run(code, 16, c11, 5) == Some(c11));
    lemma_negate_arith(a0, y0);
}

/// What a zero-page arithmetic or logic instruction computes from `A`, the operand
/// and the carry: the result and the new carry.
spec fn alu(op: u8, a: u8, m: u8, carry: bool) -> (u8, bool) {
    if op == 0x65 {
        add_with_carry(a, m, carry)
    } else if op == 0xE5 {
        sub_with_borrow(a, m, carry)
    } else if op == 0x05 {
        (a | m, carry)
    } else {
        (a & m, carry)
    }
}

/// The code of a word operation: the instruction on the low bytes, then on the
/// high bytes, the result in `Y:A`.
spec fn word_code(op: u8) -> Seq<u8> {
    seq![op, ZP_RHS_L, 0xAA, 0x98, op, ZP_RHS_H, 0xA8, 0x8A]
}

proof fn lemma_word_code_runs(code: Seq<u8>, p: int, c: Cpu, fuel: nat, op: u8)
    requires
        c.zp.len() == 256,
        0 <= p,
        code.len() == p + 8,
        code.subrange(p, p + 8) == word_code(op),
        fuel >= 8,
        op == 0x65 || op == 0xE5 || op == 0x05 || op == 0x25,
    ensures
        run(code, p, c, fuel) matches Some(c2)
            && c2.a == alu(op, c.a, c.zp[ZP_RHS_L as int], c.c).0
            && c2.y == alu(op, c.y, c.zp[ZP_RHS_H as int], alu(op, c.a, c.zp[ZP_RHS_L as int], c.c).1).0,
{
    assert(code[p] == op && code[p + 1] == 4 && code[p + 2] == 0xAA && code[p + 3] == 0x98);
    assert(code[p + 4] == op && code[p + 5] == 5 && code[p + 6] == 0xA8 && code[p + 7] == 0x8A) by {
        assert(code.subrange(p, p + 8)[4] == code[p + 4]);
        assert(code.subrange(p, p + 8)[5] == code[p + 5]);
        assert(code.subrange(p, p + 8)[6] == code[p + 6]);
        assert(code.subrange(p, p + 8)[7] == code[p + 7]);
    }
    let (v1, k1) = alu(op, c.a, c.zp[4], c.c);
    let c1 = nz(Cpu { a: v1, c: k1, ..c }, v1);
    lemma_run_step(code, p, c, fuel);
    assert(step(code, p, c) == Some((p + 2, c1))) by { reveal(step); }
    let c2 = nz(Cpu { x: v1, ..c1 }, v1);
    lemma_run_step(code, p + 2, c1, (fuel - 1) as nat);
    assert(step(code, p + 2, c1) == Some((p + 3, c2))) by { reveal(step); }
    let c3 = nz(Cpu { a: c.y, ..c2 }, c.y);
    lemma_run_step(code, p + 3, c2, (fuel - 2) as nat);
    assert(step(code, p + 3, c2) == Some((p + 4, c3))) by { reveal(step); }
    let (v2, k2) = alu(op, c.y, c.zp[5], k1);
    let c4 = nz(Cpu { a: v2, c: k2, ..c3 }, v2);
    lemma_run_step(code, p + 4, c3, (fuel - 3) as nat);
    assert(step(code, p + 4, c3) == Some((p + 6, c4))) by { reveal(step); }
    let c5 = nz(Cpu { y: v2, ..c4 }, v2);
    lemma_run_step(code, p + 6, c4, (fuel - 4) as nat);
    assert(step(code, p + 6, c4) == Some((p + 7, c5))) by { reveal(step); }
    let c6 = nz(Cpu { a: v1, ..c5 }, v1);
    lemma_run_step(code, p + 7, c5, (fuel - 5) as nat);
    assert(step(code, p + 7, c5) == Some((p + 8, c6))) by { reveal(step); }
    assert(run(code, p + 8, c6, (fuel - 6) as nat) == Some(c6));
}

proof fn lemma_add_words(a0: u8, y0: u8, b0: u8, b1: u8)
    ensures
        ({
            let (v1, k1) = add_with_carry(a0, b0, false);
            let (v2, k2) = add_with_carry(y0, b1, k1);
            v1 as int + 256 * v2 as int == (a0 as int + 256 * y0 as int + b0 as int + 256 * b1 as int) % 65536
        }),
{
    let t = a0 as int + b0 as int;
    if t >= 256 {
        assert(add_with_carry(a0, b0, false).0 == t - 256);
        let u = y0 as int + b1 as int + 1;
        if u >= 256 {
            assert(add_with_carry(y0, b1, true).0 == u - 256);
        } else {
            assert(add_with_carry(y0, b1, true).0 == u);
        }
    } else {
        assert(add_with_carry(a0, b0, false).0 == t);
        let u = y0 as int + b1 as int;
        if u >= 256 {
            assert(add_with_carry(y0, b1, false).0 == u - 256);
        } else {
            assert(add_with_carry(y0, b1, false).0 == u);
        }
    }
}

proof fn lemma_sub_words(a0: u8, y0: u8, b0: u8, b1: u8)
    ensures
        ({
            let (v1, k1) = sub_with_borrow(a0, b0, true);
            let (v2, k2) = sub_with_borrow(y0, b1, k1);
            v1 as int + 256 * v2 as int == (a0 as int + 256 * y0 as int - b0 as int - 256 * b1 as int + 65536) % 65536
        }),
{
    let t = a0 as int - b0 as int;
    if t >= 0 {
        assert(sub_with_borrow(a0, b0, true).0 == t);
        let u = y0 as int - b1 as int;
        if u >= 0 {
            assert(sub_with_borrow(y0, b1, true).0 == u);
        } else {
            assert(sub_with_borrow(y0, b1, true).0 == u + 256);
        }
    } else {
        assert(sub_with_borrow(a0, b0, true).0 == t + 256);
        let u = y0 as int - b1 as int - 1;
        if u >= 0 {
            assert(sub_with_borrow(y0, b1, false).0 == u);
        } else {
            assert(sub_with_borrow(y0, b1, false).0 == u + 256);
        }
    }
}

/// `+` leaves the sum of the two words, modulo 2^16, in `Y:A`.
pub proof fn law_plus_adds(s: GenState, c: Cpu)
    requires
        c.zp.len() == 256,
    ensures
        exec_code(emitted(s, st_binop_tail(s, Binop::Plus)), c) matches Some(c2)
            && ya(c2) == (ya(c) + rhs_word(c)) % 65536,
{
    let code = emitted(s, st_binop_tail(s, Binop::Plus));
    assert(opcode_of(Instr::CLC, AddrMode::IMPL) == 0x18);
    assert(opcode_of(Instr::ADC, AddrMode::ZP) == 0x65);
    assert(opcode_of(Instr::TAX, AddrMode::IMPL) == 0xAA);
    assert(opcode_of(Instr::TYA, AddrMode::IMPL) == 0x98);
    assert(opcode_of(Instr::TAY, AddrMode::IMPL) == 0xA8);
    assert(opcode_of(Instr::TXA, AddrMode::IMPL) == 0x8A);
    assert(code =~= seq![0x18u8] + word_code(0x65));
    assert(code.subrange(1, 9) =~= word_code(0x65));
    let c1 = Cpu { c: false, ..c };
    lemma_run_step(code, 0, c, 9);
    assert(step(code, 0, c) == Some((1int, c1))) by { reveal(step); }
    lemma_word_code_runs(code, 1, c1, 8, 0x65);
    lemma_add_words(c.a, c.y, c.zp[4], c.zp[5]);
}

/// `-` leaves the difference of the two words, modulo 2^16, in `Y:A`.
pub proof fn law_minus_subtracts(s: GenState, c: Cpu)
    requires
        c.zp.len() == 256,
    ensures
        exec_code(emitted(s, st_binop_tail(s, Binop::Minus)), c) matches Some(c2)
            && ya(c2) == (ya(c) - rhs_word(c) + 65536) % 65536,
{
    let code = emitted(s, st_binop_tail(s, Binop::Minus));
    assert(opcode_of(Instr::SEC, AddrMode::IMPL) == 0x38);
    assert(opcode_of(Instr::SBC, AddrMode::ZP) == 0xE5);
    assert(opcode_of(Instr::TAX, AddrMode::IMPL) == 0xAA);
    assert(opcode_of(Instr::TYA, AddrMode::IMPL) == 0x98);
    assert(opcode_of(Instr::TAY, AddrMode::IMPL) == 0xA8);
    assert(opcode_of(Instr::TXA, AddrMode::IMPL) == 0x8A);
    assert(code =~= seq![0x38u8] + word_code(0xE5));
    assert(code.subrange(1, 9) =~= word_code(0xE5));
    let c1 = Cpu { c: true, ..c };
    lemma_run_step(code, 0, c, 9);
    assert(step(code, 0, c) == Some((1int, c1))) by { reveal(step); }
    lemma_word_code_runs(code, 1, c1, 8, 0xE5);
    lemma_sub_words(c.a, c.y, c.zp[4], c.zp[5]);
}

/// `|` leaves in `Y:A` the bitwise or of the two words, byte by byte.
pub proof fn law_bit_or_ors(s: GenState, c: Cpu)
    requires
        c.zp.len() == 256,
    ensures
        exec_code(emitted(s, st_binop_tail(s, Binop::BitOr)), c) matches Some(c2)
            && c2.a == c.a | c.zp[ZP_RHS_L as int]
            && c2.y == c.y | c.zp[ZP_RHS_H as int],
{
    let code = emitted(s, st_binop_tail(s, Binop::BitOr));
    assert(opcode_of(Instr::ORA, AddrMode::ZP) == 0x05);
    assert(opcode_of(Instr::TAX, AddrMode::IMPL) == 0xAA);
    assert(opcode_of(Instr::TYA, AddrMode::IMPL) == 0x98);
    assert(opcode_of(Instr::TAY, AddrMode::IMPL) == 0xA8);
    assert(opcode_of(Instr::TXA, AddrMode::IMPL) == 0x8A);
    assert(code =~= word_code(0x05));
    assert(code.subrange(0, 8) =~= word_code(0x05));
    lemma_word_code_runs(code, 0, c, 8, 0x05);
}

/// `&` leaves in `Y:A` the bitwise and of the two words, byte by byte.
pub proof fn law_bit_and_ands(s: GenState, c: Cpu)
    requires
        c.zp.len() == 256,
    ensures
        exec_code(emitted(s, st_binop_tail(s, Binop::BitAnd)), c) matches Some(c2)
            && c2.a == c.a & c.zp[ZP_RHS_L as int]
            && c2.y == c.y & c.zp[ZP_RHS_H as int],
{
    let code = emitted(s, st_binop_tail(s, Binop::BitAnd));
    assert(opcode_of(Instr::AND, AddrMode::ZP) == 0x25);
    assert(opcode_of(Instr::TAX, AddrMode::IMPL) == 0xAA);
    assert(opcode_of(Instr::TYA, AddrMode::IMPL) == 0x98);
    assert(opcode_of(Instr::TAY, AddrMode::IMPL) == 0xA8);
    assert(opcode_of(Instr::TXA, AddrMode::IMPL) == 0x8A);
    assert(code =~= word_code(0x25));
    assert(code.subrange(0, 8) =~= word_code(0x25));
    lemma_word_code_runs(code, 0, c, 8, 0x25);
}

/// The code of a comparison by subtraction: `X = x0`, stepped unless the high byte
/// of the difference has its top bit set.
spec fn sub_compare_code(x0: u8, stp: u8) -> Seq<u8> {
    seq![0xA2u8, x0, 0x38, 0xE5, ZP_RHS_L, 0x98, 0xE5, ZP_RHS_H, 0x30, 1, stp, 0x8A, 0xA0, 0]
}

proof fn lemma_sub_compare_runs(c: Cpu, x0: u8, stp: u8)
    requires
        c.zp.len() == 256,
        stp == 0xE8 || stp == 0xCA,
    ensures
        exec_code(sub_compare_code(x0, stp), c) matches Some(c2)
            && c2.y == 0
            && c2.a == (if (ya(c) - rhs_word(c) + 65536) % 65536 >= 32768 {
                x0
            } else if stp == 0xE8 {
                ((x0 as int + 1) % 256) as u8
            } else {
                ((x0 as int + 255) % 256) as u8
            }),
{
    let code = sub_compare_code(x0, stp);
    assert(code.len() == 14);
    let c1 = nz(Cpu { x: x0, ..c }, x0);
    lemma_run_step(code, 0, c, 14);
    assert(step(code, 0, c) == Some((2int, c1))) by { reveal(step); }
    let c2 = Cpu { c: true, ..c1 };
    lemma_run_step(code, 2, c1, 13);
    assert(step(code, 2, c1) == Some((3int, c2))) by { reveal(step); }
    let (v1, k1) = sub_with_borrow(c.a, c.zp[4], true);
    let c3 = nz(Cpu { a: v1, c: k1, ..c2 }, v1);
    lemma_run_step(code, 3, c2, 12);
    assert(step(code, 3, c2) == Some((5int, c3))) by { reveal(step); }
    let c4 = nz(Cpu { a: c.y, ..c3 }, c.y);
    lemma_run_step(code, 5, c3, 11);
    assert(step(code, 5, c3) == Some((6int, c4))) by { reveal(step); }
    let (v2, k2) = sub_with_borrow(c.y, c.zp[5], k1);
    let c5 = nz(Cpu { a: v2, c: k2, ..c4 }, v2);
    lemma_run_step(code, 6, c4, 10);
    assert(step(code, 6, c4) == Some((8int, c5))) by { reveal(step); }
    lemma_run_step(code, 8, c5, 9);
    lemma_sub_words(c.a, c.y, c.zp[4], c.zp[5]);
    if v2 >= 128 {
        assert(step(code, 8, c5) == Some((11int, c5))) by { reveal(step); }
        lemma_run_step(code, 11, c5, 8);
        let c6 = nz(Cpu { a: c5.x, ..c5 }, c5.x);
        assert(step(code, 11, c5) == Some((12int, c6))) by { reveal(step); }
        lemma_run_step(code, 12, c6, 7);
        assert(step(code, 12, c6) == Some((14int, nz(Cpu { y: 0, ..c6 }, 0)))) by { reveal(step); }
        assert(run(code, 14, nz(Cpu { y: 0, ..c6 }, 0), 6) == Some(nz(Cpu { y: 0, ..c6 }, 0)));
    } else {
        assert(step(code, 8, c5) == Some((10int, c5))) by { reveal(step); }
        lemma_run_step(code, 10, c5, 8);
        let v = if stp == 0xE8 { ((x0 as int + 1) % 256) as u8 } else { ((x0 as int + 255) % 256) as u8 };
        let c6 = nz(Cpu { x: v, ..c5 }, v);
        assert(step(code, 10, c5) == Some((11int, c6))) by { reveal(step); }
        lemma_run_step(code, 11, c6, 7);
        let c7 = nz(Cpu { a: c6.x, ..c6 }, c6.x);
        assert(step(code, 11, c6) == Some((12int, c7))) by { reveal(step); }
        lemma_run_step(code, 12, c7, 6);
        assert(step(code, 12, c7) == Some((14int, nz(Cpu { y: 0, ..c7 }, 0)))) by { reveal(step); }
        assert(run(code, 14, nz(Cpu { y: 0, ..c7 }, 0), 5) == Some(nz(Cpu { y: 0, ..c7 }, 0)));
    }
}

/// `<` (and `>`, whose operands are loaded the other way round) leaves 1 in `Y:A`
/// where bit 15 of the difference `Y:A - rhs` (modulo 2^16) is set, 0 otherwise:
/// the sign of the difference, with overflow not looked at.
pub proof fn law_less_tests_sign_of_difference(s: GenState, c: Cpu, binop: Binop)
    requires
        c.zp.len() == 256,
        binop == Binop::Less || binop == Binop::Greater,
    ensures
        exec_code(emitted(s, st_binop_tail(s, binop)), c) matches Some(c2)
            && ya(c2) == (if (ya(c) - rhs_word(c) + 65536) % 65536 >= 32768 { 1int } else { 0int }),
{
    let code = emitted(s, st_binop_tail(s, binop));
    assert(opcode_of(Instr::LDX, AddrMode::IMM) == 0xA2);
    assert(opcode_of(Instr::SEC, AddrMode::IMPL) == 0x38);
    assert(opcode_of(Instr::SBC, AddrMode::ZP) == 0xE5);
    assert(opcode_of(Instr::TYA, AddrMode::IMPL) == 0x98);
    assert(opcode_of(Instr::BMI, AddrMode::REL) == 0x30);
    assert(opcode_of(Instr::DEX, AddrMode::IMPL) == 0xCA);
    assert(opcode_of(Instr::TXA, AddrMode::IMPL) == 0x8A);
    assert(opcode_of(Instr::LDY, AddrMode::IMM) == 0xA0);
    assert(code =~= sub_compare_code(1, 0xCA));
    lemma_sub_compare_runs(c, 1, 0xCA);
}

/// `>=` (and `<=`, whose operands are loaded the other way round) leaves 0 in `Y:A`
/// where bit 15 of the difference `Y:A - rhs` (modulo 2^16) is set, 1 otherwise.
pub proof fn law_greater_equal_tests_sign_of_difference(s: GenState, c: Cpu, binop: Binop)
    requires
        c.zp.len() == 256,
        binop == Binop::GreaterEqual || binop == Binop::LessEqual,
    ensures
        exec_code(emitted(s, st_binop_tail(s, binop)), c) matches Some(c2)
            && ya(c2) == (if (ya(c) - rhs_word(c) + 65536) % 65536 >= 32768 { 0int } else { 1int }),
{
    let code = emitted(s, st_binop_tail(s, binop));
    assert(opcode_of(Instr::LDX, AddrMode::IMM) == 0xA2);
    assert(opcode_of(Instr::SEC, AddrMode::IMPL) == 0x38);
    assert(opcode_of(Instr::SBC, AddrMode::ZP) == 0xE5);
    assert(opcode_of(Instr::TYA, AddrMode::IMPL) == 0x98);
    assert(opcode_of(Instr::BMI, AddrMode::REL) == 0x30);
    assert(opcode_of(Instr::INX, AddrMode::IMPL) == 0xE8);
    assert(opcode_of(Instr::TXA, AddrMode::IMPL) == 0x8A);
    assert(opcode_of(Instr::LDY, AddrMode::IMM) == 0xA0);
    assert(code =~= sub_compare_code(0, 0xE8));
    lemma_sub_compare_runs(c, 0, 0xE8);
}

/// The code of unary `!`.
spec fn not_code() -> Seq<u8> {
    seq![0xA2u8, 0, 0xC9, 0, 0xD0, 5, 0x98, 0xC9, 0, 0xD0, 1, 0xE8, 0x8A, 0xA0, 0]
}

/// Unary `!` leaves 0 in `Y:A` where the low byte is zero and the high byte is not,
/// and 1 otherwise; so it is `Y:A == 0` for every word whose low byte is zero.
pub proof fn law_not_result(s: GenState, c: Cpu)
    requires
        c.zp.len() == 256,
    ensures
        exec_code(emitted(s, st_not_ya(s)), c) matches Some(c2)
            && ya(c2) == (if c.a == 0 && c.y != 0 { 0int } else { 1int }),
{
    let code = emitted(s, st_not_ya(s));
    assert(opcode_of(Instr::LDX, AddrMode::IMM) == 0xA2);
    assert(opcode_of(Instr::CMP, AddrMode::IMM) == 0xC9);
    assert(opcode_of(Instr::BNE, AddrMode::REL) == 0xD0);
    assert(opcode_of(Instr::TYA, AddrMode::IMPL) == 0x98);
    assert(opcode_of(Instr::INX, AddrMode::IMPL) == 0xE8);
    assert(opcode_of(Instr::TXA, AddrMode::IMPL) == 0x8A);
    assert(opcode_of(Instr::LDY, AddrMode::IMM) == 0xA0);
    assert(code =~= not_code());
    assert(code.len() == 15);
    let c1 = nz(Cpu { x: 0, ..c }, 0);
    lemma_run_step(code, 0, c, 15);
    assert(step(code, 0, c) == Some((2int, c1))) by { reveal(step); }
    let c2 = compare(c1, c.a, 0);
    lemma_run_step(code, 2, c1, 14);
    assert(step(code, 2, c1) == Some((4int, c2))) by { reveal(step); }
    lemma_run_step(code, 4, c2, 13);
    if c.a != 0 {
        assert(step(code, 4, c2) == Some((11int, c2))) by { reveal(step); }
        lemma_run_step(code, 11, c2, 12);
        let c3 = nz(Cpu { x: 1, ..c2 }, 1);
        assert(step(code, 11, c2) == Some((12int, c3))) by { reveal(step); }
        lemma_run_step(code, 12, c3, 11);
        let c4 = nz(Cpu { a: 1, ..c3 }, 1);
        assert(step(code, 12, c3) == Some((13int, c4))) by { reveal(step); }
        lemma_run_step(code, 13, c4, 10);
        assert(step(code, 13, c4) == Some((15int, nz(Cpu { y: 0, ..c4 }, 0)))) by { reveal(step); }
        assert(run(code, 15, nz(Cpu { y: 0, ..c4 }, 0), 9) == Some(nz(Cpu { y: 0, ..c4 }, 0)));
    } else {
        assert(step(code, 4, c2) == Some((6int, c2))) by { reveal(step); }
        lemma_run_step(code, 6, c2, 12);
        let c3 = nz(Cpu { a: c.y, ..c2 }, c.y);
        assert(step(code, 6, c2) == Some((7int, c3))) by { reveal(step); }
        lemma_run_step(code, 7, c3, 11);
        let c4 = compare(c3, c.y, 0);
        assert(step(code, 7, c3) == Some((9int, c4))) by { reveal(step); }
        lemma_run_step(code, 9, c4, 10);
        if c.y != 0 {
            assert(step(code, 9, c4) == Some((12int, c4))) by { reveal(step); }
            lemma_run_step(code, 12, c4, 9);
            let c5 = nz(Cpu { a: 0, ..c4 }, 0);
            assert(step(code, 12, c4) == Some((13int, c5))) by { reveal(step); }
            lemma_run_step(code, 13, c5, 8);
            assert(step(code, 13, c5) == Some((15int, nz(Cpu { y: 0, ..c5 }, 0)))) by { reveal(step); }
            assert(run(code, 15, nz(Cpu { y: 0, ..c5 }, 0), 7) == Some(nz(Cpu { y: 0, ..c5 }, 0)));
        } else {
            assert(step(code, 9, c4) == Some((11int, c4))) by { reveal(step); }
            lemma_run_step(code, 11, c4, 9);
            let c5 = nz(Cpu { x: 1, ..c4 }, 1);
            assert(step(code, 11, c4) == Some((12int, c5))) by { reveal(step); }
            lemma_run_step(code, 12, c5, 8);
            let c6 = nz(Cpu { a: 1, ..c5 }, 1);
            assert(step(code, 12, c5) == Some((13int, c6))) by { reveal(step); }
            lemma_run_step(code, 13, c6, 7);
            assert(step(code, 13, c6) == Some((15int, nz(Cpu { y: 0, ..c6 }, 0)))) by { reveal(step); }
            assert(run(code, 15, nz(Cpu { y: 0, ..c6 }, 0), 6) == Some(nz(Cpu { y: 0, ..c6 }, 0)));
        }
    }
}

/// The code of a shift loop, its jump linked to `t`: the word in `Y:A` moved to
/// `ZP_TMP_0:ZP_TMP_1`, `X` counting the shifts down from the low byte of the right
/// operand, `op1` on byte `z1` and `op2` on byte `z2` once per round.
spec fn shift_code(op1: u8, z1: u8, op2: u8, z2: u8, t: u16) -> Seq<u8> {
    seq![
        0x85u8, ZP_TMP_0, 0x84, ZP_TMP_1, 0xA6, ZP_RHS_L, 0xF0, 8, op1, z1, op2, z2, 0xCA,
        0x4C, lo(t), hi(t), 0xA5, ZP_TMP_0, 0xA4, ZP_TMP_1,
    ]
}

/// The word in `ZP_TMP_0:ZP_TMP_1`.
spec fn tmp_word(c: Cpu) -> int {
    c.zp[ZP_TMP_0 as int] as int + 256 * c.zp[ZP_TMP_1 as int] as int
}

proof fn lemma_shift_tail(code: Seq<u8>, c: Cpu, fuel: nat, left: bool, t: u16)
    requires
        code == (if left { shift_code(0x06, ZP_TMP_0, 0x26, ZP_TMP_1, t) } else { shift_code(0x46, ZP_TMP_1, 0x66, ZP_TMP_0, t) }),
        c.zp.len() == 256,
        c.x == 0,
        c.z,
        fuel >= 4,
    ensures
        run(code, 6, c, fuel) matches Some(c2) && ya(c2) == tmp_word(c),
{
    assert(code.len() == 20);
    lemma_run_step(code, 6, c, fuel);
    assert(step(code, 6, c) == Some((16int, c))) by { reveal(step); }
    let c1 = nz(Cpu { a: c.zp[6], ..c }, c.zp[6]);
    lemma_run_step(code, 16, c, (fuel - 1) as nat);
    assert(step(code, 16, c) == Some((18int, c1))) by { reveal(step); }
    let c2 = nz(Cpu { y: c.zp[7], ..c1 }, c.zp[7]);
    lemma_run_step(code, 18, c1, (fuel - 2) as nat);
    assert(step(code, 18, c1) == Some((20int, c2))) by { reveal(step); }
    assert(run(code, 20, c2, (fuel - 3) as nat) == Some(c2));
}

/// One round of a shift loop: the word in `ZP_TMP_0:ZP_TMP_1` shifted by one bit,
/// `X` counted down.
spec fn shift_round(c: Cpu, left: bool) -> Cpu {
    let lo0 = c.zp[6];
    let hi0 = c.zp[7];
    let c2 = if left {
        let v1 = ((lo0 as int * 2) % 256) as u8;
        let c1 = nz(Cpu { zp: c.zp.update(6, v1), c: lo0 >= 128, ..c }, v1);
        let v2 = ((hi0 as int * 2 + (if lo0 >= 128 { 1int } else { 0int })) % 256) as u8;
        nz(Cpu { zp: c1.zp.update(7, v2), c: hi0 >= 128, ..c1 }, v2)
    } else {
        let v1 = hi0 / 2;
        let c1 = nz(Cpu { zp: c.zp.update(7, v1), c: hi0 % 2 == 1, ..c }, v1);
        let v2 = (lo0 / 2 + (if hi0 % 2 == 1 { 128u8 } else { 0u8 })) as u8;
        nz(Cpu { zp: c1.zp.update(6, v2), c: lo0 % 2 == 1, ..c1 }, v2)
    };
    let x3 = ((c.x as int + 255) % 256) as u8;
    nz(Cpu { x: x3, ..c2 }, x3)
}

proof fn lemma_shl_bytes(lo0: u8, hi0: u8)
    ensures
        ((lo0 as int * 2) % 256) + 256 * ((hi0 as int * 2 + (if lo0 >= 128 { 1int } else { 0int })) % 256)
            == (2 * (lo0 as int + 256 * hi0 as int)) % 65536,
{
    let l = lo0 as int;
    let h = hi0 as int;
    let k: int = if l >= 128 { 1 } else { 0 };
    assert((l * 2) % 256 == l * 2 - 256 * k);
    let m: int = if h * 2 + k >= 256 { 1 } else { 0 };
    assert((h * 2 + k) % 256 == h * 2 + k - 256 * m);
    assert(2 * (l + 256 * h) == (l * 2 - 256 * k) + 256 * (h * 2 + k - 256 * m) + 65536 * m);
    assert(0 <= (l * 2 - 256 * k) + 256 * (h * 2 + k - 256 * m) < 65536);
}

proof fn lemma_shr_bytes(lo0: u8, hi0: u8)
    ensures
        (lo0 / 2 + (if hi0 % 2 == 1 { 128u8 } else { 0u8 })) as int + 256 * (hi0 / 2) as int
            == (lo0 as int + 256 * hi0 as int) / 2,
{
    let l = lo0 as int;
    let h = hi0 as int;
    assert((lo0 / 2 + (if hi0 % 2 == 1 { 128u8 } else { 0u8 })) as int == l / 2 + (if h % 2 == 1 { 128int } else { 0int }));
    assert(h == 2 * (h / 2) + h % 2);
    assert(l == 2 * (l / 2) + l % 2);
    assert(l + 256 * h == 2 * (l / 2 + 128 * (h % 2) + 256 * (h / 2)) + l % 2);
}

proof fn lemma_shift_round_word(c: Cpu, left: bool)
    requires
        c.zp.len() == 256,
        c.x != 0,
    ensures
        shift_round(c, left).zp.len() == 256,
        shift_round(c, left).org == c.org,
        shift_round(c, left).x == c.x - 1,
        shift_round(c, left).z == (shift_round(c, left).x == 0),
        tmp_word(shift_round(c, left)) == (if left { (2 * tmp_word(c)) % 65536 } else { tmp_word(c) / 2 }),
{
    let r = shift_round(c, left);
    let lo0 = c.zp[6];
    let hi0 = c.zp[7];
    if left {
        lemma_shl_bytes(lo0, hi0);
        assert(r.zp[6] as int == (lo0 as int * 2) % 256);
        assert(r.zp[7] as int == (hi0 as int * 2 + (if lo0 >= 128 { 1int } else { 0int })) % 256);
    } else {
        lemma_shr_bytes(lo0, hi0);
        assert(r.zp[7] == hi0 / 2);
        assert(r.zp[6] == (lo0 / 2 + (if hi0 % 2 == 1 { 128u8 } else { 0u8 })) as u8);
    }
}

proof fn lemma_shift_round_runs(code: Seq<u8>, c: Cpu, fuel: nat, left: bool, t: u16)
    requires
        code == (if left { shift_code(0x06, ZP_TMP_0, 0x26, ZP_TMP_1, t) } else { shift_code(0x46, ZP_TMP_1, 0x66, ZP_TMP_0, t) }),
        t as int - c.org == 6,
        c.zp.len() == 256,
        !c.z,
        fuel >= 5,
    ensures
        run(code, 6, c, fuel) == run(code, 6, shift_round(c, left), (fuel - 5) as nat),
{
    assert(code.len() == 20);
    let lo0 = c.zp[6];
    let hi0 = c.zp[7];
    let c1 = if left {
        let v1 = ((lo0 as int * 2) % 256) as u8;
        nz(Cpu { zp: c.zp.update(6, v1), c: lo0 >= 128, ..c }, v1)
    } else {
        let v1 = hi0 / 2;
        nz(Cpu { zp: c.zp.update(7, v1), c: hi0 % 2 == 1, ..c }, v1)
    };
    let c2 = if left {
        let v2 = ((hi0 as int * 2 + (if lo0 >= 128 { 1int } else { 0int })) % 256) as u8;
        nz(Cpu { zp: c1.zp.update(7, v2), c: hi0 >= 128, ..c1 }, v2)
    } else {
        let v2 = (lo0 / 2 + (if hi0 % 2 == 1 { 128u8 } else { 0u8 })) as u8;
        nz(Cpu { zp: c1.zp.update(6, v2), c: lo0 % 2 == 1, ..c1 }, v2)
    };
    let c3 = shift_round(c, left);
    lemma_run_step(code, 6, c, fuel);
    assert(step(code, 6, c) == Some((8int, c))) by { reveal(step); }
    lemma_run_step(code, 8, c, (fuel - 1) as nat);
    assert(step(code, 8, c) == Some((10int, c1))) by { reveal(step); }
    lemma_run_step(code, 10, c1, (fuel - 2) as nat);
    assert(step(code, 10, c1) == Some((12int, c2))) by { reveal(step); }
    lemma_run_step(code, 12, c2, (fuel - 3) as nat);
    assert(step(code, 12, c2) == Some((13int, c3))) by { reveal(step); }
    lemma_run_step(code, 13, c3, (fuel - 4) as nat);
    assert(step(code, 13, c3) == Some((6int, c3))) by { reveal(step); reveal(step_abs); }
}

proof fn lemma_shift_loop(code: Seq<u8>, c: Cpu, fuel: nat, left: bool, t: u16)
    requires
        code == (if left { shift_code(0x06, ZP_TMP_0, 0x26, ZP_TMP_1, t) } else { shift_code(0x46, ZP_TMP_1, 0x66, ZP_TMP_0, t) }),
        t as int - c.org == 6,
        c.zp.len() == 256,
        c.z == (c.x == 0),
        fuel >= 5 * c.x + 4,
    ensures
        run(code, 6, c, fuel) matches Some(c2)
            && ya(c2) == (if left {
                (tmp_word(c) * pow2(c.x as nat)) % 65536
            } else {
                tmp_word(c) / (pow2(c.x as nat) as int)
            }),
    decreases c.x,
{
    let w = tmp_word(c);
    if c.x == 0 {
        lemma_shift_tail(code, c, fuel, left, t);
        assert(pow2(0) == 1) by { vstd::arithmetic::power2::lemma2_to64(); }
        assert(0 <= w < 65536);
    } else {
        let c4 = shift_round(c, left);
        lemma_shift_round_runs(code, c, fuel, left, t);
        lemma_shift_round_word(c, left);
        lemma_shift_loop(code, c4, (fuel - 5) as nat, left, t);
        lemma_shift_pow(w, c.x as nat, left);
    }
}

proof fn lemma_shift_pow(w: int, x: nat, left: bool)
    requires
        0 <= w,
        x > 0,
    ensures
        left ==> ((2 * w) % 65536 * pow2((x - 1) as nat)) % 65536 == (w * pow2(x)) % 65536,
        !left ==> (w / 2) / (pow2((x - 1) as nat) as int) == w / (pow2(x) as int),
{
    let p = pow2((x - 1) as nat);
    vstd::arithmetic::power2::lemma_pow2_unfold(x);
    assert(pow2(x) == 2 * p);
    vstd::arithmetic::power2::lemma_pow2_pos((x - 1) as nat);
    vstd::arithmetic::div_mod::lemma_mul_mod_noop_left(2 * w, p as int, 65536);
    vstd::arithmetic::mul::lemma_mul_is_associative(2, w, p as int);
    vstd::arithmetic::mul::lemma_mul_is_commutative(2, w);
    vstd::arithmetic::mul::lemma_mul_is_associative(w, 2, p as int);
    vstd::arithmetic::div_mod::lemma_div_denominator(w, 2, p as int);
}

/// `<<` leaves in `Y:A` the left word shifted left by as many bits as the low byte
/// of the right word says, modulo 2^16 (so by 16 or more it gives 0), once the
/// loop's jump is linked and the code runs where it was placed.
pub proof fn law_shift_left_shifts(s: GenState, c: Cpu, ds: u16)
    requires
        c.zp.len() == 256,
        s.assembler.code_start + s.out.len() + 20 < 65536,
        s.assembler.addresses.len() < 0x1_0000_0000,
        c.org == s.assembler.code_start + s.out.len(),
    ensures
        ({
            let s1 = st_binop_tail(s, Binop::BitShl);
            let linked = st_apply_one(s1, s1.assembler.relocs.last(), ds);
            run(emitted(s, linked), 0, c, 2000) matches Some(c2)
                && ya(c2) == (ya(c) * pow2(c.zp[ZP_RHS_L as int] as nat)) % 65536
        }),
{
    lemma_shift_runs(s, c, ds, true);
}

/// `>>` leaves in `Y:A` the left word shifted right, zeros coming in, by as many
/// bits as the low byte of the right word says: the word divided by that power of
/// two, rounded down; once the loop's jump is linked and the code runs where it
/// was placed.
pub proof fn law_shift_right_shifts(s: GenState, c: Cpu, ds: u16)
    requires
        c.zp.len() == 256,
        s.assembler.code_start + s.out.len() + 20 < 65536,
        s.assembler.addresses.len() < 0x1_0000_0000,
        c.org == s.assembler.code_start + s.out.len(),
    ensures
        ({
            let s1 = st_binop_tail(s, Binop::BitShr);
            let linked = st_apply_one(s1, s1.assembler.relocs.last(), ds);
            run(emitted(s, linked), 0, c, 2000) matches Some(c2)
                && ya(c2) == ya(c) / (pow2(c.zp[ZP_RHS_L as int] as nat) as int)
        }),
{
    lemma_shift_runs(s, c, ds, false);
}

#[verifier::rlimit(60)]
proof fn lemma_shift_linked_code(s: GenState, ds: u16, left: bool)
    requires
        s.assembler.code_start + s.out.len() + 20 < 65536,
        s.assembler.addresses.len() < 0x1_0000_0000,
    ensures
        ({
            let s1 = st_binop_tail(s, if left { Binop::BitShl } else { Binop::BitShr });
            let linked = st_apply_one(s1, s1.assembler.relocs.last(), ds);
            let t = (s.assembler.code_start + s.out.len() + 6) as u16;
            emitted(s, linked) == (if left {
                shift_code(0x06, ZP_TMP_0, 0x26, ZP_TMP_1, t)
            } else {
                shift_code(0x46, ZP_TMP_1, 0x66, ZP_TMP_0, t)
            })
        }),
{
    let s1 = st_binop_tail(s, if left { Binop::BitShl } else { Binop::BitShr });
    let linked = st_apply_one(s1, s1.assembler.relocs.last(), ds);
    let n = s.out.len() as int;
    let la = s.assembler.addresses.len() as int;
    let t = (s.assembler.code_start + s.out.len() + 6) as u16;
    assert(la as usize as int == la);
    assert(s1.out.len() == n + 20);
    assert(s1.assembler.addresses[la] == (n + 6) as u16);
    assert((n + 6) as u16 as int == n + 6);
    assert((n + 14) as u16 as int == n + 14);
    assert(s1.assembler.relocs.last() == (RelocationV { kind: RelocKindV::Address { idx: la as usize, relative: false }, addr: (n + 14) as u16 }));
    assert(wrap16(s1.assembler.addresses[la] + s1.assembler.code_start) == t);
    assert(linked.out == s1.out.update(n + 14, lo(t)).update(n + 15, hi(t)));
    assert(opcode_of(Instr::STA, AddrMode::ZP) == 0x85);
    assert(opcode_of(Instr::STY, AddrMode::ZP) == 0x84);
    assert(opcode_of(Instr::LDX, AddrMode::ZP) == 0xA6);
    assert(opcode_of(Instr::BEQ, AddrMode::REL) == 0xF0);
    assert(opcode_of(Instr::ASL, AddrMode::ZP) == 0x06);
    assert(opcode_of(Instr::ROL, AddrMode::ZP) == 0x26);
    assert(opcode_of(Instr::LSR, AddrMode::ZP) == 0x46);
    assert(opcode_of(Instr::ROR, AddrMode::ZP) == 0x66);
    assert(opcode_of(Instr::DEX, AddrMode::IMPL) == 0xCA);
    assert(opcode_of(Instr::JMP, AddrMode::ABS) == 0x4C);
    assert(opcode_of(Instr::LDA, AddrMode::ZP) == 0xA5);
    assert(opcode_of(Instr::LDY, AddrMode::ZP) == 0xA4);
    if left {
        assert(emitted(s, linked) =~= shift_code(0x06, ZP_TMP_0, 0x26, ZP_TMP_1, t));
    } else {
        assert(emitted(s, linked) =~= shift_code(0x46, ZP_TMP_1, 0x66, ZP_TMP_0, t));
    }
}

proof fn lemma_shift_runs(s: GenState, c: Cpu, ds: u16, left: bool)
    requires
        c.zp.len() == 256,
        s.assembler.code_start + s.out.len() + 20 < 65536,
        s.assembler.addresses.len() < 0x1_0000_0000,
        c.org == s.assembler.code_start + s.out.len(),
    ensures
        ({
            let s1 = st_binop_tail(s, if left { Binop::BitShl } else { Binop::BitShr });
            let linked = st_apply_one(s1, s1.assembler.relocs.last(), ds);
            run(emitted(s, linked), 0, c, 2000) matches Some(c2)
                && ya(c2) == (if left {
                    (ya(c) * pow2(c.zp[ZP_RHS_L as int] as nat)) % 65536
                } else {
                    ya(c) / (pow2(c.zp[ZP_RHS_L as int] as nat) as int)
                })
        }),
{
    let s1 = st_binop_tail(s, if left { Binop::BitShl } else { Binop::BitShr });
    let linked = st_apply_one(s1, s1.assembler.relocs.last(), ds);
    let code = emitted(s, linked);
    let t = (s.assembler.code_start + s.out.len() + 6) as u16;
    lemma_shift_linked_code(s, ds, left);
    lemma_shift_prefix(code, c, left, t);
}

proof fn lemma_shift_prefix(code: Seq<u8>, c: Cpu, left: bool, t: u16)
    requires
        code == (if left { shift_code(0x06, ZP_TMP_0, 0x26, ZP_TMP_1, t) } else { shift_code(0x46, ZP_TMP_1, 0x66, ZP_TMP_0, t) }),
        c.zp.len() == 256,
        t as int - c.org == 6,
    ensures
        run(code, 0, c, 2000) matches Some(c2)
            && ya(c2) == (if left {
                (ya(c) * pow2(c.zp[ZP_RHS_L as int] as nat)) % 65536
            } else {
                ya(c) / (pow2(c.zp[ZP_RHS_L as int] as nat) as int)
            }),
{
    assert(code.len() == 20);
    let c1 = Cpu { zp: c.zp.update(6, c.a), ..c };
    lemma_run_step(code, 0, c, 2000);
    assert(step(code, 0, c) == Some((2int, c1))) by { reveal(step); }
    let c2 = Cpu { zp: c1.zp.update(7, c.y), ..c1 };
    lemma_run_step(code, 2, c1, 1999);
    assert(step(code, 2, c1) == Some((4int, c2))) by { reveal(step); }
    let n = c.zp[4];
    let c3 = nz(Cpu { x: n, ..c2 }, n);
    lemma_run_step(code, 4, c2, 1998);
    assert(step(code, 4, c2) == Some((6int, c3))) by { reveal(step); }
    assert(tmp_word(c3) == ya(c));
    lemma_shift_loop(code, c3, 1997, left, t);
}

/// The stack address of the low byte of auto variable `index` in a frame of `frame`
/// bytes, with the stack pointer at `sp`: `0x100 + sp + frame - 2k - 1` for
/// `k = index - 1` (taken below 2^16); the high byte lies just above it.
pub open spec fn auto_slot(sp: u8, frame: u8, index: usize) -> int {
    0x100 + sp + frame - 2 * ((index - 1) % 65536) - 1
}

proof fn lemma_auto_operands(f: u8, index: usize)
    requires
        auto_var_ok(index, f),
    ensures
        lo(auto_lo(index, f)) as int + 256 * hi(auto_lo(index, f)) as int == 0x100 + f - 2 * ((index - 1) % 65536) - 1,
        lo(auto_hi(index, f)) as int + 256 * hi(auto_hi(index, f)) as int == 0x100 + f - 2 * ((index - 1) % 65536),
        2 * ((index - 1) % 65536) + 1 <= 0x100 + f,
{
    let k = (index - 1) as u16;
    assert(k as int == (index - 1) % 65536) by {
        let i1: usize = (index - 1) as usize;
        assert(i1 as u16 == (i1 % 65536) as u16) by (bit_vector);
    }
    crate::codegen::mos6502::laws::law_word_bytes(auto_lo(index, f));
    crate::codegen::mos6502::laws::law_word_bytes(auto_hi(index, f));
}

spec fn store_code(b0: u8, b1: u8, b2: u8, b3: u8) -> Seq<u8> {
    seq![0xBAu8, 0x9D, b0, b1, 0x98, 0x9D, b2, b3]
}

spec fn load_code(b0: u8, b1: u8, b2: u8, b3: u8) -> Seq<u8> {
    seq![0xBAu8, 0xBD, b0, b1, 0xBC, b2, b3]
}

proof fn lemma_store_code_runs(c: Cpu, b0: u8, b1: u8, b2: u8, b3: u8)
    ensures
        ({
            let c1 = nz(Cpu { x: c.sp, ..c }, c.sp);
            let c2 = write_mem(c1, (b0 + 256 * b1 + c.sp) % 65536, c.a);
            let c3 = nz(Cpu { a: c.y, ..c2 }, c.y);
            exec_code(store_code(b0, b1, b2, b3), c) == Some(write_mem(c3, (b2 + 256 * b3 + c.sp) % 65536, c.y))
        }),
{
    let code = store_code(b0, b1, b2, b3);
    assert(code.len() == 8);
    let c1 = nz(Cpu { x: c.sp, ..c }, c.sp);
    lemma_run_step(code, 0, c, 8);
    assert(step(code, 0, c) == Some((1int, c1))) by { reveal(step); }
    let c2 = write_mem(c1, (b0 + 256 * b1 + c.sp) % 65536, c.a);
    lemma_run_step(code, 1, c1, 7);
    assert(step(code, 1, c1) == Some((4int, c2))) by { reveal(step); reveal(step_abs); }
    let c3 = nz(Cpu { a: c.y, ..c2 }, c.y);
    lemma_run_step(code, 4, c2, 6);
    assert(step(code, 4, c2) == Some((5int, c3))) by { reveal(step); }
    let c4 = write_mem(c3, (b2 + 256 * b3 + c.sp) % 65536, c.y);
    lemma_run_step(code, 5, c3, 5);
    assert(step(code, 5, c3) == Some((8int, c4))) by { reveal(step); reveal(step_abs); }
    assert(run(code, 8, c4, 4) == Some(c4));
}

proof fn lemma_load_code_runs(c: Cpu, b0: u8, b1: u8, b2: u8, b3: u8)
    ensures
        ({
            let c1 = nz(Cpu { x: c.sp, ..c }, c.sp);
            let v1 = read_mem(c, (b0 + 256 * b1 + c.sp) % 65536);
            let c2 = nz(Cpu { a: v1, ..c1 }, v1);
            let v2 = read_mem(c, (b2 + 256 * b3 + c.sp) % 65536);
            exec_code(load_code(b0, b1, b2, b3), c) == Some(nz(Cpu { y: v2, ..c2 }, v2))
        }),
{
    let code = load_code(b0, b1, b2, b3);
    assert(code.len() == 7);
    let c1 = nz(Cpu { x: c.sp, ..c }, c.sp);
    lemma_run_step(code, 0, c, 7);
    assert(step(code, 0, c) == Some((1int, c1))) by { reveal(step); }
    let v1 = read_mem(c, (b0 + 256 * b1 + c.sp) % 65536);
    let c2 = nz(Cpu { a: v1, ..c1 }, v1);
    lemma_run_step(code, 1, c1, 6);
    assert(step(code, 1, c1) == Some((4int, c2))) by { reveal(step); reveal(step_abs); }
    let v2 = read_mem(c, (b2 + 256 * b3 + c.sp) % 65536);
    let c3 = nz(Cpu { y: v2, ..c2 }, v2);
    lemma_run_step(code, 4, c2, 5);
    assert(step(code, 4, c2) == Some((7int, c3))) by { reveal(step); reveal(step_abs); }
    assert(run(code, 7, c3, 4) == Some(c3));
}

/// Storing `Y:A` into auto variable `index` writes its low byte at the variable's
/// stack address and its high byte just above, and no other byte of memory.
pub proof fn law_store_auto_writes_slot(s: GenState, c: Cpu, index: usize)
    requires
        c.zp.len() == 256,
        c.mem.len() == 65536,
        auto_var_ok(index, s.assembler.frame_sz),
    ensures
        ({
            let l = auto_slot(c.sp, s.assembler.frame_sz, index);
            exec_code(emitted(s, st_store_auto(s, index)), c) matches Some(c2)
                && read_mem(c2, l) == c.a
                && read_mem(c2, l + 1) == c.y
                && c2.sp == c.sp
                && c2.zp.len() == 256
                && c2.mem.len() == 65536
                && (forall|q: int| 0 <= q < 65536 && q != l && q != l + 1 ==> #[trigger] read_mem(c2, q) == read_mem(c, q))
        }),
{
    let f = s.assembler.frame_sz;
    let code = emitted(s, st_store_auto(s, index));
    lemma_auto_operands(f, index);
    assert(opcode_of(Instr::TSX, AddrMode::IMPL) == 0xBA);
    assert(opcode_of(Instr::STA, AddrMode::ABS_X) == 0x9D);
    assert(opcode_of(Instr::TYA, AddrMode::IMPL) == 0x98);
    let (b0, b1, b2, b3) = (lo(auto_lo(index, f)), hi(auto_lo(index, f)), lo(auto_hi(index, f)), hi(auto_hi(index, f)));
    assert(code =~= store_code(b0, b1, b2, b3));
    lemma_store_code_runs(c, b0, b1, b2, b3);
}

/// Loading auto variable `index` reads its low byte into `A` and its high byte into
/// `Y` from the variable's stack address, and changes no memory.
pub proof fn law_load_auto_reads_slot(s: GenState, c: Cpu, index: usize)
    requires
        c.zp.len() == 256,
        c.mem.len() == 65536,
        auto_var_ok(index, s.assembler.frame_sz),
    ensures
        ({
            let l = auto_slot(c.sp, s.assembler.frame_sz, index);
            exec_code(emitted(s, st_load_auto_var(s, index)), c) matches Some(c2)
                && c2.a == read_mem(c, l)
                && c2.y == read_mem(c, l + 1)
                && c2.sp == c.sp
                && c2.zp == c.zp
                && c2.mem == c.mem
        }),
{
    let f = s.assembler.frame_sz;
    let code = emitted(s, st_load_auto_var(s, index));
    lemma_auto_operands(f, index);
    assert(opcode_of(Instr::TSX, AddrMode::IMPL) == 0xBA);
    assert(opcode_of(Instr::LDA, AddrMode::ABS_X) == 0xBD);
    assert(opcode_of(Instr::LDY, AddrMode::ABS_X) == 0xBC);
    let (b0, b1, b2, b3) = (lo(auto_lo(index, f)), hi(auto_lo(index, f)), lo(auto_hi(index, f)), hi(auto_hi(index, f)));
    assert(code =~= load_code(b0, b1, b2, b3));
    lemma_load_code_runs(c, b0, b1, b2, b3);
}

/// What a store to auto variable `i` does to a later load of auto variable `j`
/// (with the stack pointer unchanged in between): the load gives back the stored
/// word where `i` and `j` are the same variable, and `j`'s old word otherwise.
pub proof fn law_store_then_load_auto(s: GenState, c: Cpu, i: usize, j: usize)
    requires
        c.zp.len() == 256,
        c.mem.len() == 65536,
        auto_var_ok(i, s.assembler.frame_sz),
        auto_var_ok(j, s.assembler.frame_sz),
    ensures
        ({
            let s1 = st_store_auto(s, i);
            let lj = auto_slot(c.sp, s.assembler.frame_sz, j);
            exec_code(emitted(s, s1), c) matches Some(c2)
                && exec_code(emitted(s1, st_load_auto_var(s1, j)), c2) matches Some(c3)
                && ya(c3) == (if (i - 1) % 65536 == (j - 1) % 65536 {
                    ya(c)
                } else {
                    read_mem(c, lj) + 256 * read_mem(c, lj + 1)
                })
        }),
{
    let s1 = st_store_auto(s, i);
    law_store_auto_writes_slot(s, c, i);
    let c2 = exec_code(emitted(s, s1), c)->0;
    assert(s1.assembler.frame_sz == s.assembler.frame_sz);
    law_load_auto_reads_slot(s1, c2, j);
    lemma_auto_operands(s.assembler.frame_sz, j);
    let li = auto_slot(c.sp, s.assembler.frame_sz, i);
    let lj = auto_slot(c.sp, s.assembler.frame_sz, j);
    if (i - 1) % 65536 != (j - 1) % 65536 {
        assert(lj != li && lj != li + 1 && lj + 1 != li && lj + 1 != li + 1);
        assert(0 <= lj && lj + 1 < 65536);
    }
}

spec fn load_two_code(b0: u8, b1: u8, b2: u8, b3: u8) -> Seq<u8> {
    seq![0xA9u8, b0, 0xA0, b1, 0x85, ZP_RHS_L, 0x84, ZP_RHS_H, 0xA9, b2, 0xA0, b3]
}

proof fn lemma_load_two_code_runs(c: Cpu, b0: u8, b1: u8, b2: u8, b3: u8)
    requires
        c.zp.len() == 256,
    ensures
        exec_code(load_two_code(b0, b1, b2, b3), c) matches Some(c2)
            && c2.a == b2 && c2.y == b3 && c2.zp[ZP_RHS_L as int] == b0 && c2.zp[ZP_RHS_H as int] == b1
            && c2.zp.len() == 256,
{
    let code = load_two_code(b0, b1, b2, b3);
    assert(code.len() == 12);
    let c1 = nz(Cpu { a: b0, ..c }, b0);
    lemma_run_step(code, 0, c, 12);
    assert(step(code, 0, c) == Some((2int, c1))) by { reveal(step); }
    let c2 = nz(Cpu { y: b1, ..c1 }, b1);
    lemma_run_step(code, 2, c1, 11);
    assert(step(code, 2, c1) == Some((4int, c2))) by { reveal(step); }
    let c3 = Cpu { zp: c2.zp.update(4, b0), ..c2 };
    lemma_run_step(code, 4, c2, 10);
    assert(step(code, 4, c2) == Some((6int, c3))) by { reveal(step); }
    let c4 = Cpu { zp: c3.zp.update(5, b1), ..c3 };
    lemma_run_step(code, 6, c3, 9);
    assert(step(code, 6, c3) == Some((8int, c4))) by { reveal(step); }
    let c5 = nz(Cpu { a: b2, ..c4 }, b2);
    lemma_run_step(code, 8, c4, 8);
    assert(step(code, 8, c4) == Some((10int, c5))) by { reveal(step); }
    let c6 = nz(Cpu { y: b3, ..c5 }, b3);
    lemma_run_step(code, 10, c5, 7);
    assert(step(code, 10, c5) == Some((12int, c6))) by { reveal(step); }
    assert(run(code, 12, c6, 6) == Some(c6));
}

/// Loading the two operands of a binary operation, both integer literals that fit
/// 16 bits: the right one ends up in `ZP_RHS_L:ZP_RHS_H` and the left one in `Y:A`.
pub proof fn law_load_two_places_operands(s: GenState, c: Cpu, l: Vec<u8>, lr: Radix, r: Vec<u8>, rr: Radix, loc: Loc)
    requires
        c.zp.len() == 256,
        int_value(l@, lr) <= u16::MAX,
        int_value(r@, rr) <= u16::MAX,
    ensures
        ({
            let (s1, ok) = st_load_two(s, Arg::IntLiteral(l, lr), Arg::IntLiteral(r, rr), loc);
            &&& ok
            &&& exec_code(emitted(s, s1), c) matches Some(c2)
                && ya(c2) == int_value(l@, lr)
                && rhs_word(c2) == int_value(r@, rr)
        }),
{
    let (s1, ok) = st_load_two(s, Arg::IntLiteral(l, lr), Arg::IntLiteral(r, rr), loc);
    let vl = int_value(l@, lr) as u16;
    let vr = int_value(r@, rr) as u16;
    assert(opcode_of(Instr::LDA, AddrMode::IMM) == 0xA9);
    assert(opcode_of(Instr::LDY, AddrMode::IMM) == 0xA0);
    assert(opcode_of(Instr::STA, AddrMode::ZP) == 0x85);
    assert(opcode_of(Instr::STY, AddrMode::ZP) == 0x84);
    assert(emitted(s, s1) =~= load_two_code(lo(vr), hi(vr), lo(vl), hi(vl)));
    lemma_load_two_code_runs(c, lo(vr), hi(vr), lo(vl), hi(vl));
    crate::codegen::mos6502::laws::law_word_bytes(vl);
    crate::codegen::mos6502::laws::law_word_bytes(vr);
}

} // verus!
