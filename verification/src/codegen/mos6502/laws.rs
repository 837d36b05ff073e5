//! Properties of the 6502 code generator that hold across its operations.
use vstd::prelude::*;
use vstd::arithmetic::power2::{pow2, lemma2_to64};
use crate::codegen_common::{le_value, be_value, int_value};
use crate::errors::MAX_ERROR_COUNT;
use crate::lexer::model::escape_value;
use crate::numparse::ch;
use super::opcodes::{Instr, AddrMode, opcode_of, INVL};
use super::assembler::{AsmV, RelocationV, GenState, ErrsV, RelocKindV, Diag, Byte, lo, hi, st_reloc, err_bump, lemma_redef_scan_keeps};
use super::emit::{st_push16, st_pop16_discard, st_sub_sp, st_add_sp, e1_times};
use super::assembly::{st_assemble, shape, st_emit, OperandV, word_end};
use super::link::{patch, st_apply, st_apply_one, relocs_ok, reloc_ok, find_external, find_label, wrap16, branch_distance};
use crate::numparse::skip_ws;
use crate::ir::ImmediateValue;
use super::program::st_value;

verus! {

/// A word is written low byte first, and reading the two bytes back gives the word.
pub proof fn law_word_bytes(w: u16)
    ensures
        lo(w) as int + 256 * hi(w) as int == w as int,
{
}

/// Pushing a word and dropping it again leaves the frame as it was.
pub proof fn law_push_pop_frame(s: GenState)
    requires
        s.assembler.frame_sz + 2 <= u8::MAX,
    ensures
        st_pop16_discard(st_push16(s)).assembler.frame_sz == s.assembler.frame_sz,
        st_pop16_discard(st_push16(s)).assembler.code_start == s.assembler.code_start,
        st_pop16_discard(st_push16(s)).out.len() == s.out.len() + 7,
{
}

proof fn lemma_e1_times(s: GenState, i: Instr, n: nat)
    ensures
        e1_times(s, i, n).assembler == s.assembler,
        e1_times(s, i, n).out.len() == s.out.len() + n,
    decreases n,
{
    if n > 0 {
        lemma_e1_times(s, i, (n - 1) as nat);
    }
}

/// Reserving `bytes` on the stack and dropping them again leaves the frame as it was.
pub proof fn law_reserve_release_frame(s: GenState, bytes: u8)
    requires
        s.assembler.frame_sz + bytes <= u8::MAX,
    ensures
        st_add_sp(st_sub_sp(s, bytes), bytes).assembler.frame_sz == s.assembler.frame_sz,
{
    lemma_e1_times(super::emit::st_frame(s, (s.assembler.frame_sz + bytes) as u8), Instr::PHA, bytes as nat);
    let s1 = st_sub_sp(s, bytes);
    lemma_e1_times(super::emit::st_frame(s1, (s1.assembler.frame_sz - bytes) as u8), Instr::PLA, bytes as nat);
}

/// The room that a relocation leaves in the output is what linking patches: two
/// bytes for a full address, one otherwise.
pub proof fn law_reloc_room(s: GenState, kind: RelocKindV)
    ensures
        st_reloc(s, kind).out.len() == s.out.len() + (if kind.is16() { 2int } else { 1int }),
        st_reloc(s, kind).out.subrange(0, s.out.len() as int) == s.out,
        st_reloc(s, kind).assembler.relocs.last().addr == s.out.len() as u16,
{
    assert(st_reloc(s, kind).out.subrange(0, s.out.len() as int) =~= s.out);
}

/// Patching changes only the bytes it is given: one at `addr`, or two from `addr` on.
pub proof fn law_patch_in_place(out: Seq<u8>, addr: u16, byte: Byte, v: u16, k: int)
    requires
        addr < out.len(),
        byte == Byte::Both ==> addr + 1 < out.len(),
        0 <= k < out.len(),
        k != addr,
        byte == Byte::Both ==> k != addr + 1,
    ensures
        patch(out, addr, byte, v).len() == out.len(),
        patch(out, addr, byte, v)[k] == out[k],
{
}

/// Linking keeps the length of the output.
pub proof fn law_link_keeps_length(s: GenState, data_start: u16, i: int)
    requires
        relocs_ok(s.assembler, s.out.len() as int),
    ensures
        st_apply(s, data_start, i).out.len() == s.out.len(),
        st_apply(s, data_start, i).assembler == s.assembler,
        st_apply(s, data_start, i).errs.error_count == s.errs.error_count,
    decreases s.assembler.relocs.len() - i,
{
    if 0 <= i < s.assembler.relocs.len() {
        let s1 = st_apply_one(s, s.assembler.relocs[i], data_start);
        assert(super::link::reloc_ok(s.assembler, s.assembler.relocs[i], s.out.len() as int));
        assert(s1.out.len() == s.out.len());
        assert(s1.assembler == s.assembler);
        law_link_keeps_length(s1, data_start, i + 1);
    }
}

/// After an error, generating goes on until the error count reaches the limit; the
/// diagnostic is kept either way.
pub proof fn law_errors_continue(e: ErrsV, d: Diag<Seq<u8>>)
    ensures
        err_bump(e, d).1 <==> e.error_count + 1 < MAX_ERROR_COUNT,
        err_bump(e, d).0.error_count == e.error_count + 1,
        err_bump(e, d).0.diags == e.diags.push(d),
{
}

/// A character constant of at most two bytes lands in memory in the order it was
/// written: its first byte at the lower address, a missing second byte as zero.
pub proof fn law_char_constant_order(lit: Seq<u8>)
    requires
        lit.len() <= 2,
    ensures
        lo(le_value(lit) as u16) == ch(lit, 0),
        hi(le_value(lit) as u16) == ch(lit, 1),
{
    lemma2_to64();
    reveal_with_fuel(le_value, 3);
    if lit.len() == 0 {
    } else if lit.len() == 1 {
        assert(lit.drop_last().len() == 0);
        assert(le_value(lit.drop_last()) == 0);
        assert((8 * (lit.len() - 1)) as nat == 0);
        assert(pow2(0) == 1);
        assert(le_value(lit) == lit[0] as nat);
    } else {
        assert(lit.drop_last().drop_last().len() == 0);
        assert(lit.drop_last().last() == lit[0]);
        assert(le_value(lit.drop_last().drop_last()) == 0);
        assert((8 * (lit.drop_last().len() - 1)) as nat == 0);
        assert((8 * (lit.len() - 1)) as nat == 8);
        assert(le_value(lit.drop_last()) == lit[0] as nat);
        assert(le_value(lit) == lit[0] as nat + lit[1] as nat * 256);
        let a = lit[0] as int;
        let b = lit[1] as int;
        assert((a + b * 256) % 256 == a && (a + b * 256) / 256 == b && a + b * 256 < 65536) by (nonlinear_arith)
            requires
                0 <= a < 256,
                0 <= b < 256,
        ;
    }
}

/// Big-endian and little-endian reading of a two-byte character constant are each
/// other's byte swap.
pub proof fn law_char_constant_endianness(lit: Seq<u8>)
    requires
        lit.len() == 2,
    ensures
        be_value(lit) == lit[0] as nat * 256 + lit[1] as nat,
        le_value(lit) == lit[1] as nat * 256 + lit[0] as nat,
{
    lemma2_to64();
    reveal_with_fuel(le_value, 3);
    reveal_with_fuel(be_value, 3);
    assert(lit.drop_last().drop_last().len() == 0);
    assert(lit.drop_last().last() == lit[0]);
    assert(be_value(lit.drop_last()) == lit[0] as nat);
    assert(le_value(lit.drop_last().drop_last()) == 0);
    assert((8 * (lit.drop_last().len() - 1)) as nat == 0);
    assert((8 * (lit.len() - 1)) as nat == 8);
    assert(le_value(lit.drop_last()) == lit[0] as nat);
}

/// `*e` in a literal stands for 4 (EOT).
pub proof fn law_escape_e(delim: u8, esc: u8)
    ensures
        escape_value('e' as u8, delim, esc) == Some(4u8),
{
}

/// An absolute operand that fits a byte takes the zero-page form where the
/// instruction has one: opcode and one operand byte.
pub proof fn law_zero_page_preferred(i: Instr, v: u16, s: GenState)
    requires
        v <= 0xFF,
        opcode_of(i, AddrMode::ZP) != INVL,
    ensures
        shape(i, OperandV { mode: AddrMode::ABS, arg8: None, arg16: Some(v), label: None }).mode == AddrMode::ZP,
        st_emit(s, i, shape(i, OperandV { mode: AddrMode::ABS, arg8: None, arg16: Some(v), label: None })).out == s.out.push(
            opcode_of(i, AddrMode::ZP),
        ).push(v as u8),
{
}

/// A label line of inline assembly emits no code.
pub proof fn law_label_line_emits_nothing(s: GenState, line: Seq<u8>, loc: crate::lexer::Loc)
    requires
        word_end(line, skip_ws(line, 0)) > skip_ws(line, 0),
        line[word_end(line, skip_ws(line, 0)) - 1] == ':' as u8,
    ensures
        st_assemble(s, line, loc).0.out == s.out,
{
    let p0 = skip_ws(line, 0);
    let p1 = word_end(line, p0);
    let lloc = super::assembly::at_offset(loc, p1);
    lemma_redef_scan_keeps(s, line.subrange(p0, p1 - 1), lloc, 0);
}

/// Whether relocation `r` patches the byte at `q`.
pub open spec fn in_room(r: RelocationV, q: int) -> bool {
    r.addr <= q < r.addr + (if r.kind.is16() { 2int } else { 1int })
}

/// No byte is patched by two relocations.
pub open spec fn rooms_disjoint(a: AsmV) -> bool {
    forall|j: int, k: int, q: int|
        #![trigger in_room(a.relocs[j], q), in_room(a.relocs[k], q)]
        0 <= j < a.relocs.len() && 0 <= k < a.relocs.len() && j != k ==> !(in_room(a.relocs[j], q) && in_room(
            a.relocs[k],
            q,
        ))
}

/// Whether applying `r` writes anything: all but a reference to a name that is
/// defined nowhere.
pub open spec fn writes(a: AsmV, r: RelocationV) -> bool {
    match r.kind {
        RelocKindV::External { name, .. } => find_external(a.externals, name, 0) is Some,
        _ => true,
    }
}

proof fn lemma_apply_one_frame(s: GenState, r: RelocationV, ds: u16)
    requires
        reloc_ok(s.assembler, r, s.out.len() as int),
    ensures
        st_apply_one(s, r, ds).out.len() == s.out.len(),
        st_apply_one(s, r, ds).assembler == s.assembler,
        forall|q: int| 0 <= q < s.out.len() && !in_room(r, q) ==> #[trigger] st_apply_one(s, r, ds).out[q] == s.out[q],
        !writes(s.assembler, r) ==> st_apply_one(s, r, ds).out == s.out,
{
}

proof fn lemma_apply_one_value(s1: GenState, s2: GenState, r: RelocationV, ds: u16)
    requires
        reloc_ok(s1.assembler, r, s1.out.len() as int),
        s1.assembler == s2.assembler,
        s1.out.len() == s2.out.len(),
        writes(s1.assembler, r),
    ensures
        forall|q: int| in_room(r, q) ==> #[trigger] st_apply_one(s1, r, ds).out[q] == st_apply_one(s2, r, ds).out[q],
{
}

proof fn lemma_apply_rooms(s0: GenState, s: GenState, ds: u16, i: int)
    requires
        0 <= i <= s0.assembler.relocs.len(),
        s.assembler == s0.assembler,
        s.out.len() == s0.out.len(),
        relocs_ok(s0.assembler, s0.out.len() as int),
        rooms_disjoint(s0.assembler),
        forall|j: int, q: int| 0 <= j < i && in_room(s0.assembler.relocs[j], q) ==> #[trigger] s.out[q]
            == #[trigger] st_apply_one(s0, s0.assembler.relocs[j], ds).out[q],
        forall|q: int| 0 <= q < s0.out.len() && (forall|j: int| 0 <= j < i ==> !in_room(#[trigger] s0.assembler.relocs[j], q))
            ==> #[trigger] s.out[q] == s0.out[q],
    ensures
        forall|j: int, q: int| 0 <= j < s0.assembler.relocs.len() && in_room(s0.assembler.relocs[j], q)
            ==> #[trigger] st_apply(s, ds, i).out[q] == #[trigger] st_apply_one(s0, s0.assembler.relocs[j], ds).out[q],
    decreases s0.assembler.relocs.len() - i,
{
    let a = s0.assembler;
    let n = a.relocs.len() as int;
    if i < n {
        let r = a.relocs[i];
        assert(reloc_ok(a, r, s0.out.len() as int));
        let s1 = st_apply_one(s, r, ds);
        lemma_apply_one_frame(s, r, ds);
        lemma_apply_one_frame(s0, r, ds);
        if writes(a, r) {
            lemma_apply_one_value(s, s0, r, ds);
        }
        assert forall|j: int, q: int| 0 <= j < i + 1 && in_room(a.relocs[j], q) implies #[trigger] s1.out[q]
            == #[trigger] st_apply_one(s0, a.relocs[j], ds).out[q] by {
            if j < i {
                assert(!in_room(a.relocs[i], q));
                assert(0 <= q < s.out.len()) by {
                    assert(reloc_ok(a, a.relocs[j], s0.out.len() as int));
                }
            } else {
                if !writes(a, r) {
                    assert(0 <= q < s.out.len());
                    assert forall|k: int| 0 <= k < i implies !in_room(#[trigger] a.relocs[k], q) by {
                        assert(!(in_room(a.relocs[k], q) && in_room(a.relocs[i], q)));
                    }
                }
            }
        }
        assert forall|q: int| 0 <= q < s0.out.len() && (forall|j: int| 0 <= j < i + 1 ==> !in_room(#[trigger] a.relocs[j], q))
            implies #[trigger] s1.out[q] == s0.out[q] by {
            assert(!in_room(a.relocs[i], q));
            assert forall|j: int| 0 <= j < i implies !in_room(#[trigger] a.relocs[j], q) by {
            }
        }
        lemma_apply_rooms(s0, s1, ds, i + 1);
        assert(st_apply(s, ds, i) == st_apply(s1, ds, i + 1));
    }
}

/// Linking fills the room of every relocation with what that relocation writes
/// (its address, or, for a name that is defined nowhere, nothing), provided no two
/// relocations share a byte.
pub proof fn law_link_fills_rooms(s: GenState, ds: u16)
    requires
        relocs_ok(s.assembler, s.out.len() as int),
        rooms_disjoint(s.assembler),
    ensures
        forall|j: int, q: int| 0 <= j < s.assembler.relocs.len() && in_room(s.assembler.relocs[j], q)
            ==> #[trigger] st_apply(s, ds, 0).out[q] == #[trigger] st_apply_one(s, s.assembler.relocs[j], ds).out[q],
{
    lemma_apply_rooms(s, s, ds, 0);
}

/// The 6502 reads a branch offset as a signed byte.
pub open spec fn signed_byte(b: u8) -> int {
    if b >= 128 { b - 256 } else { b as int }
}

/// A relative branch to an address label that linking accepts lands on the label:
/// the byte linking writes, read as a signed offset from the byte after it, leads
/// to the label's address.
pub proof fn law_branch_lands_on_label(s: GenState, r: RelocationV, idx: usize, ds: u16)
    requires
        r.kind == (RelocKindV::Address { idx, relative: true }),
        reloc_ok(s.assembler, r, s.out.len() as int),
    ensures
        wrap16(r.addr + 1 + signed_byte(st_apply_one(s, r, ds).out[r.addr as int])) == s.assembler.addresses[idx as int],
{
    let t = s.assembler.addresses[idx as int] as int;
    let c = r.addr as int;
    let b = st_apply_one(s, r, ds).out[c];
    let c1 = wrap16(c + 1) as int;
    let m = (t - c1) % 65536;
    let d = branch_distance(t as u16, c as u16);
    assert(b as int == (t - c - 1) % 256);
    assert(c1 == c + 1 || (c == 65535 && c1 == 0));
    assert(m == t - c1 || m == t - c1 + 65536);
    assert(-128 <= d < 128);
    // t - c - 1 and d differ by a multiple of 65536, so they agree modulo 256.
    let h: int = (t - c - 1 - d) / 65536;
    assert(t - c - 1 == d + 65536 * h);
    assert((t - c - 1) % 256 == (d + 256 * (256 * h)) % 256);
    vstd::arithmetic::div_mod::lemma_mod_multiples_vanish(256 * h, d, 256);
    assert(signed_byte(b) == d);
    assert(c + 1 + d == t - 65536 * h);
    vstd::arithmetic::div_mod::lemma_mod_multiples_vanish(-h, t, 65536);
    assert((t - 65536 * h) % 65536 == t % 65536);
}

/// A reference to a label of a function, once linked, holds the label's absolute
/// address: the start of the code plus the label's offset, modulo 2^16, read back
/// low byte first from the two bytes of its room.
pub proof fn law_label_reference_reads_back(s: GenState, r: RelocationV, func_name: Seq<u8>, label: usize, ds: u16)
    requires
        r.kind == (RelocKindV::Label { func_name, label }),
        reloc_ok(s.assembler, r, s.out.len() as int),
    ensures
        ({
            let o = st_apply_one(s, r, ds).out;
            let k = find_label(s.assembler.op_labels, func_name, label, 0)->0;
            o[r.addr as int] + 256 * o[r.addr + 1] == (s.assembler.code_start + s.assembler.op_labels[k].addr) % 65536
        }),
{
    let k = find_label(s.assembler.op_labels, func_name, label, 0)->0;
    let w = wrap16(s.assembler.code_start + s.assembler.op_labels[k].addr);
    law_word_bytes(w);
}

proof fn lemma_truncate16(x: usize)
    ensures
        (x as u16) as int == x as int % 65536,
{
    assert(x as u16 == (x % 65536) as u16) by (bit_vector);
}

/// Linking an absolute reference to a name writes the name's absolute address
/// plus the reference's offset, `code_start + addr + offset` modulo 2^16: as a word,
/// low byte first, or as its low or its high byte alone. So references to one name
/// with offsets 0 and 1 get addresses one apart.
pub proof fn law_external_reference_address(s: GenState, r: RelocationV, name: Seq<u8>, offset: usize, byte: Byte, ds: u16)
    requires
        r.kind == (RelocKindV::External { name, offset, byte, relative: false }),
        reloc_ok(s.assembler, r, s.out.len() as int),
        find_external(s.assembler.externals, name, 0) is Some,
    ensures
        ({
            let o = st_apply_one(s, r, ds).out;
            let k = find_external(s.assembler.externals, name, 0)->0;
            let f = (s.assembler.code_start + s.assembler.externals[k].addr + offset) % 65536;
            &&& byte == Byte::Both ==> o[r.addr as int] + 256 * o[r.addr + 1] == f
            &&& byte == Byte::Low ==> o[r.addr as int] == f % 256
            &&& byte == Byte::High ==> o[r.addr as int] == f / 256
        }),
{
    let k = find_external(s.assembler.externals, name, 0)->0;
    let x = s.assembler.code_start + s.assembler.externals[k].addr;
    lemma_truncate16(offset);
    vstd::arithmetic::div_mod::lemma_add_mod_noop(x, offset as int, 65536);
    vstd::arithmetic::div_mod::lemma_add_mod_noop(x, (offset as u16) as int, 65536);
    vstd::arithmetic::div_mod::lemma_mod_twice(offset as int, 65536);
    let w = wrap16(x + (offset as u16));
    assert(w as int == (x + offset) % 65536);
    law_word_bytes(w);
}

/// An initial value of a global that is an address in the data section appends a
/// word and one relocation for that word; once linked, the word holds
/// `data_start + off` modulo 2^16, the address of that value's own data.
pub proof fn law_data_value_links_to_its_offset(s: GenState, off: usize, vloc: crate::lexer::Loc, ds: u16)
    requires
        s.out.len() + 2 < 65536,
    ensures
        ({
            let (s1, ok) = st_value(s, ImmediateValue::DataOffset(off), vloc);
            let r = s1.assembler.relocs.last();
            let o = st_apply_one(s1, r, ds).out;
            &&& ok
            &&& s1.out.len() == s.out.len() + 2
            &&& s1.assembler.relocs.len() == s.assembler.relocs.len() + 1
            &&& r.addr == s.out.len()
            &&& o[r.addr as int] + 256 * o[r.addr + 1] == (ds + off) % 65536
        }),
{
    lemma_truncate16(off);
    vstd::arithmetic::div_mod::lemma_add_mod_noop(ds as int, off as int, 65536);
    vstd::arithmetic::div_mod::lemma_add_mod_noop(ds as int, (off as u16) as int, 65536);
    vstd::arithmetic::div_mod::lemma_mod_twice(off as int, 65536);
    let w = wrap16(ds + (off as u16));
    assert(w as int == (ds + off) % 65536);
    law_word_bytes(w);
}

/// Linking a reference into the data section writes `data_start + off` modulo 2^16:
/// as a word, low byte first, or as its low or its high byte alone.
pub proof fn law_data_reference_address(s: GenState, r: RelocationV, off: u16, byte: Byte, ds: u16)
    requires
        r.kind == (RelocKindV::DataOffset { off, byte }),
        reloc_ok(s.assembler, r, s.out.len() as int),
    ensures
        ({
            let o = st_apply_one(s, r, ds).out;
            let f = (ds + off) % 65536;
            &&& byte == Byte::Both ==> o[r.addr as int] + 256 * o[r.addr + 1] == f
            &&& byte == Byte::Low ==> o[r.addr as int] == f % 256
            &&& byte == Byte::High ==> o[r.addr as int] == f / 256
        }),
{
    law_word_bytes(wrap16(ds + off));
}

proof fn lemma_le_value_fits(lit: Seq<u8>)
    requires
        lit.len() <= 2,
    ensures
        le_value(lit) < 65536,
{
    lemma2_to64();
    reveal_with_fuel(le_value, 3);
    if lit.len() == 1 {
        assert(le_value(lit.drop_last()) == 0);
        assert((8 * (lit.len() - 1)) as nat == 0);
        assert(le_value(lit) == lit[0] as nat);
    } else if lit.len() == 2 {
        assert(lit.drop_last().last() == lit[0]);
        assert(le_value(lit.drop_last().drop_last()) == 0);
        assert((8 * (lit.drop_last().len() - 1)) as nat == 0);
        assert((8 * (lit.len() - 1)) as nat == 8);
        assert(le_value(lit.drop_last()) == lit[0] as nat);
        assert(le_value(lit) == lit[0] as nat + lit[1] as nat * 256);
    }
}

/// The word that a global's initial value of an integer or a character constant
/// appends, read back low byte first: the integer, the integer negated modulo
/// 2^16, or the constant's bytes with the first one low. Each appends two bytes and
/// nothing else.
pub proof fn law_global_constant_words(s: GenState, v: ImmediateValue, vloc: crate::lexer::Loc)
    requires
        match v {
            ImmediateValue::IntLiteral(lit, radix) => int_value(lit@, radix) <= u16::MAX,
            ImmediateValue::NegatedIntLiteral(lit, radix) => int_value(lit@, radix) <= u16::MAX,
            ImmediateValue::CharLiteral(lit) => lit@.len() <= 2,
            _ => false,
        },
    ensures
        ({
            let (s1, ok) = st_value(s, v, vloc);
            let n = s.out.len() as int;
            &&& ok
            &&& s1.out.len() == n + 2
            &&& s1.out.subrange(0, n) == s.out
            &&& s1.assembler == s.assembler
            &&& s1.errs == s.errs
            &&& s1.out[n] + 256 * s1.out[n + 1] == match v {
                ImmediateValue::IntLiteral(lit, radix) => int_value(lit@, radix) as int,
                ImmediateValue::NegatedIntLiteral(lit, radix) => (65536 - int_value(lit@, radix)) % 65536,
                ImmediateValue::CharLiteral(lit) => le_value(lit@) as int,
                _ => 0int,
            }
        }),
{
    let (s1, ok) = st_value(s, v, vloc);
    let n = s.out.len() as int;
    assert(s1.out.subrange(0, n) =~= s.out);
    match v {
        ImmediateValue::IntLiteral(lit, radix) => {
            law_word_bytes(int_value(lit@, radix) as u16);
        },
        ImmediateValue::NegatedIntLiteral(lit, radix) => {
            law_word_bytes(wrap16(0x10000 - int_value(lit@, radix)));
        },
        ImmediateValue::CharLiteral(lit) => {
            lemma_le_value_fits(lit@);
            law_word_bytes(le_value(lit@) as u16);
        },
        _ => {},
    }
}

/// A global's initial value that is a name appends a word that, once linked to a
/// name defined at `addr`, holds that name's absolute address `code_start + addr`
/// modulo 2^16.
pub proof fn law_global_name_links_to_its_address(s: GenState, name: Vec<u8>, vloc: crate::lexer::Loc, ds: u16)
    requires
        s.out.len() + 2 < 65536,
        find_external(s.assembler.externals, name@, 0) is Some,
    ensures
        ({
            let (s1, ok) = st_value(s, ImmediateValue::Name(name), vloc);
            let r = s1.assembler.relocs.last();
            let o = st_apply_one(s1, r, ds).out;
            let k = find_external(s.assembler.externals, name@, 0)->0;
            &&& ok
            &&& s1.out.len() == s.out.len() + 2
            &&& s1.assembler.relocs.len() == s.assembler.relocs.len() + 1
            &&& r.addr == s.out.len()
            &&& o[r.addr as int] + 256 * o[r.addr + 1] == (s.assembler.code_start + s.assembler.externals[k].addr) % 65536
        }),
{
    let k = find_external(s.assembler.externals, name@, 0)->0;
    law_word_bytes(wrap16(s.assembler.code_start + s.assembler.externals[k].addr + (0usize as u16)));
}

/// Linking an absolute jump to an address label writes the label's absolute
/// address, `code_start + address` modulo 2^16, low byte first.
pub proof fn law_address_reference_reads_back(s: GenState, r: RelocationV, idx: usize, ds: u16)
    requires
        r.kind == (RelocKindV::Address { idx, relative: false }),
        reloc_ok(s.assembler, r, s.out.len() as int),
    ensures
        ({
            let o = st_apply_one(s, r, ds).out;
            o[r.addr as int] + 256 * o[r.addr + 1] == (s.assembler.addresses[idx as int] + s.assembler.code_start) % 65536
        }),
{
    law_word_bytes(wrap16(s.assembler.addresses[idx as int] + s.assembler.code_start));
}

/// Linking a relative branch to a name writes the low byte of the distance from the
/// byte after the branch's operand (its place in the output) to the name's absolute
/// address plus the offset, `code_start + addr + offset` modulo 2^16.
pub proof fn law_external_branch_offset(s: GenState, r: RelocationV, name: Seq<u8>, offset: usize, byte: Byte, ds: u16)
    requires
        r.kind == (RelocKindV::External { name, offset, byte, relative: true }),
        reloc_ok(s.assembler, r, s.out.len() as int),
        find_external(s.assembler.externals, name, 0) is Some,
    ensures
        ({
            let o = st_apply_one(s, r, ds).out;
            let k = find_external(s.assembler.externals, name, 0)->0;
            let f = (s.assembler.code_start + s.assembler.externals[k].addr + offset) % 65536;
            o[r.addr as int] as int == (f - r.addr - 1) % 256
        }),
{
    let k = find_external(s.assembler.externals, name, 0)->0;
    let x = s.assembler.code_start + s.assembler.externals[k].addr;
    lemma_truncate16(offset);
    vstd::arithmetic::div_mod::lemma_add_mod_noop(x, offset as int, 65536);
    vstd::arithmetic::div_mod::lemma_add_mod_noop(x, (offset as u16) as int, 65536);
    vstd::arithmetic::div_mod::lemma_mod_twice(offset as int, 65536);
    let w = wrap16(x + (offset as u16));
    assert(w as int == (x + offset) % 65536);
}

} // verus!
