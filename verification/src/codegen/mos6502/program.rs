//! Code generation for a whole program: the entry code, the functions, the assembly
//! functions, the data section and the globals, then linking.
use vstd::prelude::*;
use crate::bytes::{bytes_eq, copy_bytes};
use crate::codegen_common::{parse_int_literal_to_u16, parse_char_literal_to_u16_le, int_value, le_value, digit_ok};
use crate::errors::MAX_ERROR_COUNT;
use crate::ir::{Func, Global, AsmFunc, ImmediateValue, Program};
use crate::lexer::Loc;
use super::opcodes::{Instr, AddrMode};
use super::assembler::{
    grows,Assembler, Errors, Diag, Byte, RelocationKind, RelocKindV, GenState, AsmV, ErrsV, gen_state, count_ok, diag_view, st_bump, st_reloc, st_word, st_new_label, st_link_here, st_add_external, e0, e3, op0, op3, add_reloc, add_external, write_word, create_address_label, link_address_label_here};
use super::emit::report;
use super::function::{st_function, generate_function, params_fit, op_ok, stmt_ok, st_stmts};
use super::link::{wrap16, relocs_ok, st_apply, relocations_ok, apply_relocations};

verus! {

/// The name of the entry function.
pub open spec fn main_name() -> Seq<u8> {
    seq!['m' as u8, 'a' as u8, 'i' as u8, 'n' as u8]
}

/// `generate_entry`: `JSR main`, then `JMP ($FFFC)` (the reset vector).
pub open spec fn st_entry(s: GenState) -> GenState {
    let s1 = st_reloc(e0(s, Instr::JSR, AddrMode::ABS), RelocKindV::External {
        name: main_name(),
        offset: 0,
        byte: Byte::Both,
        relative: false,
    });
    e3(s1, Instr::JMP, AddrMode::IND, 0xFFFC)
}

/// The entry code: a call of `main`, then a jump through the reset vector.
pub fn generate_entry(out: &mut Vec<u8>, assembler: &mut Assembler) -> (r: Option<()>)
    ensures
        grows(old(out)@, final(out)@),
        r is Some,
        forall|e: ErrsV| #![trigger gen_state(final(out)@, final(assembler)@, e)]
            st_entry(gen_state(old(out)@, old(assembler)@, e)) == gen_state(final(out)@, final(assembler)@, e),
        final(assembler).addresses@ == old(assembler).addresses@,
        final(assembler).code_start == old(assembler).code_start,
{
    let ghost o0 = out@;
    let ghost a0 = assembler@;
    op0(out, Instr::JSR, AddrMode::ABS);
    let ghost o1 = out@;
    let mut name: Vec<u8> = Vec::new();
    name.push('m' as u8);
    name.push('a' as u8);
    name.push('i' as u8);
    name.push('n' as u8);
    assert(name@ =~= main_name());
    let k = RelocationKind::External { name, offset: 0, byte: Byte::Both, relative: false };
    let ghost kv = k@;
    add_reloc(out, k, assembler);
    let ghost o2 = out@;
    op3(out, Instr::JMP, AddrMode::IND, 0xFFFC);
    proof {
        assert forall|e: ErrsV| #![trigger gen_state(out@, assembler@, e)]
            st_entry(gen_state(o0, a0, e)) == gen_state(out@, assembler@, e) by {
            assert(kv == RelocKindV::External { name: main_name(), offset: 0, byte: Byte::Both, relative: false });
            assert(st_reloc(gen_state(o1, a0, e), kv) == gen_state(o2, assembler@, e));
        }
    }
    Some(())
}

/// What generating a function needs of it.
pub open spec fn func_ok(f: Func) -> bool {
    &&& f.auto_vars_count * 2 < 256
    &&& params_fit(f.params_count, f.auto_vars_count * 2)
    &&& forall|k: int| 0 <= k < f.body@.len() ==> op_ok((#[trigger] f.body@[k]).opcode, (f.auto_vars_count * 2) as u8)
}

/// Address labels that the functions from `i` on may create.
pub open spec fn labels_needed(funcs: Seq<Func>, i: int) -> int
    decreases funcs.len() - i,
{
    if i < 0 || i >= funcs.len() {
        0
    } else {
        6 * (funcs[i].body@.len() + 1) + labels_needed(funcs, i + 1)
    }
}

/// `generate_funcs`: every function in turn; one that stops on too many errors does
/// not stop the others.
pub open spec fn st_funcs(s: GenState, funcs: Seq<Func>, i: int) -> GenState
    decreases funcs.len() - i,
{
    if i < 0 || i >= funcs.len() {
        s
    } else {
        let f = funcs[i];
        st_funcs(st_function(s, f.name@, f.name_loc, f.params_count, f.auto_vars_count, f.body@).0, funcs, i + 1)
    }
}

proof fn lemma_labels_needed(funcs: Seq<Func>, i: int)
    ensures
        labels_needed(funcs, i) >= 0,
    decreases funcs.len() - i,
{
    if 0 <= i < funcs.len() {
        lemma_labels_needed(funcs, i + 1);
    }
}

/// Generates every function. A function that stops on too many errors leaves its code
/// incomplete and the next function is generated all the same.
pub fn generate_funcs(out: &mut Vec<u8>, funcs: &Vec<Func>, assembler: &mut Assembler, errs: &mut Errors)
    requires
        forall|k: int| 0 <= k < funcs@.len() ==> func_ok(#[trigger] funcs@[k]),
        old(assembler).addresses@.len() + labels_needed(funcs@, 0) <= usize::MAX,
        old(errs).error_count + funcs@.len() + MAX_ERROR_COUNT < usize::MAX,
    ensures
        grows(old(out)@, final(out)@),
        st_funcs(gen_state(old(out)@, old(assembler)@, old(errs)@), funcs@, 0) == gen_state(final(out)@, final(assembler)@, final(errs)@),
        final(errs).error_count <= old(errs).error_count + funcs@.len() + MAX_ERROR_COUNT,
        final(assembler).code_start == old(assembler).code_start,
        final(assembler).addresses@.len() <= old(assembler).addresses@.len() + labels_needed(funcs@, 0),
{
    let ghost s0 = gen_state(out@, assembler@, errs@);
    let ghost c0 = errs.error_count;
    let ghost a0 = assembler.addresses@.len();
    let mut i: usize = 0;
    while i < funcs.len()
        invariant
            grows(old(out)@, out@),
            i <= funcs@.len(),
            forall|k: int| 0 <= k < funcs@.len() ==> func_ok(#[trigger] funcs@[k]),
            c0 + funcs@.len() + MAX_ERROR_COUNT < usize::MAX,
            errs.error_count <= c0 + i + MAX_ERROR_COUNT,
            a0 + labels_needed(funcs@, 0) <= usize::MAX,
            assembler.addresses@.len() + labels_needed(funcs@, i as int) <= a0 + labels_needed(funcs@, 0),
            assembler.code_start == s0.assembler.code_start,
            st_funcs(s0, funcs@, 0) == st_funcs(gen_state(out@, assembler@, errs@), funcs@, i as int),
        decreases funcs.len() - i,
    {
        let f = &funcs[i];
        proof {
            assert(func_ok(funcs@[i as int]));
            lemma_labels_needed(funcs@, i + 1);
        }
        let _ = generate_function(
            f.name.as_slice(),
            f.name_loc,
            f.params_count,
            f.auto_vars_count,
            f.body.as_slice(),
            out,
            assembler,
            errs,
        );
        i = i + 1;
    }
    proof {
        lemma_labels_needed(funcs@, 0);
    }
}

/// The assembly functions from `i` on: each is defined at the end of the output, then
/// its statements are assembled.
pub open spec fn st_asm_funcs(s: GenState, fs: Seq<AsmFunc>, i: int) -> (GenState, bool)
    decreases fs.len() - i,
{
    if i < 0 || i >= fs.len() {
        (s, true)
    } else {
        let (s1, ok) = st_add_external(s, fs[i].name@, s.out.len() as u16, fs[i].name_loc);
        if !ok {
            (s1, false)
        } else {
            let (s2, ok2) = st_stmts(s1, fs[i].body@, 0);
            if !ok2 {
                (s2, false)
            } else {
                st_asm_funcs(s2, fs, i + 1)
            }
        }
    }
}

/// What assembling a function needs of it.
pub open spec fn asm_func_ok(f: AsmFunc) -> bool {
    forall|k: int| 0 <= k < f.body@.len() ==> stmt_ok(#[trigger] f.body@[k])
}

fn gen_stmts_of(out: &mut Vec<u8>, f: &AsmFunc, assembler: &mut Assembler, errs: &mut Errors) -> (r: Option<()>)
    requires
        asm_func_ok(*f),
        old(errs).error_count < usize::MAX,
    ensures
        grows(old(out)@, final(out)@),
        st_stmts(gen_state(old(out)@, old(assembler)@, old(errs)@), f.body@, 0)
            == (gen_state(final(out)@, final(assembler)@, final(errs)@), r is Some),
        count_ok(old(errs).error_count, final(errs).error_count, r is Some),
        final(assembler).code_start == old(assembler).code_start,
        final(assembler).addresses@ == old(assembler).addresses@,
{
    let ghost s0 = gen_state(out@, assembler@, errs@);
    let ghost c0 = errs.error_count;
    let mut i: usize = 0;
    let mut failed = false;
    while i < f.body.len()
        invariant_except_break
            !failed,
            st_stmts(s0, f.body@, 0) == st_stmts(gen_state(out@, assembler@, errs@), f.body@, i as int),
            count_ok(c0, errs.error_count, true),
        invariant
            grows(old(out)@, out@),
            i <= f.body@.len(),
            c0 < usize::MAX,
            asm_func_ok(*f),
            count_ok(c0, errs.error_count, !failed),
            assembler.code_start == s0.assembler.code_start,
            assembler.addresses@ == s0.assembler.addresses,
        ensures
            st_stmts(s0, f.body@, 0) == (gen_state(out@, assembler@, errs@), !failed),
        decreases f.body.len() - i,
    {
        let stmt = &f.body[i];
        proof {
            assert(stmt_ok(f.body@[i as int]));
        }
        if super::assembly::assemble_statement(out, stmt.line.as_slice(), stmt.loc, assembler, errs).is_none() {
            failed = true;
            break;
        }
        i = i + 1;
    }
    if failed {
        None
    } else {
        Some(())
    }
}

/// Assembles the functions written in assembly: each is defined at the end of the
/// output, then its statements follow. `None` once there are too many errors.
pub fn generate_asm_funcs(out: &mut Vec<u8>, asm_funcs: &Vec<AsmFunc>, assembler: &mut Assembler, errs: &mut Errors) -> (r: Option<()>)
    requires
        forall|k: int| 0 <= k < asm_funcs@.len() ==> asm_func_ok(#[trigger] asm_funcs@[k]),
        old(errs).error_count < usize::MAX,
    ensures
        grows(old(out)@, final(out)@),
        st_asm_funcs(gen_state(old(out)@, old(assembler)@, old(errs)@), asm_funcs@, 0)
            == (gen_state(final(out)@, final(assembler)@, final(errs)@), r is Some),
        count_ok(old(errs).error_count, final(errs).error_count, r is Some),
        final(assembler).code_start == old(assembler).code_start,
        final(assembler).addresses@ == old(assembler).addresses@,
{
    let ghost s0 = gen_state(out@, assembler@, errs@);
    let ghost c0 = errs.error_count;
    let mut i: usize = 0;
    let mut failed = false;
    while i < asm_funcs.len()
        invariant_except_break
            !failed,
            st_asm_funcs(s0, asm_funcs@, 0) == st_asm_funcs(gen_state(out@, assembler@, errs@), asm_funcs@, i as int),
            count_ok(c0, errs.error_count, true),
        invariant
            grows(old(out)@, out@),
            i <= asm_funcs@.len(),
            c0 < usize::MAX,
            forall|k: int| 0 <= k < asm_funcs@.len() ==> asm_func_ok(#[trigger] asm_funcs@[k]),
            count_ok(c0, errs.error_count, !failed),
            assembler.code_start == s0.assembler.code_start,
            assembler.addresses@ == s0.assembler.addresses,
        ensures
            st_asm_funcs(s0, asm_funcs@, 0) == (gen_state(out@, assembler@, errs@), !failed),
        decreases asm_funcs.len() - i,
    {
        let f = &asm_funcs[i];
        proof {
            assert(asm_func_ok(asm_funcs@[i as int]));
        }
        let ghost s1 = gen_state(out@, assembler@, errs@);
        let fun_addr = out.len() as u16;
        let ok = add_external(f.name.as_slice(), fun_addr, f.name_loc, assembler, errs);
        assert(st_add_external(s1, f.name@, fun_addr, f.name_loc) == (gen_state(out@, assembler@, errs@), ok is Some));
        if ok.is_none() {
            failed = true;
            break;
        }
        if gen_stmts_of(out, f, assembler, errs).is_none() {
            failed = true;
            break;
        }
        i = i + 1;
    }
    if failed {
        None
    } else {
        Some(())
    }
}

/// `generate_extrns`: each declared external name (from entry `i` on) that no
/// function, global or assembly function defines is an error.
pub open spec fn st_extrns(
    s: GenState,
    extrns: Seq<Seq<u8>>,
    defined: Seq<Seq<u8>>,
    i: int,
) -> (GenState, bool)
    decreases extrns.len() - i,
{
    if i < 0 || i >= extrns.len() {
        (s, true)
    } else if defined.contains(extrns[i]) {
        st_extrns(s, extrns, defined, i + 1)
    } else {
        let (s1, ok) = st_bump(s, Diag::UnknownExtrn { name: extrns[i] });
        if !ok {
            (s1, false)
        } else {
            st_extrns(s1, extrns, defined, i + 1)
        }
    }
}

/// The names that a program defines: its functions, its globals, its assembly
/// functions, in that order.
pub open spec fn defined_names(p: Program) -> Seq<Seq<u8>> {
    p.funcs@.map_values(|f: Func| f.name@) + p.globals@.map_values(|g: Global| g.name@) + p.asm_funcs@.map_values(
        |f: AsmFunc| f.name@,
    )
}

fn is_defined(name: &[u8], funcs: &Vec<Func>, globals: &Vec<Global>, asm_funcs: &Vec<AsmFunc>) -> (r: bool)
    ensures
        r == (funcs@.map_values(|f: Func| f.name@) + globals@.map_values(|g: Global| g.name@) + asm_funcs@.map_values(
            |f: AsmFunc| f.name@,
        )).contains(name@),
{
    let ghost fs = funcs@.map_values(|f: Func| f.name@);
    let ghost gs = globals@.map_values(|g: Global| g.name@);
    let ghost hs = asm_funcs@.map_values(|f: AsmFunc| f.name@);
    let ghost all = fs + gs + hs;
    let mut j: usize = 0;
    while j < funcs.len()
        invariant
            j <= funcs@.len(),
            fs == funcs@.map_values(|f: Func| f.name@),
            gs == globals@.map_values(|g: Global| g.name@),
            hs == asm_funcs@.map_values(|f: AsmFunc| f.name@),
            all == fs + gs + hs,
            forall|k: int| 0 <= k < j ==> fs[k] != name@,
        decreases funcs.len() - j,
    {
        if bytes_eq(funcs[j].name.as_slice(), name) {
            assert(all[j as int] == name@);
            return true;
        }
        j = j + 1;
    }
    let mut j: usize = 0;
    while j < globals.len()
        invariant
            j <= globals@.len(),
            fs == funcs@.map_values(|f: Func| f.name@),
            gs == globals@.map_values(|g: Global| g.name@),
            hs == asm_funcs@.map_values(|f: AsmFunc| f.name@),
            all == fs + gs + hs,
            forall|k: int| 0 <= k < fs.len() ==> fs[k] != name@,
            forall|k: int| 0 <= k < j ==> gs[k] != name@,
        decreases globals.len() - j,
    {
        if bytes_eq(globals[j].name.as_slice(), name) {
            assert(all[fs.len() + j] == name@);
            return true;
        }
        j = j + 1;
    }
    let mut j: usize = 0;
    while j < asm_funcs.len()
        invariant
            j <= asm_funcs@.len(),
            fs == funcs@.map_values(|f: Func| f.name@),
            gs == globals@.map_values(|g: Global| g.name@),
            hs == asm_funcs@.map_values(|f: AsmFunc| f.name@),
            all == fs + gs + hs,
            forall|k: int| 0 <= k < fs.len() ==> fs[k] != name@,
            forall|k: int| 0 <= k < gs.len() ==> gs[k] != name@,
            forall|k: int| 0 <= k < j ==> hs[k] != name@,
        decreases asm_funcs.len() - j,
    {
        if bytes_eq(asm_funcs[j].name.as_slice(), name) {
            assert(all[fs.len() + gs.len() + j] == name@);
            return true;
        }
        j = j + 1;
    }
    assert forall|k: int| 0 <= k < all.len() implies all[k] != name@ by {
        if k < fs.len() {
        } else if k < fs.len() + gs.len() {
            assert(all[k] == gs[k - fs.len()]);
        } else {
            assert(all[k] == hs[k - fs.len() - gs.len()]);
        }
    }
    false
}

/// Checks that every declared external name is defined somewhere in the program; an
/// error for each that is not. `None` once there are too many errors.
pub fn generate_extrns(
    extrns: &Vec<Vec<u8>>,
    funcs: &Vec<Func>,
    globals: &Vec<Global>,
    asm_funcs: &Vec<AsmFunc>,
    errs: &mut Errors,
) -> (r: Option<()>)
    requires
        old(errs).error_count < usize::MAX,
    ensures
        forall|o: Seq<u8>, a: AsmV| #![trigger gen_state(o, a, final(errs)@)]
            st_extrns(
                gen_state(o, a, old(errs)@),
                extrns@.map_values(|v: Vec<u8>| v@),
                funcs@.map_values(|f: Func| f.name@) + globals@.map_values(|g: Global| g.name@) + asm_funcs@.map_values(
                    |f: AsmFunc| f.name@,
                ),
                0,
            ) == (gen_state(o, a, final(errs)@), r is Some),
        count_ok(old(errs).error_count, final(errs).error_count, r is Some),
{
    let ghost names = extrns@.map_values(|v: Vec<u8>| v@);
    let ghost defined = funcs@.map_values(|f: Func| f.name@) + globals@.map_values(|g: Global| g.name@)
        + asm_funcs@.map_values(|f: AsmFunc| f.name@);
    let ghost e0 = errs@;
    let ghost c0 = errs.error_count;
    let mut i: usize = 0;
    let mut failed = false;
    while i < extrns.len()
        invariant_except_break
            !failed,
            forall|o: Seq<u8>, a: AsmV| #![trigger gen_state(o, a, errs@)]
                st_extrns(gen_state(o, a, e0), names, defined, 0) == st_extrns(gen_state(o, a, errs@), names, defined, i as int),
            count_ok(c0, errs.error_count, true),
        invariant
            i <= extrns@.len(),
            names == extrns@.map_values(|v: Vec<u8>| v@),
            defined == funcs@.map_values(|f: Func| f.name@) + globals@.map_values(|g: Global| g.name@)
                + asm_funcs@.map_values(|f: AsmFunc| f.name@),
            c0 < usize::MAX,
            count_ok(c0, errs.error_count, !failed),
        ensures
            forall|o: Seq<u8>, a: AsmV| #![trigger gen_state(o, a, errs@)]
                st_extrns(gen_state(o, a, e0), names, defined, 0) == (gen_state(o, a, errs@), !failed),
        decreases extrns.len() - i,
    {
        let ghost eb = errs@;
        proof {
            assert(names[i as int] == extrns@[i as int]@);
        }
        if !is_defined(extrns[i].as_slice(), funcs, globals, asm_funcs) {
            let d = Diag::UnknownExtrn { name: copy_bytes(&extrns[i]) };
            let ok = report(errs, d);
            let ghost dv = Diag::UnknownExtrn { name: names[i as int] };
            assert(diag_view(d) == dv);
            assert(!defined.contains(names[i as int]));
            if ok.is_none() {
                failed = true;
                assert forall|o: Seq<u8>, a: AsmV| #![trigger gen_state(o, a, errs@)]
                    st_extrns(gen_state(o, a, e0), names, defined, 0) == (gen_state(o, a, errs@), !failed) by {
                    assert(st_extrns(gen_state(o, a, e0), names, defined, 0) == st_extrns(gen_state(o, a, eb), names, defined, i as int));
                    assert(st_bump(gen_state(o, a, eb), dv) == (gen_state(o, a, errs@), false));
                }
                break;
            }
            assert forall|o: Seq<u8>, a: AsmV| #![trigger gen_state(o, a, errs@)]
                st_extrns(gen_state(o, a, e0), names, defined, 0) == st_extrns(gen_state(o, a, errs@), names, defined, i + 1) by {
                assert(st_extrns(gen_state(o, a, e0), names, defined, 0) == st_extrns(gen_state(o, a, eb), names, defined, i as int));
                assert(st_bump(gen_state(o, a, eb), dv) == (gen_state(o, a, errs@), true));
            }
        }
        i = i + 1;
    }
    if failed {
        None
    } else {
        Some(())
    }
}

/// Appends the data section.
pub fn generate_data_section(out: &mut Vec<u8>, data: &Vec<u8>)
    ensures
        grows(old(out)@, final(out)@),
        final(out)@ == old(out)@ + data@,
{
    let ghost o0 = out@;
    let mut i: usize = 0;
    while i < data.len()
        invariant
            i <= data@.len(),
            out@ == o0 + data@.subrange(0, i as int),
        decreases data.len() - i,
    {
        out.push(data[i]);
        i = i + 1;
        proof {
            assert(out@ =~= o0 + data@.subrange(0, i as int));
        }
    }
    proof {
        assert(data@.subrange(0, data@.len() as int) =~= data@);
    }
}

/// One initial value of a global: a word, or room for an address to be linked. An
/// integer or character that does not fit 16 bits is an error and gives 0.
pub open spec fn st_value(s: GenState, v: ImmediateValue, vloc: Loc) -> (GenState, bool) {
    match v {
        ImmediateValue::IntLiteral(lit, radix) => if int_value(lit@, radix) <= u16::MAX {
            (st_word(s, int_value(lit@, radix) as u16), true)
        } else {
            let (s1, ok) = st_bump(s, Diag::GlobalConstantOutOfRange { loc: vloc, radix, literal: lit@ });
            if !ok { (s1, false) } else { (st_word(s1, 0), true) }
        },
        ImmediateValue::NegatedIntLiteral(lit, radix) => if int_value(lit@, radix) <= u16::MAX {
            (st_word(s, wrap16(0x10000 - int_value(lit@, radix))), true)
        } else {
            let (s1, ok) = st_bump(s, Diag::GlobalConstantOutOfRange { loc: vloc, radix, literal: lit@ });
            if !ok { (s1, false) } else { (st_word(s1, 0), true) }
        },
        ImmediateValue::CharLiteral(lit) => if lit@.len() <= 2 {
            (st_word(s, le_value(lit@) as u16), true)
        } else {
            let (s1, ok) = st_bump(s, Diag::GlobalCharOutOfRange { loc: vloc, literal: lit@ });
            if !ok { (s1, false) } else { (st_word(s1, 0), true) }
        },
        ImmediateValue::Name(name) => (st_reloc(s, RelocKindV::External {
            name: name@,
            offset: 0,
            byte: Byte::Both,
            relative: false,
        }), true),
        ImmediateValue::DataOffset(off) => (st_reloc(s, RelocKindV::DataOffset { off: off as u16, byte: Byte::Both }), true),
    }
}

/// The initial values from `j` on.
pub open spec fn st_values(s: GenState, vals: Seq<ImmediateValue>, locs: Seq<Loc>, j: int) -> (GenState, bool)
    decreases vals.len() - j,
{
    if j < 0 || j >= vals.len() {
        (s, true)
    } else {
        let (s1, ok) = st_value(s, vals[j], locs[j]);
        if !ok { (s1, false) } else { st_values(s1, vals, locs, j + 1) }
    }
}

/// `k` zero words.
pub open spec fn st_zeros(s: GenState, k: int) -> GenState
    decreases k,
{
    if k <= 0 { s } else { st_word(st_zeros(s, k - 1), 0) }
}

/// A global: its name is defined at the end of the output; a vector starts with its
/// own address (the word after it); then the initial values, then zero words up to
/// the minimum size.
pub open spec fn st_global(s: GenState, g: Global) -> (GenState, bool) {
    let (s1, ok) = st_add_external(s, g.name@, s.out.len() as u16, g.name_loc);
    let idx = s1.assembler.addresses.len() as int;
    let s2 = if g.is_vec {
        st_link_here(st_reloc(st_new_label(s1), RelocKindV::Address { idx: idx as usize, relative: false }), idx)
    } else {
        s1
    };
    let (s3, ok3) = st_values(s2, g.values@, g.value_locs@, 0);
    if !ok {
        (s1, false)
    } else if !ok3 {
        (s3, false)
    } else {
        (st_zeros(s3, g.minimum_size - g.values@.len()), true)
    }
}

/// The globals from `i` on.
pub open spec fn st_globals(s: GenState, gs: Seq<Global>, i: int) -> (GenState, bool)
    decreases gs.len() - i,
{
    if i < 0 || i >= gs.len() {
        (s, true)
    } else {
        let (s1, ok) = st_global(s, gs[i]);
        if !ok { (s1, false) } else { st_globals(s1, gs, i + 1) }
    }
}

/// What generating a global needs of it: a location for each value, digits in its
/// integer values.
pub open spec fn global_ok(g: Global) -> bool {
    &&& g.value_locs@.len() >= g.values@.len()
    &&& forall|j: int| 0 <= j < g.values@.len() ==> match #[trigger] g.values@[j] {
        ImmediateValue::IntLiteral(lit, radix) => forall|k: int| 0 <= k < lit@.len() ==> digit_ok(#[trigger] lit@[k], radix),
        ImmediateValue::NegatedIntLiteral(lit, radix) => forall|k: int| 0 <= k < lit@.len() ==> digit_ok(#[trigger] lit@[k], radix),
        _ => true,
    }
}

fn gen_value(out: &mut Vec<u8>, v: &ImmediateValue, vloc: Loc, assembler: &mut Assembler, errs: &mut Errors) -> (r: Option<()>)
    requires
        match *v {
            ImmediateValue::IntLiteral(lit, radix) => forall|k: int| 0 <= k < lit@.len() ==> digit_ok(#[trigger] lit@[k], radix),
            ImmediateValue::NegatedIntLiteral(lit, radix) => forall|k: int| 0 <= k < lit@.len() ==> digit_ok(#[trigger] lit@[k], radix),
            _ => true,
        },
        old(errs).error_count < usize::MAX,
    ensures
        grows(old(out)@, final(out)@),
        st_value(gen_state(old(out)@, old(assembler)@, old(errs)@), *v, vloc)
            == (gen_state(final(out)@, final(assembler)@, final(errs)@), r is Some),
        count_ok(old(errs).error_count, final(errs).error_count, r is Some),
        final(assembler).code_start == old(assembler).code_start,
        final(assembler).addresses@ == old(assembler).addresses@,
{
    let ghost s0 = gen_state(out@, assembler@, errs@);
    match v {
        ImmediateValue::IntLiteral(lit, radix) | ImmediateValue::NegatedIntLiteral(lit, radix) => {
            let negated = match v {
                ImmediateValue::NegatedIntLiteral(_, _) => true,
                _ => false,
            };
            let value: u16 = match parse_int_literal_to_u16(lit.as_slice(), *radix) {
                Ok(x) => if negated {
                    ((0x10000u32 - x as u32) % 65536) as u16
                } else {
                    x
                },
                Err(()) => {
                    let d = Diag::GlobalConstantOutOfRange { loc: vloc, radix: *radix, literal: copy_bytes(lit) };
                    let ok = report(errs, d);
                    assert(st_bump(s0, diag_view(d)) == (gen_state(out@, assembler@, errs@), ok is Some));
                    if ok.is_none() {
                        return None;
                    }
                    0
                },
            };
            write_word(out, value);
        },
        ImmediateValue::CharLiteral(lit) => {
            let value: u16 = match parse_char_literal_to_u16_le(lit.as_slice()) {
                Ok(x) => x,
                Err(()) => {
                    let d = Diag::GlobalCharOutOfRange { loc: vloc, literal: copy_bytes(lit) };
                    let ok = report(errs, d);
                    assert(st_bump(s0, diag_view(d)) == (gen_state(out@, assembler@, errs@), ok is Some));
                    if ok.is_none() {
                        return None;
                    }
                    0
                },
            };
            write_word(out, value);
        },
        ImmediateValue::Name(name) => {
            let k = RelocationKind::External { name: copy_bytes(name), offset: 0, byte: Byte::Both, relative: false };
            add_reloc(out, k, assembler);
            assert(gen_state(out@, assembler@, errs@) == st_reloc(s0, k@));
        },
        ImmediateValue::DataOffset(off) => {
            let k = RelocationKind::DataOffset { off: *off as u16, byte: Byte::Both };
            add_reloc(out, k, assembler);
            assert(gen_state(out@, assembler@, errs@) == st_reloc(s0, k@));
        },
    }
    Some(())
}

fn gen_values(out: &mut Vec<u8>, g: &Global, assembler: &mut Assembler, errs: &mut Errors) -> (r: Option<()>)
    requires
        global_ok(*g),
        old(errs).error_count < usize::MAX,
    ensures
        grows(old(out)@, final(out)@),
        st_values(gen_state(old(out)@, old(assembler)@, old(errs)@), g.values@, g.value_locs@, 0)
            == (gen_state(final(out)@, final(assembler)@, final(errs)@), r is Some),
        count_ok(old(errs).error_count, final(errs).error_count, r is Some),
        final(assembler).code_start == old(assembler).code_start,
        final(assembler).addresses@ == old(assembler).addresses@,
{
    let ghost s0 = gen_state(out@, assembler@, errs@);
    let ghost c0 = errs.error_count;
    let mut j: usize = 0;
    let mut failed = false;
    while j < g.values.len()
        invariant_except_break
            !failed,
            st_values(s0, g.values@, g.value_locs@, 0) == st_values(gen_state(out@, assembler@, errs@), g.values@, g.value_locs@, j as int),
            count_ok(c0, errs.error_count, true),
        invariant
            grows(old(out)@, out@),
            j <= g.values@.len(),
            global_ok(*g),
            c0 < usize::MAX,
            count_ok(c0, errs.error_count, !failed),
            assembler.code_start == s0.assembler.code_start,
            assembler.addresses@ == s0.assembler.addresses,
        ensures
            st_values(s0, g.values@, g.value_locs@, 0) == (gen_state(out@, assembler@, errs@), !failed),
        decreases g.values.len() - j,
    {
        proof {
            assert(match g.values@[j as int] {
                ImmediateValue::IntLiteral(lit, radix) => forall|k: int| 0 <= k < lit@.len() ==> digit_ok(#[trigger] lit@[k], radix),
                ImmediateValue::NegatedIntLiteral(lit, radix) => forall|k: int| 0 <= k < lit@.len() ==> digit_ok(#[trigger] lit@[k], radix),
                _ => true,
            });
        }
        if gen_value(out, &g.values[j], g.value_locs[j], assembler, errs).is_none() {
            failed = true;
            break;
        }
        j = j + 1;
    }
    if failed {
        None
    } else {
        Some(())
    }
}

fn gen_global(out: &mut Vec<u8>, g: &Global, assembler: &mut Assembler, errs: &mut Errors) -> (r: Option<()>)
    requires
        global_ok(*g),
        old(assembler).addresses@.len() < usize::MAX,
        old(errs).error_count < usize::MAX,
    ensures
        grows(old(out)@, final(out)@),
        st_global(gen_state(old(out)@, old(assembler)@, old(errs)@), *g)
            == (gen_state(final(out)@, final(assembler)@, final(errs)@), r is Some),
        count_ok(old(errs).error_count, final(errs).error_count, r is Some),
        final(assembler).code_start == old(assembler).code_start,
        old(assembler).addresses@.len() <= final(assembler).addresses@.len() <= old(assembler).addresses@.len() + 1,
{
    let ghost s0 = gen_state(out@, assembler@, errs@);
    let addr = out.len() as u16;
    let ok = add_external(g.name.as_slice(), addr, g.name_loc, assembler, errs);
    assert(st_add_external(s0, g.name@, addr, g.name_loc) == (gen_state(out@, assembler@, errs@), ok is Some));
    if ok.is_none() {
        return None;
    }
    let ghost s1 = gen_state(out@, assembler@, errs@);
    if g.is_vec {
        let address = create_address_label(assembler);
        let ghost s1b = gen_state(out@, assembler@, errs@);
        assert(s1b == st_new_label(s1));
        let k = RelocationKind::Address { idx: address, relative: false };
        add_reloc(out, k, assembler);
        let ghost s1c = gen_state(out@, assembler@, errs@);
        assert(s1c == st_reloc(s1b, k@));
        link_address_label_here(address, out, assembler);
        assert(gen_state(out@, assembler@, errs@) == st_link_here(s1c, address as int));
    }
    if gen_values(out, g, assembler, errs).is_none() {
        return None;
    }
    let ghost s3 = gen_state(out@, assembler@, errs@);
    let mut k = g.values.len();
    while k < g.minimum_size
        invariant
            grows(old(out)@, out@),
            g.values@.len() <= k,
            k <= g.minimum_size || k == g.values@.len(),
            gen_state(out@, assembler@, errs@) == st_zeros(s3, k - g.values@.len()),
        decreases g.minimum_size - k,
    {
        write_word(out, 0);
        k = k + 1;
    }
    Some(())
}

/// Generates the globals: each is defined at the end of the output, a vector starts
/// with its own address, then come the initial values and zero words up to the
/// minimum size. `None` once there are too many errors.
pub fn generate_globals(out: &mut Vec<u8>, globals: &Vec<Global>, assembler: &mut Assembler, errs: &mut Errors) -> (r: Option<()>)
    requires
        forall|k: int| 0 <= k < globals@.len() ==> global_ok(#[trigger] globals@[k]),
        old(assembler).addresses@.len() + globals@.len() <= usize::MAX,
        old(errs).error_count < usize::MAX,
    ensures
        grows(old(out)@, final(out)@),
        st_globals(gen_state(old(out)@, old(assembler)@, old(errs)@), globals@, 0)
            == (gen_state(final(out)@, final(assembler)@, final(errs)@), r is Some),
        count_ok(old(errs).error_count, final(errs).error_count, r is Some),
        final(assembler).code_start == old(assembler).code_start,
{
    let ghost s0 = gen_state(out@, assembler@, errs@);
    let ghost c0 = errs.error_count;
    let mut i: usize = 0;
    let mut failed = false;
    while i < globals.len()
        invariant_except_break
            !failed,
            st_globals(s0, globals@, 0) == st_globals(gen_state(out@, assembler@, errs@), globals@, i as int),
            count_ok(c0, errs.error_count, true),
            assembler.addresses@.len() <= s0.assembler.addresses.len() + i,
        invariant
            grows(old(out)@, out@),
            i <= globals@.len(),
            forall|k: int| 0 <= k < globals@.len() ==> global_ok(#[trigger] globals@[k]),
            s0.assembler.addresses.len() + globals@.len() <= usize::MAX,
            c0 < usize::MAX,
            count_ok(c0, errs.error_count, !failed),
            assembler.code_start == s0.assembler.code_start,
        ensures
            st_globals(s0, globals@, 0) == (gen_state(out@, assembler@, errs@), !failed),
        decreases globals.len() - i,
    {
        proof {
            assert(global_ok(globals@[i as int]));
        }
        if gen_global(out, &globals[i], assembler, errs).is_none() {
            failed = true;
            break;
        }
        i = i + 1;
    }
    if failed {
        None
    } else {
        Some(())
    }
}

/// The state of an assembler before any code was generated.
pub open spec fn empty_asm() -> AsmV {
    AsmV {
        relocs: Seq::empty(),
        op_labels: Seq::empty(),
        externals: Seq::empty(),
        addresses: Seq::empty(),
        code_start: 0,
        frame_sz: 0,
    }
}

/// Generating a program up to linking: the entry code, the functions, the assembly
/// functions, the check of the external names, the data section, the globals. The
/// state, whether generating went through, and the address of the data section.
pub open spec fn st_program(p: Program, load_offset: u64, e: ErrsV) -> (GenState, bool, u16) {
    let s1 = st_entry(gen_state(Seq::empty(), empty_asm(), e));
    let s2 = st_funcs(GenState { assembler: AsmV { code_start: load_offset as u16, ..s1.assembler }, ..s1 }, p.funcs@, 0);
    let (s3, ok3) = st_asm_funcs(s2, p.asm_funcs@, 0);
    let (s4, ok4) = st_extrns(s3, p.extrns@.map_values(|v: Vec<u8>| v@), defined_names(p), 0);
    let data_start = wrap16(load_offset as u16 + s4.out.len() as u16);
    let (s6, ok6) = st_globals(GenState { out: s4.out + p.data@, ..s4 }, p.globals@, 0);
    if !ok3 {
        (s3, false, data_start)
    } else if !ok4 {
        (s4, false, data_start)
    } else if !ok6 {
        (s6, false, data_start)
    } else {
        (s6, true, data_start)
    }
}

/// The image that `generate_program` gives, and the errors: `None` where generating
/// stopped on too many errors, or where a relocation cannot be applied.
pub open spec fn program_image(p: Program, load_offset: u64, e: ErrsV) -> (Option<Seq<u8>>, ErrsV) {
    let (s, ok, data_start) = st_program(p, load_offset, e);
    if !ok || !relocs_ok(s.assembler, s.out.len() as int) {
        (None, s.errs)
    } else {
        let s1 = st_apply(s, data_start, 0);
        (Some(s1.out), s1.errs)
    }
}

/// What generating a program needs of it.
pub open spec fn program_ok(p: Program, error_count: usize) -> bool {
    &&& forall|k: int| 0 <= k < p.funcs@.len() ==> func_ok(#[trigger] p.funcs@[k])
    &&& forall|k: int| 0 <= k < p.asm_funcs@.len() ==> asm_func_ok(#[trigger] p.asm_funcs@[k])
    &&& forall|k: int| 0 <= k < p.globals@.len() ==> global_ok(#[trigger] p.globals@[k])
    &&& labels_needed(p.funcs@, 0) + p.globals@.len() <= usize::MAX
    &&& error_count + p.funcs@.len() + MAX_ERROR_COUNT < usize::MAX
}

/// An optional byte vector taken as an optional sequence.
pub open spec fn opt_seq(r: Option<Vec<u8>>) -> Option<Seq<u8>> {
    match r {
        Some(v) => Some(v@),
        None => None,
    }
}

/// Generates the 6502 image of a program loaded at `load_offset`: the entry code, the
/// functions, the assembly functions, the data section and the globals, then links
/// it. `None` where generating stopped on too many errors, or where a relocation
/// names a label that no function defines or branches further than a relative branch
/// reaches.
pub fn generate_program(p: &Program, load_offset: u64, errs: &mut Errors) -> (r: Option<Vec<u8>>)
    requires
        program_ok(*p, old(errs).error_count),
    ensures
        (opt_seq(r), final(errs)@) == program_image(*p, load_offset, old(errs)@),
{
    let mut out: Vec<u8> = Vec::new();
    let mut assembler = Assembler {
        relocs: Vec::new(),
        op_labels: Vec::new(),
        externals: Vec::new(),
        addresses: Vec::new(),
        code_start: 0,
        frame_sz: 0,
    };
    let ghost s0 = gen_state(out@, assembler@, errs@);
    proof {
        assert(assembler@.relocs =~= Seq::<super::assembler::RelocationV>::empty());
        assert(assembler@.op_labels =~= Seq::<super::assembler::LabelV>::empty());
        assert(assembler@.externals =~= Seq::<super::assembler::ExternalV>::empty());
        assert(assembler@.addresses =~= Seq::<u16>::empty());
        assert(out@ =~= Seq::<u8>::empty());
    }
    assert(s0 == gen_state(Seq::empty(), empty_asm(), errs@));
    generate_entry(&mut out, &mut assembler);
    assert(gen_state(out@, assembler@, errs@) == st_entry(s0));
    assembler.code_start = load_offset as u16;
    let ghost s1 = gen_state(out@, assembler@, errs@);
    proof {
        lemma_labels_needed(p.funcs@, 0);
    }
    generate_funcs(&mut out, &p.funcs, &mut assembler, errs);
    let ghost s2 = gen_state(out@, assembler@, errs@);
    assert(s2 == st_funcs(s1, p.funcs@, 0));
    let ok3 = generate_asm_funcs(&mut out, &p.asm_funcs, &mut assembler, errs);
    if ok3.is_none() {
        return None;
    }
    let ghost s3 = gen_state(out@, assembler@, errs@);
    let ok4 = generate_extrns(&p.extrns, &p.funcs, &p.globals, &p.asm_funcs, errs);
    assert(st_extrns(s3, p.extrns@.map_values(|v: Vec<u8>| v@), defined_names(*p), 0) == (gen_state(out@, assembler@, errs@), ok4 is Some));
    if ok4.is_none() {
        return None;
    }
    let data_start = ((load_offset as u16 as u32 + out.len() as u16 as u32) % 65536) as u16;
    generate_data_section(&mut out, &p.data);
    let ok6 = generate_globals(&mut out, &p.globals, &mut assembler, errs);
    if ok6.is_none() {
        return None;
    }
    if !super::link::relocations_ok(&out, &assembler) {
        return None;
    }
    apply_relocations(&mut out, data_start, &assembler, errs);
    Some(out)
}

} // verus!
