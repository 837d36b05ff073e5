//! Linking: patching each relocation with the address it stands for.
use vstd::prelude::*;
use crate::bytes::{bytes_eq, copy_bytes};
use super::assembler::{Assembler, Errors, Diag, Byte, RelocationKind, RelocKindV, RelocationV, LabelV, ExternalV, GenState, AsmV, gen_state, lemma_map_push, diag_view, st_note, lo, hi, write_byte_at, write_word_at};

verus! {

/// A 16-bit address computation, wrapping around as the 6502 does.
pub open spec fn wrap16(x: int) -> u16 {
    (x % 65536) as u16
}

/// The first label of function `name` numbered `label`, from entry `i` on.
pub open spec fn find_label(labels: Seq<LabelV>, name: Seq<u8>, label: usize, i: int) -> Option<int>
    decreases labels.len() - i,
{
    if i < 0 || i >= labels.len() {
        None
    } else if labels[i].func_name == name && labels[i].label == label {
        Some(i)
    } else {
        find_label(labels, name, label, i + 1)
    }
}

/// The first definition of `name`, from entry `i` on.
pub open spec fn find_external(exts: Seq<ExternalV>, name: Seq<u8>, i: int) -> Option<int>
    decreases exts.len() - i,
{
    if i < 0 || i >= exts.len() {
        None
    } else if exts[i].name == name {
        Some(i)
    } else {
        find_external(exts, name, i + 1)
    }
}

/// The distance of a relative branch at `caddr` to `target`, as a signed 16-bit number.
pub open spec fn branch_distance(target: u16, caddr: u16) -> int {
    let d = (target as int - wrap16(caddr + 1) as int) % 65536;
    if d >= 32768 { d - 65536 } else { d }
}

/// A relocation can be applied: what it patches lies in the output, a label it
/// names exists, a relative branch to an address label reaches it.
pub open spec fn reloc_ok(a: AsmV, r: RelocationV, len: int) -> bool {
    &&& (if r.kind.is16() { r.addr < 0xFFFF && r.addr + 2 <= len } else { r.addr + 1 <= len })
    &&& match r.kind {
        RelocKindV::Label { func_name, label } => find_label(a.op_labels, func_name, label, 0) is Some,
        RelocKindV::Address { idx, relative } => {
            &&& idx < a.addresses.len()
            &&& relative ==> -128 <= branch_distance(a.addresses[idx as int], r.addr) < 128
        },
        _ => true,
    }
}

/// Every relocation can be applied.
pub open spec fn relocs_ok(a: AsmV, len: int) -> bool {
    forall|i: int| 0 <= i < a.relocs.len() ==> reloc_ok(a, #[trigger] a.relocs[i], len)
}

/// A byte or a word, as `byte` says, written at `addr`.
pub open spec fn patch(out: Seq<u8>, addr: u16, byte: Byte, v: u16) -> Seq<u8> {
    match byte {
        Byte::Low => out.update(addr as int, lo(v)),
        Byte::High => out.update(addr as int, hi(v)),
        Byte::Both => out.update(addr as int, lo(v)).update(addr + 1, hi(v)),
    }
}

/// Applying one relocation. A word is written low byte first. A relative branch
/// gets the low byte of `target - caddr - 1`; for a branch to an external name the
/// target is `code_start + addr + offset`, while `caddr` is the branch's place in
/// the output, with no `code_start` added.
pub open spec fn st_apply_one(s: GenState, r: RelocationV, data_start: u16) -> GenState {
    let a = s.assembler;
    let caddr = r.addr;
    match r.kind {
        RelocKindV::DataOffset { off, byte } => GenState { out: patch(s.out, caddr, byte, wrap16(data_start + off)), ..s },
        RelocKindV::Label { func_name, label } => match find_label(a.op_labels, func_name, label, 0) {
            Some(k) => GenState { out: patch(s.out, caddr, Byte::Both, wrap16(a.code_start + a.op_labels[k].addr)), ..s },
            None => s,
        },
        RelocKindV::External { name, offset, byte, relative } => match find_external(a.externals, name, 0) {
            Some(k) => {
                let faddr = wrap16(a.code_start + a.externals[k].addr + (offset as u16));
                if relative {
                    GenState { out: s.out.update(caddr as int, ((faddr - caddr - 1) % 256) as u8), ..s }
                } else {
                    GenState { out: patch(s.out, caddr, byte, faddr), ..s }
                }
            },
            None => st_note(s, Diag::ExtrnNotFound { name }),
        },
        RelocKindV::Address { idx, relative } => {
            if relative {
                GenState { out: s.out.update(caddr as int, ((a.addresses[idx as int] - caddr - 1) % 256) as u8), ..s }
            } else {
                GenState { out: patch(s.out, caddr, Byte::Both, wrap16(a.addresses[idx as int] + a.code_start)), ..s }
            }
        },
    }
}

/// Applying the relocations from `i` on, in order.
pub open spec fn st_apply(s: GenState, data_start: u16, i: int) -> GenState
    decreases s.assembler.relocs.len() - i,
{
    if i < 0 || i >= s.assembler.relocs.len() {
        s
    } else {
        st_apply(st_apply_one(s, s.assembler.relocs[i], data_start), data_start, i + 1)
    }
}

fn wrap16_exec(x: u32) -> (r: u16)
    ensures
        r == wrap16(x as int),
{
    (x % 65536) as u16
}

fn patch_exec(out: &mut Vec<u8>, addr: u16, byte: Byte, v: u16)
    requires
        byte == Byte::Both ==> addr < 0xFFFF && addr + 2 <= old(out)@.len(),
        addr + 1 <= old(out)@.len(),
    ensures
        final(out)@ == patch(old(out)@, addr, byte, v),
{
    match byte {
        Byte::Low => write_byte_at(out, (v % 256) as u8, addr),
        Byte::High => write_byte_at(out, (v / 256) as u8, addr),
        Byte::Both => write_word_at(out, v, addr),
    }
}

fn find_label_exec(labels: &Vec<super::assembler::Label>, name: &[u8], label: usize) -> (r: Option<usize>)
    ensures
        r matches Some(k) ==> Some(k as int) == find_label(labels@.map_values(|l: super::assembler::Label| l@), name@, label, 0),
        r is None ==> find_label(labels@.map_values(|l: super::assembler::Label| l@), name@, label, 0) is None,
        r matches Some(k) ==> k < labels@.len(),
{
    let ghost ls = labels@.map_values(|l: super::assembler::Label| l@);
    let mut i: usize = 0;
    while i < labels.len()
        invariant
            i <= labels@.len() == ls.len(),
            ls == labels@.map_values(|l: super::assembler::Label| l@),
            find_label(ls, name@, label, i as int) == find_label(ls, name@, label, 0),
        decreases labels.len() - i,
    {
        if bytes_eq(labels[i].func_name.as_slice(), name) && labels[i].label == label {
            return Some(i);
        }
        i = i + 1;
    }
    None
}

fn find_external_exec(exts: &Vec<super::assembler::External>, name: &[u8]) -> (r: Option<usize>)
    ensures
        r matches Some(k) ==> Some(k as int) == find_external(exts@.map_values(|e: super::assembler::External| e@), name@, 0),
        r is None ==> find_external(exts@.map_values(|e: super::assembler::External| e@), name@, 0) is None,
        r matches Some(k) ==> k < exts@.len(),
{
    let ghost es = exts@.map_values(|e: super::assembler::External| e@);
    let mut i: usize = 0;
    while i < exts.len()
        invariant
            i <= exts@.len() == es.len(),
            es == exts@.map_values(|e: super::assembler::External| e@),
            find_external(es, name@, i as int) == find_external(es, name@, 0),
        decreases exts.len() - i,
    {
        if bytes_eq(exts[i].name.as_slice(), name) {
            return Some(i);
        }
        i = i + 1;
    }
    None
}

/// The low byte of `x - caddr - 1`: a relative branch offset, as the 6502 reads it.
fn rel_byte(x: u16, caddr: u16) -> (r: u8)
    ensures
        r == ((x - caddr - 1) % 256) as u8,
{
    let t: u32 = x as u32 + 0x10000 - caddr as u32 - 1;
    assert(t % 256 == (x - caddr - 1) % 256) by (nonlinear_arith)
        requires
            t == x + 0x10000 - caddr - 1,
    ;
    (t % 256) as u8
}

/// Whether every relocation can be applied (see `relocs_ok`).
pub fn relocations_ok(out: &Vec<u8>, assembler: &Assembler) -> (r: bool)
    ensures
        r == relocs_ok(assembler@, out@.len() as int),
{
    let ghost a = assembler@;
    let len = out.len();
    let mut i: usize = 0;
    while i < assembler.relocs.len()
        invariant
            a == assembler@,
            len == out@.len(),
            i <= assembler.relocs@.len(),
            forall|k: int| 0 <= k < i ==> reloc_ok(a, #[trigger] a.relocs[k], len as int),
        decreases assembler.relocs.len() - i,
    {
        let r = &assembler.relocs[i];
        proof {
            assert(a.relocs[i as int] == r@);
        }
        let fits = if r.kind.is16() {
            r.addr < 0xFFFF && (r.addr as usize) + 2 <= len
        } else {
            (r.addr as usize) + 1 <= len
        };
        if !fits {
            return false;
        }
        let ok = match &r.kind {
            RelocationKind::Label { func_name, label } => find_label_exec(&assembler.op_labels, func_name.as_slice(), *label).is_some(),
            RelocationKind::Address { idx, relative } => {
                if *idx >= assembler.addresses.len() {
                    false
                } else if *relative {
                    let target = assembler.addresses[*idx];
                    let c1 = wrap16_exec(r.addr as u32 + 1);
                    let d: u32 = (target as u32 + 0x10000 - c1 as u32) % 0x10000;
                    assert(d == (target as int - c1 as int) % 65536) by (nonlinear_arith)
                        requires
                            d == (target + 0x10000 - c1) % 0x10000,
                    ;
                    d < 128 || d >= 65408
                } else {
                    true
                }
            },
            _ => true,
        };
        if !ok {
            return false;
        }
        i = i + 1;
    }
    true
}

fn apply_one(out: &mut Vec<u8>, r: &super::assembler::Relocation, data_start: u16, assembler: &Assembler, errs: &mut Errors)
    requires
        reloc_ok(assembler@, r@, old(out)@.len() as int),
    ensures
        st_apply_one(gen_state(old(out)@, assembler@, old(errs)@), r@, data_start) == gen_state(final(out)@, assembler@, final(errs)@),
        final(errs).error_count == old(errs).error_count,
        final(out)@.len() == old(out)@.len(),
{
    let ghost a = assembler@;
    let caddr = r.addr;
    match &r.kind {
        RelocationKind::DataOffset { off, byte } => {
            patch_exec(out, caddr, *byte, wrap16_exec(data_start as u32 + *off as u32));
        },
        RelocationKind::Label { func_name, label } => {
            if let Some(k) = find_label_exec(&assembler.op_labels, func_name.as_slice(), *label) {
                proof {
                    assert(a.op_labels[k as int] == assembler.op_labels@[k as int]@);
                }
                patch_exec(out, caddr, Byte::Both, wrap16_exec(assembler.code_start as u32 + assembler.op_labels[k].addr as u32));
            }
        },
        RelocationKind::External { name, offset, byte, relative } => {
            match find_external_exec(&assembler.externals, name.as_slice()) {
                Some(k) => {
                    proof {
                        assert(a.externals[k as int] == assembler.externals@[k as int]@);
                    }
                    let faddr = wrap16_exec(assembler.code_start as u32 + assembler.externals[k].addr as u32 + (*offset as u16) as u32);
                    if *relative {
                        write_byte_at(out, rel_byte(faddr, caddr), caddr);
                    } else {
                        patch_exec(out, caddr, *byte, faddr);
                    }
                },
                None => {
                    let d = Diag::ExtrnNotFound { name: copy_bytes(name) };
                    let ghost hd = errs.diags@;
                    errs.diags.push(d);
                    proof {
                        lemma_map_push(hd, d, |d: Diag<Vec<u8>>| diag_view(d));
                    }
                },
            }
        },
        RelocationKind::Address { idx, relative } => {
            let target = assembler.addresses[*idx];
            if *relative {
                write_byte_at(out, rel_byte(target, caddr), caddr);
            } else {
                patch_exec(out, caddr, Byte::Both, wrap16_exec(target as u32 + assembler.code_start as u32));
            }
        },
    }
}

/// Applies every relocation, in order: data offsets, labels of functions, external
/// names and address labels. A name that is defined nowhere is noted and its place
/// left as it is.
pub fn apply_relocations(out: &mut Vec<u8>, data_start: u16, assembler: &Assembler, errs: &mut Errors)
    requires
        relocs_ok(assembler@, old(out)@.len() as int),
    ensures
        st_apply(gen_state(old(out)@, assembler@, old(errs)@), data_start, 0) == gen_state(final(out)@, assembler@, final(errs)@),
        final(errs).error_count == old(errs).error_count,
{
    let ghost a = assembler@;
    let ghost s0 = gen_state(out@, a, errs@);
    let mut i: usize = 0;
    while i < assembler.relocs.len()
        invariant
            a == assembler@,
            i <= assembler.relocs@.len(),
            out@.len() == s0.out.len(),
            relocs_ok(a, s0.out.len() as int),
            errs.error_count == s0.errs.error_count,
            st_apply(s0, data_start, 0) == st_apply(gen_state(out@, a, errs@), data_start, i as int),
        decreases assembler.relocs.len() - i,
    {
        let ghost s = gen_state(out@, a, errs@);
        proof {
            assert(a.relocs[i as int] == assembler.relocs@[i as int]@);
            assert(reloc_ok(a, a.relocs[i as int], s0.out.len() as int));
        }
        apply_one(out, &assembler.relocs[i], data_start, assembler, errs);
        i = i + 1;
    }
}

} // verus!
