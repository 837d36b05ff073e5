//! The assembler state of the 6502 code generator, and emitting bytes,
//! instructions, relocations and address labels.
use vstd::prelude::*;
use crate::bytes::copy_bytes;
use crate::errors::{bump_error_count, MAX_ERROR_COUNT};
use crate::ir::Radix;
use crate::lexer::Loc;
use super::opcodes::{Instr, AddrMode, opcode, opcode_of, INVL};

verus! {

/// Which byte of a 16-bit address a relocation patches.
#[derive(Clone, Copy, PartialEq, Eq, Structural, Debug)]
pub enum Byte {
    Low,
    High,
    Both,
}

/// What a relocation stands for.
pub enum RelocationKind {
    /// Entry `idx` of the assembler's address table; `relative` for a branch offset.
    Address { idx: usize, relative: bool },
    /// The data section's address plus `off`.
    DataOffset { off: u16, byte: Byte },
    /// The address of an external name, plus `offset`.
    External { name: Vec<u8>, offset: usize, byte: Byte, relative: bool },
    /// A label of a function.
    Label { func_name: Vec<u8>, label: usize },
}

/// The mathematical value of a `RelocationKind`.
pub enum RelocKindV {
    Address { idx: usize, relative: bool },
    DataOffset { off: u16, byte: Byte },
    External { name: Seq<u8>, offset: usize, byte: Byte, relative: bool },
    Label { func_name: Seq<u8>, label: usize },
}

impl View for RelocationKind {
    type V = RelocKindV;

    open spec fn view(&self) -> RelocKindV {
        match self {
            RelocationKind::Address { idx, relative } => RelocKindV::Address { idx: *idx, relative: *relative },
            RelocationKind::DataOffset { off, byte } => RelocKindV::DataOffset { off: *off, byte: *byte },
            RelocationKind::External { name, offset, byte, relative } => RelocKindV::External {
                name: name@,
                offset: *offset,
                byte: *byte,
                relative: *relative,
            },
            RelocationKind::Label { func_name, label } => RelocKindV::Label { func_name: func_name@, label: *label },
        }
    }
}

impl RelocKindV {
    /// Whether the relocation patches two bytes (a full address) rather than one.
    pub open spec fn is16(self) -> bool {
        match self {
            RelocKindV::DataOffset { byte, .. } => byte == Byte::Both,
            RelocKindV::External { byte, relative, .. } => byte == Byte::Both && !relative,
            RelocKindV::Label { .. } => true,
            RelocKindV::Address { relative, .. } => !relative,
        }
    }
}

impl RelocationKind {
    /// Whether the relocation patches two bytes (a full address) rather than one.
    pub fn is16(&self) -> (r: bool)
        ensures
            r == self@.is16(),
    {
        match self {
            RelocationKind::DataOffset { byte, .. } => *byte == Byte::Both,
            RelocationKind::External { byte, relative, .. } => *byte == Byte::Both && !*relative,
            RelocationKind::Label { .. } => true,
            RelocationKind::Address { relative, .. } => !*relative,
        }
    }
}

/// A place in the output to patch, and with what.
pub struct Relocation {
    pub kind: RelocationKind,
    pub addr: u16,
}

/// The mathematical value of a `Relocation`.
pub struct RelocationV {
    pub kind: RelocKindV,
    pub addr: u16,
}

impl View for Relocation {
    type V = RelocationV;

    open spec fn view(&self) -> RelocationV {
        RelocationV { kind: self.kind@, addr: self.addr }
    }
}

/// Where a label of a function was placed in the output.
pub struct Label {
    pub func_name: Vec<u8>,
    pub label: usize,
    pub addr: u16,
}

/// The mathematical value of a `Label`.
pub struct LabelV {
    pub func_name: Seq<u8>,
    pub label: usize,
    pub addr: u16,
}

impl View for Label {
    type V = LabelV;

    open spec fn view(&self) -> LabelV {
        LabelV { func_name: self.func_name@, label: self.label, addr: self.addr }
    }
}

/// Where a name (function, global, assembly label) was placed in the output.
pub struct External {
    pub name: Vec<u8>,
    pub addr: u16,
    pub loc: Loc,
}

/// The mathematical value of an `External`.
pub struct ExternalV {
    pub name: Seq<u8>,
    pub addr: u16,
    pub loc: Loc,
}

impl View for External {
    type V = ExternalV;

    open spec fn view(&self) -> ExternalV {
        ExternalV { name: self.name@, addr: self.addr, loc: self.loc }
    }
}

/// The state of assembling one program.
pub struct Assembler {
    pub relocs: Vec<Relocation>,
    pub op_labels: Vec<Label>,
    pub externals: Vec<External>,
    /// Address labels: output offsets that relocations can refer to.
    pub addresses: Vec<u16>,
    /// Load address of the code.
    pub code_start: u16,
    /// Current stack frame size in bytes (the 6502 has no base register).
    pub frame_sz: u8,
}

/// The mathematical value of an `Assembler`.
pub struct AsmV {
    pub relocs: Seq<RelocationV>,
    pub op_labels: Seq<LabelV>,
    pub externals: Seq<ExternalV>,
    pub addresses: Seq<u16>,
    pub code_start: u16,
    pub frame_sz: u8,
}

impl View for Assembler {
    type V = AsmV;

    open spec fn view(&self) -> AsmV {
        AsmV {
            relocs: self.relocs@.map_values(|r: Relocation| r@),
            op_labels: self.op_labels@.map_values(|l: Label| l@),
            externals: self.externals@.map_values(|e: External| e@),
            addresses: self.addresses@,
            code_start: self.code_start,
            frame_sz: self.frame_sz,
        }
    }
}

/// An error (or note) of the code generator; `S` is the type of names and texts.
#[allow(inconsistent_fields)]
pub enum Diag<S> {
    /// A name defined twice; `previous` is the first definition.
    Redefinition { name: S, loc: Loc, previous: Loc },
    /// An instruction used in an addressing mode it does not have.
    InvalidOpcode { inst: Instr, mode: AddrMode },
    /// An integer operand that does not fit 16 bits.
    ConstantOutOfRange { loc: Loc, literal: S },
    /// A character operand that does not fit 16 bits.
    CharOutOfRange { loc: Loc, literal: S },
    /// An integer function address that does not fit 16 bits.
    FunctionAddressOutOfRange { loc: Loc, literal: S },
    /// A character function address that does not fit 16 bits.
    FunctionAddressCharOutOfRange { loc: Loc, literal: S },
    /// An integer initialiser of a global that does not fit 16 bits.
    GlobalConstantOutOfRange { loc: Loc, radix: Radix, literal: S },
    /// A character initialiser of a global that does not fit 16 bits.
    GlobalCharOutOfRange { loc: Loc, literal: S },
    /// Inline assembly: a byte that cannot start a number.
    UnexpectedCharInNumber { loc: Loc, c: u8 },
    /// Inline assembly: a number above `$FFFF`.
    NumberOutOfRange { loc: Loc, value: u64 },
    /// Inline assembly: text after a label.
    TrailingGarbageAfterLabel { loc: Loc, rest: S },
    /// Inline assembly: no such instruction.
    InvalidMnemonic { loc: Loc, name: S },
    /// Inline assembly: an immediate above `$FF`.
    ImmediateOutOfRange { loc: Loc, value: u16 },
    /// Inline assembly: a label as the address of `(zp,X)`.
    LabelForIndirectX { loc: Loc },
    /// Inline assembly: an address above `$FF` in `(zp,X)`.
    IndirectXOutOfRange { loc: Loc, value: u16 },
    /// Inline assembly: `(zp,` not followed by `X`.
    XExpected { loc: Loc },
    /// Inline assembly: `(zp,X` not followed by `)`.
    ParenExpectedAfterX { loc: Loc },
    /// Inline assembly: `(addr` not followed by `,` or `)`.
    CommaOrParenExpected { loc: Loc },
    /// Inline assembly: a label as the address of `(zp),Y`.
    LabelForIndirectY { loc: Loc },
    /// Inline assembly: an address above `$FF` in `(zp),Y`.
    IndirectYOutOfRange { loc: Loc, value: u16 },
    /// Inline assembly: `(zp),` not followed by `Y`.
    YExpected { loc: Loc },
    /// Inline assembly: an instruction with an operand it does not take.
    InvalidOperand { loc: Loc, name: S, operand: S },
    /// Inline assembly: text after the operand.
    TrailingGarbage { loc: Loc, rest: S },
    /// An `extrn` declaration of a name that is defined nowhere.
    UnknownExtrn { name: S },
    /// Linking: no definition of a name that the code refers to (not counted as an error).
    ExtrnNotFound { name: S },
    /// The note printed for each function generated (not an error).
    FunctionInfo { name: S, auto_vars_count: usize },
}

/// A diagnostic with its texts taken as byte sequences.
pub open spec fn diag_view(d: Diag<Vec<u8>>) -> Diag<Seq<u8>> {
    match d {
        Diag::Redefinition { name, loc, previous } => Diag::Redefinition { name: name@, loc, previous },
        Diag::InvalidOpcode { inst, mode } => Diag::InvalidOpcode { inst, mode },
        Diag::ConstantOutOfRange { loc, literal } => Diag::ConstantOutOfRange { loc, literal: literal@ },
        Diag::CharOutOfRange { loc, literal } => Diag::CharOutOfRange { loc, literal: literal@ },
        Diag::FunctionAddressOutOfRange { loc, literal } => Diag::FunctionAddressOutOfRange { loc, literal: literal@ },
        Diag::FunctionAddressCharOutOfRange { loc, literal } => Diag::FunctionAddressCharOutOfRange {
            loc,
            literal: literal@,
        },
        Diag::GlobalConstantOutOfRange { loc, radix, literal } => Diag::GlobalConstantOutOfRange {
            loc,
            radix,
            literal: literal@,
        },
        Diag::GlobalCharOutOfRange { loc, literal } => Diag::GlobalCharOutOfRange { loc, literal: literal@ },
        Diag::UnexpectedCharInNumber { loc, c } => Diag::UnexpectedCharInNumber { loc, c },
        Diag::NumberOutOfRange { loc, value } => Diag::NumberOutOfRange { loc, value },
        Diag::TrailingGarbageAfterLabel { loc, rest } => Diag::TrailingGarbageAfterLabel { loc, rest: rest@ },
        Diag::InvalidMnemonic { loc, name } => Diag::InvalidMnemonic { loc, name: name@ },
        Diag::ImmediateOutOfRange { loc, value } => Diag::ImmediateOutOfRange { loc, value },
        Diag::LabelForIndirectX { loc } => Diag::LabelForIndirectX { loc },
        Diag::IndirectXOutOfRange { loc, value } => Diag::IndirectXOutOfRange { loc, value },
        Diag::XExpected { loc } => Diag::XExpected { loc },
        Diag::ParenExpectedAfterX { loc } => Diag::ParenExpectedAfterX { loc },
        Diag::CommaOrParenExpected { loc } => Diag::CommaOrParenExpected { loc },
        Diag::LabelForIndirectY { loc } => Diag::LabelForIndirectY { loc },
        Diag::IndirectYOutOfRange { loc, value } => Diag::IndirectYOutOfRange { loc, value },
        Diag::YExpected { loc } => Diag::YExpected { loc },
        Diag::InvalidOperand { loc, name, operand } => Diag::InvalidOperand { loc, name: name@, operand: operand@ },
        Diag::TrailingGarbage { loc, rest } => Diag::TrailingGarbage { loc, rest: rest@ },
        Diag::UnknownExtrn { name } => Diag::UnknownExtrn { name: name@ },
        Diag::ExtrnNotFound { name } => Diag::ExtrnNotFound { name: name@ },
        Diag::FunctionInfo { name, auto_vars_count } => Diag::FunctionInfo { name: name@, auto_vars_count },
    }
}

/// The errors of one compilation: how many, and what was reported.
pub struct Errors {
    pub error_count: usize,
    pub diags: Vec<Diag<Vec<u8>>>,
}

/// The mathematical value of `Errors`.
pub struct ErrsV {
    pub error_count: int,
    pub diags: Seq<Diag<Seq<u8>>>,
}

impl View for Errors {
    type V = ErrsV;

    open spec fn view(&self) -> ErrsV {
        ErrsV { error_count: self.error_count as int, diags: self.diags@.map_values(|d: Diag<Vec<u8>>| diag_view(d)) }
    }
}

/// Everything that generating code changes: the output, the assembler, the errors.
pub struct GenState {
    pub out: Seq<u8>,
    pub assembler: AsmV,
    pub errs: ErrsV,
}

/// The state made of an output, an assembler and the errors.
pub open spec fn gen_state(out: Seq<u8>, assembler: AsmV, errs: ErrsV) -> GenState {
    GenState { out, assembler, errs }
}

/// `b` starts with `a`: an output that only grew.
pub open spec fn grows(a: Seq<u8>, b: Seq<u8>) -> bool {
    &&& a.len() <= b.len()
    &&& forall|k: int| 0 <= k < a.len() ==> #[trigger] b[k] == a[k]
}

/// Low byte of a word.
pub open spec fn lo(w: u16) -> u8 {
    (w % 256) as u8
}

/// High byte of a word.
pub open spec fn hi(w: u16) -> u8 {
    (w / 256) as u8
}

/// Mapping a sequence after a push is pushing the mapped element.
pub proof fn lemma_map_push<A, B>(s: Seq<A>, x: A, f: spec_fn(A) -> B)
    ensures
        s.push(x).map_values(f) == s.map_values(f).push(f(x)),
{
    assert(s.push(x).map_values(f) =~= s.map_values(f).push(f(x)));
}

/// How the error count may move while generating code: it never falls, it grows by
/// at most one past where it was or past the limit, and a call that succeeds
/// leaves it where it was or under the limit.
pub open spec fn count_ok(c0: usize, c: usize, ok: bool) -> bool {
    &&& c0 <= c
    &&& (c <= c0 + 1 || c <= MAX_ERROR_COUNT)
    &&& (ok ==> (c == c0 || c < MAX_ERROR_COUNT))
}

/// An error and its diagnostic; the flag is false once there are too many errors.
pub open spec fn err_bump(e: ErrsV, d: Diag<Seq<u8>>) -> (ErrsV, bool) {
    (
        ErrsV { error_count: e.error_count + 1, diags: e.diags.push(d) },
        e.error_count + 1 < MAX_ERROR_COUNT,
    )
}

/// An error reported in a state; the flag is false once there are too many errors.
pub open spec fn st_bump(s: GenState, d: Diag<Seq<u8>>) -> (GenState, bool) {
    (GenState { errs: err_bump(s.errs, d).0, ..s }, err_bump(s.errs, d).1)
}

/// A note: a diagnostic that is no error.
pub open spec fn st_note(s: GenState, d: Diag<Seq<u8>>) -> GenState {
    GenState { errs: ErrsV { diags: s.errs.diags.push(d), ..s.errs }, ..s }
}

/// A byte appended to the output.
pub open spec fn st_byte(s: GenState, b: u8) -> GenState {
    GenState { out: s.out.push(b), ..s }
}

/// A word appended to the output, low byte first.
pub open spec fn st_word(s: GenState, w: u16) -> GenState {
    st_byte(st_byte(s, lo(w)), hi(w))
}

/// The byte after the opcode: an operand of one byte.
pub open spec fn e0(s: GenState, i: Instr, m: AddrMode) -> GenState {
    st_byte(s, opcode_of(i, m))
}

/// An instruction without operand.
pub open spec fn e1(s: GenState, i: Instr) -> GenState {
    e0(s, i, AddrMode::IMPL)
}

/// An instruction with a one-byte operand.
pub open spec fn e2(s: GenState, i: Instr, m: AddrMode, v: u8) -> GenState {
    st_byte(e0(s, i, m), v)
}

/// An instruction with a two-byte operand.
pub open spec fn e3(s: GenState, i: Instr, m: AddrMode, v: u16) -> GenState {
    st_word(e0(s, i, m), v)
}

/// `instr0`: the opcode, after an error where the instruction has no such mode.
pub open spec fn st_instr0(s: GenState, i: Instr, m: AddrMode) -> (GenState, bool) {
    if opcode_of(i, m) == INVL {
        let (s1, ok) = st_bump(s, Diag::InvalidOpcode { inst: i, mode: m });
        if !ok {
            (s1, false)
        } else {
            (e0(s1, i, m), true)
        }
    } else {
        (e0(s, i, m), true)
    }
}

/// A relocation at the end of the output, with room for what it patches.
pub open spec fn st_reloc(s: GenState, kind: RelocKindV) -> GenState {
    let s1 = GenState {
        assembler: AsmV { relocs: s.assembler.relocs.push(RelocationV { kind, addr: s.out.len() as u16 }), ..s.assembler },
        ..s
    };
    if kind.is16() {
        st_word(s1, 0)
    } else {
        st_byte(s1, 0)
    }
}

/// A new address label (pointing at 0 until it is linked).
pub open spec fn st_new_label(s: GenState) -> GenState {
    GenState { assembler: AsmV { addresses: s.assembler.addresses.push(0), ..s.assembler }, ..s }
}

/// Linking address label `label` to `addr`.
pub open spec fn st_link(s: GenState, label: int, addr: u16) -> GenState {
    GenState { assembler: AsmV { addresses: s.assembler.addresses.update(label, addr), ..s.assembler }, ..s }
}

/// Linking address label `label` to the end of the output.
pub open spec fn st_link_here(s: GenState, label: int) -> GenState {
    st_link(s, label, s.out.len() as u16)
}

/// Appends a byte.
pub fn write_byte(out: &mut Vec<u8>, byte: u8)
    ensures
        grows(old(out)@, final(out)@),
        final(out)@ == old(out)@.push(byte),
{
    out.push(byte);
}

/// Appends a word, low byte first.
pub fn write_word(out: &mut Vec<u8>, word: u16)
    ensures
        grows(old(out)@, final(out)@),
        final(out)@ == old(out)@.push(lo(word)).push(hi(word)),
{
    assert(word as u8 == (word % 256) as u8 && (word >> 8) as u8 == (word / 256) as u8) by (bit_vector);
    write_byte(out, word as u8);
    write_byte(out, (word >> 8) as u8);
}

/// Overwrites the byte at `addr`.
pub fn write_byte_at(out: &mut Vec<u8>, byte: u8, addr: u16)
    requires
        addr < old(out)@.len(),
    ensures
        final(out)@ == old(out)@.update(addr as int, byte),
{
    out.set(addr as usize, byte);
}

/// Overwrites the word at `addr`, low byte first.
pub fn write_word_at(out: &mut Vec<u8>, word: u16, addr: u16)
    requires
        addr < u16::MAX,
        addr + 1 < old(out)@.len(),
    ensures
        final(out)@ == old(out)@.update(addr as int, lo(word)).update(addr + 1, hi(word)),
{
    assert(word as u8 == (word % 256) as u8 && (word >> 8) as u8 == (word / 256) as u8) by (bit_vector);
    write_byte_at(out, word as u8, addr);
    write_byte_at(out, (word >> 8) as u8, addr + 1);
}

/// Appends the opcode of `inst` in `mode`. Where the instruction has no such mode
/// this is an error (and the table's `INVL` byte is written); `None` once there
/// are too many errors, and then nothing is written.
pub fn instr0(out: &mut Vec<u8>, inst: Instr, mode: AddrMode, errs: &mut Errors) -> (r: Option<()>)
    requires
        old(errs).error_count < usize::MAX,
    ensures
        grows(old(out)@, final(out)@),
        forall|a: AsmV| #![trigger gen_state(final(out)@, a, final(errs)@)]
            st_instr0(gen_state(old(out)@, a, old(errs)@), inst, mode) == (gen_state(final(out)@, a, final(errs)@), r is Some),
{
    let op = opcode(inst, mode);
    if op == INVL {
        errs.diags.push(Diag::InvalidOpcode { inst, mode });
        proof {
            lemma_map_push(old(errs).diags@, Diag::InvalidOpcode { inst, mode }, |d: Diag<Vec<u8>>| diag_view(d));
        }
        if bump_error_count(&mut errs.error_count).is_none() {
            return None;
        }
    }
    write_byte(out, op);
    Some(())
}

/// `instr8`: an instruction with a one-byte operand.
pub open spec fn st_instr8(s: GenState, i: Instr, m: AddrMode, v: u8) -> (GenState, bool) {
    let (s1, ok) = st_instr0(s, i, m);
    if !ok {
        (s1, false)
    } else {
        (st_byte(s1, v), true)
    }
}

/// `instr16`: an instruction with a two-byte operand.
pub open spec fn st_instr16(s: GenState, i: Instr, m: AddrMode, v: u16) -> (GenState, bool) {
    let (s1, ok) = st_instr0(s, i, m);
    if !ok {
        (s1, false)
    } else {
        (st_word(s1, v), true)
    }
}

/// An instruction in the implied mode (no operand).
pub fn instr(out: &mut Vec<u8>, inst: Instr, errs: &mut Errors) -> (r: Option<()>)
    requires
        old(errs).error_count < usize::MAX,
    ensures
        grows(old(out)@, final(out)@),
        forall|a: AsmV| #![trigger gen_state(final(out)@, a, final(errs)@)]
            st_instr0(gen_state(old(out)@, a, old(errs)@), inst, AddrMode::IMPL) == (gen_state(final(out)@, a, final(errs)@), r is Some),
{
    instr0(out, inst, AddrMode::IMPL, errs)
}

/// An instruction with a one-byte operand.
pub fn instr8(out: &mut Vec<u8>, inst: Instr, mode: AddrMode, v: u8, errs: &mut Errors) -> (r: Option<()>)
    requires
        old(errs).error_count < usize::MAX,
    ensures
        grows(old(out)@, final(out)@),
        forall|a: AsmV| #![trigger gen_state(final(out)@, a, final(errs)@)]
            st_instr8(gen_state(old(out)@, a, old(errs)@), inst, mode, v) == (gen_state(final(out)@, a, final(errs)@), r is Some),
{
    instr0(out, inst, mode, errs)?;
    write_byte(out, v);
    Some(())
}

/// An instruction with a two-byte operand.
pub fn instr16(out: &mut Vec<u8>, inst: Instr, mode: AddrMode, v: u16, errs: &mut Errors) -> (r: Option<()>)
    requires
        old(errs).error_count < usize::MAX,
    ensures
        grows(old(out)@, final(out)@),
        forall|a: AsmV| #![trigger gen_state(final(out)@, a, final(errs)@)]
            st_instr16(gen_state(old(out)@, a, old(errs)@), inst, mode, v) == (gen_state(final(out)@, a, final(errs)@), r is Some),
{
    instr0(out, inst, mode, errs)?;
    write_word(out, v);
    Some(())
}

/// The opcode of an instruction that has the mode.
pub fn op0(out: &mut Vec<u8>, inst: Instr, mode: AddrMode)
    requires
        opcode_of(inst, mode) != INVL,
    ensures
        grows(old(out)@, final(out)@),
        final(out)@ == old(out)@.push(opcode_of(inst, mode)),
{
    write_byte(out, opcode(inst, mode));
}

/// An instruction without operand, which has the implied mode.
pub fn op1(out: &mut Vec<u8>, inst: Instr)
    requires
        opcode_of(inst, AddrMode::IMPL) != INVL,
    ensures
        grows(old(out)@, final(out)@),
        final(out)@ == old(out)@.push(opcode_of(inst, AddrMode::IMPL)),
{
    op0(out, inst, AddrMode::IMPL);
}

/// An instruction with a one-byte operand, which has the mode.
pub fn op2(out: &mut Vec<u8>, inst: Instr, mode: AddrMode, v: u8)
    requires
        opcode_of(inst, mode) != INVL,
    ensures
        grows(old(out)@, final(out)@),
        final(out)@ == old(out)@.push(opcode_of(inst, mode)).push(v),
{
    op0(out, inst, mode);
    write_byte(out, v);
}

/// An instruction with a two-byte operand, which has the mode.
pub fn op3(out: &mut Vec<u8>, inst: Instr, mode: AddrMode, v: u16)
    requires
        opcode_of(inst, mode) != INVL,
    ensures
        grows(old(out)@, final(out)@),
        final(out)@ == old(out)@.push(opcode_of(inst, mode)).push(lo(v)).push(hi(v)),
{
    op0(out, inst, mode);
    write_word(out, v);
}

/// Records a relocation at the end of the output and leaves room for what it
/// patches: two zero bytes for a full address, one otherwise.
pub fn add_reloc(out: &mut Vec<u8>, kind: RelocationKind, assembler: &mut Assembler)
    ensures
        grows(old(out)@, final(out)@),
        forall|e: ErrsV| #![trigger gen_state(final(out)@, final(assembler)@, e)]
            st_reloc(gen_state(old(out)@, old(assembler)@, e), kind@) == gen_state(final(out)@, final(assembler)@, e),
        final(assembler).addresses@ == old(assembler).addresses@,
        final(assembler).frame_sz == old(assembler).frame_sz,
        final(assembler).code_start == old(assembler).code_start,
{
    let wide = kind.is16();
    let ghost kv = kind@;
    let r = Relocation { kind, addr: out.len() as u16 };
    assembler.relocs.push(r);
    proof {
        lemma_map_push(old(assembler).relocs@, r, |r: Relocation| r@);
    }
    if wide {
        write_word(out, 0);
    } else {
        write_byte(out, 0);
    }
    proof {
        assert(lo(0) == 0 && hi(0) == 0);
    }
}

/// A new address label; its index.
pub fn create_address_label(assembler: &mut Assembler) -> (idx: usize)
    ensures
        idx == old(assembler).addresses@.len(),
        final(assembler)@ == (AsmV { addresses: old(assembler)@.addresses.push(0), ..old(assembler)@ }),
{
    let idx = assembler.addresses.len();
    assembler.addresses.push(0);
    idx
}

/// A new address label, linked to the end of the output; its index.
pub fn create_address_label_here(out: &Vec<u8>, assembler: &mut Assembler) -> (idx: usize)
    ensures
        idx == old(assembler).addresses@.len(),
        final(assembler)@ == (AsmV {
            addresses: old(assembler)@.addresses.push(out@.len() as u16),
            ..old(assembler)@
        }),
{
    let label = create_address_label(assembler);
    link_address_label_here(label, out, assembler);
    proof {
        assert(old(assembler)@.addresses.push(0).update(label as int, out@.len() as u16)
            =~= old(assembler)@.addresses.push(out@.len() as u16));
    }
    label
}

/// Points address label `label` at `addr` (relative to the load address of the code).
pub fn link_address_label(label: usize, addr: u16, assembler: &mut Assembler)
    requires
        label < old(assembler).addresses@.len(),
    ensures
        final(assembler)@ == (AsmV {
            addresses: old(assembler)@.addresses.update(label as int, addr),
            ..old(assembler)@
        }),
{
    assembler.addresses.set(label, addr);
}

/// Points address label `label` at the end of the output.
pub fn link_address_label_here(label: usize, out: &Vec<u8>, assembler: &mut Assembler)
    requires
        label < old(assembler).addresses@.len(),
    ensures
        final(assembler)@ == (AsmV {
            addresses: old(assembler)@.addresses.update(label as int, out@.len() as u16),
            ..old(assembler)@
        }),
{
    assembler.addresses.set(label, out.len() as u16);
}

/// Checking a new definition of `name` against the names defined before, from entry
/// `i` on: each earlier definition of the same name is an error.
pub open spec fn redef_scan(s: GenState, name: Seq<u8>, loc: Loc, i: int) -> (GenState, bool)
    decreases s.assembler.externals.len() - i,
{
    if i < 0 || i >= s.assembler.externals.len() {
        (s, true)
    } else if s.assembler.externals[i].name == name {
        let (s1, ok) = st_bump(s, Diag::Redefinition { name, loc, previous: s.assembler.externals[i].loc });
        if !ok {
            (s1, false)
        } else {
            redef_scan(s1, name, loc, i + 1)
        }
    } else {
        redef_scan(s, name, loc, i + 1)
    }
}

/// `add_external`: defining `name` at `addr`.
pub open spec fn st_add_external(s: GenState, name: Seq<u8>, addr: u16, loc: Loc) -> (GenState, bool) {
    let (s1, ok) = redef_scan(s, name, loc, 0);
    if !ok {
        (s1, false)
    } else {
        (
            GenState {
                assembler: AsmV { externals: s1.assembler.externals.push(ExternalV { name, addr, loc }), ..s1.assembler },
                ..s1
            },
            true,
        )
    }
}

/// Checking for redefinitions changes only the errors, and by at most one past the limit.
pub proof fn lemma_redef_scan_keeps(s: GenState, name: Seq<u8>, loc: Loc, i: int)
    ensures
        redef_scan(s, name, loc, i).0.out == s.out,
        redef_scan(s, name, loc, i).0.assembler == s.assembler,
        redef_scan(s, name, loc, i).0.errs.error_count >= s.errs.error_count,
        redef_scan(s, name, loc, i).1 ==> (redef_scan(s, name, loc, i).0.errs.error_count == s.errs.error_count
            || redef_scan(s, name, loc, i).0.errs.error_count < MAX_ERROR_COUNT),
        redef_scan(s, name, loc, i).0.errs.error_count <= s.errs.error_count + 1
            || redef_scan(s, name, loc, i).0.errs.error_count <= MAX_ERROR_COUNT,
    decreases s.assembler.externals.len() - i,
{
    if 0 <= i < s.assembler.externals.len() {
        if s.assembler.externals[i].name == name {
            let (s1, ok) = st_bump(s, Diag::Redefinition { name, loc, previous: s.assembler.externals[i].loc });
            if ok {
                lemma_redef_scan_keeps(s1, name, loc, i + 1);
            }
        } else {
            lemma_redef_scan_keeps(s, name, loc, i + 1);
        }
    }
}

/// Checking for redefinitions does not look at the output.
pub proof fn lemma_redef_scan_out(s: GenState, o: Seq<u8>, name: Seq<u8>, loc: Loc, i: int)
    ensures
        redef_scan(GenState { out: o, ..s }, name, loc, i) == (
            GenState { out: o, ..redef_scan(s, name, loc, i).0 },
            redef_scan(s, name, loc, i).1,
        ),
    decreases s.assembler.externals.len() - i,
{
    if 0 <= i < s.assembler.externals.len() {
        if s.assembler.externals[i].name == name {
            let (s1, ok) = st_bump(s, Diag::Redefinition { name, loc, previous: s.assembler.externals[i].loc });
            if ok {
                lemma_redef_scan_out(s1, o, name, loc, i + 1);
            }
        } else {
            lemma_redef_scan_out(s, o, name, loc, i + 1);
        }
    }
}

/// Defines `name` at `addr`: an error for every earlier definition of the same name
/// (`None` once there are too many errors, and then nothing is defined).
pub fn add_external(name: &[u8], addr: u16, loc: Loc, assembler: &mut Assembler, errs: &mut Errors) -> (r: Option<()>)
    requires
        old(errs).error_count < usize::MAX,
    ensures
        forall|o: Seq<u8>| #![trigger gen_state(o, final(assembler)@, final(errs)@)]
            st_add_external(gen_state(o, old(assembler)@, old(errs)@), name@, addr, loc)
                == (gen_state(o, final(assembler)@, final(errs)@), r is Some),
        count_ok(old(errs).error_count, final(errs).error_count, r is Some),
        final(assembler).frame_sz == old(assembler).frame_sz,
        final(assembler).addresses@ == old(assembler).addresses@,
        final(assembler).code_start == old(assembler).code_start,
{
    let ghost s0 = gen_state(Seq::empty(), assembler@, errs@);
    let mut i: usize = 0;
    let mut result: Option<()> = Some(());
    let n = assembler.externals.len();
    while i < n
        invariant_except_break
            redef_scan(gen_state(Seq::empty(), assembler@, errs@), name@, loc, i as int) == redef_scan(s0, name@, loc, 0),
            errs.error_count == s0.errs.error_count || errs.error_count < MAX_ERROR_COUNT,
            result is Some,
        invariant
            assembler@ == s0.assembler,
            n == s0.assembler.externals.len(),
            i <= n,
            s0.errs.error_count < usize::MAX,
            errs.error_count >= s0.errs.error_count,
            errs.error_count <= s0.errs.error_count + 1 || errs.error_count <= MAX_ERROR_COUNT,
        ensures
            redef_scan(s0, name@, loc, 0) == (gen_state(Seq::empty(), assembler@, errs@), result is Some),
            result is Some ==> (errs.error_count == s0.errs.error_count || errs.error_count < MAX_ERROR_COUNT),
        decreases n - i,
    {
        let ghost head = gen_state(Seq::empty(), assembler@, errs@);
        let same = crate::bytes::bytes_eq(assembler.externals[i].name.as_slice(), name);
        if same {
            let prev = assembler.externals[i].loc;
            let d = Diag::Redefinition { name: copy_bytes(name), loc, previous: prev };
            let ghost dv = diag_view(d);
            let ghost hd = errs.diags@;
            errs.diags.push(d);
            proof {
                lemma_map_push(hd, d, |d: Diag<Vec<u8>>| diag_view(d));
                assert(assembler@.externals[i as int] == assembler.externals@[i as int]@);
            }
            let bumped = bump_error_count(&mut errs.error_count);
            assert(st_bump(head, dv).0 == gen_state(Seq::empty(), assembler@, errs@));
            if bumped.is_none() {
                result = None;
                break;
            }
        } else {
            proof {
                assert(assembler@.externals[i as int] == assembler.externals@[i as int]@);
            }
        }
        i = i + 1;
    }
    proof {
        assert forall|o: Seq<u8>| #![trigger gen_state(o, old(assembler)@, old(errs)@)]
            redef_scan(gen_state(o, old(assembler)@, old(errs)@), name@, loc, 0) == (
                gen_state(o, assembler@, errs@),
                result is Some,
            ) by {
            lemma_redef_scan_out(s0, o, name@, loc, 0);
        }
    }
    if result.is_none() {
        return None;
    }
    let e = External { name: copy_bytes(name), addr, loc };
    let ghost he = assembler.externals@;
    assembler.externals.push(e);
    proof {
        lemma_map_push(he, e, |e: External| e@);
    }
    Some(())
}

} // verus!
