use b_lang::codegen::mos6502::assembler::{
    add_external, add_reloc, create_address_label, create_address_label_here, instr, instr0, instr16, instr8,
    link_address_label, write_byte, write_byte_at, write_word, write_word_at, Assembler, Byte, Diag, Errors,
    RelocationKind,
};
use b_lang::codegen::mos6502::assembly::{assemble_statement, parse_addr_or_label, parse_num, Address};
use b_lang::codegen::mos6502::emit::{
    add_sp, load_arg, load_auto_var, load_auto_var_ref, pop16_discard, push16, store_auto, sub_sp,
};
use b_lang::codegen::mos6502::function::generate_function;
use b_lang::codegen::mos6502::link::{apply_relocations, relocations_ok};
use b_lang::codegen::mos6502::ops::{binop_code, load_two_args, save_and_remove_signs};
use b_lang::codegen::mos6502::opcodes::{instr_at_exec, instr_from_string, opcode, AddrMode, Instr, INSTR_COUNT, INVL};
use b_lang::codegen::mos6502::program::{
    generate_data_section, generate_entry, generate_extrns, generate_globals, generate_program,
};
use b_lang::ir::{Arg, AsmStmt, Binop, Func, Global, ImmediateValue, Op, OpWithLocation, Program, Radix};
use b_lang::lexer::Loc;

fn loc() -> Loc {
    Loc { input_path: 0, line_number: 1, line_offset: 1 }
}

fn new_assembler() -> Assembler {
    Assembler {
        relocs: Vec::new(),
        op_labels: Vec::new(),
        externals: Vec::new(),
        addresses: Vec::new(),
        code_start: 0x8000,
        frame_sz: 0,
    }
}

fn new_errors() -> Errors {
    Errors { error_count: 0, diags: Vec::new() }
}

#[test]
fn test_opcode_table() {
    assert_eq!(opcode(Instr::LDA, AddrMode::IMM), 0xA9);
    assert_eq!(opcode(Instr::LDA, AddrMode::ZP), 0xA5);
    assert_eq!(opcode(Instr::LDA, AddrMode::ABS_X), 0xBD);
    assert_eq!(opcode(Instr::JMP, AddrMode::IND), 0x6C);
    assert_eq!(opcode(Instr::RTS, AddrMode::IMPL), 0x60);
    assert_eq!(opcode(Instr::LDA, AddrMode::IND), INVL);
}

#[test]
fn test_mnemonics() {
    assert_eq!(instr_from_string(b"LDA"), Some(Instr::LDA));
    assert_eq!(instr_from_string(b"TXS"), Some(Instr::TXS));
    assert_eq!(instr_from_string(b"lda"), None);
    assert_eq!(instr_from_string(b"FOO"), None);
}

#[test]
fn test_words_are_little_endian() {
    let mut out = Vec::new();
    write_byte(&mut out, 0x12);
    write_word(&mut out, 0xBEEF);
    assert_eq!(out, vec![0x12, 0xEF, 0xBE]);
    write_word_at(&mut out, 0x1234, 1);
    assert_eq!(out, vec![0x12, 0x34, 0x12]);
    write_byte_at(&mut out, 0xFF, 0);
    assert_eq!(out, vec![0xFF, 0x34, 0x12]);
}

#[test]
fn test_invalid_opcode_is_an_error() {
    let mut out = Vec::new();
    let mut errs = new_errors();
    assert!(instr0(&mut out, Instr::LDA, AddrMode::IND, &mut errs).is_some());
    assert_eq!(out, vec![INVL]);
    assert_eq!(errs.error_count, 1);
    assert!(matches!(errs.diags[0], Diag::InvalidOpcode { inst: Instr::LDA, mode: AddrMode::IND }));
    assert!(instr(&mut out, Instr::RTS, &mut errs).is_some());
    assert!(instr8(&mut out, Instr::LDA, AddrMode::IMM, 7, &mut errs).is_some());
    assert!(instr16(&mut out, Instr::JMP, AddrMode::ABS, 0x1234, &mut errs).is_some());
    assert_eq!(out, vec![INVL, 0x60, 0xA9, 7, 0x4C, 0x34, 0x12]);
}

#[test]
fn test_relocation_room() {
    let mut out = vec![0xEA];
    let mut a = new_assembler();
    add_reloc(&mut out, RelocationKind::DataOffset { off: 2, byte: Byte::Both }, &mut a);
    add_reloc(&mut out, RelocationKind::DataOffset { off: 2, byte: Byte::Low }, &mut a);
    assert_eq!(out, vec![0xEA, 0, 0, 0]);
    assert_eq!(a.relocs.len(), 2);
    assert_eq!(a.relocs[0].addr, 1);
    assert_eq!(a.relocs[1].addr, 3);
}

#[test]
fn test_address_labels() {
    let out = vec![1, 2, 3];
    let mut a = new_assembler();
    let l0 = create_address_label(&mut a);
    let l1 = create_address_label_here(&out, &mut a);
    assert_eq!((l0, l1), (0, 1));
    assert_eq!(a.addresses, vec![0, 3]);
    link_address_label(l0, 0x42, &mut a);
    assert_eq!(a.addresses, vec![0x42, 3]);
}

#[test]
fn test_redefinition_is_an_error() {
    let mut a = new_assembler();
    let mut errs = new_errors();
    assert!(add_external(b"x", 0, loc(), &mut a, &mut errs).is_some());
    assert!(add_external(b"y", 2, loc(), &mut a, &mut errs).is_some());
    assert_eq!(errs.error_count, 0);
    assert!(add_external(b"x", 4, loc(), &mut a, &mut errs).is_some());
    assert_eq!(errs.error_count, 1);
    assert!(matches!(&errs.diags[0], Diag::Redefinition { name, .. } if name == b"x"));
    assert_eq!(a.externals.len(), 3);
}

#[test]
fn test_load_int_literal() {
    let mut out = Vec::new();
    let mut a = new_assembler();
    let mut errs = new_errors();
    let arg = Arg::IntLiteral(b"1234".to_vec(), Radix::Hex);
    assert!(load_arg(&arg, loc(), &mut out, &mut a, &mut errs).is_some());
    assert_eq!(out, vec![0xA9, 0x34, 0xA0, 0x12]);
}

#[test]
fn test_load_int_literal_out_of_range() {
    let mut out = Vec::new();
    let mut a = new_assembler();
    let mut errs = new_errors();
    let arg = Arg::IntLiteral(b"70000".to_vec(), Radix::Dec);
    assert!(load_arg(&arg, loc(), &mut out, &mut a, &mut errs).is_some());
    assert_eq!(out, vec![0xA9, 0, 0xA0, 0]);
    assert_eq!(errs.error_count, 1);
    assert!(matches!(errs.diags[0], Diag::ConstantOutOfRange { .. }));
}

#[test]
fn test_load_char_literal() {
    let mut out = Vec::new();
    let mut a = new_assembler();
    let mut errs = new_errors();
    assert!(load_arg(&Arg::CharLiteral(b"ab".to_vec()), loc(), &mut out, &mut a, &mut errs).is_some());
    assert_eq!(out, vec![0xA9, b'a', 0xA0, b'b']);
    assert!(load_arg(&Arg::CharLiteral(b"abc".to_vec()), loc(), &mut out, &mut a, &mut errs).is_some());
    assert!(matches!(errs.diags[0], Diag::CharOutOfRange { .. }));
}

#[test]
fn test_load_external_uses_relocations() {
    let mut out = Vec::new();
    let mut a = new_assembler();
    let mut errs = new_errors();
    assert!(load_arg(&Arg::External(b"g".to_vec()), loc(), &mut out, &mut a, &mut errs).is_some());
    assert_eq!(out, vec![0xAD, 0, 0, 0xAC, 0, 0]);
    assert_eq!(a.relocs.len(), 2);
    assert_eq!(a.relocs[0].addr, 1);
    assert_eq!(a.relocs[1].addr, 4);
}

#[test]
fn test_auto_variables_on_the_stack() {
    let mut out = Vec::new();
    let mut a = new_assembler();
    a.frame_sz = 4;
    assert!(load_auto_var(&mut out, 1, &mut a).is_some());
    assert_eq!(out, vec![0xBA, 0xBD, 0x03, 0x01, 0xBC, 0x04, 0x01]);
    out.clear();
    assert!(store_auto(&mut out, 2, &mut a).is_some());
    assert_eq!(out, vec![0xBA, 0x9D, 0x01, 0x01, 0x98, 0x9D, 0x02, 0x01]);
    out.clear();
    assert!(load_auto_var_ref(&mut out, 2, &mut a).is_some());
    assert_eq!(out, vec![0xBA, 0x8A, 0x18, 0x69, 0x01, 0xA0, 0x01]);
}

#[test]
fn test_frame_is_balanced() {
    let mut out = Vec::new();
    let mut a = new_assembler();
    assert!(sub_sp(&mut out, 3, &mut a).is_some());
    assert_eq!(a.frame_sz, 3);
    assert_eq!(out, vec![0x48, 0x48, 0x48]);
    assert!(push16(&mut out, &mut a).is_some());
    assert_eq!(a.frame_sz, 5);
    assert!(pop16_discard(&mut out, &mut a).is_some());
    assert_eq!(a.frame_sz, 3);
    assert!(add_sp(&mut out, 3, &mut a).is_some());
    assert_eq!(a.frame_sz, 0);
    out.clear();
    a.frame_sz = 10;
    assert!(add_sp(&mut out, 10, &mut a).is_some());
    assert_eq!(out, vec![0xBA, 0x8A, 0x18, 0x69, 10, 0xAA, 0x9A]);
    assert_eq!(a.frame_sz, 0);
}

#[test]
fn test_load_two_args_order() {
    let mut out = Vec::new();
    let mut a = new_assembler();
    let mut errs = new_errors();
    let lhs = Arg::IntLiteral(b"1".to_vec(), Radix::Dec);
    let rhs = Arg::IntLiteral(b"2".to_vec(), Radix::Dec);
    assert!(load_two_args(&mut out, &lhs, &rhs, loc(), &mut a, &mut errs).is_some());
    assert_eq!(out, vec![0xA9, 2, 0xA0, 0, 0x85, 4, 0x84, 5, 0xA9, 1, 0xA0, 0]);
}

#[test]
fn test_binop_plus() {
    let mut out = Vec::new();
    let mut a = new_assembler();
    a.frame_sz = 2;
    let mut errs = new_errors();
    let lhs = Arg::AutoVar(1);
    let rhs = Arg::IntLiteral(b"3".to_vec(), Radix::Dec);
    assert!(binop_code(&mut out, Binop::Plus, 1, &lhs, &rhs, loc(), &mut a, &mut errs).is_some());
    let expected = vec![
        0xA9, 3, 0xA0, 0, 0x85, 4, 0x84, 5, // rhs
        0xBA, 0xBD, 0x01, 0x01, 0xBC, 0x02, 0x01, // lhs
        0x18, 0x65, 4, 0xAA, 0x98, 0x65, 5, 0xA8, 0x8A, // add
        0xBA, 0x9D, 0x01, 0x01, 0x98, 0x9D, 0x02, 0x01, // store
    ];
    assert_eq!(out, expected);
}

#[test]
fn test_binop_div_calls_runtime() {
    let mut out = Vec::new();
    let mut a = new_assembler();
    a.frame_sz = 2;
    let mut errs = new_errors();
    let lhs = Arg::AutoVar(1);
    let rhs = Arg::AutoVar(1);
    assert!(binop_code(&mut out, Binop::Div, 1, &lhs, &rhs, loc(), &mut a, &mut errs).is_some());
    assert_eq!(a.frame_sz, 2);
    assert_eq!(a.relocs.len(), 1);
    assert!(matches!(&a.relocs[0].kind, RelocationKind::External { name, .. } if name == b"_div"));
}

#[test]
fn test_signs_use_two_labels() {
    let mut out = Vec::new();
    let mut a = new_assembler();
    assert!(save_and_remove_signs(&mut out, &mut a).is_some());
    assert_eq!(a.addresses.len(), 2);
    assert_eq!(a.relocs.len(), 2);
    assert_eq!(&out[0..4], &[0xC0, 0x00, 0x10, 0x00]);
}

#[test]
fn test_parse_num_forms() {
    let mut errs = new_errors();
    assert_eq!(parse_num(b"$1F rest", 0, loc(), &mut errs), Some((0x1F, 4)));
    assert_eq!(parse_num(b" 300", 0, loc(), &mut errs), Some((300, 4)));
    assert_eq!(errs.error_count, 0);
    assert_eq!(parse_num(b"x", 0, loc(), &mut errs), Some((0, 1)));
    assert_eq!(errs.error_count, 1);
    assert!(matches!(errs.diags[0], Diag::UnexpectedCharInNumber { c: b'x', .. }));
    assert_eq!(parse_num(b"$10000", 0, loc(), &mut errs), Some((0, 6)));
    assert!(matches!(errs.diags[1], Diag::NumberOutOfRange { value: 0x10000, .. }));
}

#[test]
fn test_parse_addr_or_label() {
    let mut errs = new_errors();
    match parse_addr_or_label(b" loop ,X", 0, loc(), &mut errs) {
        Some((Address::Label(l), p)) => {
            assert_eq!(l, b"loop".to_vec());
            assert_eq!(p, 6);
        },
        _ => panic!("expected a label"),
    }
    match parse_addr_or_label(b"$12", 0, loc(), &mut errs) {
        Some((Address::Literal(v), 3)) => assert_eq!(v, 0x12),
        _ => panic!("expected a literal"),
    }
}

fn assemble(line: &str) -> (Vec<u8>, Assembler, Errors, Option<()>) {
    let mut out = Vec::new();
    let mut a = new_assembler();
    let mut errs = new_errors();
    let r = assemble_statement(&mut out, line.as_bytes(), loc(), &mut a, &mut errs);
    (out, a, errs, r)
}

#[test]
fn test_assemble_modes() {
    assert_eq!(assemble("LDA #$10").0, vec![0xA9, 0x10]);
    assert_eq!(assemble("  lda $10").0, vec![0xA5, 0x10]);
    assert_eq!(assemble("LDA $1234").0, vec![0xAD, 0x34, 0x12]);
    assert_eq!(assemble("LDA $1234,x").0, vec![0xBD, 0x34, 0x12]);
    assert_eq!(assemble("LDA $12,X").0, vec![0xB5, 0x12]);
    assert_eq!(assemble("LDX $12,Y").0, vec![0xB6, 0x12]);
    assert_eq!(assemble("LDA ($12,X)").0, vec![0xA1, 0x12]);
    assert_eq!(assemble("LDA ($12),Y").0, vec![0xB1, 0x12]);
    assert_eq!(assemble("JMP ($1234)").0, vec![0x6C, 0x34, 0x12]);
    assert_eq!(assemble("RTS").0, vec![0x60]);
    assert_eq!(assemble("BNE *+5").0, vec![0xD0, 0x03]);
    assert_eq!(assemble("BNE *").0, vec![0xD0, 0xFE]);
}

#[test]
fn test_assemble_label_operand() {
    let (out, a, errs, r) = assemble("JSR putchar");
    assert!(r.is_some());
    assert_eq!(errs.error_count, 0);
    assert_eq!(out, vec![0x20, 0, 0]);
    assert!(matches!(&a.relocs[0].kind, RelocationKind::External { name, relative: false, .. } if name == b"putchar"));
    let (out, a, _, _) = assemble("BNE loop");
    assert_eq!(out, vec![0xD0, 0]);
    assert!(matches!(&a.relocs[0].kind, RelocationKind::External { relative: true, .. }));
}

#[test]
fn test_assemble_label_definition() {
    let (out, a, errs, r) = assemble("loop:");
    assert!(r.is_some());
    assert!(out.is_empty());
    assert_eq!(errs.error_count, 0);
    assert_eq!(a.externals[0].name, b"loop".to_vec());
    let (_, _, errs, _) = assemble("loop: NOP");
    assert_eq!(errs.error_count, 1);
    assert!(matches!(&errs.diags[0], Diag::TrailingGarbageAfterLabel { rest, .. } if rest == b" NOP"));
}

#[test]
fn test_assemble_errors() {
    let (out, _, errs, _) = assemble("FOO");
    assert!(matches!(&errs.diags[0], Diag::InvalidMnemonic { name, .. } if name == b"FOO"));
    assert!(matches!(errs.diags[1], Diag::InvalidOperand { .. }));
    assert_eq!(out, vec![INVL]);
    let (out, _, errs, _) = assemble("LDA #$100");
    assert!(matches!(errs.diags[0], Diag::ImmediateOutOfRange { value: 0x100, .. }));
    assert_eq!(out, vec![0xA9, 0x00]);
    let (_, _, errs, _) = assemble("STA #1");
    assert!(matches!(&errs.diags[0], Diag::InvalidOperand { name, operand, .. } if name == b"STA" && operand == b"#1"));
    let (_, _, errs, _) = assemble("RTS junk");
    assert!(matches!(errs.diags[0], Diag::InvalidOperand { .. }));
    let (_, _, errs, _) = assemble("LDA $10 junk");
    assert!(matches!(&errs.diags[0], Diag::TrailingGarbage { rest, .. } if rest == b"junk"));
}

fn op(opcode: Op) -> OpWithLocation {
    OpWithLocation { opcode, loc: loc() }
}

#[test]
fn test_generate_function_return_constant() {
    let mut out = Vec::new();
    let mut a = new_assembler();
    let mut errs = new_errors();
    let body = vec![op(Op::Return { arg: Some(Arg::IntLiteral(b"7".to_vec(), Radix::Dec)) })];
    assert!(generate_function(b"main", loc(), 0, 0, &body, &mut out, &mut a, &mut errs).is_some());
    assert_eq!(out, vec![0xA9, 7, 0xA0, 0, 0x4C, 0, 0, 0xA9, 0, 0xA8, 0x60]);
    assert_eq!(a.addresses, vec![0, 10]);
    assert_eq!(a.frame_sz, 0);
    assert!(matches!(&errs.diags[0], Diag::FunctionInfo { name, auto_vars_count: 0 } if name == b"main"));
}

#[test]
fn test_generate_function_with_frame() {
    let mut out = Vec::new();
    let mut a = new_assembler();
    let mut errs = new_errors();
    let body = vec![op(Op::AutoAssign { index: 1, arg: Arg::IntLiteral(b"1".to_vec(), Radix::Dec) })];
    assert!(generate_function(b"f", loc(), 1, 1, &body, &mut out, &mut a, &mut errs).is_some());
    assert_eq!(a.frame_sz, 0);
    assert_eq!(&out[0..2], &[0x48, 0x48]);
    assert_eq!(&out[out.len() - 1..], &[0x60]);
}

#[test]
fn test_data_section_and_entry() {
    let mut out = Vec::new();
    let mut a = new_assembler();
    assert!(generate_entry(&mut out, &mut a).is_some());
    assert_eq!(out, vec![0x20, 0, 0, 0x6C, 0xFC, 0xFF]);
    generate_data_section(&mut out, &vec![1, 2, 3]);
    assert_eq!(&out[6..], &[1, 2, 3]);
}

#[test]
fn test_unknown_extrn() {
    let mut errs = new_errors();
    let funcs = vec![Func { name: b"main".to_vec(), name_loc: loc(), body: Vec::new(), params_count: 0, auto_vars_count: 0 }];
    let extrns = vec![b"main".to_vec(), b"printf".to_vec()];
    assert!(generate_extrns(&extrns, &funcs, &Vec::new(), &Vec::new(), &mut errs).is_some());
    assert_eq!(errs.error_count, 1);
    assert!(matches!(&errs.diags[0], Diag::UnknownExtrn { name } if name == b"printf"));
}

#[test]
fn test_globals() {
    let mut out = Vec::new();
    let mut a = new_assembler();
    let mut errs = new_errors();
    let g = Global {
        name: b"v".to_vec(),
        name_loc: loc(),
        values: vec![
            ImmediateValue::IntLiteral(b"1".to_vec(), Radix::Dec),
            ImmediateValue::NegatedIntLiteral(b"1".to_vec(), Radix::Dec),
            ImmediateValue::CharLiteral(b"ab".to_vec()),
        ],
        value_locs: vec![loc(), loc(), loc()],
        is_vec: true,
        minimum_size: 5,
    };
    assert!(generate_globals(&mut out, &vec![g], &mut a, &mut errs).is_some());
    assert_eq!(out, vec![0, 0, 1, 0, 0xFF, 0xFF, b'a', b'b', 0, 0, 0, 0]);
    assert_eq!(a.addresses, vec![2]);
}

#[test]
fn test_relocations_are_applied() {
    let mut out = vec![0u8; 8];
    let mut a = new_assembler();
    let mut errs = new_errors();
    a.externals.push(b_lang::codegen::mos6502::assembler::External { name: b"f".to_vec(), addr: 0x10, loc: loc() });
    a.addresses.push(2);
    a.relocs.push(b_lang::codegen::mos6502::assembler::Relocation {
        kind: RelocationKind::External { name: b"f".to_vec(), offset: 0, byte: Byte::Both, relative: false },
        addr: 0,
    });
    a.relocs.push(b_lang::codegen::mos6502::assembler::Relocation {
        kind: RelocationKind::DataOffset { off: 3, byte: Byte::High },
        addr: 2,
    });
    a.relocs.push(b_lang::codegen::mos6502::assembler::Relocation {
        kind: RelocationKind::Address { idx: 0, relative: true },
        addr: 5,
    });
    a.relocs.push(b_lang::codegen::mos6502::assembler::Relocation {
        kind: RelocationKind::External { name: b"missing".to_vec(), offset: 0, byte: Byte::Both, relative: false },
        addr: 6,
    });
    assert!(relocations_ok(&out, &a));
    apply_relocations(&mut out, 0x9000, &a, &mut errs);
    assert_eq!(out, vec![0x10, 0x80, 0x90, 0, 0, 0xFC, 0, 0]);
    assert_eq!(errs.error_count, 0);
    assert!(matches!(&errs.diags[0], Diag::ExtrnNotFound { name } if name == b"missing"));
}

#[test]
fn test_linked_branches_land_on_their_labels() {
    let mut out = vec![0u8; 200];
    let mut a = new_assembler();
    let mut errs = new_errors();
    a.addresses.push(150);
    a.addresses.push(3);
    a.relocs.push(b_lang::codegen::mos6502::assembler::Relocation {
        kind: RelocationKind::Address { idx: 0, relative: true },
        addr: 30,
    });
    a.relocs.push(b_lang::codegen::mos6502::assembler::Relocation {
        kind: RelocationKind::Address { idx: 1, relative: true },
        addr: 100,
    });
    assert!(relocations_ok(&out, &a));
    apply_relocations(&mut out, 0x9000, &a, &mut errs);
    // Forward: 150 - 31 = 119; backward: 3 - 101 = -98, the byte 0x9E.
    assert_eq!(out[30], 119);
    assert_eq!(out[100], 0x9E);
    for (addr, target) in [(30usize, 150i32), (100, 3)] {
        let offset = out[addr] as i8 as i32;
        assert_eq!(addr as i32 + 1 + offset, target);
    }
}

#[test]
fn test_label_reference_reads_back() {
    let mut out = vec![0u8; 8];
    let mut a = new_assembler();
    let mut errs = new_errors();
    a.code_start = 0xFFF0;
    a.op_labels.push(b_lang::codegen::mos6502::assembler::Label { func_name: b"f".to_vec(), label: 3, addr: 0x25 });
    a.relocs.push(b_lang::codegen::mos6502::assembler::Relocation {
        kind: RelocationKind::Label { func_name: b"f".to_vec(), label: 3 },
        addr: 4,
    });
    assert!(relocations_ok(&out, &a));
    apply_relocations(&mut out, 0x9000, &a, &mut errs);
    // 0xFFF0 + 0x25 wraps round to 0x0015.
    assert_eq!(out, vec![0, 0, 0, 0, 0x15, 0x00, 0, 0]);
    assert_eq!(out[4] as u32 + 256 * out[5] as u32, (0xFFF0u32 + 0x25) % 65536);
}

#[test]
fn test_branch_out_of_reach_is_refused() {
    let out = vec![0u8; 4];
    let mut a = new_assembler();
    a.addresses.push(0x300);
    a.relocs.push(b_lang::codegen::mos6502::assembler::Relocation {
        kind: RelocationKind::Address { idx: 0, relative: true },
        addr: 1,
    });
    assert!(!relocations_ok(&out, &a));
}

#[test]
fn test_generate_program_image() {
    let main = Func {
        name: b"main".to_vec(),
        name_loc: loc(),
        body: vec![op(Op::Return { arg: Some(Arg::IntLiteral(b"7".to_vec(), Radix::Dec)) })],
        params_count: 0,
        auto_vars_count: 0,
    };
    let p = Program { funcs: vec![main], data: vec![], extrns: vec![], globals: vec![], asm_funcs: vec![] };
    let mut errs = new_errors();
    let image = generate_program(&p, 0x8000, &mut errs).expect("an image");
    assert_eq!(
        image,
        vec![0x20, 0x06, 0x80, 0x6C, 0xFC, 0xFF, 0xA9, 7, 0xA0, 0, 0x4C, 0x10, 0x80, 0xA9, 0, 0xA8, 0x60]
    );
    assert_eq!(errs.error_count, 0);
}

#[test]
fn test_generate_program_with_inline_assembly() {
    let main = Func {
        name: b"main".to_vec(),
        name_loc: loc(),
        body: vec![op(Op::Asm { stmts: vec![AsmStmt { line: b"NOP".to_vec(), loc: loc() }] })],
        params_count: 0,
        auto_vars_count: 0,
    };
    let p = Program { funcs: vec![main], data: vec![9], extrns: vec![], globals: vec![], asm_funcs: vec![] };
    let mut errs = new_errors();
    let image = generate_program(&p, 0x1000, &mut errs).expect("an image");
    assert_eq!(image, vec![0x20, 0x06, 0x10, 0x6C, 0xFC, 0xFF, 0xEA, 0xA9, 0, 0xA8, 0x60, 9]);
}

#[test]
fn test_generate_function_call_with_arguments() {
    let mut out = Vec::new();
    let mut a = new_assembler();
    let mut errs = new_errors();
    let body = vec![op(Op::Funcall {
        result: 1,
        fun: Arg::External(b"f".to_vec()),
        args: vec![Arg::IntLiteral(b"1".to_vec(), Radix::Dec), Arg::IntLiteral(b"2".to_vec(), Radix::Dec)],
    })];
    assert!(generate_function(b"g", loc(), 0, 1, &body, &mut out, &mut a, &mut errs).is_some());
    let expected = vec![
        0x48, 0x48, // frame
        0xA9, 2, 0xA0, 0, 0xAA, 0x98, 0x48, 0x8A, 0x48, // second argument, pushed
        0xA9, 1, 0xA0, 0, // first argument in Y:A
        0x20, 0, 0, // JSR f
        0xAA, 0x68, 0x68, 0x8A, // drop the pushed word
        0xBA, 0x9D, 0x01, 0x01, 0x98, 0x9D, 0x02, 0x01, // result
        0xA9, 0, 0xA8, 0x85, 6, 0x68, 0x68, 0xA5, 6, 0x60, // return
    ];
    assert_eq!(out, expected);
    assert_eq!(a.addresses, vec![2, 33]);
    assert_eq!(a.frame_sz, 0);
}

#[test]
fn test_generate_function_labels() {
    let mut out = Vec::new();
    let mut a = new_assembler();
    let mut errs = new_errors();
    let body = vec![op(Op::Label { label: 1 }), op(Op::JmpLabel { label: 1 })];
    assert!(generate_function(b"h", loc(), 0, 0, &body, &mut out, &mut a, &mut errs).is_some());
    assert_eq!(out, vec![0x4C, 0, 0, 0xA9, 0, 0xA8, 0x60]);
    assert_eq!(a.op_labels.len(), 1);
    assert_eq!(a.op_labels[0].addr, 0);
    assert_eq!(a.op_labels[0].label, 1);
    assert_eq!(a.relocs[0].addr, 1);
}

#[test]
fn test_generate_program_links_labels() {
    let main = Func {
        name: b"main".to_vec(),
        name_loc: loc(),
        body: vec![op(Op::Label { label: 1 }), op(Op::JmpLabel { label: 1 })],
        params_count: 0,
        auto_vars_count: 0,
    };
    let p = Program { funcs: vec![main], data: vec![], extrns: vec![], globals: vec![], asm_funcs: vec![] };
    let mut errs = new_errors();
    let image = generate_program(&p, 0x8000, &mut errs).expect("an image");
    assert_eq!(image, vec![0x20, 0x06, 0x80, 0x6C, 0xFC, 0xFF, 0x4C, 0x06, 0x80, 0xA9, 0, 0xA8, 0x60]);
}

#[test]
fn test_generate_program_missing_label() {
    let main = Func {
        name: b"main".to_vec(),
        name_loc: loc(),
        body: vec![op(Op::JmpLabel { label: 2 })],
        params_count: 0,
        auto_vars_count: 0,
    };
    let p = Program { funcs: vec![main], data: vec![], extrns: vec![], globals: vec![], asm_funcs: vec![] };
    let mut errs = new_errors();
    assert!(generate_program(&p, 0x8000, &mut errs).is_none());
    assert_eq!(errs.error_count, 0);
}

#[test]
fn test_program_shape_check() {
    let good = Func {
        name: b"main".to_vec(),
        name_loc: loc(),
        body: vec![op(Op::AutoAssign { index: 1, arg: Arg::IntLiteral(b"1".to_vec(), Radix::Dec) })],
        params_count: 0,
        auto_vars_count: 1,
    };
    let p = Program { funcs: vec![good], data: vec![], extrns: vec![], globals: vec![], asm_funcs: vec![] };
    assert!(b_lang::codegen::mos6502::validate::program_fits(&p, 0));
    let bad = Func {
        name: b"main".to_vec(),
        name_loc: loc(),
        body: vec![op(Op::Bogus)],
        params_count: 0,
        auto_vars_count: 0,
    };
    let p = Program { funcs: vec![bad], data: vec![], extrns: vec![], globals: vec![], asm_funcs: vec![] };
    assert!(!b_lang::codegen::mos6502::validate::program_fits(&p, 0));
}

#[test]
fn test_too_many_errors_stop_generation() {
    let mut out = Vec::new();
    let mut a = new_assembler();
    let mut errs = Errors { error_count: 99, diags: Vec::new() };
    let arg = Arg::IntLiteral(b"70000".to_vec(), Radix::Dec);
    assert!(load_arg(&arg, loc(), &mut out, &mut a, &mut errs).is_none());
    assert_eq!(errs.error_count, 100);
    assert!(out.is_empty());
}

#[test]
fn test_every_mnemonic_names_its_instruction() {
    for k in 0..INSTR_COUNT {
        let i = instr_at_exec(k);
        let name = format!("{:?}", i);
        assert_eq!(instr_from_string(name.as_bytes()), Some(i));
    }
}

#[test]
fn test_indirect_operand_errors() {
    let (_, _, errs, _) = assemble("LDA (lbl,X)");
    assert!(matches!(errs.diags[0], Diag::LabelForIndirectX { .. }));
    let (_, _, errs, _) = assemble("LDA ($100,X)");
    assert!(matches!(errs.diags[0], Diag::IndirectXOutOfRange { value: 0x100, .. }));
    let (_, _, errs, _) = assemble("LDA ($10,Q)");
    assert!(matches!(errs.diags[0], Diag::XExpected { .. }));
    let (_, _, errs, _) = assemble("LDA ($10,X]");
    assert!(matches!(errs.diags[0], Diag::ParenExpectedAfterX { .. }));
    let (_, _, errs, _) = assemble("JMP ($1234]");
    assert!(matches!(errs.diags[0], Diag::CommaOrParenExpected { .. }));
    let (_, _, errs, _) = assemble("LDA (lbl),Y");
    assert!(matches!(errs.diags[0], Diag::LabelForIndirectY { .. }));
    let (_, _, errs, _) = assemble("LDA ($100),Y");
    assert!(matches!(errs.diags[0], Diag::IndirectYOutOfRange { value: 0x100, .. }));
    let (_, _, errs, _) = assemble("LDA ($10),Q");
    assert!(matches!(errs.diags[0], Diag::YExpected { .. }));
}

#[test]
fn test_error_columns_move_on() {
    let (_, _, errs, _) = assemble("LDA ($10,Q)");
    match &errs.diags[0] {
        Diag::XExpected { loc } => assert_eq!(loc.line_offset, 1 + 10),
        _ => panic!("expected XExpected"),
    }
}

#[test]
fn test_function_address_errors() {
    let mut out = Vec::new();
    let mut a = new_assembler();
    let mut errs = new_errors();
    let body = vec![
        op(Op::Funcall { result: 1, fun: Arg::IntLiteral(b"70000".to_vec(), Radix::Dec), args: vec![] }),
        op(Op::Funcall { result: 1, fun: Arg::CharLiteral(b"abc".to_vec()), args: vec![] }),
    ];
    assert!(generate_function(b"f", loc(), 0, 1, &body, &mut out, &mut a, &mut errs).is_some());
    assert_eq!(errs.error_count, 2);
    assert!(matches!(errs.diags[1], Diag::FunctionAddressOutOfRange { .. }));
    assert!(matches!(errs.diags[2], Diag::FunctionAddressCharOutOfRange { .. }));
}

#[test]
fn test_global_value_errors() {
    let mut out = Vec::new();
    let mut a = new_assembler();
    let mut errs = new_errors();
    let g = Global {
        name: b"g".to_vec(),
        name_loc: loc(),
        values: vec![
            ImmediateValue::IntLiteral(b"10000".to_vec(), Radix::Hex),
            ImmediateValue::CharLiteral(b"abc".to_vec()),
        ],
        value_locs: vec![loc(), loc()],
        is_vec: false,
        minimum_size: 0,
    };
    assert!(generate_globals(&mut out, &vec![g], &mut a, &mut errs).is_some());
    assert_eq!(out, vec![0, 0, 0, 0]);
    assert!(matches!(errs.diags[0], Diag::GlobalConstantOutOfRange { radix: Radix::Hex, .. }));
    assert!(matches!(errs.diags[1], Diag::GlobalCharOutOfRange { .. }));
}

#[test]
fn test_indirect_call_through_pointer() {
    let mut out = Vec::new();
    let mut a = new_assembler();
    let mut errs = new_errors();
    let body = vec![op(Op::Funcall { result: 1, fun: Arg::AutoVar(1), args: vec![] })];
    assert!(generate_function(b"f", loc(), 0, 1, &body, &mut out, &mut a, &mut errs).is_some());
    // frame, load the pointer, store it in ZP_DEREF_FUN
    let call = 2 + 7 + 4;
    assert_eq!(&out[2 + 7..call], &[0x85, 12, 0x84, 13]);
    let target = 0x8000 + call as u16 + 6;
    assert_eq!(&out[call..call + 3], &[0x20, target as u8, (target >> 8) as u8]);
    let back = target + 3;
    assert_eq!(&out[call + 3..call + 6], &[0x4C, back as u8, (back >> 8) as u8]);
    assert_eq!(&out[call + 6..call + 9], &[0x6C, 12, 0]);
}
