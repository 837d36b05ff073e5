//! The 6502 instruction set: mnemonics, addressing modes and opcodes.
use vstd::prelude::*;
use crate::lexer::tables::s3;

verus! {

/// The instructions of the 6502, in alphabetical order.
#[allow(non_camel_case_types)]
#[derive(Clone, Copy, PartialEq, Eq, Structural, Debug)]
pub enum Instr {
    ADC,
    AND,
    ASL,
    BCC,
    BCS,
    BEQ,
    BIT,
    BMI,
    BNE,
    BPL,
    BRK,
    BVC,
    BVS,
    CLC,
    CLD,
    CLI,
    CLV,
    CMP,
    CPX,
    CPY,
    DEC,
    DEX,
    DEY,
    EOR,
    INC,
    INX,
    INY,
    JMP,
    JSR,
    LDA,
    LDX,
    LDY,
    LSR,
    NOP,
    ORA,
    PHA,
    PHP,
    PLA,
    PLP,
    ROL,
    ROR,
    RTI,
    RTS,
    SBC,
    SEC,
    SED,
    SEI,
    STA,
    STX,
    STY,
    TAX,
    TAY,
    TSX,
    TXA,
    TXS,
    TYA,
}

/// Number of instructions.
pub const INSTR_COUNT: usize = 56;

/// The addressing modes of the 6502.
#[allow(non_camel_case_types)]
#[derive(Clone, Copy, PartialEq, Eq, Structural, Debug)]
pub enum AddrMode {
    IMM,
    ZP,
    ZP_X,
    ZP_Y,
    ABS,
    ABS_X,
    ABS_Y,
    IND_X,
    IND_Y,
    ACC,
    REL,
    IND,
    IMPL,
}

/// Number of addressing modes.
pub const ADDR_MODE_COUNT: usize = 13;

/// The table's mark for an instruction that has no opcode in an addressing mode.
pub const INVL: u8 = 0xFF;

/// The column of an addressing mode in the opcode table.
pub open spec fn mode_index(m: AddrMode) -> int {
    match m {
        AddrMode::IMM => 0,
        AddrMode::ZP => 1,
        AddrMode::ZP_X => 2,
        AddrMode::ZP_Y => 3,
        AddrMode::ABS => 4,
        AddrMode::ABS_X => 5,
        AddrMode::ABS_Y => 6,
        AddrMode::IND_X => 7,
        AddrMode::IND_Y => 8,
        AddrMode::ACC => 9,
        AddrMode::REL => 10,
        AddrMode::IND => 11,
        AddrMode::IMPL => 12,
    }
}

/// The row of an instruction in the opcode table.
pub open spec fn instr_index(i: Instr) -> int {
    match i {
        Instr::ADC => 0,
        Instr::AND => 1,
        Instr::ASL => 2,
        Instr::BCC => 3,
        Instr::BCS => 4,
        Instr::BEQ => 5,
        Instr::BIT => 6,
        Instr::BMI => 7,
        Instr::BNE => 8,
        Instr::BPL => 9,
        Instr::BRK => 10,
        Instr::BVC => 11,
        Instr::BVS => 12,
        Instr::CLC => 13,
        Instr::CLD => 14,
        Instr::CLI => 15,
        Instr::CLV => 16,
        Instr::CMP => 17,
        Instr::CPX => 18,
        Instr::CPY => 19,
        Instr::DEC => 20,
        Instr::DEX => 21,
        Instr::DEY => 22,
        Instr::EOR => 23,
        Instr::INC => 24,
        Instr::INX => 25,
        Instr::INY => 26,
        Instr::JMP => 27,
        Instr::JSR => 28,
        Instr::LDA => 29,
        Instr::LDX => 30,
        Instr::LDY => 31,
        Instr::LSR => 32,
        Instr::NOP => 33,
        Instr::ORA => 34,
        Instr::PHA => 35,
        Instr::PHP => 36,
        Instr::PLA => 37,
        Instr::PLP => 38,
        Instr::ROL => 39,
        Instr::ROR => 40,
        Instr::RTI => 41,
        Instr::RTS => 42,
        Instr::SBC => 43,
        Instr::SEC => 44,
        Instr::SED => 45,
        Instr::SEI => 46,
        Instr::STA => 47,
        Instr::STX => 48,
        Instr::STY => 49,
        Instr::TAX => 50,
        Instr::TAY => 51,
        Instr::TSX => 52,
        Instr::TXA => 53,
        Instr::TXS => 54,
        Instr::TYA => 55,
    }
}

/// The instruction in row `k`.
pub open spec fn instr_at(k: int) -> Instr {
    if k == 0 {
        Instr::ADC
    } else if k == 1 {
        Instr::AND
    } else if k == 2 {
        Instr::ASL
    } else if k == 3 {
        Instr::BCC
    } else if k == 4 {
        Instr::BCS
    } else if k == 5 {
        Instr::BEQ
    } else if k == 6 {
        Instr::BIT
    } else if k == 7 {
        Instr::BMI
    } else if k == 8 {
        Instr::BNE
    } else if k == 9 {
        Instr::BPL
    } else if k == 10 {
        Instr::BRK
    } else if k == 11 {
        Instr::BVC
    } else if k == 12 {
        Instr::BVS
    } else if k == 13 {
        Instr::CLC
    } else if k == 14 {
        Instr::CLD
    } else if k == 15 {
        Instr::CLI
    } else if k == 16 {
        Instr::CLV
    } else if k == 17 {
        Instr::CMP
    } else if k == 18 {
        Instr::CPX
    } else if k == 19 {
        Instr::CPY
    } else if k == 20 {
        Instr::DEC
    } else if k == 21 {
        Instr::DEX
    } else if k == 22 {
        Instr::DEY
    } else if k == 23 {
        Instr::EOR
    } else if k == 24 {
        Instr::INC
    } else if k == 25 {
        Instr::INX
    } else if k == 26 {
        Instr::INY
    } else if k == 27 {
        Instr::JMP
    } else if k == 28 {
        Instr::JSR
    } else if k == 29 {
        Instr::LDA
    } else if k == 30 {
        Instr::LDX
    } else if k == 31 {
        Instr::LDY
    } else if k == 32 {
        Instr::LSR
    } else if k == 33 {
        Instr::NOP
    } else if k == 34 {
        Instr::ORA
    } else if k == 35 {
        Instr::PHA
    } else if k == 36 {
        Instr::PHP
    } else if k == 37 {
        Instr::PLA
    } else if k == 38 {
        Instr::PLP
    } else if k == 39 {
        Instr::ROL
    } else if k == 40 {
        Instr::ROR
    } else if k == 41 {
        Instr::RTI
    } else if k == 42 {
        Instr::RTS
    } else if k == 43 {
        Instr::SBC
    } else if k == 44 {
        Instr::SEC
    } else if k == 45 {
        Instr::SED
    } else if k == 46 {
        Instr::SEI
    } else if k == 47 {
        Instr::STA
    } else if k == 48 {
        Instr::STX
    } else if k == 49 {
        Instr::STY
    } else if k == 50 {
        Instr::TAX
    } else if k == 51 {
        Instr::TAY
    } else if k == 52 {
        Instr::TSX
    } else if k == 53 {
        Instr::TXA
    } else if k == 54 {
        Instr::TXS
    } else {
        Instr::TYA
    }
}

/// The opcodes of an instruction, one per addressing mode (`INVL` where there is none).
pub open spec fn opcode_row(i: Instr) -> Seq<u8> {
    match i {
        Instr::ADC => seq![0x69u8, 0x65u8, 0x75u8, 0xFFu8, 0x6Du8, 0x7Du8, 0x79u8, 0x61u8, 0x71u8, 0xFFu8, 0xFFu8, 0xFFu8, 0xFFu8],
        Instr::AND => seq![0x29u8, 0x25u8, 0x35u8, 0xFFu8, 0x2Du8, 0x3Du8, 0x39u8, 0x21u8, 0x31u8, 0xFFu8, 0xFFu8, 0xFFu8, 0xFFu8],
        Instr::ASL => seq![0xFFu8, 0x06u8, 0x16u8, 0xFFu8, 0x0Eu8, 0x1Eu8, 0xFFu8, 0xFFu8, 0xFFu8, 0x0Au8, 0xFFu8, 0xFFu8, 0xFFu8],
        Instr::BCC => seq![0xFFu8, 0xFFu8, 0xFFu8, 0xFFu8, 0xFFu8, 0xFFu8, 0xFFu8, 0xFFu8, 0xFFu8, 0xFFu8, 0x90u8, 0xFFu8, 0xFFu8],
        Instr::BCS => seq![0xFFu8, 0xFFu8, 0xFFu8, 0xFFu8, 0xFFu8, 0xFFu8, 0xFFu8, 0xFFu8, 0xFFu8, 0xFFu8, 0xB0u8, 0xFFu8, 0xFFu8],
        Instr::BEQ => seq![0xFFu8, 0xFFu8, 0xFFu8, 0xFFu8, 0xFFu8, 0xFFu8, 0xFFu8, 0xFFu8, 0xFFu8, 0xFFu8, 0xF0u8, 0xFFu8, 0xFFu8],
        Instr::BIT => seq![0xFFu8, 0x24u8, 0xFFu8, 0xFFu8, 0x2Cu8, 0xFFu8, 0xFFu8, 0xFFu8, 0xFFu8, 0xFFu8, 0xFFu8, 0xFFu8, 0xFFu8],
        Instr::BMI => seq![0xFFu8, 0xFFu8, 0xFFu8, 0xFFu8, 0xFFu8, 0xFFu8, 0xFFu8, 0xFFu8, 0xFFu8, 0xFFu8, 0x30u8, 0xFFu8, 0xFFu8],
        Instr::BNE => seq![0xFFu8, 0xFFu8, 0xFFu8, 0xFFu8, 0xFFu8, 0xFFu8, 0xFFu8, 0xFFu8, 0xFFu8, 0xFFu8, 0xD0u8, 0xFFu8, 0xFFu8],
        Instr::BPL => seq![0xFFu8, 0xFFu8, 0xFFu8, 0xFFu8, 0xFFu8, 0xFFu8, 0xFFu8, 0xFFu8, 0xFFu8, 0xFFu8, 0x10u8, 0xFFu8, 0xFFu8],
        Instr::BRK => seq![0xFFu8, 0xFFu8, 0xFFu8, 0xFFu8, 0xFFu8, 0xFFu8, 0xFFu8, 0xFFu8, 0xFFu8, 0xFFu8, 0xFFu8, 0xFFu8, 0x00u8],
        Instr::BVC => seq![0xFFu8, 0xFFu8, 0xFFu8, 0xFFu8, 0xFFu8, 0xFFu8, 0xFFu8, 0xFFu8, 0xFFu8, 0xFFu8, 0x50u8, 0xFFu8, 0xFFu8],
        Instr::BVS => seq![0xFFu8, 0xFFu8, 0xFFu8, 0xFFu8, 0xFFu8, 0xFFu8, 0xFFu8, 0xFFu8, 0xFFu8, 0xFFu8, 0x70u8, 0xFFu8, 0xFFu8],
        Instr::CLC => seq![0xFFu8, 0xFFu8, 0xFFu8, 0xFFu8, 0xFFu8, 0xFFu8, 0xFFu8, 0xFFu8, 0xFFu8, 0xFFu8, 0xFFu8, 0xFFu8, 0x18u8],
        Instr::CLD => seq![0xFFu8, 0xFFu8, 0xFFu8, 0xFFu8, 0xFFu8, 0xFFu8, 0xFFu8, 0xFFu8, 0xFFu8, 0xFFu8, 0xFFu8, 0xFFu8, 0xD8u8],
        Instr::CLI => seq![0xFFu8, 0xFFu8, 0xFFu8, 0xFFu8, 0xFFu8, 0xFFu8, 0xFFu8, 0xFFu8, 0xFFu8, 0xFFu8, 0xFFu8, 0xFFu8, 0x58u8],
        Instr::CLV => seq![0xFFu8, 0xFFu8, 0xFFu8, 0xFFu8, 0xFFu8, 0xFFu8, 0xFFu8, 0xFFu8, 0xFFu8, 0xFFu8, 0xFFu8, 0xFFu8, 0xB8u8],
        Instr::CMP => seq![0xC9u8, 0xC5u8, 0xD5u8, 0xFFu8, 0xCDu8, 0xDDu8, 0xD9u8, 0xC1u8, 0xD1u8, 0xFFu8, 0xFFu8, 0xFFu8, 0xFFu8],
        Instr::CPX => seq![0xE0u8, 0xE4u8, 0xFFu8, 0xFFu8, 0xECu8, 0xFFu8, 0xFFu8, 0xFFu8, 0xFFu8, 0xFFu8, 0xFFu8, 0xFFu8, 0xFFu8],
        Instr::CPY => seq![0xC0u8, 0xC4u8, 0xFFu8, 0xFFu8, 0xCCu8, 0xFFu8, 0xFFu8, 0xFFu8, 0xFFu8, 0xFFu8, 0xFFu8, 0xFFu8, 0xFFu8],
        Instr::DEC => seq![0xFFu8, 0xC6u8, 0xD6u8, 0xFFu8, 0xCEu8, 0xDEu8, 0xFFu8, 0xFFu8, 0xFFu8, 0xFFu8, 0xFFu8, 0xFFu8, 0xFFu8],
        Instr::DEX => seq![0xFFu8, 0xFFu8, 0xFFu8, 0xFFu8, 0xFFu8, 0xFFu8, 0xFFu8, 0xFFu8, 0xFFu8, 0xFFu8, 0xFFu8, 0xFFu8, 0xCAu8],
        Instr::DEY => seq![0xFFu8, 0xFFu8, 0xFFu8, 0xFFu8, 0xFFu8, 0xFFu8, 0xFFu8, 0xFFu8, 0xFFu8, 0xFFu8, 0xFFu8, 0xFFu8, 0x88u8],
        Instr::EOR => seq![0x49u8, 0x45u8, 0x55u8, 0xFFu8, 0x4Du8, 0x5Du8, 0x59u8, 0x41u8, 0x51u8, 0xFFu8, 0xFFu8, 0xFFu8, 0xFFu8],
        Instr::INC => seq![0xFFu8, 0xE6u8, 0xF6u8, 0xFFu8, 0xEEu8, 0xFEu8, 0xFFu8, 0xFFu8, 0xFFu8, 0xFFu8, 0xFFu8, 0xFFu8, 0xFFu8],
        Instr::INX => seq![0xFFu8, 0xFFu8, 0xFFu8, 0xFFu8, 0xFFu8, 0xFFu8, 0xFFu8, 0xFFu8, 0xFFu8, 0xFFu8, 0xFFu8, 0xFFu8, 0xE8u8],
        Instr::INY => seq![0xFFu8, 0xFFu8, 0xFFu8, 0xFFu8, 0xFFu8, 0xFFu8, 0xFFu8, 0xFFu8, 0xFFu8, 0xFFu8, 0xFFu8, 0xFFu8, 0xC8u8],
        Instr::JMP => seq![0xFFu8, 0xFFu8, 0xFFu8, 0xFFu8, 0x4Cu8, 0xFFu8, 0xFFu8, 0xFFu8, 0xFFu8, 0xFFu8, 0xFFu8, 0x6Cu8, 0xFFu8],
        Instr::JSR => seq![0xFFu8, 0xFFu8, 0xFFu8, 0xFFu8, 0x20u8, 0xFFu8, 0xFFu8, 0xFFu8, 0xFFu8, 0xFFu8, 0xFFu8, 0xFFu8, 0xFFu8],
        Instr::LDA => seq![0xA9u8, 0xA5u8, 0xB5u8, 0xFFu8, 0xADu8, 0xBDu8, 0xB9u8, 0xA1u8, 0xB1u8, 0xFFu8, 0xFFu8, 0xFFu8, 0xFFu8],
        Instr::LDX => seq![0xA2u8, 0xA6u8, 0xFFu8, 0xB6u8, 0xAEu8, 0xFFu8, 0xBEu8, 0xFFu8, 0xFFu8, 0xFFu8, 0xFFu8, 0xFFu8, 0xFFu8],
        Instr::LDY => seq![0xA0u8, 0xA4u8, 0xB4u8, 0xFFu8, 0xACu8, 0xBCu8, 0xFFu8, 0xFFu8, 0xFFu8, 0xFFu8, 0xFFu8, 0xFFu8, 0xFFu8],
        Instr::LSR => seq![0xFFu8, 0x46u8, 0x56u8, 0xFFu8, 0x4Eu8, 0x5Eu8, 0xFFu8, 0xFFu8, 0xFFu8, 0x4Au8, 0xFFu8, 0xFFu8, 0xFFu8],
        Instr::NOP => seq![0xFFu8, 0xFFu8, 0xFFu8, 0xFFu8, 0xFFu8, 0xFFu8, 0xFFu8, 0xFFu8, 0xFFu8, 0xFFu8, 0xFFu8, 0xFFu8, 0xEAu8],
        Instr::ORA => seq![0x09u8, 0x05u8, 0x15u8, 0xFFu8, 0x0Du8, 0x1Du8, 0x19u8, 0x01u8, 0x11u8, 0xFFu8, 0xFFu8, 0xFFu8, 0xFFu8],
        Instr::PHA => seq![0xFFu8, 0xFFu8, 0xFFu8, 0xFFu8, 0xFFu8, 0xFFu8, 0xFFu8, 0xFFu8, 0xFFu8, 0xFFu8, 0xFFu8, 0xFFu8, 0x48u8],
        Instr::PHP => seq![0xFFu8, 0xFFu8, 0xFFu8, 0xFFu8, 0xFFu8, 0xFFu8, 0xFFu8, 0xFFu8, 0xFFu8, 0xFFu8, 0xFFu8, 0xFFu8, 0x08u8],
        Instr::PLA => seq![0xFFu8, 0xFFu8, 0xFFu8, 0xFFu8, 0xFFu8, 0xFFu8, 0xFFu8, 0xFFu8, 0xFFu8, 0xFFu8, 0xFFu8, 0xFFu8, 0x68u8],
        Instr::PLP => seq![0xFFu8, 0xFFu8, 0xFFu8, 0xFFu8, 0xFFu8, 0xFFu8, 0xFFu8, 0xFFu8, 0xFFu8, 0xFFu8, 0xFFu8, 0xFFu8, 0x28u8],
        Instr::ROL => seq![0xFFu8, 0x26u8, 0x36u8, 0xFFu8, 0x2Eu8, 0x3Eu8, 0xFFu8, 0xFFu8, 0xFFu8, 0x2Au8, 0xFFu8, 0xFFu8, 0xFFu8],
        Instr::ROR => seq![0xFFu8, 0x66u8, 0x76u8, 0xFFu8, 0x6Eu8, 0x7Eu8, 0xFFu8, 0xFFu8, 0xFFu8, 0x6Au8, 0xFFu8, 0xFFu8, 0xFFu8],
        Instr::RTI => seq![0xFFu8, 0xFFu8, 0xFFu8, 0xFFu8, 0xFFu8, 0xFFu8, 0xFFu8, 0xFFu8, 0xFFu8, 0xFFu8, 0xFFu8, 0xFFu8, 0x40u8],
        Instr::RTS => seq![0xFFu8, 0xFFu8, 0xFFu8, 0xFFu8, 0xFFu8, 0xFFu8, 0xFFu8, 0xFFu8, 0xFFu8, 0xFFu8, 0xFFu8, 0xFFu8, 0x60u8],
        Instr::SBC => seq![0xE9u8, 0xE5u8, 0xF5u8, 0xFFu8, 0xEDu8, 0xFDu8, 0xF9u8, 0xE1u8, 0xF1u8, 0xFFu8, 0xFFu8, 0xFFu8, 0xFFu8],
        Instr::SEC => seq![0xFFu8, 0xFFu8, 0xFFu8, 0xFFu8, 0xFFu8, 0xFFu8, 0xFFu8, 0xFFu8, 0xFFu8, 0xFFu8, 0xFFu8, 0xFFu8, 0x38u8],
        Instr::SED => seq![0xFFu8, 0xFFu8, 0xFFu8, 0xFFu8, 0xFFu8, 0xFFu8, 0xFFu8, 0xFFu8, 0xFFu8, 0xFFu8, 0xFFu8, 0xFFu8, 0xF8u8],
        Instr::SEI => seq![0xFFu8, 0xFFu8, 0xFFu8, 0xFFu8, 0xFFu8, 0xFFu8, 0xFFu8, 0xFFu8, 0xFFu8, 0xFFu8, 0xFFu8, 0xFFu8, 0x78u8],
        Instr::STA => seq![0xFFu8, 0x85u8, 0x95u8, 0xFFu8, 0x8Du8, 0x9Du8, 0x99u8, 0x81u8, 0x91u8, 0xFFu8, 0xFFu8, 0xFFu8, 0xFFu8],
        Instr::STX => seq![0xFFu8, 0x86u8, 0xFFu8, 0x96u8, 0x8Eu8, 0xFFu8, 0xFFu8, 0xFFu8, 0xFFu8, 0xFFu8, 0xFFu8, 0xFFu8, 0xFFu8],
        Instr::STY => seq![0xFFu8, 0x84u8, 0x94u8, 0xFFu8, 0x8Cu8, 0xFFu8, 0xFFu8, 0xFFu8, 0xFFu8, 0xFFu8, 0xFFu8, 0xFFu8, 0xFFu8],
        Instr::TAX => seq![0xFFu8, 0xFFu8, 0xFFu8, 0xFFu8, 0xFFu8, 0xFFu8, 0xFFu8, 0xFFu8, 0xFFu8, 0xFFu8, 0xFFu8, 0xFFu8, 0xAAu8],
        Instr::TAY => seq![0xFFu8, 0xFFu8, 0xFFu8, 0xFFu8, 0xFFu8, 0xFFu8, 0xFFu8, 0xFFu8, 0xFFu8, 0xFFu8, 0xFFu8, 0xFFu8, 0xA8u8],
        Instr::TSX => seq![0xFFu8, 0xFFu8, 0xFFu8, 0xFFu8, 0xFFu8, 0xFFu8, 0xFFu8, 0xFFu8, 0xFFu8, 0xFFu8, 0xFFu8, 0xFFu8, 0xBAu8],
        Instr::TXA => seq![0xFFu8, 0xFFu8, 0xFFu8, 0xFFu8, 0xFFu8, 0xFFu8, 0xFFu8, 0xFFu8, 0xFFu8, 0xFFu8, 0xFFu8, 0xFFu8, 0x8Au8],
        Instr::TXS => seq![0xFFu8, 0xFFu8, 0xFFu8, 0xFFu8, 0xFFu8, 0xFFu8, 0xFFu8, 0xFFu8, 0xFFu8, 0xFFu8, 0xFFu8, 0xFFu8, 0x9Au8],
        Instr::TYA => seq![0xFFu8, 0xFFu8, 0xFFu8, 0xFFu8, 0xFFu8, 0xFFu8, 0xFFu8, 0xFFu8, 0xFFu8, 0xFFu8, 0xFFu8, 0xFFu8, 0x98u8],
    }
}

/// The opcode of `i` in mode `m`; `INVL` where there is none.
pub open spec fn opcode_of(i: Instr, m: AddrMode) -> u8 {
    opcode_row(i)[mode_index(m)]
}

/// The mnemonic of an instruction, in upper case.
pub open spec fn instr_name(i: Instr) -> Seq<u8> {
    match i {
        Instr::ADC => s3('A', 'D', 'C'),
        Instr::AND => s3('A', 'N', 'D'),
        Instr::ASL => s3('A', 'S', 'L'),
        Instr::BCC => s3('B', 'C', 'C'),
        Instr::BCS => s3('B', 'C', 'S'),
        Instr::BEQ => s3('B', 'E', 'Q'),
        Instr::BIT => s3('B', 'I', 'T'),
        Instr::BMI => s3('B', 'M', 'I'),
        Instr::BNE => s3('B', 'N', 'E'),
        Instr::BPL => s3('B', 'P', 'L'),
        Instr::BRK => s3('B', 'R', 'K'),
        Instr::BVC => s3('B', 'V', 'C'),
        Instr::BVS => s3('B', 'V', 'S'),
        Instr::CLC => s3('C', 'L', 'C'),
        Instr::CLD => s3('C', 'L', 'D'),
        Instr::CLI => s3('C', 'L', 'I'),
        Instr::CLV => s3('C', 'L', 'V'),
        Instr::CMP => s3('C', 'M', 'P'),
        Instr::CPX => s3('C', 'P', 'X'),
        Instr::CPY => s3('C', 'P', 'Y'),
        Instr::DEC => s3('D', 'E', 'C'),
        Instr::DEX => s3('D', 'E', 'X'),
        Instr::DEY => s3('D', 'E', 'Y'),
        Instr::EOR => s3('E', 'O', 'R'),
        Instr::INC => s3('I', 'N', 'C'),
        Instr::INX => s3('I', 'N', 'X'),
        Instr::INY => s3('I', 'N', 'Y'),
        Instr::JMP => s3('J', 'M', 'P'),
        Instr::JSR => s3('J', 'S', 'R'),
        Instr::LDA => s3('L', 'D', 'A'),
        Instr::LDX => s3('L', 'D', 'X'),
        Instr::LDY => s3('L', 'D', 'Y'),
        Instr::LSR => s3('L', 'S', 'R'),
        Instr::NOP => s3('N', 'O', 'P'),
        Instr::ORA => s3('O', 'R', 'A'),
        Instr::PHA => s3('P', 'H', 'A'),
        Instr::PHP => s3('P', 'H', 'P'),
        Instr::PLA => s3('P', 'L', 'A'),
        Instr::PLP => s3('P', 'L', 'P'),
        Instr::ROL => s3('R', 'O', 'L'),
        Instr::ROR => s3('R', 'O', 'R'),
        Instr::RTI => s3('R', 'T', 'I'),
        Instr::RTS => s3('R', 'T', 'S'),
        Instr::SBC => s3('S', 'B', 'C'),
        Instr::SEC => s3('S', 'E', 'C'),
        Instr::SED => s3('S', 'E', 'D'),
        Instr::SEI => s3('S', 'E', 'I'),
        Instr::STA => s3('S', 'T', 'A'),
        Instr::STX => s3('S', 'T', 'X'),
        Instr::STY => s3('S', 'T', 'Y'),
        Instr::TAX => s3('T', 'A', 'X'),
        Instr::TAY => s3('T', 'A', 'Y'),
        Instr::TSX => s3('T', 'S', 'X'),
        Instr::TXA => s3('T', 'X', 'A'),
        Instr::TXS => s3('T', 'X', 'S'),
        Instr::TYA => s3('T', 'Y', 'A'),
    }
}

/// The column of an addressing mode in the opcode table.
pub fn mode_index_of(m: AddrMode) -> (k: usize)
    ensures
        k == mode_index(m),
{
    match m {
        AddrMode::IMM => 0,
        AddrMode::ZP => 1,
        AddrMode::ZP_X => 2,
        AddrMode::ZP_Y => 3,
        AddrMode::ABS => 4,
        AddrMode::ABS_X => 5,
        AddrMode::ABS_Y => 6,
        AddrMode::IND_X => 7,
        AddrMode::IND_Y => 8,
        AddrMode::ACC => 9,
        AddrMode::REL => 10,
        AddrMode::IND => 11,
        AddrMode::IMPL => 12,
    }
}

fn opcode_row_of(i: Instr) -> (r: [u8; 13])
    ensures
        r@ == opcode_row(i),
{
    match i {
        Instr::ADC => [0x69, 0x65, 0x75, 0xFF, 0x6D, 0x7D, 0x79, 0x61, 0x71, 0xFF, 0xFF, 0xFF, 0xFF],
        Instr::AND => [0x29, 0x25, 0x35, 0xFF, 0x2D, 0x3D, 0x39, 0x21, 0x31, 0xFF, 0xFF, 0xFF, 0xFF],
        Instr::ASL => [0xFF, 0x06, 0x16, 0xFF, 0x0E, 0x1E, 0xFF, 0xFF, 0xFF, 0x0A, 0xFF, 0xFF, 0xFF],
        Instr::BCC => [0xFF, 0xFF, 0xFF, 0xFF, 0xFF, 0xFF, 0xFF, 0xFF, 0xFF, 0xFF, 0x90, 0xFF, 0xFF],
        Instr::BCS => [0xFF, 0xFF, 0xFF, 0xFF, 0xFF, 0xFF, 0xFF, 0xFF, 0xFF, 0xFF, 0xB0, 0xFF, 0xFF],
        Instr::BEQ => [0xFF, 0xFF, 0xFF, 0xFF, 0xFF, 0xFF, 0xFF, 0xFF, 0xFF, 0xFF, 0xF0, 0xFF, 0xFF],
        Instr::BIT => [0xFF, 0x24, 0xFF, 0xFF, 0x2C, 0xFF, 0xFF, 0xFF, 0xFF, 0xFF, 0xFF, 0xFF, 0xFF],
        Instr::BMI => [0xFF, 0xFF, 0xFF, 0xFF, 0xFF, 0xFF, 0xFF, 0xFF, 0xFF, 0xFF, 0x30, 0xFF, 0xFF],
        Instr::BNE => [0xFF, 0xFF, 0xFF, 0xFF, 0xFF, 0xFF, 0xFF, 0xFF, 0xFF, 0xFF, 0xD0, 0xFF, 0xFF],
        Instr::BPL => [0xFF, 0xFF, 0xFF, 0xFF, 0xFF, 0xFF, 0xFF, 0xFF, 0xFF, 0xFF, 0x10, 0xFF, 0xFF],
        Instr::BRK => [0xFF, 0xFF, 0xFF, 0xFF, 0xFF, 0xFF, 0xFF, 0xFF, 0xFF, 0xFF, 0xFF, 0xFF, 0x00],
        Instr::BVC => [0xFF, 0xFF, 0xFF, 0xFF, 0xFF, 0xFF, 0xFF, 0xFF, 0xFF, 0xFF, 0x50, 0xFF, 0xFF],
        Instr::BVS => [0xFF, 0xFF, 0xFF, 0xFF, 0xFF, 0xFF, 0xFF, 0xFF, 0xFF, 0xFF, 0x70, 0xFF, 0xFF],
        Instr::CLC => [0xFF, 0xFF, 0xFF, 0xFF, 0xFF, 0xFF, 0xFF, 0xFF, 0xFF, 0xFF, 0xFF, 0xFF, 0x18],
        Instr::CLD => [0xFF, 0xFF, 0xFF, 0xFF, 0xFF, 0xFF, 0xFF, 0xFF, 0xFF, 0xFF, 0xFF, 0xFF, 0xD8],
        Instr::CLI => [0xFF, 0xFF, 0xFF, 0xFF, 0xFF, 0xFF, 0xFF, 0xFF, 0xFF, 0xFF, 0xFF, 0xFF, 0x58],
        Instr::CLV => [0xFF, 0xFF, 0xFF, 0xFF, 0xFF, 0xFF, 0xFF, 0xFF, 0xFF, 0xFF, 0xFF, 0xFF, 0xB8],
        Instr::CMP => [0xC9, 0xC5, 0xD5, 0xFF, 0xCD, 0xDD, 0xD9, 0xC1, 0xD1, 0xFF, 0xFF, 0xFF, 0xFF],
        Instr::CPX => [0xE0, 0xE4, 0xFF, 0xFF, 0xEC, 0xFF, 0xFF, 0xFF, 0xFF, 0xFF, 0xFF, 0xFF, 0xFF],
        Instr::CPY => [0xC0, 0xC4, 0xFF, 0xFF, 0xCC, 0xFF, 0xFF, 0xFF, 0xFF, 0xFF, 0xFF, 0xFF, 0xFF],
        Instr::DEC => [0xFF, 0xC6, 0xD6, 0xFF, 0xCE, 0xDE, 0xFF, 0xFF, 0xFF, 0xFF, 0xFF, 0xFF, 0xFF],
        Instr::DEX => [0xFF, 0xFF, 0xFF, 0xFF, 0xFF, 0xFF, 0xFF, 0xFF, 0xFF, 0xFF, 0xFF, 0xFF, 0xCA],
        Instr::DEY => [0xFF, 0xFF, 0xFF, 0xFF, 0xFF, 0xFF, 0xFF, 0xFF, 0xFF, 0xFF, 0xFF, 0xFF, 0x88],
        Instr::EOR => [0x49, 0x45, 0x55, 0xFF, 0x4D, 0x5D, 0x59, 0x41, 0x51, 0xFF, 0xFF, 0xFF, 0xFF],
        Instr::INC => [0xFF, 0xE6, 0xF6, 0xFF, 0xEE, 0xFE, 0xFF, 0xFF, 0xFF, 0xFF, 0xFF, 0xFF, 0xFF],
        Instr::INX => [0xFF, 0xFF, 0xFF, 0xFF, 0xFF, 0xFF, 0xFF, 0xFF, 0xFF, 0xFF, 0xFF, 0xFF, 0xE8],
        Instr::INY => [0xFF, 0xFF, 0xFF, 0xFF, 0xFF, 0xFF, 0xFF, 0xFF, 0xFF, 0xFF, 0xFF, 0xFF, 0xC8],
        Instr::JMP => [0xFF, 0xFF, 0xFF, 0xFF, 0x4C, 0xFF, 0xFF, 0xFF, 0xFF, 0xFF, 0xFF, 0x6C, 0xFF],
        Instr::JSR => [0xFF, 0xFF, 0xFF, 0xFF, 0x20, 0xFF, 0xFF, 0xFF, 0xFF, 0xFF, 0xFF, 0xFF, 0xFF],
        Instr::LDA => [0xA9, 0xA5, 0xB5, 0xFF, 0xAD, 0xBD, 0xB9, 0xA1, 0xB1, 0xFF, 0xFF, 0xFF, 0xFF],
        Instr::LDX => [0xA2, 0xA6, 0xFF, 0xB6, 0xAE, 0xFF, 0xBE, 0xFF, 0xFF, 0xFF, 0xFF, 0xFF, 0xFF],
        Instr::LDY => [0xA0, 0xA4, 0xB4, 0xFF, 0xAC, 0xBC, 0xFF, 0xFF, 0xFF, 0xFF, 0xFF, 0xFF, 0xFF],
        Instr::LSR => [0xFF, 0x46, 0x56, 0xFF, 0x4E, 0x5E, 0xFF, 0xFF, 0xFF, 0x4A, 0xFF, 0xFF, 0xFF],
        Instr::NOP => [0xFF, 0xFF, 0xFF, 0xFF, 0xFF, 0xFF, 0xFF, 0xFF, 0xFF, 0xFF, 0xFF, 0xFF, 0xEA],
        Instr::ORA => [0x09, 0x05, 0x15, 0xFF, 0x0D, 0x1D, 0x19, 0x01, 0x11, 0xFF, 0xFF, 0xFF, 0xFF],
        Instr::PHA => [0xFF, 0xFF, 0xFF, 0xFF, 0xFF, 0xFF, 0xFF, 0xFF, 0xFF, 0xFF, 0xFF, 0xFF, 0x48],
        Instr::PHP => [0xFF, 0xFF, 0xFF, 0xFF, 0xFF, 0xFF, 0xFF, 0xFF, 0xFF, 0xFF, 0xFF, 0xFF, 0x08],
        Instr::PLA => [0xFF, 0xFF, 0xFF, 0xFF, 0xFF, 0xFF, 0xFF, 0xFF, 0xFF, 0xFF, 0xFF, 0xFF, 0x68],
        Instr::PLP => [0xFF, 0xFF, 0xFF, 0xFF, 0xFF, 0xFF, 0xFF, 0xFF, 0xFF, 0xFF, 0xFF, 0xFF, 0x28],
        Instr::ROL => [0xFF, 0x26, 0x36, 0xFF, 0x2E, 0x3E, 0xFF, 0xFF, 0xFF, 0x2A, 0xFF, 0xFF, 0xFF],
        Instr::ROR => [0xFF, 0x66, 0x76, 0xFF, 0x6E, 0x7E, 0xFF, 0xFF, 0xFF, 0x6A, 0xFF, 0xFF, 0xFF],
        Instr::RTI => [0xFF, 0xFF, 0xFF, 0xFF, 0xFF, 0xFF, 0xFF, 0xFF, 0xFF, 0xFF, 0xFF, 0xFF, 0x40],
        Instr::RTS => [0xFF, 0xFF, 0xFF, 0xFF, 0xFF, 0xFF, 0xFF, 0xFF, 0xFF, 0xFF, 0xFF, 0xFF, 0x60],
        Instr::SBC => [0xE9, 0xE5, 0xF5, 0xFF, 0xED, 0xFD, 0xF9, 0xE1, 0xF1, 0xFF, 0xFF, 0xFF, 0xFF],
        Instr::SEC => [0xFF, 0xFF, 0xFF, 0xFF, 0xFF, 0xFF, 0xFF, 0xFF, 0xFF, 0xFF, 0xFF, 0xFF, 0x38],
        Instr::SED => [0xFF, 0xFF, 0xFF, 0xFF, 0xFF, 0xFF, 0xFF, 0xFF, 0xFF, 0xFF, 0xFF, 0xFF, 0xF8],
        Instr::SEI => [0xFF, 0xFF, 0xFF, 0xFF, 0xFF, 0xFF, 0xFF, 0xFF, 0xFF, 0xFF, 0xFF, 0xFF, 0x78],
        Instr::STA => [0xFF, 0x85, 0x95, 0xFF, 0x8D, 0x9D, 0x99, 0x81, 0x91, 0xFF, 0xFF, 0xFF, 0xFF],
        Instr::STX => [0xFF, 0x86, 0xFF, 0x96, 0x8E, 0xFF, 0xFF, 0xFF, 0xFF, 0xFF, 0xFF, 0xFF, 0xFF],
        Instr::STY => [0xFF, 0x84, 0x94, 0xFF, 0x8C, 0xFF, 0xFF, 0xFF, 0xFF, 0xFF, 0xFF, 0xFF, 0xFF],
        Instr::TAX => [0xFF, 0xFF, 0xFF, 0xFF, 0xFF, 0xFF, 0xFF, 0xFF, 0xFF, 0xFF, 0xFF, 0xFF, 0xAA],
        Instr::TAY => [0xFF, 0xFF, 0xFF, 0xFF, 0xFF, 0xFF, 0xFF, 0xFF, 0xFF, 0xFF, 0xFF, 0xFF, 0xA8],
        Instr::TSX => [0xFF, 0xFF, 0xFF, 0xFF, 0xFF, 0xFF, 0xFF, 0xFF, 0xFF, 0xFF, 0xFF, 0xFF, 0xBA],
        Instr::TXA => [0xFF, 0xFF, 0xFF, 0xFF, 0xFF, 0xFF, 0xFF, 0xFF, 0xFF, 0xFF, 0xFF, 0xFF, 0x8A],
        Instr::TXS => [0xFF, 0xFF, 0xFF, 0xFF, 0xFF, 0xFF, 0xFF, 0xFF, 0xFF, 0xFF, 0xFF, 0xFF, 0x9A],
        Instr::TYA => [0xFF, 0xFF, 0xFF, 0xFF, 0xFF, 0xFF, 0xFF, 0xFF, 0xFF, 0xFF, 0xFF, 0xFF, 0x98],
    }
}

/// The opcode of `i` in mode `m` (`OPCODES[i][m]`); `INVL` where there is none.
pub fn opcode(i: Instr, m: AddrMode) -> (r: u8)
    ensures
        r == opcode_of(i, m),
{
    let row = opcode_row_of(i);
    row[mode_index_of(m)]
}

/// The instruction in row `k`.
pub fn instr_at_exec(k: usize) -> (r: Instr)
    requires
        k < INSTR_COUNT,
    ensures
        r == instr_at(k as int),
{
    if k == 0 {
        Instr::ADC
    } else if k == 1 {
        Instr::AND
    } else if k == 2 {
        Instr::ASL
    } else if k == 3 {
        Instr::BCC
    } else if k == 4 {
        Instr::BCS
    } else if k == 5 {
        Instr::BEQ
    } else if k == 6 {
        Instr::BIT
    } else if k == 7 {
        Instr::BMI
    } else if k == 8 {
        Instr::BNE
    } else if k == 9 {
        Instr::BPL
    } else if k == 10 {
        Instr::BRK
    } else if k == 11 {
        Instr::BVC
    } else if k == 12 {
        Instr::BVS
    } else if k == 13 {
        Instr::CLC
    } else if k == 14 {
        Instr::CLD
    } else if k == 15 {
        Instr::CLI
    } else if k == 16 {
        Instr::CLV
    } else if k == 17 {
        Instr::CMP
    } else if k == 18 {
        Instr::CPX
    } else if k == 19 {
        Instr::CPY
    } else if k == 20 {
        Instr::DEC
    } else if k == 21 {
        Instr::DEX
    } else if k == 22 {
        Instr::DEY
    } else if k == 23 {
        Instr::EOR
    } else if k == 24 {
        Instr::INC
    } else if k == 25 {
        Instr::INX
    } else if k == 26 {
        Instr::INY
    } else if k == 27 {
        Instr::JMP
    } else if k == 28 {
        Instr::JSR
    } else if k == 29 {
        Instr::LDA
    } else if k == 30 {
        Instr::LDX
    } else if k == 31 {
        Instr::LDY
    } else if k == 32 {
        Instr::LSR
    } else if k == 33 {
        Instr::NOP
    } else if k == 34 {
        Instr::ORA
    } else if k == 35 {
        Instr::PHA
    } else if k == 36 {
        Instr::PHP
    } else if k == 37 {
        Instr::PLA
    } else if k == 38 {
        Instr::PLP
    } else if k == 39 {
        Instr::ROL
    } else if k == 40 {
        Instr::ROR
    } else if k == 41 {
        Instr::RTI
    } else if k == 42 {
        Instr::RTS
    } else if k == 43 {
        Instr::SBC
    } else if k == 44 {
        Instr::SEC
    } else if k == 45 {
        Instr::SED
    } else if k == 46 {
        Instr::SEI
    } else if k == 47 {
        Instr::STA
    } else if k == 48 {
        Instr::STX
    } else if k == 49 {
        Instr::STY
    } else if k == 50 {
        Instr::TAX
    } else if k == 51 {
        Instr::TAY
    } else if k == 52 {
        Instr::TSX
    } else if k == 53 {
        Instr::TXA
    } else if k == 54 {
        Instr::TXS
    } else {
        Instr::TYA
    }
}

fn instr_name_of(i: Instr) -> (r: [u8; 3])
    ensures
        r@ == instr_name(i),
{
    match i {
        Instr::ADC => ['A' as u8, 'D' as u8, 'C' as u8],
        Instr::AND => ['A' as u8, 'N' as u8, 'D' as u8],
        Instr::ASL => ['A' as u8, 'S' as u8, 'L' as u8],
        Instr::BCC => ['B' as u8, 'C' as u8, 'C' as u8],
        Instr::BCS => ['B' as u8, 'C' as u8, 'S' as u8],
        Instr::BEQ => ['B' as u8, 'E' as u8, 'Q' as u8],
        Instr::BIT => ['B' as u8, 'I' as u8, 'T' as u8],
        Instr::BMI => ['B' as u8, 'M' as u8, 'I' as u8],
        Instr::BNE => ['B' as u8, 'N' as u8, 'E' as u8],
        Instr::BPL => ['B' as u8, 'P' as u8, 'L' as u8],
        Instr::BRK => ['B' as u8, 'R' as u8, 'K' as u8],
        Instr::BVC => ['B' as u8, 'V' as u8, 'C' as u8],
        Instr::BVS => ['B' as u8, 'V' as u8, 'S' as u8],
        Instr::CLC => ['C' as u8, 'L' as u8, 'C' as u8],
        Instr::CLD => ['C' as u8, 'L' as u8, 'D' as u8],
        Instr::CLI => ['C' as u8, 'L' as u8, 'I' as u8],
        Instr::CLV => ['C' as u8, 'L' as u8, 'V' as u8],
        Instr::CMP => ['C' as u8, 'M' as u8, 'P' as u8],
        Instr::CPX => ['C' as u8, 'P' as u8, 'X' as u8],
        Instr::CPY => ['C' as u8, 'P' as u8, 'Y' as u8],
        Instr::DEC => ['D' as u8, 'E' as u8, 'C' as u8],
        Instr::DEX => ['D' as u8, 'E' as u8, 'X' as u8],
        Instr::DEY => ['D' as u8, 'E' as u8, 'Y' as u8],
        Instr::EOR => ['E' as u8, 'O' as u8, 'R' as u8],
        Instr::INC => ['I' as u8, 'N' as u8, 'C' as u8],
        Instr::INX => ['I' as u8, 'N' as u8, 'X' as u8],
        Instr::INY => ['I' as u8, 'N' as u8, 'Y' as u8],
        Instr::JMP => ['J' as u8, 'M' as u8, 'P' as u8],
        Instr::JSR => ['J' as u8, 'S' as u8, 'R' as u8],
        Instr::LDA => ['L' as u8, 'D' as u8, 'A' as u8],
        Instr::LDX => ['L' as u8, 'D' as u8, 'X' as u8],
        Instr::LDY => ['L' as u8, 'D' as u8, 'Y' as u8],
        Instr::LSR => ['L' as u8, 'S' as u8, 'R' as u8],
        Instr::NOP => ['N' as u8, 'O' as u8, 'P' as u8],
        Instr::ORA => ['O' as u8, 'R' as u8, 'A' as u8],
        Instr::PHA => ['P' as u8, 'H' as u8, 'A' as u8],
        Instr::PHP => ['P' as u8, 'H' as u8, 'P' as u8],
        Instr::PLA => ['P' as u8, 'L' as u8, 'A' as u8],
        Instr::PLP => ['P' as u8, 'L' as u8, 'P' as u8],
        Instr::ROL => ['R' as u8, 'O' as u8, 'L' as u8],
        Instr::ROR => ['R' as u8, 'O' as u8, 'R' as u8],
        Instr::RTI => ['R' as u8, 'T' as u8, 'I' as u8],
        Instr::RTS => ['R' as u8, 'T' as u8, 'S' as u8],
        Instr::SBC => ['S' as u8, 'B' as u8, 'C' as u8],
        Instr::SEC => ['S' as u8, 'E' as u8, 'C' as u8],
        Instr::SED => ['S' as u8, 'E' as u8, 'D' as u8],
        Instr::SEI => ['S' as u8, 'E' as u8, 'I' as u8],
        Instr::STA => ['S' as u8, 'T' as u8, 'A' as u8],
        Instr::STX => ['S' as u8, 'T' as u8, 'X' as u8],
        Instr::STY => ['S' as u8, 'T' as u8, 'Y' as u8],
        Instr::TAX => ['T' as u8, 'A' as u8, 'X' as u8],
        Instr::TAY => ['T' as u8, 'A' as u8, 'Y' as u8],
        Instr::TSX => ['T' as u8, 'S' as u8, 'X' as u8],
        Instr::TXA => ['T' as u8, 'X' as u8, 'A' as u8],
        Instr::TXS => ['T' as u8, 'X' as u8, 'S' as u8],
        Instr::TYA => ['T' as u8, 'Y' as u8, 'A' as u8],
    }
}

/// Entry `instr_index(i)` of the instruction list is `i`.
pub proof fn lemma_instr_at_index(i: Instr)
    ensures
        0 <= instr_index(i) < INSTR_COUNT,
        instr_at(instr_index(i)) == i,
{
}

/// The first instruction of the table, from entry `k` on, whose mnemonic is `s`.
pub open spec fn first_named(s: Seq<u8>, k: int) -> Option<Instr>
    decreases INSTR_COUNT - k,
{
    if k < 0 || k >= INSTR_COUNT {
        None
    } else if instr_name(instr_at(k)) == s {
        Some(instr_at(k))
    } else {
        first_named(s, k + 1)
    }
}

/// The instruction whose mnemonic is `s` (already in upper case), if any.
pub fn instr_from_string(s: &[u8]) -> (r: Option<Instr>)
    ensures
        r == first_named(s@, 0),
        r matches Some(i) ==> instr_name(i) == s@,
        r is None ==> forall|i: Instr| instr_name(i) != s@,
{
    let mut k: usize = 0;
    while k < INSTR_COUNT
        invariant
            k <= INSTR_COUNT,
            first_named(s@, k as int) == first_named(s@, 0),
            forall|j: int| 0 <= j < k ==> instr_name(#[trigger] instr_at(j)) != s@,
        decreases INSTR_COUNT - k,
    {
        let i = instr_at_exec(k);
        let name = instr_name_of(i);
        if crate::bytes::bytes_eq(&name, s) {
            return Some(i);
        }
        k = k + 1;
    }
    proof {
        assert forall|i: Instr| instr_name(i) != s@ by {
            lemma_instr_at_index(i);
            assert(instr_name(instr_at(instr_index(i))) != s@);
        }
    }
    None
}

/// A mnemonic of three letters as a number, first letter most significant.
pub open spec fn name_code(s: Seq<u8>) -> int {
    s[0] * 65536 + s[1] * 256 + s[2]
}

proof fn lemma_names_sorted(k: int)
    requires
        0 <= k < INSTR_COUNT - 1,
    ensures
        name_code(instr_name(instr_at(k))) < name_code(instr_name(instr_at(k + 1))),
{
}

proof fn lemma_names_increase(j: int, k: int)
    requires
        0 <= j < k < INSTR_COUNT,
    ensures
        name_code(instr_name(instr_at(j))) < name_code(instr_name(instr_at(k))),
    decreases k - j,
{
    lemma_names_sorted(k - 1);
    if j < k - 1 {
        lemma_names_increase(j, k - 1);
    }
}

proof fn lemma_first_named_from(i: Instr, m: int)
    requires
        0 <= m <= instr_index(i),
        instr_at(instr_index(i)) == i,
        instr_index(i) < INSTR_COUNT,
    ensures
        first_named(instr_name(i), m) == Some(i),
    decreases instr_index(i) - m,
{
    if m < instr_index(i) {
        lemma_names_increase(m, instr_index(i));
        lemma_first_named_from(i, m + 1);
    }
}

/// Every mnemonic names its own instruction: looking up the name of `i` gives `i`
/// (the table is in alphabetical order, so no two instructions share a name).
pub proof fn law_mnemonic_round_trip(i: Instr)
    ensures
        first_named(instr_name(i), 0) == Some(i),
{
    lemma_instr_at_index(i);
    lemma_first_named_from(i, 0);
}

} // verus!
