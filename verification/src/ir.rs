//! The intermediate representation that the code generators consume.
use vstd::prelude::*;

verus! {

/// The base in which an integer literal was written.
#[derive(Clone, Copy, PartialEq, Eq, Structural, Debug)]
pub enum Radix {
    Oct,
    Dec,
    Hex,
}

/// The numeric base of a radix.
pub open spec fn radix_base(r: Radix) -> u8 {
    match r {
        Radix::Oct => 8,
        Radix::Dec => 10,
        Radix::Hex => 16,
    }
}

impl Radix {
    /// The numeric base (8, 10 or 16).
    pub fn base(self) -> (b: u8)
        ensures
            b == radix_base(self),
    {
        match self {
            Radix::Oct => 8,
            Radix::Dec => 10,
            Radix::Hex => 16,
        }
    }
}

} // verus!

verus! {

/// An operand of an IR operation.
pub enum Arg {
    Bogus,
    /// The value of auto variable `index` (1-based).
    AutoVar(usize),
    /// The word that auto variable `index` points to.
    Deref(usize),
    /// The address of auto variable `index`.
    RefAutoVar(usize),
    /// The address of an external name.
    RefExternal(Vec<u8>),
    /// The value of an external name.
    External(Vec<u8>),
    /// An integer literal: its digits and radix.
    IntLiteral(Vec<u8>, Radix),
    /// A character literal: its bytes.
    CharLiteral(Vec<u8>),
    /// The address of the data section plus an offset.
    DataOffset(usize),
}

/// The binary operators of the IR.
#[derive(Clone, Copy, PartialEq, Eq, Structural, Debug)]
pub enum Binop {
    Plus,
    Minus,
    Mult,
    Mod,
    Div,
    Less,
    Greater,
    Equal,
    NotEqual,
    GreaterEqual,
    LessEqual,
    BitOr,
    BitAnd,
    BitShl,
    BitShr,
}

/// One line of inline assembly and where it stands.
pub struct AsmStmt {
    pub line: Vec<u8>,
    pub loc: crate::lexer::Loc,
}

/// An IR operation. Indices name auto variables (1-based), labels are per function.
#[allow(inconsistent_fields)]
pub enum Op {
    Bogus,
    UnaryNot { result: usize, arg: Arg },
    Negate { result: usize, arg: Arg },
    Asm { stmts: Vec<AsmStmt> },
    Binop { binop: Binop, index: usize, lhs: Arg, rhs: Arg },
    Index { result: usize, arg: Arg, offset: Arg },
    AutoAssign { index: usize, arg: Arg },
    ExternalAssign { name: Vec<u8>, arg: Arg },
    Store { index: usize, arg: Arg },
    Funcall { result: usize, fun: Arg, args: Vec<Arg> },
    Label { label: usize },
    JmpLabel { label: usize },
    JmpIfNotLabel { label: usize, arg: Arg },
    Return { arg: Option<Arg> },
}

/// An operation and where it stands in the source.
pub struct OpWithLocation {
    pub opcode: Op,
    pub loc: crate::lexer::Loc,
}

/// A function of the program.
pub struct Func {
    pub name: Vec<u8>,
    pub name_loc: crate::lexer::Loc,
    pub body: Vec<OpWithLocation>,
    pub params_count: usize,
    pub auto_vars_count: usize,
}

/// A value that a global is initialised with.
pub enum ImmediateValue {
    Name(Vec<u8>),
    IntLiteral(Vec<u8>, Radix),
    NegatedIntLiteral(Vec<u8>, Radix),
    CharLiteral(Vec<u8>),
    DataOffset(usize),
}

/// A global variable (or vector, `is_vec`) and its initial values.
pub struct Global {
    pub name: Vec<u8>,
    pub name_loc: crate::lexer::Loc,
    pub values: Vec<ImmediateValue>,
    pub value_locs: Vec<crate::lexer::Loc>,
    pub is_vec: bool,
    pub minimum_size: usize,
}

/// A function written entirely in assembly.
pub struct AsmFunc {
    pub name: Vec<u8>,
    pub name_loc: crate::lexer::Loc,
    pub body: Vec<AsmStmt>,
}

/// A whole program.
pub struct Program {
    pub funcs: Vec<Func>,
    pub data: Vec<u8>,
    pub extrns: Vec<Vec<u8>>,
    pub globals: Vec<Global>,
    pub asm_funcs: Vec<AsmFunc>,
}

} // verus!
