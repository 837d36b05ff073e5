//! The 6502 code generator.
//!
//! 16-bit words: `Y` holds the high byte and `A` the low byte. The stack is the
//! fixed page at `$0100`-`$01FF`. The first argument of a call is passed in
//! `Y:A`, the others on the stack.
pub mod opcodes;
pub mod assembler;
pub mod emit;
pub mod ops;
pub mod assembly;
pub mod function;
pub mod link;
pub mod program;
pub mod laws;
pub mod cpu;
pub mod semantics;
pub mod validate;
