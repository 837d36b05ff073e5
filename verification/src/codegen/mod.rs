//! Code generators.
pub mod mos6502;
