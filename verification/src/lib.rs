use vstd::prelude::*;

pub mod bytes;
pub mod codegen;
pub mod codegen_common;
pub mod ctype;
pub mod errors;
pub mod ir;
pub mod lexer;
pub mod numparse;

verus! {
} // verus!
