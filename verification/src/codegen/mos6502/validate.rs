//! Checking that a program is in the shape that the 6502 code generator needs.
use vstd::prelude::*;
use crate::codegen_common::digit_ok;
use crate::ctype::{isdigit, tolower};
use crate::errors::MAX_ERROR_COUNT;
use crate::ir::{Arg, Binop, Op, AsmStmt, Func, Global, ImmediateValue, Program, Radix};
use crate::numparse::{ch_at, skip_spaces, strtoull_at, lemma_skip_ws};
use super::emit::{arg_ok, auto_var_ok, auto_ref_ok};
use super::assembly::{word_end, rel_of};
use super::function::{op_ok, stmt_ok};
use super::program::{func_ok, asm_func_ok, global_ok, labels_needed, program_ok};

verus! {

fn digits_fit(lit: &Vec<u8>, radix: Radix) -> (r: bool)
    ensures
        r == forall|k: int| 0 <= k < lit@.len() ==> digit_ok(#[trigger] lit@[k], radix),
{
    let mut i: usize = 0;
    while i < lit.len()
        invariant
            i <= lit@.len(),
            forall|k: int| 0 <= k < i ==> digit_ok(#[trigger] lit@[k], radix),
        decreases lit.len() - i,
    {
        let c = lit[i];
        let hex = match radix {
            Radix::Hex => true,
            _ => false,
        };
        if !(isdigit(c) || (hex && tolower(c) >= 97)) {
            return false;
        }
        i = i + 1;
    }
    true
}

fn auto_var_fits(index: usize, frame: u8) -> (r: bool)
    ensures
        r == auto_var_ok(index, frame),
{
    index >= 1 && ((index - 1) as u16) as u32 * 2 + 1 <= 0x100 + frame as u32
}

fn auto_ref_fits(index: usize, frame: u8) -> (r: bool)
    ensures
        r == auto_ref_ok(index, frame),
{
    index >= 1 && ((index - 1) as u8) as u32 * 2 + 1 <= frame as u32
}

/// Whether `load_arg` can load `arg` in a frame of `frame` bytes.
pub fn arg_fits(arg: &Arg, frame: u8) -> (r: bool)
    ensures
        r == arg_ok(*arg, frame),
{
    match arg {
        Arg::Bogus => false,
        Arg::AutoVar(i) => auto_var_fits(*i, frame),
        Arg::Deref(i) => auto_var_fits(*i, frame),
        Arg::RefAutoVar(i) => auto_ref_fits(*i, frame),
        Arg::IntLiteral(lit, radix) => digits_fit(lit, *radix),
        Arg::DataOffset(off) => *off < 65536,
        _ => true,
    }
}

/// Whether a statement of inline assembly can be assembled.
pub fn stmt_fits(st: &AsmStmt) -> (r: bool)
    ensures
        r == stmt_ok(*st),
{
    let n = st.line.len();
    if n > 0x7fff_fff5 {
        return false;
    }
    if st.loc.line_offset as i64 + 8 * (n as i64 + 10) > 0x7fff_ffff {
        return false;
    }
    let line = st.line.as_slice();
    let p0 = skip_spaces(line, 0);
    proof {
        lemma_skip_ws(line@, 0);
    }
    let mut p1 = p0;
    while p1 < line.len() && line[p1] != 0 && !crate::ctype::isspace(line[p1])
        invariant
            p0 <= p1 <= line@.len(),
            word_end(line@, p1 as int) == word_end(line@, p0 as int),
        decreases line.len() - p1,
    {
        p1 = p1 + 1;
    }
    let p2 = skip_spaces(line, p1);
    proof {
        lemma_skip_ws(line@, p1 as int);
    }
    let is_label = p1 > p0 && ch_at(line, p1 - 1) == ':' as u8;
    let c = ch_at(line, p2 + 1);
    if !is_label && ch_at(line, p2) == '*' as u8 && (c == '+' as u8 || c == '-' as u8) {
        let (v, _) = strtoull_at(line, p2 + 1, 10);
        let rel = v as u16 as i16 as i8;
        assert(rel == rel_of(v)) by (bit_vector)
            requires
                rel == v as u16 as i16 as i8,
        ;
        rel >= -126
    } else {
        true
    }
}

fn stmts_fit(stmts: &Vec<AsmStmt>) -> (r: bool)
    ensures
        r == forall|k: int| 0 <= k < stmts@.len() ==> stmt_ok(#[trigger] stmts@[k]),
{
    let mut i: usize = 0;
    while i < stmts.len()
        invariant
            i <= stmts@.len(),
            forall|k: int| 0 <= k < i ==> stmt_ok(#[trigger] stmts@[k]),
        decreases stmts.len() - i,
    {
        if !stmt_fits(&stmts[i]) {
            return false;
        }
        i = i + 1;
    }
    true
}

fn args_fit(args: &Vec<Arg>, frame: u8) -> (r: bool)
    ensures
        r == forall|k: int| 0 <= k < args@.len() ==> arg_ok(#[trigger] args@[k], frame),
{
    let mut i: usize = 0;
    while i < args.len()
        invariant
            i <= args@.len(),
            forall|k: int| 0 <= k < i ==> arg_ok(#[trigger] args@[k], frame),
        decreases args.len() - i,
    {
        if !arg_fits(&args[i], frame) {
            return false;
        }
        i = i + 1;
    }
    true
}

/// Whether an operation can be generated in a frame of `f` bytes.
pub fn op_fits(op: &Op, f: u8) -> (r: bool)
    ensures
        r == op_ok(*op, f),
{
    match op {
        Op::Bogus => false,
        Op::Return { arg } => match arg {
            Some(a) => arg_fits(a, f),
            None => true,
        },
        Op::Store { index, arg } => auto_var_fits(*index, f) && arg_fits(arg, f),
        Op::ExternalAssign { arg, .. } => arg_fits(arg, f),
        Op::AutoAssign { index, arg } => auto_var_fits(*index, f) && arg_fits(arg, f),
        Op::Negate { result, arg } => auto_var_fits(*result, f) && arg_fits(arg, f),
        Op::UnaryNot { result, arg } => auto_var_fits(*result, f) && arg_fits(arg, f),
        Op::Binop { binop, index, lhs, rhs } => {
            let runtime = match binop {
                Binop::Mod | Binop::Div => true,
                _ => false,
            };
            auto_var_fits(*index, f) && arg_fits(lhs, f) && arg_fits(rhs, f) && (!runtime || f <= 253)
        },
        Op::Funcall { result, fun, args } => {
            let direct = match fun {
                Arg::RefExternal(_) | Arg::External(_) | Arg::IntLiteral(_, _) | Arg::CharLiteral(_) => true,
                _ => false,
            };
            let is_int = match fun {
                Arg::IntLiteral(_, _) => true,
                _ => false,
            };
            let fun_fits = arg_fits(fun, f);
            auto_var_fits(*result, f) && (direct || fun_fits) && (!is_int || fun_fits) && args_fit(args, f)
                && args.len() <= 129 && f as usize + 2 * args.len() <= 257
        },
        Op::Asm { stmts } => stmts_fit(stmts),
        Op::Label { .. } => true,
        Op::JmpLabel { .. } => true,
        Op::JmpIfNotLabel { arg, .. } => arg_fits(arg, f),
        Op::Index { result, arg, offset } => auto_var_fits(*result, f) && arg_fits(arg, f) && arg_fits(offset, f),
    }
}

/// Whether a function can be generated.
pub fn func_fits(func: &Func) -> (r: bool)
    ensures
        r == func_ok(*func),
{
    if func.auto_vars_count >= 128 {
        return false;
    }
    let ss = func.auto_vars_count * 2;
    if !(func.params_count == 0 || (func.params_count <= 0x200 && 2 * (func.params_count - 1) + 1 <= 0x100 + ss)) {
        return false;
    }
    let f = ss as u8;
    let mut i: usize = 0;
    while i < func.body.len()
        invariant
            i <= func.body@.len(),
            f == (func.auto_vars_count * 2) as u8,
            forall|k: int| 0 <= k < i ==> op_ok((#[trigger] func.body@[k]).opcode, f),
        decreases func.body.len() - i,
    {
        if !op_fits(&func.body[i].opcode, f) {
            return false;
        }
        i = i + 1;
    }
    true
}

/// Whether a global can be generated.
pub fn global_fits(g: &Global) -> (r: bool)
    ensures
        r == global_ok(*g),
{
    if g.value_locs.len() < g.values.len() {
        return false;
    }
    let mut j: usize = 0;
    while j < g.values.len()
        invariant
            j <= g.values@.len(),
            forall|k: int| 0 <= k < j ==> match #[trigger] g.values@[k] {
                ImmediateValue::IntLiteral(lit, radix) => forall|m: int| 0 <= m < lit@.len() ==> digit_ok(#[trigger] lit@[m], radix),
                ImmediateValue::NegatedIntLiteral(lit, radix) => forall|m: int| 0 <= m < lit@.len() ==> digit_ok(#[trigger] lit@[m], radix),
                _ => true,
            },
        decreases g.values.len() - j,
    {
        let ok = match &g.values[j] {
            ImmediateValue::IntLiteral(lit, radix) => digits_fit(lit, *radix),
            ImmediateValue::NegatedIntLiteral(lit, radix) => digits_fit(lit, *radix),
            _ => true,
        };
        if !ok {
            return false;
        }
        j = j + 1;
    }
    true
}

proof fn lemma_labels_needed_split(funcs: Seq<Func>, i: int)
    requires
        0 <= i < funcs.len(),
    ensures
        labels_needed(funcs, i) == 6 * (funcs[i].body@.len() + 1) + labels_needed(funcs, i + 1),
{
}

proof fn lemma_labels_needed_nonneg(funcs: Seq<Func>, i: int)
    ensures
        labels_needed(funcs, i) >= 0,
    decreases funcs.len() - i,
{
    if 0 <= i < funcs.len() {
        lemma_labels_needed_nonneg(funcs, i + 1);
    }
}

proof fn lemma_labels_needed_mono(funcs: Seq<Func>, k: int)
    requires
        0 <= k <= funcs.len(),
    ensures
        labels_needed(funcs, 0) >= labels_needed(funcs, k),
    decreases k,
{
    if k > 0 {
        lemma_labels_needed_mono(funcs, k - 1);
        lemma_labels_needed_nonneg(funcs, k);
    }
}

/// Whether a program is in the shape that `generate_program` needs, with
/// `error_count` errors reported before (see `program_ok`).
pub fn program_fits(p: &Program, error_count: usize) -> (r: bool)
    ensures
        r == program_ok(*p, error_count),
{
    let n = p.funcs.len();
    if error_count >= usize::MAX - MAX_ERROR_COUNT || n >= usize::MAX - MAX_ERROR_COUNT - error_count {
        return false;
    }
    let mut i: usize = 0;
    while i < n
        invariant
            i <= n == p.funcs@.len(),
            forall|k: int| 0 <= k < i ==> func_ok(#[trigger] p.funcs@[k]),
        decreases n - i,
    {
        if !func_fits(&p.funcs[i]) {
            return false;
        }
        i = i + 1;
    }
    let mut i: usize = 0;
    while i < p.asm_funcs.len()
        invariant
            i <= p.asm_funcs@.len(),
            forall|k: int| 0 <= k < i ==> asm_func_ok(#[trigger] p.asm_funcs@[k]),
        decreases p.asm_funcs.len() - i,
    {
        if !stmts_fit(&p.asm_funcs[i].body) {
            return false;
        }
        i = i + 1;
    }
    let mut i: usize = 0;
    while i < p.globals.len()
        invariant
            i <= p.globals@.len(),
            forall|k: int| 0 <= k < i ==> global_ok(#[trigger] p.globals@[k]),
        decreases p.globals.len() - i,
    {
        if !global_fits(&p.globals[i]) {
            return false;
        }
        i = i + 1;
    }
    // the address labels: counted from the last function back, stopping where the
    // count would not fit
    let mut total: usize = p.globals.len();
    let mut k: usize = n;
    proof {
        lemma_labels_needed_nonneg(p.funcs@, n as int);
    }
    while k > 0
        invariant
            k <= n == p.funcs@.len(),
            total == labels_needed(p.funcs@, k as int) + p.globals@.len(),
        decreases k,
    {
        k = k - 1;
        proof {
            lemma_labels_needed_split(p.funcs@, k as int);
            lemma_labels_needed_nonneg(p.funcs@, k + 1);
        }
        let body_len = p.funcs[k].body.len();
        if body_len >= usize::MAX / 6 {
            proof {
                lemma_labels_needed_mono(p.funcs@, k as int);
                assert(6 * (body_len + 1) > usize::MAX) by (nonlinear_arith)
                    requires
                        body_len >= usize::MAX / 6,
                ;
            }
            return false;
        }
        assert(6 * (body_len + 1) <= usize::MAX) by (nonlinear_arith)
            requires
                body_len < usize::MAX / 6,
        ;
        let need = 6 * (body_len + 1);
        if total > usize::MAX - need {
            proof {
                lemma_labels_needed_mono(p.funcs@, k as int);
            }
            return false;
        }
        total = total + need;
    }
    true
}

} // verus!
