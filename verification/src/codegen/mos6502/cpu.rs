//! A model of the 6502 for the straight-line code the generator emits for
//! arithmetic: registers `A`, `X`, `Y`, the flags `N`, `Z`, `C`, and the zero page.
//!
//! Instructions are decoded from their bytes as the 6502 defines them, not through
//! the generator's opcode table, so that what the model computes is a statement
//! about the machine, independent of how the generator spells its code.
use vstd::prelude::*;

verus! {

/// The part of the processor that the model tracks.
pub struct Cpu {
    pub a: u8,
    pub x: u8,
    pub y: u8,
    pub n: bool,
    pub z: bool,
    pub c: bool,
    /// The 256 bytes of page zero.
    pub zp: Seq<u8>,
    /// The address at which the first byte of the code being run lies.
    pub org: int,
    /// The stack pointer `S`.
    pub sp: u8,
    /// The 65536 bytes of memory; page zero is read and written through `zp`.
    pub mem: Seq<u8>,
}

/// The byte at `addr`.
pub open spec fn read_mem(c: Cpu, addr: int) -> u8 {
    if addr < 256 { c.zp[addr] } else { c.mem[addr] }
}

/// The processor after writing `v` at `addr`.
pub open spec fn write_mem(c: Cpu, addr: int, v: u8) -> Cpu {
    if addr < 256 { Cpu { zp: c.zp.update(addr, v), ..c } } else { Cpu { mem: c.mem.update(addr, v), ..c } }
}

/// The 16-bit word in `Y:A`, `Y` the high byte.
pub open spec fn ya(c: Cpu) -> int {
    c.a as int + 256 * c.y as int
}

/// A byte as the 6502 reads a branch offset: signed.
pub open spec fn sbyte(b: u8) -> int {
    if b >= 128 { b as int - 256 } else { b as int }
}

/// `N` and `Z` set from a result byte.
pub open spec fn nz(c: Cpu, v: u8) -> Cpu {
    Cpu { n: v >= 128, z: v == 0, ..c }
}

/// `A - m - borrow`, the borrow being the complement of the carry: the result
/// byte and the new carry (no borrow out).
pub open spec fn sub_with_borrow(a: u8, m: u8, carry: bool) -> (u8, bool) {
    let r = a as int - m as int - (if carry { 0int } else { 1int });
    (((r + 512) % 256) as u8, r >= 0)
}

/// `A + m + carry`: the result byte and the carry out.
pub open spec fn add_with_carry(a: u8, m: u8, carry: bool) -> (u8, bool) {
    let r = a as int + m as int + (if carry { 1int } else { 0int });
    ((r % 256) as u8, r >= 256)
}

/// A comparison of `r` with `m`, as `CMP` and `CPY` set the flags.
pub open spec fn compare(c: Cpu, r: u8, m: u8) -> Cpu {
    Cpu { c: r >= m, z: r == m, n: ((r as int - m as int + 256) % 256) >= 128, ..c }
}

/// Where a branch at `pc` with operand `off` goes, taken or not.
pub open spec fn branch(pc: int, off: u8, taken: bool) -> int {
    if taken { pc + 2 + sbyte(off) } else { pc + 2 }
}

/// An instruction with an absolute operand at `pc`: `JMP`, and `STA`, `LDA` and
/// `LDY` indexed by `X`.
#[verifier::opaque]
pub open spec fn step_abs(code: Seq<u8>, pc: int, c: Cpu) -> Option<(int, Cpu)> {
    let op = code[pc];
    if pc + 2 < code.len() {
        let w = code[pc + 1] as int + 256 * code[pc + 2] as int;
        let ax = (w + c.x) % 65536;
        if op == 0x4C {
            Some((w - c.org, c))
        } else if op == 0x9D {
            Some((pc + 3, write_mem(c, ax, c.a)))
        } else if op == 0xBD {
            Some((pc + 3, nz(Cpu { a: read_mem(c, ax), ..c }, read_mem(c, ax))))
        } else {
            Some((pc + 3, nz(Cpu { y: read_mem(c, ax), ..c }, read_mem(c, ax))))
        }
    } else {
        None
    }
}

/// One instruction at `pc`: the next `pc` and the processor after it; `None` for a
/// byte the model does not know or an operand past the end of the code.
#[verifier::opaque]
pub open spec fn step(code: Seq<u8>, pc: int, c: Cpu) -> Option<(int, Cpu)> {
    let op = code[pc];
    let has_arg = pc + 1 < code.len();
    let m = if has_arg { code[pc + 1] } else { 0u8 };
    let mz = c.zp[m as int];
    if op == 0xAA {
        Some((pc + 1, nz(Cpu { x: c.a, ..c }, c.a)))
    } else if op == 0xA8 {
        Some((pc + 1, nz(Cpu { y: c.a, ..c }, c.a)))
    } else if op == 0x8A {
        Some((pc + 1, nz(Cpu { a: c.x, ..c }, c.x)))
    } else if op == 0x98 {
        Some((pc + 1, nz(Cpu { a: c.y, ..c }, c.y)))
    } else if op == 0xE8 {
        let v = ((c.x as int + 1) % 256) as u8;
        Some((pc + 1, nz(Cpu { x: v, ..c }, v)))
    } else if op == 0xCA {
        let v = ((c.x as int + 255) % 256) as u8;
        Some((pc + 1, nz(Cpu { x: v, ..c }, v)))
    } else if op == 0xBA {
        Some((pc + 1, nz(Cpu { x: c.sp, ..c }, c.sp)))
    } else if op == 0x38 {
        Some((pc + 1, Cpu { c: true, ..c }))
    } else if op == 0x18 {
        Some((pc + 1, Cpu { c: false, ..c }))
    } else if !has_arg {
        None
    } else if op == 0xA9 {
        Some((pc + 2, nz(Cpu { a: m, ..c }, m)))
    } else if op == 0xA2 {
        Some((pc + 2, nz(Cpu { x: m, ..c }, m)))
    } else if op == 0xA0 {
        Some((pc + 2, nz(Cpu { y: m, ..c }, m)))
    } else if op == 0xA5 {
        Some((pc + 2, nz(Cpu { a: mz, ..c }, mz)))
    } else if op == 0xA6 {
        Some((pc + 2, nz(Cpu { x: mz, ..c }, mz)))
    } else if op == 0xA4 {
        Some((pc + 2, nz(Cpu { y: mz, ..c }, mz)))
    } else if op == 0x06 {
        let v = ((mz as int * 2) % 256) as u8;
        Some((pc + 2, nz(Cpu { zp: c.zp.update(m as int, v), c: mz >= 128, ..c }, v)))
    } else if op == 0x26 {
        let v = ((mz as int * 2 + (if c.c { 1int } else { 0int })) % 256) as u8;
        Some((pc + 2, nz(Cpu { zp: c.zp.update(m as int, v), c: mz >= 128, ..c }, v)))
    } else if op == 0x46 {
        let v = mz / 2;
        Some((pc + 2, nz(Cpu { zp: c.zp.update(m as int, v), c: mz % 2 == 1, ..c }, v)))
    } else if op == 0x66 {
        let v = (mz / 2 + (if c.c { 128u8 } else { 0u8 })) as u8;
        Some((pc + 2, nz(Cpu { zp: c.zp.update(m as int, v), c: mz % 2 == 1, ..c }, v)))
    } else if op == 0x4C || op == 0x9D || op == 0xBD || op == 0xBC {
        step_abs(code, pc, c)
    } else if op == 0x85 {
        Some((pc + 2, Cpu { zp: c.zp.update(m as int, c.a), ..c }))
    } else if op == 0x84 {
        Some((pc + 2, Cpu { zp: c.zp.update(m as int, c.y), ..c }))
    } else if op == 0xE5 {
        let (v, carry) = sub_with_borrow(c.a, mz, c.c);
        Some((pc + 2, nz(Cpu { a: v, c: carry, ..c }, v)))
    } else if op == 0x65 {
        let (v, carry) = add_with_carry(c.a, mz, c.c);
        Some((pc + 2, nz(Cpu { a: v, c: carry, ..c }, v)))
    } else if op == 0x05 {
        let v = c.a | mz;
        Some((pc + 2, nz(Cpu { a: v, ..c }, v)))
    } else if op == 0x25 {
        let v = c.a & mz;
        Some((pc + 2, nz(Cpu { a: v, ..c }, v)))
    } else if op == 0x45 {
        let v = c.a ^ mz;
        Some((pc + 2, nz(Cpu { a: v, ..c }, v)))
    } else if op == 0xC5 {
        Some((pc + 2, compare(c, c.a, mz)))
    } else if op == 0xC9 {
        Some((pc + 2, compare(c, c.a, m)))
    } else if op == 0xC4 {
        Some((pc + 2, compare(c, c.y, mz)))
    } else if op == 0xE4 {
        Some((pc + 2, compare(c, c.x, mz)))
    } else if op == 0xD0 {
        Some((branch(pc, m, !c.z), c))
    } else if op == 0xF0 {
        Some((branch(pc, m, c.z), c))
    } else if op == 0x30 {
        Some((branch(pc, m, c.n), c))
    } else if op == 0x10 {
        Some((branch(pc, m, !c.n), c))
    } else if op == 0x90 {
        Some((branch(pc, m, !c.c), c))
    } else if op == 0xB0 {
        Some((branch(pc, m, c.c), c))
    } else {
        None
    }
}

/// Running `code` from `pc` for at most `fuel` instructions: the processor when
/// control falls off the end of the code, `None` when it leaves the code anywhere
/// else, meets an instruction the model does not know, or runs out of fuel.
pub open spec fn run(code: Seq<u8>, pc: int, c: Cpu, fuel: nat) -> Option<Cpu>
    decreases fuel,
{
    if pc == code.len() {
        Some(c)
    } else if pc < 0 || pc > code.len() || fuel == 0 {
        None
    } else {
        match step(code, pc, c) {
            Some((pc2, c2)) => run(code, pc2, c2, (fuel - 1) as nat),
            None => None,
        }
    }
}

/// Running `code` from its start, one instruction per byte at most.
pub open spec fn exec_code(code: Seq<u8>, c: Cpu) -> Option<Cpu> {
    run(code, 0, c, code.len())
}

} // verus!
