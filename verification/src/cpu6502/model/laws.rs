//! What the instructions do, stated by the values they produce.
use vstd::prelude::*;

use crate::cpu6502::cpu::{
    add16, is_flag_mask, lemma_put, rel, signed, CpuState, BRK, CARRY, DECIMAL, IRQ_DISABLE, NEGATIVE, OVERFLOW, ZERO,
};
use crate::cpu6502::memory::{lemma_peek_load, lemma_store_load};
use crate::cpu6502::cpu::lemma_mask_bits;
use crate::cpu6502::model::addr_mode::{lemma_push_pull_byte, stack_addr, AddrMode, Mach};
use crate::cpu6502::model::semantics::{is_rmw, is_store};
use crate::cpu6502::model::instruction::Instruction;

verus! {

/// Setting or clearing flag `f` gives it the value `v` and keeps every other
/// flag.
#[verifier::spinoff_prover]
pub proof fn lemma_with_flag(d: CpuState, f: u8, v: bool)
    requires
        is_flag_mask(f),
    ensures
        d.with_flag(f, v).flag(f) == v,
        forall|g: u8| is_flag_mask(g) && g != f ==> #[trigger] d.with_flag(f, v).flag(g) == d.flag(g),
{
    lemma_put(d.st, f, v, f);
    assert forall|g: u8| is_flag_mask(g) && g != f implies #[trigger] d.with_flag(f, v).flag(g)
        == d.flag(g) by {
        lemma_put(d.st, f, v, g);
    }
}

/// Setting zero and negative from `b` sets them as `b` says and keeps every
/// other flag.
#[verifier::spinoff_prover]
pub proof fn lemma_nz(d: CpuState, b: u8)
    ensures
        d.nz(b).flag(ZERO) == (b == 0),
        d.nz(b).flag(NEGATIVE) == (b >= 128),
        forall|g: u8| is_flag_mask(g) && g != ZERO && g != NEGATIVE ==> #[trigger] d.nz(b).flag(g)
            == d.flag(g),
{
    lemma_with_flag(d, ZERO, b == 0);
    lemma_with_flag(d.with_flag(ZERO, b == 0), NEGATIVE, b >= 128);
}

/// The flags of `r` other than `f1` and `f2` are those of `c`.
pub open spec fn flags_kept_but(c: CpuState, r: CpuState, f1: u8, f2: u8) -> bool {
    forall|g: u8| is_flag_mask(g) && g != f1 && g != f2 ==> #[trigger] r.flag(g) == c.flag(g)
}

/// Zero and negative tell whether `v` is 0 and whether its top bit is set;
/// the other flags, the program counter, the stack pointer, memory and
/// success are untouched.
pub open spec fn sets_nz(m: Mach, r: Mach, v: u8) -> bool {
    &&& r.cpu.flag(ZERO) == (v == 0)
    &&& r.cpu.flag(NEGATIVE) == (v >= 128)
    &&& flags_kept_but(m.cpu, r.cpu, ZERO, NEGATIVE)
    &&& r.cpu.pc == m.cpu.pc
    &&& r.cpu.sp == m.cpu.sp
    &&& r.mem == m.mem
    &&& r.ok == m.ok
}

/// The registers A, X and Y of `r` are `a`, `x` and `y`.
pub open spec fn regs(r: Mach, a: u8, x: u8, y: u8) -> bool {
    r.cpu.a == a && r.cpu.x == x && r.cpu.y == y
}

#[verifier::spinoff_prover]
proof fn lemma_inx(m: Mach)
    ensures
        ({
            let r = m.run_instruction(Instruction::INX);
            &&& r.cpu.x == (m.cpu.x + 1) % 256
            &&& regs(r, m.cpu.a, r.cpu.x, m.cpu.y)
            &&& sets_nz(m, r, r.cpu.x)
        }),
{
    reveal(Mach::run_instruction);
    let r = m.run_instruction(Instruction::INX);
    lemma_nz(CpuState { x: r.cpu.x, ..m.cpu }, r.cpu.x);
}

#[verifier::spinoff_prover]
proof fn lemma_dex(m: Mach)
    ensures
        ({
            let r = m.run_instruction(Instruction::DEX);
            &&& (r.cpu.x + 1) % 256 == m.cpu.x
            &&& regs(r, m.cpu.a, r.cpu.x, m.cpu.y)
            &&& sets_nz(m, r, r.cpu.x)
        }),
{
    reveal(Mach::run_instruction);
    let r = m.run_instruction(Instruction::DEX);
    lemma_nz(CpuState { x: r.cpu.x, ..m.cpu }, r.cpu.x);
}

#[verifier::spinoff_prover]
proof fn lemma_iny(m: Mach)
    ensures
        ({
            let r = m.run_instruction(Instruction::INY);
            &&& r.cpu.y == (m.cpu.y + 1) % 256
            &&& regs(r, m.cpu.a, m.cpu.x, r.cpu.y)
            &&& sets_nz(m, r, r.cpu.y)
        }),
{
    reveal(Mach::run_instruction);
    let r = m.run_instruction(Instruction::INY);
    lemma_nz(CpuState { y: r.cpu.y, ..m.cpu }, r.cpu.y);
}

#[verifier::spinoff_prover]
proof fn lemma_dey(m: Mach)
    ensures
        ({
            let r = m.run_instruction(Instruction::DEY);
            &&& (r.cpu.y + 1) % 256 == m.cpu.y
            &&& regs(r, m.cpu.a, m.cpu.x, r.cpu.y)
            &&& sets_nz(m, r, r.cpu.y)
        }),
{
    reveal(Mach::run_instruction);
    let r = m.run_instruction(Instruction::DEY);
    lemma_nz(CpuState { y: r.cpu.y, ..m.cpu }, r.cpu.y);
}

#[verifier::spinoff_prover]
proof fn lemma_inc(m: Mach)
    ensures
        ({
            let r = m.run_instruction(Instruction::INC);
            &&& r.cpu.tmp0 == (m.cpu.tmp0 + 1) % 256
            &&& regs(r, m.cpu.a, m.cpu.x, m.cpu.y)
            &&& sets_nz(m, r, r.cpu.tmp0)
        }),
{
    reveal(Mach::run_instruction);
    let r = m.run_instruction(Instruction::INC);
    lemma_nz(CpuState { tmp0: r.cpu.tmp0, ..m.cpu }, r.cpu.tmp0);
}

#[verifier::spinoff_prover]
proof fn lemma_dec(m: Mach)
    ensures
        ({
            let r = m.run_instruction(Instruction::DEC);
            &&& (r.cpu.tmp0 + 1) % 256 == m.cpu.tmp0
            &&& regs(r, m.cpu.a, m.cpu.x, m.cpu.y)
            &&& sets_nz(m, r, r.cpu.tmp0)
        }),
{
    reveal(Mach::run_instruction);
    let r = m.run_instruction(Instruction::DEC);
    lemma_nz(CpuState { tmp0: r.cpu.tmp0, ..m.cpu }, r.cpu.tmp0);
}

/// INX, INY and INC add one to X, Y or the operand, DEX, DEY and DEC take
/// one away, wrapping round at 256; zero and negative follow the result and
/// nothing else changes. So an increment followed by a decrement gives the
/// register back.
#[verifier::spinoff_prover]
pub proof fn lemma_increments(m: Mach)
    ensures
        ({
            let c = m.cpu;
            let inx = m.run_instruction(Instruction::INX);
            let dex = m.run_instruction(Instruction::DEX);
            let iny = m.run_instruction(Instruction::INY);
            let dey = m.run_instruction(Instruction::DEY);
            let inc = m.run_instruction(Instruction::INC);
            let dec = m.run_instruction(Instruction::DEC);
            &&& inx.cpu.x == (c.x + 1) % 256 && regs(inx, c.a, inx.cpu.x, c.y)
            &&& sets_nz(m, inx, inx.cpu.x)
            &&& (dex.cpu.x + 1) % 256 == c.x && regs(dex, c.a, dex.cpu.x, c.y)
            &&& sets_nz(m, dex, dex.cpu.x)
            &&& iny.cpu.y == (c.y + 1) % 256 && regs(iny, c.a, c.x, iny.cpu.y)
            &&& sets_nz(m, iny, iny.cpu.y)
            &&& (dey.cpu.y + 1) % 256 == c.y && regs(dey, c.a, c.x, dey.cpu.y)
            &&& sets_nz(m, dey, dey.cpu.y)
            &&& inc.cpu.tmp0 == (c.tmp0 + 1) % 256 && regs(inc, c.a, c.x, c.y)
            &&& sets_nz(m, inc, inc.cpu.tmp0)
            &&& (dec.cpu.tmp0 + 1) % 256 == c.tmp0 && regs(dec, c.a, c.x, c.y)
            &&& sets_nz(m, dec, dec.cpu.tmp0)
            &&& inx.run_instruction(Instruction::DEX).cpu.x == c.x
            &&& iny.run_instruction(Instruction::DEY).cpu.y == c.y
        }),
{
    lemma_inx(m);
    lemma_dex(m);
    lemma_iny(m);
    lemma_dey(m);
    lemma_inc(m);
    lemma_dec(m);
    lemma_dex(m.run_instruction(Instruction::INX));
    lemma_dey(m.run_instruction(Instruction::INY));
}

/// The flags of `r` other than `f1`, `f2` and `f3` are those of `c`.
pub open spec fn flags_kept_but3(c: CpuState, r: CpuState, f1: u8, f2: u8, f3: u8) -> bool {
    forall|g: u8| is_flag_mask(g) && g != f1 && g != f2 && g != f3 ==> #[trigger] r.flag(g) == c.flag(g)
}

/// The program counter, the stack pointer, memory and success are untouched.
pub open spec fn rest_kept(m: Mach, r: Mach) -> bool {
    r.cpu.pc == m.cpu.pc && r.cpu.sp == m.cpu.sp && r.mem == m.mem && r.ok == m.ok
}

#[verifier::spinoff_prover]
proof fn lemma_lda(m: Mach)
    ensures
        ({
            let r = m.run_instruction(Instruction::LDA);
            &&& regs(r, m.cpu.tmp0, m.cpu.x, m.cpu.y)
            &&& sets_nz(m, r, m.cpu.tmp0)
        }),
{
    reveal(Mach::run_instruction);
    lemma_nz(CpuState { a: m.cpu.tmp0, ..m.cpu }, m.cpu.tmp0);
}

#[verifier::spinoff_prover]
proof fn lemma_ldx(m: Mach)
    ensures
        ({
            let r = m.run_instruction(Instruction::LDX);
            &&& regs(r, m.cpu.a, m.cpu.tmp0, m.cpu.y)
            &&& sets_nz(m, r, m.cpu.tmp0)
        }),
{
    reveal(Mach::run_instruction);
    lemma_nz(CpuState { x: m.cpu.tmp0, ..m.cpu }, m.cpu.tmp0);
}

#[verifier::spinoff_prover]
proof fn lemma_ldy(m: Mach)
    ensures
        ({
            let r = m.run_instruction(Instruction::LDY);
            &&& regs(r, m.cpu.a, m.cpu.x, m.cpu.tmp0)
            &&& sets_nz(m, r, m.cpu.tmp0)
        }),
{
    reveal(Mach::run_instruction);
    lemma_nz(CpuState { y: m.cpu.tmp0, ..m.cpu }, m.cpu.tmp0);
}

#[verifier::spinoff_prover]
proof fn lemma_tax(m: Mach)
    ensures
        ({
            let r = m.run_instruction(Instruction::TAX);
            &&& regs(r, m.cpu.a, m.cpu.a, m.cpu.y)
            &&& sets_nz(m, r, m.cpu.a)
        }),
{
    reveal(Mach::run_instruction);
    lemma_nz(CpuState { x: m.cpu.a, ..m.cpu }, m.cpu.a);
}

#[verifier::spinoff_prover]
proof fn lemma_tay(m: Mach)
    ensures
        ({
            let r = m.run_instruction(Instruction::TAY);
            &&& regs(r, m.cpu.a, m.cpu.x, m.cpu.a)
            &&& sets_nz(m, r, m.cpu.a)
        }),
{
    reveal(Mach::run_instruction);
    lemma_nz(CpuState { y: m.cpu.a, ..m.cpu }, m.cpu.a);
}

#[verifier::spinoff_prover]
proof fn lemma_txa(m: Mach)
    ensures
        ({
            let r = m.run_instruction(Instruction::TXA);
            &&& regs(r, m.cpu.x, m.cpu.x, m.cpu.y)
            &&& sets_nz(m, r, m.cpu.x)
        }),
{
    reveal(Mach::run_instruction);
    lemma_nz(CpuState { a: m.cpu.x, ..m.cpu }, m.cpu.x);
}

#[verifier::spinoff_prover]
proof fn lemma_tya(m: Mach)
    ensures
        ({
            let r = m.run_instruction(Instruction::TYA);
            &&& regs(r, m.cpu.y, m.cpu.x, m.cpu.y)
            &&& sets_nz(m, r, m.cpu.y)
        }),
{
    reveal(Mach::run_instruction);
    lemma_nz(CpuState { a: m.cpu.y, ..m.cpu }, m.cpu.y);
}

#[verifier::spinoff_prover]
proof fn lemma_tsx(m: Mach)
    ensures
        ({
            let r = m.run_instruction(Instruction::TSX);
            &&& regs(r, m.cpu.a, m.cpu.sp, m.cpu.y)
            &&& sets_nz(m, r, m.cpu.sp)
        }),
{
    reveal(Mach::run_instruction);
    lemma_nz(CpuState { x: m.cpu.sp, ..m.cpu }, m.cpu.sp);
}

/// LDA, LDX and LDY load the operand into A, X or Y; TAX, TAY, TXA, TYA
/// and TSX copy one register into another; zero and negative follow the
/// value moved and nothing else changes. TXS copies X into the stack pointer
/// and changes no flag.
#[verifier::spinoff_prover]
pub proof fn lemma_loads_and_transfers(m: Mach)
    ensures
        ({
            &&& true
            &&& regs(m.run_instruction(Instruction::LDA), m.cpu.tmp0, m.cpu.x, m.cpu.y) && sets_nz(m, m.run_instruction(Instruction::LDA), m.cpu.tmp0)
            &&& regs(m.run_instruction(Instruction::LDX), m.cpu.a, m.cpu.tmp0, m.cpu.y) && sets_nz(m, m.run_instruction(Instruction::LDX), m.cpu.tmp0)
            &&& regs(m.run_instruction(Instruction::LDY), m.cpu.a, m.cpu.x, m.cpu.tmp0) && sets_nz(m, m.run_instruction(Instruction::LDY), m.cpu.tmp0)
            &&& regs(m.run_instruction(Instruction::TAX), m.cpu.a, m.cpu.a, m.cpu.y) && sets_nz(m, m.run_instruction(Instruction::TAX), m.cpu.a)
            &&& regs(m.run_instruction(Instruction::TAY), m.cpu.a, m.cpu.x, m.cpu.a) && sets_nz(m, m.run_instruction(Instruction::TAY), m.cpu.a)
            &&& regs(m.run_instruction(Instruction::TXA), m.cpu.x, m.cpu.x, m.cpu.y) && sets_nz(m, m.run_instruction(Instruction::TXA), m.cpu.x)
            &&& regs(m.run_instruction(Instruction::TYA), m.cpu.y, m.cpu.x, m.cpu.y) && sets_nz(m, m.run_instruction(Instruction::TYA), m.cpu.y)
            &&& regs(m.run_instruction(Instruction::TSX), m.cpu.a, m.cpu.sp, m.cpu.y) && sets_nz(m, m.run_instruction(Instruction::TSX), m.cpu.sp)
            &&& m.run_instruction(Instruction::TXS).cpu.sp == m.cpu.x
            &&& m.run_instruction(Instruction::TXS).cpu.st == m.cpu.st
            &&& regs(m.run_instruction(Instruction::TXS), m.cpu.a, m.cpu.x, m.cpu.y)
            &&& m.run_instruction(Instruction::TXS).cpu.pc == m.cpu.pc
            &&& m.run_instruction(Instruction::TXS).mem == m.mem
        }),
{
    lemma_lda(m);
    lemma_ldx(m);
    lemma_ldy(m);
    lemma_tax(m);
    lemma_tay(m);
    lemma_txa(m);
    lemma_tya(m);
    lemma_tsx(m);
    reveal(Mach::run_instruction);
}

/// The flags of a comparison of `reg` with `b`: carry when `reg` is not
/// below `b`, zero when they are equal, negative when `reg` is below; the
/// other flags are kept.
#[verifier::spinoff_prover]
pub proof fn lemma_compare_flags(c: CpuState, reg: u8, b: u8)
    ensures
        c.compare(reg, b).flag(CARRY) == (reg >= b),
        c.compare(reg, b).flag(ZERO) == (reg == b),
        c.compare(reg, b).flag(NEGATIVE) == (reg < b),
        flags_kept_but3(c, c.compare(reg, b), CARRY, ZERO, NEGATIVE),
{
    let c1 = c.with_flag(NEGATIVE, reg < b);
    let c2 = c1.with_flag(CARRY, reg >= b);
    lemma_with_flag(c, NEGATIVE, reg < b);
    lemma_with_flag(c1, CARRY, reg >= b);
    lemma_with_flag(c2, ZERO, reg == b);
}

#[verifier::spinoff_prover]
proof fn lemma_cmp(m: Mach)
    ensures
        ({
            let r = m.run_instruction(Instruction::CMP);
            &&& r.cpu.flag(CARRY) == (m.cpu.a >= m.cpu.tmp0)
            &&& r.cpu.flag(ZERO) == (m.cpu.a == m.cpu.tmp0)
            &&& r.cpu.flag(NEGATIVE) == (m.cpu.a < m.cpu.tmp0)
            &&& flags_kept_but3(m.cpu, r.cpu, CARRY, ZERO, NEGATIVE)
            &&& regs(r, m.cpu.a, m.cpu.x, m.cpu.y)
            &&& rest_kept(m, r)
        }),
{
    reveal(Mach::run_instruction);
    lemma_compare_flags(m.cpu, m.cpu.a, m.cpu.tmp0);
}

#[verifier::spinoff_prover]
proof fn lemma_cpx(m: Mach)
    ensures
        ({
            let r = m.run_instruction(Instruction::CPX);
            &&& r.cpu.flag(CARRY) == (m.cpu.x >= m.cpu.tmp0)
            &&& r.cpu.flag(ZERO) == (m.cpu.x == m.cpu.tmp0)
            &&& r.cpu.flag(NEGATIVE) == (m.cpu.x < m.cpu.tmp0)
            &&& flags_kept_but3(m.cpu, r.cpu, CARRY, ZERO, NEGATIVE)
            &&& regs(r, m.cpu.a, m.cpu.x, m.cpu.y)
            &&& rest_kept(m, r)
        }),
{
    reveal(Mach::run_instruction);
    lemma_compare_flags(m.cpu, m.cpu.x, m.cpu.tmp0);
}

#[verifier::spinoff_prover]
proof fn lemma_cpy(m: Mach)
    ensures
        ({
            let r = m.run_instruction(Instruction::CPY);
            &&& r.cpu.flag(CARRY) == (m.cpu.y >= m.cpu.tmp0)
            &&& r.cpu.flag(ZERO) == (m.cpu.y == m.cpu.tmp0)
            &&& r.cpu.flag(NEGATIVE) == (m.cpu.y < m.cpu.tmp0)
            &&& flags_kept_but3(m.cpu, r.cpu, CARRY, ZERO, NEGATIVE)
            &&& regs(r, m.cpu.a, m.cpu.x, m.cpu.y)
            &&& rest_kept(m, r)
        }),
{
    reveal(Mach::run_instruction);
    lemma_compare_flags(m.cpu, m.cpu.y, m.cpu.tmp0);
}

/// CMP, CPX and CPY compare A, X or Y with the operand: carry when the
/// register is not below it, zero when they are equal, negative when the
/// register is below; the registers and the other flags are kept.
#[verifier::spinoff_prover]
pub proof fn lemma_compares(m: Mach)
    ensures
        ({
            let r = m.run_instruction(Instruction::CMP);
            &&& r.cpu.flag(CARRY) == (m.cpu.a >= m.cpu.tmp0)
            &&& r.cpu.flag(ZERO) == (m.cpu.a == m.cpu.tmp0)
            &&& r.cpu.flag(NEGATIVE) == (m.cpu.a < m.cpu.tmp0)
            &&& flags_kept_but3(m.cpu, r.cpu, CARRY, ZERO, NEGATIVE)
            &&& regs(r, m.cpu.a, m.cpu.x, m.cpu.y)
            &&& rest_kept(m, r)
        }),
        ({
            let r = m.run_instruction(Instruction::CPX);
            &&& r.cpu.flag(CARRY) == (m.cpu.x >= m.cpu.tmp0)
            &&& r.cpu.flag(ZERO) == (m.cpu.x == m.cpu.tmp0)
            &&& r.cpu.flag(NEGATIVE) == (m.cpu.x < m.cpu.tmp0)
            &&& flags_kept_but3(m.cpu, r.cpu, CARRY, ZERO, NEGATIVE)
            &&& regs(r, m.cpu.a, m.cpu.x, m.cpu.y)
            &&& rest_kept(m, r)
        }),
        ({
            let r = m.run_instruction(Instruction::CPY);
            &&& r.cpu.flag(CARRY) == (m.cpu.y >= m.cpu.tmp0)
            &&& r.cpu.flag(ZERO) == (m.cpu.y == m.cpu.tmp0)
            &&& r.cpu.flag(NEGATIVE) == (m.cpu.y < m.cpu.tmp0)
            &&& flags_kept_but3(m.cpu, r.cpu, CARRY, ZERO, NEGATIVE)
            &&& regs(r, m.cpu.a, m.cpu.x, m.cpu.y)
            &&& rest_kept(m, r)
        }),
{
    lemma_cmp(m);
    lemma_cpx(m);
    lemma_cpy(m);
}

#[verifier::spinoff_prover]
proof fn lemma_clc(m: Mach)
    ensures
        ({
            let r = m.run_instruction(Instruction::CLC);
            &&& r.cpu.flag(CARRY) == false
            &&& flags_kept_but(m.cpu, r.cpu, CARRY, CARRY)
            &&& regs(r, m.cpu.a, m.cpu.x, m.cpu.y)
            &&& rest_kept(m, r)
        }),
{
    reveal(Mach::run_instruction);
    lemma_with_flag(m.cpu, CARRY, false);
}

#[verifier::spinoff_prover]
proof fn lemma_sec(m: Mach)
    ensures
        ({
            let r = m.run_instruction(Instruction::SEC);
            &&& r.cpu.flag(CARRY) == true
            &&& flags_kept_but(m.cpu, r.cpu, CARRY, CARRY)
            &&& regs(r, m.cpu.a, m.cpu.x, m.cpu.y)
            &&& rest_kept(m, r)
        }),
{
    reveal(Mach::run_instruction);
    lemma_with_flag(m.cpu, CARRY, true);
}

#[verifier::spinoff_prover]
proof fn lemma_cld(m: Mach)
    ensures
        ({
            let r = m.run_instruction(Instruction::CLD);
            &&& r.cpu.flag(DECIMAL) == false
            &&& flags_kept_but(m.cpu, r.cpu, DECIMAL, DECIMAL)
            &&& regs(r, m.cpu.a, m.cpu.x, m.cpu.y)
            &&& rest_kept(m, r)
        }),
{
    reveal(Mach::run_instruction);
    lemma_with_flag(m.cpu, DECIMAL, false);
}

#[verifier::spinoff_prover]
proof fn lemma_sed(m: Mach)
    ensures
        ({
            let r = m.run_instruction(Instruction::SED);
            &&& r.cpu.flag(DECIMAL) == true
            &&& flags_kept_but(m.cpu, r.cpu, DECIMAL, DECIMAL)
            &&& regs(r, m.cpu.a, m.cpu.x, m.cpu.y)
            &&& rest_kept(m, r)
        }),
{
    reveal(Mach::run_instruction);
    lemma_with_flag(m.cpu, DECIMAL, true);
}

#[verifier::spinoff_prover]
proof fn lemma_cli(m: Mach)
    ensures
        ({
            let r = m.run_instruction(Instruction::CLI);
            &&& r.cpu.flag(IRQ_DISABLE) == false
            &&& flags_kept_but(m.cpu, r.cpu, IRQ_DISABLE, IRQ_DISABLE)
            &&& regs(r, m.cpu.a, m.cpu.x, m.cpu.y)
            &&& rest_kept(m, r)
        }),
{
    reveal(Mach::run_instruction);
    lemma_with_flag(m.cpu, IRQ_DISABLE, false);
}

#[verifier::spinoff_prover]
proof fn lemma_sei(m: Mach)
    ensures
        ({
            let r = m.run_instruction(Instruction::SEI);
            &&& r.cpu.flag(IRQ_DISABLE) == true
            &&& flags_kept_but(m.cpu, r.cpu, IRQ_DISABLE, IRQ_DISABLE)
            &&& regs(r, m.cpu.a, m.cpu.x, m.cpu.y)
            &&& rest_kept(m, r)
        }),
{
    reveal(Mach::run_instruction);
    lemma_with_flag(m.cpu, IRQ_DISABLE, true);
}

#[verifier::spinoff_prover]
proof fn lemma_clv(m: Mach)
    ensures
        ({
            let r = m.run_instruction(Instruction::CLV);
            &&& r.cpu.flag(OVERFLOW) == false
            &&& flags_kept_but(m.cpu, r.cpu, OVERFLOW, OVERFLOW)
            &&& regs(r, m.cpu.a, m.cpu.x, m.cpu.y)
            &&& rest_kept(m, r)
        }),
{
    reveal(Mach::run_instruction);
    lemma_with_flag(m.cpu, OVERFLOW, false);
}

/// CLC, SEC, CLD, SED, CLI, SEI and CLV clear or set one flag each (carry,
/// decimal, interrupt disable, overflow) and change nothing else.
#[verifier::spinoff_prover]
pub proof fn lemma_flag_instructions(m: Mach)
    ensures
        ({
            let r = m.run_instruction(Instruction::CLC);
            &&& r.cpu.flag(CARRY) == false
            &&& flags_kept_but(m.cpu, r.cpu, CARRY, CARRY)
            &&& regs(r, m.cpu.a, m.cpu.x, m.cpu.y)
            &&& rest_kept(m, r)
        }),
        ({
            let r = m.run_instruction(Instruction::SEC);
            &&& r.cpu.flag(CARRY) == true
            &&& flags_kept_but(m.cpu, r.cpu, CARRY, CARRY)
            &&& regs(r, m.cpu.a, m.cpu.x, m.cpu.y)
            &&& rest_kept(m, r)
        }),
        ({
            let r = m.run_instruction(Instruction::CLD);
            &&& r.cpu.flag(DECIMAL) == false
            &&& flags_kept_but(m.cpu, r.cpu, DECIMAL, DECIMAL)
            &&& regs(r, m.cpu.a, m.cpu.x, m.cpu.y)
            &&& rest_kept(m, r)
        }),
        ({
            let r = m.run_instruction(Instruction::SED);
            &&& r.cpu.flag(DECIMAL) == true
            &&& flags_kept_but(m.cpu, r.cpu, DECIMAL, DECIMAL)
            &&& regs(r, m.cpu.a, m.cpu.x, m.cpu.y)
            &&& rest_kept(m, r)
        }),
        ({
            let r = m.run_instruction(Instruction::CLI);
            &&& r.cpu.flag(IRQ_DISABLE) == false
            &&& flags_kept_but(m.cpu, r.cpu, IRQ_DISABLE, IRQ_DISABLE)
            &&& regs(r, m.cpu.a, m.cpu.x, m.cpu.y)
            &&& rest_kept(m, r)
        }),
        ({
            let r = m.run_instruction(Instruction::SEI);
            &&& r.cpu.flag(IRQ_DISABLE) == true
            &&& flags_kept_but(m.cpu, r.cpu, IRQ_DISABLE, IRQ_DISABLE)
            &&& regs(r, m.cpu.a, m.cpu.x, m.cpu.y)
            &&& rest_kept(m, r)
        }),
        ({
            let r = m.run_instruction(Instruction::CLV);
            &&& r.cpu.flag(OVERFLOW) == false
            &&& flags_kept_but(m.cpu, r.cpu, OVERFLOW, OVERFLOW)
            &&& regs(r, m.cpu.a, m.cpu.x, m.cpu.y)
            &&& rest_kept(m, r)
        }),
{
    lemma_clc(m);
    lemma_sec(m);
    lemma_cld(m);
    lemma_sed(m);
    lemma_cli(m);
    lemma_sei(m);
    lemma_clv(m);
}

/// The branches decide, and record in the operand latch, whether they are
/// taken: BCC and BCS on carry clear or set, BEQ and BNE on zero set or
/// clear, BMI and BPL on negative set or clear, BVS and BVC on overflow set
/// or clear, BRA always; nothing else changes.
#[verifier::spinoff_prover]
pub proof fn lemma_branch_conditions(m: Mach)
    ensures
        (m.run_instruction(Instruction::BCC).cpu.tmp0 != 0) == (!m.cpu.flag(CARRY)),
        m.run_instruction(Instruction::BCC) == m.set_tmp0(m.run_instruction(Instruction::BCC).cpu.tmp0),
        (m.run_instruction(Instruction::BCS).cpu.tmp0 != 0) == (m.cpu.flag(CARRY)),
        m.run_instruction(Instruction::BCS) == m.set_tmp0(m.run_instruction(Instruction::BCS).cpu.tmp0),
        (m.run_instruction(Instruction::BEQ).cpu.tmp0 != 0) == (m.cpu.flag(ZERO)),
        m.run_instruction(Instruction::BEQ) == m.set_tmp0(m.run_instruction(Instruction::BEQ).cpu.tmp0),
        (m.run_instruction(Instruction::BNE).cpu.tmp0 != 0) == (!m.cpu.flag(ZERO)),
        m.run_instruction(Instruction::BNE) == m.set_tmp0(m.run_instruction(Instruction::BNE).cpu.tmp0),
        (m.run_instruction(Instruction::BMI).cpu.tmp0 != 0) == (m.cpu.flag(NEGATIVE)),
        m.run_instruction(Instruction::BMI) == m.set_tmp0(m.run_instruction(Instruction::BMI).cpu.tmp0),
        (m.run_instruction(Instruction::BPL).cpu.tmp0 != 0) == (!m.cpu.flag(NEGATIVE)),
        m.run_instruction(Instruction::BPL) == m.set_tmp0(m.run_instruction(Instruction::BPL).cpu.tmp0),
        (m.run_instruction(Instruction::BVS).cpu.tmp0 != 0) == (m.cpu.flag(OVERFLOW)),
        m.run_instruction(Instruction::BVS) == m.set_tmp0(m.run_instruction(Instruction::BVS).cpu.tmp0),
        (m.run_instruction(Instruction::BVC).cpu.tmp0 != 0) == (!m.cpu.flag(OVERFLOW)),
        m.run_instruction(Instruction::BVC) == m.set_tmp0(m.run_instruction(Instruction::BVC).cpu.tmp0),
        (m.run_instruction(Instruction::BRA).cpu.tmp0 != 0) == (true),
        m.run_instruction(Instruction::BRA) == m.set_tmp0(m.run_instruction(Instruction::BRA).cpu.tmp0),
{
    reveal(Mach::run_instruction);
}

#[verifier::spinoff_prover]
proof fn lemma_asl(m: Mach)
    ensures
        ({
            let t = m.cpu.tmp0;
            let r = m.run_instruction(Instruction::ASL);
            &&& r.cpu.tmp0 == (2 * t) % 256
            &&& r.cpu.flag(CARRY) == (t >= 128)
            &&& r.cpu.flag(ZERO) == (r.cpu.tmp0 == 0)
            &&& r.cpu.flag(NEGATIVE) == (r.cpu.tmp0 >= 128)
            &&& flags_kept_but3(m.cpu, r.cpu, CARRY, ZERO, NEGATIVE)
            &&& regs(r, m.cpu.a, m.cpu.x, m.cpu.y)
            &&& rest_kept(m, r)
        }),
{
    reveal(Mach::run_instruction);
    let t = m.cpu.tmp0;
    let c1 = m.cpu.with_flag(CARRY, t >= 128);
    let v = ((t * 2) % 256) as u8;
    lemma_with_flag(m.cpu, CARRY, t >= 128);
    lemma_nz(CpuState { tmp0: v, ..c1 }, v);
    let r = m.run_instruction(Instruction::ASL);
    assert forall|g: u8| is_flag_mask(g) && g != CARRY && g != ZERO && g != NEGATIVE implies #[trigger] r.cpu.flag(g)
        == m.cpu.flag(g) by {
        assert(CpuState { tmp0: v, ..c1 }.nz(v).flag(g) == c1.flag(g));
        assert(c1.flag(g) == m.cpu.flag(g));
    }
}

#[verifier::spinoff_prover]
proof fn lemma_lsr(m: Mach)
    ensures
        ({
            let t = m.cpu.tmp0;
            let r = m.run_instruction(Instruction::LSR);
            &&& 2 * r.cpu.tmp0 + (if r.cpu.flag(CARRY) { 1int } else { 0int }) == t
            &&& flags_kept_but(m.cpu, r.cpu, CARRY, CARRY)
            &&& regs(r, m.cpu.a, m.cpu.x, m.cpu.y)
            &&& rest_kept(m, r)
        }),
{
    reveal(Mach::run_instruction);
    let c1 = m.cpu.with_flag(CARRY, m.cpu.tmp0 % 2 == 1);
    lemma_with_flag(m.cpu, CARRY, m.cpu.tmp0 % 2 == 1);
    let r = m.run_instruction(Instruction::LSR);
    assert(r.cpu.st == c1.st);
    assert forall|g: u8| is_flag_mask(g) && g != CARRY && g != CARRY implies #[trigger] r.cpu.flag(g)
        == m.cpu.flag(g) by {
        assert(c1.flag(g) == m.cpu.flag(g));
    }
}

#[verifier::spinoff_prover]
proof fn lemma_rol(m: Mach)
    ensures
        ({
            let t = m.cpu.tmp0;
            let cin: int = if m.cpu.flag(CARRY) { 1 } else { 0 };
            let r = m.run_instruction(Instruction::ROL);
            &&& r.cpu.tmp0 == (2 * t + cin) % 256
            &&& r.cpu.flag(CARRY) == (t >= 128)
            &&& flags_kept_but(m.cpu, r.cpu, CARRY, CARRY)
            &&& regs(r, m.cpu.a, m.cpu.x, m.cpu.y)
            &&& rest_kept(m, r)
        }),
{
    reveal(Mach::run_instruction);
    let c1 = m.cpu.with_flag(CARRY, m.cpu.tmp0 >= 128);
    lemma_with_flag(m.cpu, CARRY, m.cpu.tmp0 >= 128);
    let r = m.run_instruction(Instruction::ROL);
    assert(r.cpu.st == c1.st);
    assert forall|g: u8| is_flag_mask(g) && g != CARRY && g != CARRY implies #[trigger] r.cpu.flag(g)
        == m.cpu.flag(g) by {
        assert(c1.flag(g) == m.cpu.flag(g));
    }
}

#[verifier::spinoff_prover]
proof fn lemma_ror(m: Mach)
    ensures
        ({
            let t = m.cpu.tmp0;
            let cin: int = if m.cpu.flag(CARRY) { 128 } else { 0 };
            let r = m.run_instruction(Instruction::ROR);
            &&& r.cpu.tmp0 == t / 2 + cin
            &&& r.cpu.flag(CARRY) == (t % 2 == 1)
            &&& r.cpu.flag(ZERO) == (r.cpu.tmp0 == 0)
            &&& r.cpu.flag(NEGATIVE) == (r.cpu.tmp0 >= 128)
            &&& flags_kept_but3(m.cpu, r.cpu, CARRY, ZERO, NEGATIVE)
            &&& regs(r, m.cpu.a, m.cpu.x, m.cpu.y)
            &&& rest_kept(m, r)
        }),
{
    reveal(Mach::run_instruction);
    let t = m.cpu.tmp0;
    let c1 = m.cpu.with_flag(CARRY, t % 2 == 1);
    let v = (t / 2 + if m.cpu.flag(CARRY) { 128int } else { 0int }) as u8;
    lemma_with_flag(m.cpu, CARRY, t % 2 == 1);
    lemma_nz(CpuState { tmp0: v, ..c1 }, v);
    let r = m.run_instruction(Instruction::ROR);
    assert forall|g: u8| is_flag_mask(g) && g != CARRY && g != ZERO && g != NEGATIVE implies #[trigger] r.cpu.flag(g)
        == m.cpu.flag(g) by {
        assert(CpuState { tmp0: v, ..c1 }.nz(v).flag(g) == c1.flag(g));
        assert(c1.flag(g) == m.cpu.flag(g));
    }
}

/// The shifts work on the operand latch: ASL doubles it, the top bit going
/// to carry; LSR halves it, the bottom bit going to carry; ROL and ROR do
/// the same with the old carry coming in at the other end. ASL and ROR set
/// zero and negative from the result. A ROL followed by a ROR gives the
/// operand and the carry back.
#[verifier::spinoff_prover]
pub proof fn lemma_shifts(m: Mach)
    ensures
        ({
            let t = m.cpu.tmp0;
            let r = m.run_instruction(Instruction::ASL);
            &&& r.cpu.tmp0 == (2 * t) % 256
            &&& r.cpu.flag(CARRY) == (t >= 128)
            &&& r.cpu.flag(ZERO) == (r.cpu.tmp0 == 0)
            &&& r.cpu.flag(NEGATIVE) == (r.cpu.tmp0 >= 128)
            &&& flags_kept_but3(m.cpu, r.cpu, CARRY, ZERO, NEGATIVE)
            &&& regs(r, m.cpu.a, m.cpu.x, m.cpu.y)
            &&& rest_kept(m, r)
        }),
        ({
            let t = m.cpu.tmp0;
            let r = m.run_instruction(Instruction::LSR);
            &&& 2 * r.cpu.tmp0 + (if r.cpu.flag(CARRY) { 1int } else { 0int }) == t
            &&& flags_kept_but(m.cpu, r.cpu, CARRY, CARRY)
            &&& regs(r, m.cpu.a, m.cpu.x, m.cpu.y)
            &&& rest_kept(m, r)
        }),
        ({
            let t = m.cpu.tmp0;
            let cin: int = if m.cpu.flag(CARRY) { 1 } else { 0 };
            let r = m.run_instruction(Instruction::ROL);
            &&& r.cpu.tmp0 == (2 * t + cin) % 256
            &&& r.cpu.flag(CARRY) == (t >= 128)
            &&& flags_kept_but(m.cpu, r.cpu, CARRY, CARRY)
            &&& regs(r, m.cpu.a, m.cpu.x, m.cpu.y)
            &&& rest_kept(m, r)
        }),
        ({
            let t = m.cpu.tmp0;
            let cin: int = if m.cpu.flag(CARRY) { 128 } else { 0 };
            let r = m.run_instruction(Instruction::ROR);
            &&& r.cpu.tmp0 == t / 2 + cin
            &&& r.cpu.flag(CARRY) == (t % 2 == 1)
            &&& r.cpu.flag(ZERO) == (r.cpu.tmp0 == 0)
            &&& r.cpu.flag(NEGATIVE) == (r.cpu.tmp0 >= 128)
            &&& flags_kept_but3(m.cpu, r.cpu, CARRY, ZERO, NEGATIVE)
            &&& regs(r, m.cpu.a, m.cpu.x, m.cpu.y)
            &&& rest_kept(m, r)
        }),
        ({
            let r = m.run_instruction(Instruction::ROL).run_instruction(Instruction::ROR);
            r.cpu.tmp0 == m.cpu.tmp0 && r.cpu.flag(CARRY) == m.cpu.flag(CARRY)
        }),
{
    lemma_asl(m);
    lemma_lsr(m);
    lemma_rol(m);
    lemma_ror(m);
    lemma_ror(m.run_instruction(Instruction::ROL));
}

#[verifier::spinoff_prover]
proof fn lemma_sta(m: Mach)
    requires
        m.mem.ram.len() == 0x10000,
        m.mem.is_plain(m.cpu.tmp_addr),
    ensures
        ({
            let r = m.run_instruction(Instruction::STA);
            &&& r.mem.load(m.cpu.tmp_addr) == m.cpu.a
            &&& forall|a: u16| a != m.cpu.tmp_addr ==> #[trigger] r.mem.load(a) == m.mem.load(a)
            &&& r.cpu == m.cpu
            &&& r.ok == m.ok
        }),
{
    reveal(Mach::run_instruction);
    let r = m.run_instruction(Instruction::STA);
    assert(r.mem == m.mem.store(m.cpu.tmp_addr, m.cpu.a));
    lemma_store_load(m.mem, m.cpu.tmp_addr, m.cpu.a, 0);
    assert forall|a: u16| a != m.cpu.tmp_addr implies #[trigger] r.mem.load(a) == m.mem.load(a) by {
        lemma_store_load(m.mem, m.cpu.tmp_addr, m.cpu.a, a);
    }
}

#[verifier::spinoff_prover]
proof fn lemma_stx(m: Mach)
    requires
        m.mem.ram.len() == 0x10000,
        m.mem.is_plain(m.cpu.tmp_addr),
    ensures
        ({
            let r = m.run_instruction(Instruction::STX);
            &&& r.mem.load(m.cpu.tmp_addr) == m.cpu.x
            &&& forall|a: u16| a != m.cpu.tmp_addr ==> #[trigger] r.mem.load(a) == m.mem.load(a)
            &&& r.cpu == m.cpu
            &&& r.ok == m.ok
        }),
{
    reveal(Mach::run_instruction);
    let r = m.run_instruction(Instruction::STX);
    assert(r.mem == m.mem.store(m.cpu.tmp_addr, m.cpu.x));
    lemma_store_load(m.mem, m.cpu.tmp_addr, m.cpu.x, 0);
    assert forall|a: u16| a != m.cpu.tmp_addr implies #[trigger] r.mem.load(a) == m.mem.load(a) by {
        lemma_store_load(m.mem, m.cpu.tmp_addr, m.cpu.x, a);
    }
}

#[verifier::spinoff_prover]
proof fn lemma_sty(m: Mach)
    requires
        m.mem.ram.len() == 0x10000,
        m.mem.is_plain(m.cpu.tmp_addr),
    ensures
        ({
            let r = m.run_instruction(Instruction::STY);
            &&& r.mem.load(m.cpu.tmp_addr) == m.cpu.y
            &&& forall|a: u16| a != m.cpu.tmp_addr ==> #[trigger] r.mem.load(a) == m.mem.load(a)
            &&& r.cpu == m.cpu
            &&& r.ok == m.ok
        }),
{
    reveal(Mach::run_instruction);
    let r = m.run_instruction(Instruction::STY);
    assert(r.mem == m.mem.store(m.cpu.tmp_addr, m.cpu.y));
    lemma_store_load(m.mem, m.cpu.tmp_addr, m.cpu.y, 0);
    assert forall|a: u16| a != m.cpu.tmp_addr implies #[trigger] r.mem.load(a) == m.mem.load(a) by {
        lemma_store_load(m.mem, m.cpu.tmp_addr, m.cpu.y, a);
    }
}

#[verifier::spinoff_prover]
proof fn lemma_stz(m: Mach)
    requires
        m.mem.ram.len() == 0x10000,
        m.mem.is_plain(m.cpu.tmp_addr),
    ensures
        ({
            let r = m.run_instruction(Instruction::STZ);
            &&& r.mem.load(m.cpu.tmp_addr) == 0u8
            &&& forall|a: u16| a != m.cpu.tmp_addr ==> #[trigger] r.mem.load(a) == m.mem.load(a)
            &&& r.cpu == m.cpu
            &&& r.ok == m.ok
        }),
{
    reveal(Mach::run_instruction);
    let r = m.run_instruction(Instruction::STZ);
    assert(r.mem == m.mem.store(m.cpu.tmp_addr, 0u8));
    lemma_store_load(m.mem, m.cpu.tmp_addr, 0u8, 0);
    assert forall|a: u16| a != m.cpu.tmp_addr implies #[trigger] r.mem.load(a) == m.mem.load(a) by {
        lemma_store_load(m.mem, m.cpu.tmp_addr, 0u8, a);
    }
}

/// STA, STX, STY and STZ store A, X, Y or 0 at the effective address: a
/// load there then gives that byte, every other address loads as before,
/// and the processor state is untouched.
#[verifier::spinoff_prover]
pub proof fn lemma_stores(m: Mach)
    requires
        m.mem.ram.len() == 0x10000,
        m.mem.is_plain(m.cpu.tmp_addr),
    ensures
        ({
            let r = m.run_instruction(Instruction::STA);
            &&& r.mem.load(m.cpu.tmp_addr) == m.cpu.a
            &&& forall|a: u16| a != m.cpu.tmp_addr ==> #[trigger] r.mem.load(a) == m.mem.load(a)
            &&& r.cpu == m.cpu
            &&& r.ok == m.ok
        }),
        ({
            let r = m.run_instruction(Instruction::STX);
            &&& r.mem.load(m.cpu.tmp_addr) == m.cpu.x
            &&& forall|a: u16| a != m.cpu.tmp_addr ==> #[trigger] r.mem.load(a) == m.mem.load(a)
            &&& r.cpu == m.cpu
            &&& r.ok == m.ok
        }),
        ({
            let r = m.run_instruction(Instruction::STY);
            &&& r.mem.load(m.cpu.tmp_addr) == m.cpu.y
            &&& forall|a: u16| a != m.cpu.tmp_addr ==> #[trigger] r.mem.load(a) == m.mem.load(a)
            &&& r.cpu == m.cpu
            &&& r.ok == m.ok
        }),
        ({
            let r = m.run_instruction(Instruction::STZ);
            &&& r.mem.load(m.cpu.tmp_addr) == 0u8
            &&& forall|a: u16| a != m.cpu.tmp_addr ==> #[trigger] r.mem.load(a) == m.mem.load(a)
            &&& r.cpu == m.cpu
            &&& r.ok == m.ok
        }),
{
    lemma_sta(m);
    lemma_stx(m);
    lemma_sty(m);
    lemma_stz(m);
}

/// What PHA, PHX, PHY and PHP push, PLA, PLX, PLY and PLP pull back: a
/// register pushed and then pulled is restored, and so is the stack
/// pointer. A byte pushed from A and pulled into X is copied.
#[verifier::spinoff_prover]
pub proof fn lemma_push_pull_registers(m: Mach)
    requires
        m.mem.ram.len() == 0x10000,
        m.mem.is_plain(stack_addr(m.cpu.sp)),
    ensures
        m.run_instruction(Instruction::PHA).run_instruction(Instruction::PLA).cpu.a == m.cpu.a,
        m.run_instruction(Instruction::PHA).run_instruction(Instruction::PLA).cpu.sp == m.cpu.sp,
        m.run_instruction(Instruction::PHX).run_instruction(Instruction::PLX).cpu.x == m.cpu.x,
        m.run_instruction(Instruction::PHX).run_instruction(Instruction::PLX).cpu.sp == m.cpu.sp,
        m.run_instruction(Instruction::PHY).run_instruction(Instruction::PLY).cpu.y == m.cpu.y,
        m.run_instruction(Instruction::PHY).run_instruction(Instruction::PLY).cpu.sp == m.cpu.sp,
        m.run_instruction(Instruction::PHP).run_instruction(Instruction::PLP).cpu.st == m.cpu.st,
        m.run_instruction(Instruction::PHP).run_instruction(Instruction::PLP).cpu.sp == m.cpu.sp,
        m.run_instruction(Instruction::PHA).run_instruction(Instruction::PLX).cpu.x == m.cpu.a,
{
    reveal(Mach::run_instruction);
    lemma_push_pull_byte(m, m.cpu.a);
    lemma_push_pull_byte(m, m.cpu.x);
    lemma_push_pull_byte(m, m.cpu.y);
    lemma_push_pull_byte(m, m.cpu.st);
}

/// BIT tests the operand against A: zero when they have no bit in common,
/// negative and overflow copied from bits 7 and 6 of the operand; the
/// registers and the other flags are kept.
#[verifier::spinoff_prover]
pub proof fn lemma_bit(m: Mach)
    ensures
        ({
            let c = m.cpu;
            let t = c.tmp0;
            let r = m.run_instruction(Instruction::BIT);
            &&& r.cpu.flag(ZERO) == (c.a & t == 0)
            &&& r.cpu.flag(NEGATIVE) == (t >= 128)
            &&& r.cpu.flag(OVERFLOW) == (t & 0x40 != 0)
            &&& flags_kept_but3(c, r.cpu, ZERO, NEGATIVE, OVERFLOW)
            &&& regs(r, c.a, c.x, c.y)
            &&& rest_kept(m, r)
        }),
{
    reveal(Mach::run_instruction);
    let c = m.cpu;
    let t = c.tmp0;
    let c1 = c.with_flag(ZERO, c.a & t == 0);
    let c2 = c1.with_flag(NEGATIVE, t >= 128);
    lemma_with_flag(c, ZERO, c.a & t == 0);
    lemma_with_flag(c1, NEGATIVE, t >= 128);
    lemma_with_flag(c2, OVERFLOW, t & 0x40 != 0);
}

/// The little-endian word at `a` and the address after it.
pub open spec fn word_at(m: Mach, a: u16) -> u16 {
    (m.mem.load(a) + 256 * m.mem.load(add16(a, 1))) as u16
}

/// The address that an instruction at the program counter addresses in
/// `mode`: its argument (one byte for zero page, two for absolute), plus X
/// or Y for the indexed modes, read through a word in memory for the
/// indirect ones (indexing before the indirection with X, after it with Y).
pub open spec fn effective_address(m: Mach, mode: AddrMode) -> u16 {
    let pc = m.cpu.pc;
    let zp = m.mem.load(add16(pc, 1)) as u16;
    let abs = word_at(m, add16(pc, 1));
    match mode {
        AddrMode::ZeroPage => zp,
        AddrMode::ZeroPageIndexedWithX => add16(zp, m.cpu.x as int),
        AddrMode::ZeroPageIndexedWithY => add16(zp, m.cpu.y as int),
        AddrMode::Absolute => abs,
        AddrMode::AbsoluteIndexedWithX => add16(abs, m.cpu.x as int),
        AddrMode::AbsoluteIndexedWithY => add16(abs, m.cpu.y as int),
        AddrMode::AbsoluteIndirect => word_at(m, abs),
        AddrMode::AbsoluteIndexedIndirect => word_at(m, add16(abs, m.cpu.x as int)),
        AddrMode::ZeroPageIndirect => word_at(m, zp),
        AddrMode::ZeroPageIndexedIndirect => word_at(m, add16(zp, m.cpu.x as int)),
        AddrMode::ZeroPageIndirectIndexedWithY => add16(word_at(m, zp), m.cpu.y as int),
        _ => 0,
    }
}

/// The modes that `effective_address` covers.
pub open spec fn effective_mode(mode: AddrMode) -> bool {
    match mode {
        AddrMode::ZeroPage | AddrMode::ZeroPageIndexedWithX | AddrMode::ZeroPageIndexedWithY
        | AddrMode::Absolute | AddrMode::AbsoluteIndexedWithX | AddrMode::AbsoluteIndexedWithY
        | AddrMode::AbsoluteIndirect | AddrMode::AbsoluteIndexedIndirect | AddrMode::ZeroPageIndirect
        | AddrMode::ZeroPageIndexedIndirect | AddrMode::ZeroPageIndirectIndexedWithY => true,
        _ => false,
    }
}

/// Operand fetching in `mode` left the effective address in the address
/// latch and, for an instruction that reads its operand, the byte there in
/// the operand latch; the registers and the program counter are kept.
pub open spec fn fetched(m: Mach, r: Mach, inst: Instruction, mode: AddrMode) -> bool {
    &&& r.cpu.tmp_addr == effective_address(m, mode)
    &&& !is_store(inst) ==> r.cpu.tmp0 == m.mem.load(effective_address(m, mode))
    &&& regs(r, m.cpu.a, m.cpu.x, m.cpu.y)
    &&& r.cpu.pc == m.cpu.pc
}

/// Loads change nothing in a memory whose every address `peekable` admits.
#[verifier::spinoff_prover]
proof fn lemma_quiet_memory(m: Mach)
    requires
        forall|a: u16| #[trigger] m.mem.peekable(a),
    ensures
        forall|a: u16| #[trigger] m.mem.after_load(a) == m.mem,
{
    assert forall|a: u16| #[trigger] m.mem.after_load(a) == m.mem by {
        lemma_peek_load(m.mem, a);
    }
}

#[verifier::spinoff_prover]
proof fn lemma_fetch_zero_page(m: Mach, inst: Instruction)
    requires
        forall|a: u16| #[trigger] m.mem.peekable(a),
    ensures
        fetched(m, m.run_load(inst, AddrMode::ZeroPage), inst, AddrMode::ZeroPage),
{
    reveal(Mach::run_load);
    lemma_quiet_memory(m);
}

#[verifier::spinoff_prover]
proof fn lemma_fetch_zero_page_x(m: Mach, inst: Instruction)
    requires
        forall|a: u16| #[trigger] m.mem.peekable(a),
    ensures
        fetched(m, m.run_load(inst, AddrMode::ZeroPageIndexedWithX), inst, AddrMode::ZeroPageIndexedWithX),
{
    reveal(Mach::run_load);
    lemma_quiet_memory(m);
}

#[verifier::spinoff_prover]
proof fn lemma_fetch_zero_page_y(m: Mach, inst: Instruction)
    requires
        forall|a: u16| #[trigger] m.mem.peekable(a),
    ensures
        fetched(m, m.run_load(inst, AddrMode::ZeroPageIndexedWithY), inst, AddrMode::ZeroPageIndexedWithY),
{
    reveal(Mach::run_load);
    lemma_quiet_memory(m);
}

#[verifier::spinoff_prover]
proof fn lemma_fetch_absolute(m: Mach, inst: Instruction)
    requires
        forall|a: u16| #[trigger] m.mem.peekable(a),
    ensures
        fetched(m, m.run_load(inst, AddrMode::Absolute), inst, AddrMode::Absolute),
{
    reveal(Mach::run_load);
    lemma_quiet_memory(m);
}

#[verifier::spinoff_prover]
proof fn lemma_fetch_absolute_x(m: Mach, inst: Instruction)
    requires
        forall|a: u16| #[trigger] m.mem.peekable(a),
    ensures
        fetched(m, m.run_load(inst, AddrMode::AbsoluteIndexedWithX), inst, AddrMode::AbsoluteIndexedWithX),
{
    reveal(Mach::run_load);
    lemma_quiet_memory(m);
}

#[verifier::spinoff_prover]
proof fn lemma_fetch_absolute_y(m: Mach, inst: Instruction)
    requires
        forall|a: u16| #[trigger] m.mem.peekable(a),
    ensures
        fetched(m, m.run_load(inst, AddrMode::AbsoluteIndexedWithY), inst, AddrMode::AbsoluteIndexedWithY),
{
    reveal(Mach::run_load);
    lemma_quiet_memory(m);
}

#[verifier::spinoff_prover]
proof fn lemma_fetch_absolute_indirect(m: Mach, inst: Instruction)
    requires
        forall|a: u16| #[trigger] m.mem.peekable(a),
    ensures
        fetched(m, m.run_load(inst, AddrMode::AbsoluteIndirect), inst, AddrMode::AbsoluteIndirect),
{
    reveal(Mach::run_load);
    lemma_quiet_memory(m);
}

#[verifier::spinoff_prover]
proof fn lemma_fetch_absolute_indexed_indirect(m: Mach, inst: Instruction)
    requires
        forall|a: u16| #[trigger] m.mem.peekable(a),
    ensures
        fetched(m, m.run_load(inst, AddrMode::AbsoluteIndexedIndirect), inst, AddrMode::AbsoluteIndexedIndirect),
{
    reveal(Mach::run_load);
    lemma_quiet_memory(m);
}

#[verifier::spinoff_prover]
proof fn lemma_fetch_zero_page_indirect(m: Mach, inst: Instruction)
    requires
        forall|a: u16| #[trigger] m.mem.peekable(a),
    ensures
        fetched(m, m.run_load(inst, AddrMode::ZeroPageIndirect), inst, AddrMode::ZeroPageIndirect),
{
    reveal(Mach::run_load);
    lemma_quiet_memory(m);
}

#[verifier::spinoff_prover]
proof fn lemma_fetch_zero_page_indexed_indirect(m: Mach, inst: Instruction)
    requires
        forall|a: u16| #[trigger] m.mem.peekable(a),
    ensures
        fetched(m, m.run_load(inst, AddrMode::ZeroPageIndexedIndirect), inst, AddrMode::ZeroPageIndexedIndirect),
{
    reveal(Mach::run_load);
    lemma_quiet_memory(m);
}

#[verifier::spinoff_prover]
proof fn lemma_fetch_zero_page_indirect_y(m: Mach, inst: Instruction)
    requires
        forall|a: u16| #[trigger] m.mem.peekable(a),
    ensures
        fetched(m, m.run_load(inst, AddrMode::ZeroPageIndirectIndexedWithY), inst, AddrMode::ZeroPageIndirectIndexedWithY),
{
    reveal(Mach::run_load);
    lemma_quiet_memory(m);
}

/// Operand fetching reads what the addressing mode names: in every mode
/// that addresses memory, the address latch ends up holding the argument
/// (plus X or Y when indexed, read through a word in memory when indirect)
/// and, unless the instruction only stores, the operand latch the byte at
/// that address. Immediate operands are the byte after the opcode, an
/// accumulator operand is A. This holds on a memory whose loads change
/// nothing.
#[verifier::spinoff_prover]
pub proof fn lemma_operand_fetch(m: Mach, inst: Instruction, mode: AddrMode)
    requires
        forall|a: u16| #[trigger] m.mem.peekable(a),
    ensures
        effective_mode(mode) ==> fetched(m, m.run_load(inst, mode), inst, mode),
        mode == AddrMode::Immediate ==> m.run_load(inst, mode).cpu.tmp0 == m.mem.load(add16(m.cpu.pc, 1)),
        mode == AddrMode::Accumulator ==> m.run_load(inst, mode).cpu.tmp0 == m.cpu.a,
{
    match mode {
        AddrMode::ZeroPage => lemma_fetch_zero_page(m, inst),
        AddrMode::ZeroPageIndexedWithX => lemma_fetch_zero_page_x(m, inst),
        AddrMode::ZeroPageIndexedWithY => lemma_fetch_zero_page_y(m, inst),
        AddrMode::Absolute => lemma_fetch_absolute(m, inst),
        AddrMode::AbsoluteIndexedWithX => lemma_fetch_absolute_x(m, inst),
        AddrMode::AbsoluteIndexedWithY => lemma_fetch_absolute_y(m, inst),
        AddrMode::AbsoluteIndirect => lemma_fetch_absolute_indirect(m, inst),
        AddrMode::AbsoluteIndexedIndirect => lemma_fetch_absolute_indexed_indirect(m, inst),
        AddrMode::ZeroPageIndirect => lemma_fetch_zero_page_indirect(m, inst),
        AddrMode::ZeroPageIndexedIndirect => lemma_fetch_zero_page_indexed_indirect(m, inst),
        AddrMode::ZeroPageIndirectIndexedWithY => lemma_fetch_zero_page_indirect_y(m, inst),
        _ => {
            reveal(Mach::run_load);
            lemma_quiet_memory(m);
        },
    }
}

#[verifier::spinoff_prover]
proof fn lemma_jmp_absolute(m: Mach)
    requires
        forall|a: u16| #[trigger] m.mem.peekable(a),
    ensures
        m.run_load(Instruction::JMP, AddrMode::Absolute).run_instruction(Instruction::JMP).run_store(
            Instruction::JMP,
            AddrMode::Absolute,
        ).cpu.pc == effective_address(m, AddrMode::Absolute),
{
    lemma_fetch_absolute(m, Instruction::JMP);
    reveal(Mach::run_instruction);
    reveal(Mach::run_store);
}

#[verifier::spinoff_prover]
proof fn lemma_jmp_indirect(m: Mach)
    requires
        forall|a: u16| #[trigger] m.mem.peekable(a),
    ensures
        m.run_load(Instruction::JMP, AddrMode::AbsoluteIndirect).run_instruction(Instruction::JMP).run_store(
            Instruction::JMP,
            AddrMode::AbsoluteIndirect,
        ).cpu.pc == effective_address(m, AddrMode::AbsoluteIndirect),
{
    lemma_fetch_absolute_indirect(m, Instruction::JMP);
    reveal(Mach::run_instruction);
    reveal(Mach::run_store);
}

#[verifier::spinoff_prover]
proof fn lemma_jmp_indexed_indirect(m: Mach)
    requires
        forall|a: u16| #[trigger] m.mem.peekable(a),
    ensures
        m.run_load(Instruction::JMP, AddrMode::AbsoluteIndexedIndirect).run_instruction(Instruction::JMP).run_store(
            Instruction::JMP,
            AddrMode::AbsoluteIndexedIndirect,
        ).cpu.pc == effective_address(m, AddrMode::AbsoluteIndexedIndirect),
{
    lemma_fetch_absolute_indexed_indirect(m, Instruction::JMP);
    reveal(Mach::run_instruction);
    reveal(Mach::run_store);
}

/// JMP continues at the address its operand names: the argument for
/// `abs`, the word stored there for `(abs)`, the word stored at the
/// argument plus X for `(abs,X)`. This holds on a memory whose loads change
/// nothing.
pub proof fn lemma_jmp(m: Mach)
    requires
        forall|a: u16| #[trigger] m.mem.peekable(a),
    ensures
        m.run_load(Instruction::JMP, AddrMode::Absolute).run_instruction(Instruction::JMP).run_store(
            Instruction::JMP,
            AddrMode::Absolute,
        ).cpu.pc == effective_address(m, AddrMode::Absolute),
        m.run_load(Instruction::JMP, AddrMode::AbsoluteIndirect).run_instruction(Instruction::JMP).run_store(
            Instruction::JMP,
            AddrMode::AbsoluteIndirect,
        ).cpu.pc == effective_address(m, AddrMode::AbsoluteIndirect),
        m.run_load(Instruction::JMP, AddrMode::AbsoluteIndexedIndirect).run_instruction(Instruction::JMP).run_store(
            Instruction::JMP,
            AddrMode::AbsoluteIndexedIndirect,
        ).cpu.pc == effective_address(m, AddrMode::AbsoluteIndexedIndirect),
{
    lemma_jmp_absolute(m);
    lemma_jmp_indirect(m);
    lemma_jmp_indexed_indirect(m);
}

/// A relative branch moves the program counter past its two bytes and,
/// when taken, on by the signed offset in its second byte; an untaken branch
/// only moves past its two bytes. This holds on a memory whose loads change
/// nothing (JMP and JSR, which never branch, are left out).
#[verifier::spinoff_prover]
pub proof fn lemma_branch_target(m: Mach, inst: Instruction)
    requires
        forall|a: u16| #[trigger] m.mem.peekable(a),
        inst != Instruction::JMP && inst != Instruction::JSR,
    ensures
        ({
            let off = m.mem.load(add16(m.cpu.pc, 1));
            let r = m.run_store(inst, AddrMode::Relative);
            &&& m.cpu.tmp0 != 0 ==> r.cpu.pc == add16(m.cpu.pc, 2 + signed(off))
            &&& m.cpu.tmp0 == 0 ==> r.cpu.pc == add16(m.cpu.pc, 2)
            &&& regs(r, m.cpu.a, m.cpu.x, m.cpu.y)
        }),
{
    reveal(Mach::run_store);
    lemma_quiet_memory(m);
    let pc = m.cpu.pc;
    let off = m.mem.load(add16(pc, 1));
    let p2 = rel(pc, 2);
    assert(p2 == add16(pc, 2));
    assert(rel(p2, off) == add16(pc, 2 + signed(off)));
    let lb = m.load_byte_arg();
    assert(lb.cpu.tmp0 == off);
    assert(lb.cpu.pc == pc);
    assert(lb.inc_pc(2).cpu.pc == p2);
    if m.cpu.tmp0 != 0 {
        assert(lb.inc_pc(2).inc_pc(off).cpu.pc == rel(p2, off));
    }
}

/// NOP, STP, WAI and the stand-in for illegal opcodes change nothing.
pub proof fn lemma_no_operation(m: Mach)
    ensures
        m.run_instruction(Instruction::NOP) == m,
        m.run_instruction(Instruction::STP) == m,
        m.run_instruction(Instruction::WAI) == m,
        m.run_instruction(Instruction::ILL) == m,
{
    reveal(Mach::run_instruction);
}

/// TSB sets in memory the bits that are set in A, TRB clears them; the
/// other bits of the operand are written back as they were. Both set zero
/// when A and the operand have no bit in common, keep the other flags and
/// the registers.
#[verifier::spinoff_prover]
pub proof fn lemma_test_and_set_reset(m: Mach)
    requires
        m.mem.ram.len() == 0x10000,
        m.mem.is_plain(m.cpu.tmp_addr),
    ensures
        ({
            let c = m.cpu;
            let t = c.tmp0;
            let s = m.run_instruction(Instruction::TSB);
            let r = m.run_instruction(Instruction::TRB);
            &&& s.mem.load(c.tmp_addr) & c.a == c.a
            &&& s.mem.load(c.tmp_addr) & !c.a == t & !c.a
            &&& r.mem.load(c.tmp_addr) & c.a == 0
            &&& r.mem.load(c.tmp_addr) & !c.a == t & !c.a
            &&& s.cpu.flag(ZERO) == (c.a & t == 0) && r.cpu.flag(ZERO) == (c.a & t == 0)
            &&& flags_kept_but(c, s.cpu, ZERO, ZERO) && flags_kept_but(c, r.cpu, ZERO, ZERO)
            &&& regs(s, c.a, c.x, c.y) && regs(r, c.a, c.x, c.y)
        }),
{
    reveal(Mach::run_instruction);
    let c = m.cpu;
    let t = c.tmp0;
    lemma_with_flag(c, ZERO, c.a & t == 0);
    let m1 = m.with_cpu(c.with_flag(ZERO, c.a & t == 0));
    lemma_store_load(m1.mem, c.tmp_addr, c.a | t, 0);
    lemma_store_load(m1.mem, c.tmp_addr, !c.a & t, 0);
    lemma_mask_bits(t, c.a);
}

/// RMB0 to RMB7 clear bit 0 to 7 of the operand in memory and write the
/// other bits back as they were; the processor state is untouched.
#[verifier::spinoff_prover]
pub proof fn lemma_reset_memory_bit(m: Mach)
    requires
        m.mem.ram.len() == 0x10000,
        m.mem.is_plain(m.cpu.tmp_addr),
    ensures
        m.run_instruction(Instruction::RMB0).mem.load(m.cpu.tmp_addr) & 0x01u8 == 0,
        m.run_instruction(Instruction::RMB0).mem.load(m.cpu.tmp_addr) & !0x01u8 == m.cpu.tmp0 & !0x01u8,
        m.run_instruction(Instruction::RMB0).cpu == m.cpu,
        m.run_instruction(Instruction::RMB1).mem.load(m.cpu.tmp_addr) & 0x02u8 == 0,
        m.run_instruction(Instruction::RMB1).mem.load(m.cpu.tmp_addr) & !0x02u8 == m.cpu.tmp0 & !0x02u8,
        m.run_instruction(Instruction::RMB1).cpu == m.cpu,
        m.run_instruction(Instruction::RMB2).mem.load(m.cpu.tmp_addr) & 0x04u8 == 0,
        m.run_instruction(Instruction::RMB2).mem.load(m.cpu.tmp_addr) & !0x04u8 == m.cpu.tmp0 & !0x04u8,
        m.run_instruction(Instruction::RMB2).cpu == m.cpu,
        m.run_instruction(Instruction::RMB3).mem.load(m.cpu.tmp_addr) & 0x08u8 == 0,
        m.run_instruction(Instruction::RMB3).mem.load(m.cpu.tmp_addr) & !0x08u8 == m.cpu.tmp0 & !0x08u8,
        m.run_instruction(Instruction::RMB3).cpu == m.cpu,
        m.run_instruction(Instruction::RMB4).mem.load(m.cpu.tmp_addr) & 0x10u8 == 0,
        m.run_instruction(Instruction::RMB4).mem.load(m.cpu.tmp_addr) & !0x10u8 == m.cpu.tmp0 & !0x10u8,
        m.run_instruction(Instruction::RMB4).cpu == m.cpu,
        m.run_instruction(Instruction::RMB5).mem.load(m.cpu.tmp_addr) & 0x20u8 == 0,
        m.run_instruction(Instruction::RMB5).mem.load(m.cpu.tmp_addr) & !0x20u8 == m.cpu.tmp0 & !0x20u8,
        m.run_instruction(Instruction::RMB5).cpu == m.cpu,
        m.run_instruction(Instruction::RMB6).mem.load(m.cpu.tmp_addr) & 0x40u8 == 0,
        m.run_instruction(Instruction::RMB6).mem.load(m.cpu.tmp_addr) & !0x40u8 == m.cpu.tmp0 & !0x40u8,
        m.run_instruction(Instruction::RMB6).cpu == m.cpu,
        m.run_instruction(Instruction::RMB7).mem.load(m.cpu.tmp_addr) & 0x80u8 == 0,
        m.run_instruction(Instruction::RMB7).mem.load(m.cpu.tmp_addr) & !0x80u8 == m.cpu.tmp0 & !0x80u8,
        m.run_instruction(Instruction::RMB7).cpu == m.cpu,
{
    reveal(Mach::run_instruction);
    let t = m.cpu.tmp0;
    lemma_store_load(m.mem, m.cpu.tmp_addr, t & !0x01u8, 0);
    lemma_mask_bits(t, 0x01u8);
    lemma_store_load(m.mem, m.cpu.tmp_addr, t & !0x02u8, 0);
    lemma_mask_bits(t, 0x02u8);
    lemma_store_load(m.mem, m.cpu.tmp_addr, t & !0x04u8, 0);
    lemma_mask_bits(t, 0x04u8);
    lemma_store_load(m.mem, m.cpu.tmp_addr, t & !0x08u8, 0);
    lemma_mask_bits(t, 0x08u8);
    lemma_store_load(m.mem, m.cpu.tmp_addr, t & !0x10u8, 0);
    lemma_mask_bits(t, 0x10u8);
    lemma_store_load(m.mem, m.cpu.tmp_addr, t & !0x20u8, 0);
    lemma_mask_bits(t, 0x20u8);
    lemma_store_load(m.mem, m.cpu.tmp_addr, t & !0x40u8, 0);
    lemma_mask_bits(t, 0x40u8);
    lemma_store_load(m.mem, m.cpu.tmp_addr, t & !0x80u8, 0);
    lemma_mask_bits(t, 0x80u8);
}

/// The write-back stores the result of a read-modify-write instruction
/// (ASL, DEC, INC, LSR, ROL, ROR) where it came from: at the effective
/// address for the memory modes, into A for the accumulator mode. No other
/// instruction touches memory in the write-back (a branch reads its offset
/// there).
#[verifier::spinoff_prover]
pub proof fn lemma_write_back(m: Mach, inst: Instruction, mode: AddrMode)
    requires
        m.mem.ram.len() == 0x10000,
        m.mem.is_plain(m.cpu.tmp_addr),
    ensures
        is_rmw(inst) && (mode == AddrMode::Absolute || mode == AddrMode::AbsoluteIndexedWithX || mode
            == AddrMode::ZeroPage || mode == AddrMode::ZeroPageIndexedWithX) ==> m.run_store(
            inst,
            mode,
        ).mem.load(m.cpu.tmp_addr) == m.cpu.tmp0,
        is_rmw(inst) && mode == AddrMode::Accumulator ==> m.run_store(inst, mode).cpu.a == m.cpu.tmp0,
        !is_rmw(inst) && mode != AddrMode::Relative ==> m.run_store(inst, mode).mem == m.mem,
{
    reveal(Mach::run_store);
    lemma_store_load(m.mem, m.cpu.tmp_addr, m.cpu.tmp0, 0);
}

} // verus!
