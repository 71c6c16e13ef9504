use vstd::prelude::*;

use crate::cpu6502::cpu::{add16, add8, CpuState, StatusFlag, CPU};
use crate::cpu6502::memory::{hi_byte, lemma_plain_load, lemma_store_load, lo_byte, MemState, Memory};
use crate::cpu6502::model::instruction::Instruction;
use crate::cpu6502::model::semantics::{add_overflow, sub_overflow};
use crate::cpu6502::model::IsOriginal;
use vstd::string::StringSliceAdditionalSpecFns;
use vstd::utf8::is_char_boundary;

verus! {

#[derive(Debug, Clone, Copy, PartialEq, Eq, Structural)]
pub enum AddrMode {
    Absolute,
    AbsoluteIndexedIndirect,
    AbsoluteIndexedWithX,
    AbsoluteIndexedWithY,
    AbsoluteIndirect,
    Accumulator,
    Immediate,
    Implied,
    Relative,
    ZeroPage,
    ZeroPageIndexedIndirect,
    ZeroPageIndexedWithX,
    ZeroPageIndexedWithY,
    ZeroPageIndirect,
    ZeroPageIndirectIndexedWithY,
    ZeroPageRelative,
}

impl IsOriginal for AddrMode {
    /// The modes the 65C02 added are `(abs,X)`, `(zp)` and `zp,rel`.
    fn is_original(&self) -> (r: bool)
        ensures
            r == !(*self == AddrMode::AbsoluteIndexedIndirect || *self == AddrMode::ZeroPageIndirect
                || *self == AddrMode::ZeroPageRelative),
    {
        match self {
            AddrMode::AbsoluteIndexedIndirect | AddrMode::ZeroPageIndirect
            | AddrMode::ZeroPageRelative => false,
            _ => true,
        }
    }
}

impl AddrMode {
    /// The base number of clock cycles of an instruction in this mode.
    pub open spec fn cycles(&self) -> u8 {
        match self {
            AddrMode::Absolute => 4,
            AddrMode::AbsoluteIndexedIndirect => 6,
            AddrMode::AbsoluteIndexedWithX => 4,
            AddrMode::AbsoluteIndexedWithY => 4,
            AddrMode::AbsoluteIndirect => 6,
            AddrMode::Accumulator => 2,
            AddrMode::Immediate => 2,
            AddrMode::Implied => 2,
            AddrMode::Relative => 2,
            AddrMode::ZeroPage => 3,
            AddrMode::ZeroPageIndexedIndirect => 6,
            AddrMode::ZeroPageIndexedWithX => 4,
            AddrMode::ZeroPageIndexedWithY => 4,
            AddrMode::ZeroPageIndirect => 5,
            AddrMode::ZeroPageIndirectIndexedWithY => 5,
            AddrMode::ZeroPageRelative => 3,
        }
    }

    #[verifier::when_used_as_spec(cycles)]
    pub fn get_cycles(&self) -> (r: u8)
        ensures
            r == self.cycles(),
            2 <= r <= 6,
    {
        match self {
            AddrMode::Absolute => 4,
            AddrMode::AbsoluteIndexedIndirect => 6,
            AddrMode::AbsoluteIndexedWithX => 4,
            AddrMode::AbsoluteIndexedWithY => 4,
            AddrMode::AbsoluteIndirect => 6,
            AddrMode::Accumulator => 2,
            AddrMode::Immediate => 2,
            AddrMode::Implied => 2,
            AddrMode::Relative => 2,
            AddrMode::ZeroPage => 3,
            AddrMode::ZeroPageIndexedIndirect => 6,
            AddrMode::ZeroPageIndexedWithX => 4,
            AddrMode::ZeroPageIndexedWithY => 4,
            AddrMode::ZeroPageIndirect => 5,
            AddrMode::ZeroPageIndirectIndexedWithY => 5,
            AddrMode::ZeroPageRelative => 3,
        }
    }
}

/// The state of the machine as the CPU sees it during an instruction: the
/// CPU registers, the memory, and whether every access and count so far was
/// one the hardware model allows (`ok` turns false for good on a failed
/// device access, a word read at 0xffff or a cycle count past 255).
pub struct Mach {
    pub cpu: CpuState,
    pub mem: MemState,
    pub ok: bool,
}

/// The page (high byte) of an address.
pub open spec fn page(a: u16) -> int {
    (a / 256) as int
}

impl Mach {
    pub open spec fn with_cpu(self, c: CpuState) -> Mach {
        Mach { cpu: c, ..self }
    }

    /// The byte a load at `addr` returns.
    pub open spec fn val(self, addr: u16) -> u8 {
        self.mem.load(addr)
    }

    /// The machine after a load at `addr`.
    pub open spec fn rd(self, addr: u16) -> Mach {
        Mach { mem: self.mem.after_load(addr), ok: self.ok && self.mem.load_ok(addr), ..self }
    }

    /// The machine after a store of `b` at `addr`.
    pub open spec fn wr(self, addr: u16, b: u8) -> Mach {
        Mach { mem: self.mem.store(addr, b), ok: self.ok && self.mem.store_ok(addr), ..self }
    }

    /// The little-endian word loaded from `addr` and `addr + 1`.
    pub open spec fn word(self, addr: u16) -> u16 {
        (self.val(addr) + 256 * self.rd(addr).val(add16(addr, 1))) as u16
    }

    /// The machine after loading a word at `addr`; a word cannot be loaded
    /// at 0xffff.
    pub open spec fn rd_word(self, addr: u16) -> Mach {
        let m = self.rd(addr).rd(add16(addr, 1));
        Mach { ok: m.ok && addr < 0xffff, ..m }
    }

    /// The machine after storing word `w` at `addr` (low byte first).
    pub open spec fn wr_word(self, addr: u16, w: u16) -> Mach {
        self.wr(addr, lo_byte(w)).wr(add16(addr, 1), hi_byte(w))
    }

    /// The machine with `n` more clock cycles counted.
    pub open spec fn add_cycles(self, n: int) -> Mach {
        Mach {
            cpu: CpuState { cycles: (self.cpu.cycles + n) as u8, ..self.cpu },
            ok: self.ok && self.cpu.cycles + n <= 255,
            ..self
        }
    }

    pub open spec fn inc_pc(self, off: u8) -> Mach {
        self.with_cpu(self.cpu.inc_pc(off))
    }

    pub open spec fn set_tmp0(self, b: u8) -> Mach {
        self.with_cpu(CpuState { tmp0: b, ..self.cpu })
    }

    pub open spec fn set_tmp_addr(self, a: u16) -> Mach {
        self.with_cpu(CpuState { tmp_addr: a, ..self.cpu })
    }

    // Operand fetching.
    pub open spec fn _load_byte_arg_lo(self) -> Mach {
        let a = add16(self.cpu.pc, 1);
        self.rd(a).set_tmp0(self.val(a))
    }

    pub open spec fn _load_byte_arg_hi(self) -> Mach {
        let a = add16(self.cpu.pc, 2);
        self.rd(a).with_cpu(CpuState { tmp1: self.val(a), ..self.cpu })
    }

    /// The byte after the opcode, into the low operand latch; the high one is
    /// cleared.
    pub open spec fn load_byte_arg(self) -> Mach {
        self.with_cpu(CpuState { tmp1: 0, ..self.cpu })._load_byte_arg_lo()
    }

    /// The two bytes after the opcode, into the operand latches.
    pub open spec fn load_word_arg(self) -> Mach {
        self._load_byte_arg_lo()._load_byte_arg_hi()
    }

    /// The operand latches, read as a little-endian address, into the address
    /// latch.
    pub open spec fn latch_addr(self) -> Mach {
        self.set_tmp_addr((self.cpu.tmp0 + 256 * self.cpu.tmp1) as u16)
    }

    pub open spec fn load_addr_arg(self) -> Mach {
        self.load_word_arg().latch_addr()
    }

    pub open spec fn load_zp_arg(self) -> Mach {
        self.load_byte_arg().latch_addr()
    }

    /// The byte at the address latch, into the low operand latch.
    pub open spec fn load_at_addr(self) -> Mach {
        self.rd(self.cpu.tmp_addr).set_tmp0(self.val(self.cpu.tmp_addr))
    }

    pub open spec fn _load_absolute_lo(self) -> Mach {
        self.load_addr_arg().load_at_addr()
    }

    pub open spec fn _load_absolute_hi(self) -> Mach {
        let a = add16(self.cpu.tmp_addr, 1);
        self.rd(a).with_cpu(CpuState { tmp1: self.val(a), ..self.cpu })
    }

    pub open spec fn load_absolute_byte(self) -> Mach {
        self._load_absolute_lo()
    }

    /// The word at the address latch, into the address latch.
    pub open spec fn load_absolute_addr(self) -> Mach {
        self.rd_word(self.cpu.tmp_addr).set_tmp_addr(self.word(self.cpu.tmp_addr))
    }

    pub open spec fn index_x(self) -> Mach {
        self.set_tmp_addr(add16(self.cpu.tmp_addr, self.cpu.x as int))
    }

    pub open spec fn index_y(self) -> Mach {
        self.set_tmp_addr(add16(self.cpu.tmp_addr, self.cpu.y as int))
    }

    /// The word at the address that the argument gives, into the address
    /// latch: the target of `(abs)`.
    pub open spec fn load_absolute_indirect_addr(self) -> Mach {
        self.load_addr_arg().load_absolute_addr()
    }

    pub open spec fn load_absolute_indirect_byte(self) -> Mach {
        self.load_absolute_indirect_addr().load_at_addr()
    }

    pub open spec fn load_absolute_indexed_indirect_addr(self) -> Mach {
        self.load_addr_arg().index_x().load_absolute_addr()
    }

    pub open spec fn load_absolute_indexed_indirect_byte(self) -> Mach {
        self.load_absolute_indexed_indirect_addr().load_at_addr()
    }

    pub open spec fn load_absolute_indexed_with_x_addr(self) -> Mach {
        self.load_addr_arg().index_x()
    }

    pub open spec fn load_absolute_indexed_with_x_byte(self) -> Mach {
        let m = self.load_addr_arg();
        m.index_x().load_at_addr().inc_cycles_if_page_boundary_crossed(m.cpu.tmp_addr)
    }

    pub open spec fn load_absolute_indexed_with_y_addr(self) -> Mach {
        self.load_addr_arg().index_y()
    }

    pub open spec fn load_absolute_indexed_with_y_byte(self) -> Mach {
        let m = self.load_addr_arg();
        m.index_y().load_at_addr().inc_cycles_if_page_boundary_crossed(m.cpu.tmp_addr)
    }

    pub open spec fn load_zp_indexed_indirect_addr(self) -> Mach {
        self.load_zp_arg().index_x().load_absolute_addr()
    }

    pub open spec fn load_zp_indexed_indirect_byte(self) -> Mach {
        self.load_zp_indexed_indirect_addr().load_at_addr()
    }

    pub open spec fn load_zp_indirect_addr(self) -> Mach {
        self.load_zp_arg().load_absolute_addr()
    }

    pub open spec fn load_zp_indirect_byte(self) -> Mach {
        self.load_zp_indirect_addr().load_at_addr()
    }

    pub open spec fn load_zp_indirect_indexed_with_y_addr(self) -> Mach {
        self.load_zp_arg().load_absolute_addr().index_y()
    }

    pub open spec fn load_zp_indirect_indexed_with_y_byte(self) -> Mach {
        let m = self.load_zp_arg().load_absolute_addr();
        m.index_y().load_at_addr().inc_cycles_if_page_boundary_crossed(m.cpu.tmp_addr)
    }

    pub open spec fn load_zp_byte(self) -> Mach {
        self.load_zp_arg().load_at_addr()
    }

    pub open spec fn load_zp_indexed_with_x_addr(self) -> Mach {
        self.load_zp_arg().index_x()
    }

    pub open spec fn load_zp_indexed_with_x_byte(self) -> Mach {
        self.load_zp_indexed_with_x_addr().load_at_addr()
    }

    pub open spec fn load_zp_indexed_with_y_addr(self) -> Mach {
        self.load_zp_arg().index_y()
    }

    pub open spec fn load_zp_indexed_with_y_byte(self) -> Mach {
        self.load_zp_indexed_with_y_addr().load_at_addr()
    }

    /// One more cycle when the address latch left the page of `old_addr`.
    pub open spec fn inc_cycles_if_page_boundary_crossed(self, old_addr: u16) -> Mach {
        if page(self.cpu.tmp_addr) != page(old_addr) {
            self.add_cycles(1)
        } else {
            self
        }
    }

    // The stack lives in page 1; the stack pointer points at the next free
    // slot.
    pub open spec fn _stack_push_byte(self, hi: bool) -> Mach {
        let b = if hi {
            self.cpu.tmp1
        } else {
            self.cpu.tmp0
        };
        let m = self.wr((0x100 + self.cpu.sp) as u16, b);
        m.with_cpu(CpuState { sp: add8(self.cpu.sp, -1), ..m.cpu })
    }

    pub open spec fn _stack_pull_byte(self, hi: bool) -> Mach {
        let sp1 = add8(self.cpu.sp, 1);
        let a = (0x100 + sp1) as u16;
        if hi {
            let a1 = add16(a, 1);
            self.rd(a1).with_cpu(CpuState { sp: sp1, tmp1: self.val(a1), ..self.cpu })
        } else {
            self.rd(a).with_cpu(CpuState { sp: sp1, tmp0: self.val(a), ..self.cpu })
        }
    }

    pub open spec fn stack_push_byte(self) -> Mach {
        self._stack_push_byte(false)
    }

    pub open spec fn stack_pull_byte(self) -> Mach {
        self._stack_pull_byte(false)
    }

    pub open spec fn stack_pull_addr(self) -> Mach {
        let sp1 = add8(self.cpu.sp, 1);
        let a = (0x100 + sp1) as u16;
        self.rd_word(a).with_cpu(
            CpuState { sp: add8(sp1, 1), tmp_addr: self.word(a), ..self.cpu },
        )
    }

    pub open spec fn stack_push_addr(self) -> Mach {
        let sp1 = add8(self.cpu.sp, -1);
        let a = (0x100 + sp1) as u16;
        let m = self.wr_word(a, self.cpu.tmp_addr);
        m.with_cpu(CpuState { sp: add8(sp1, -1), ..self.cpu })
    }

    pub open spec fn stack_push_pc(self, increment: u8) -> Mach {
        self.set_tmp_addr(add16(self.cpu.pc, increment as int)).stack_push_addr()
    }

    pub open spec fn stack_push_flags(self) -> Mach {
        self.set_tmp0(self.cpu.st).stack_push_byte()
    }

    pub open spec fn stack_pull_flags(self) -> Mach {
        let m = self.stack_pull_byte();
        m.with_cpu(CpuState { st: m.cpu.tmp0, ..m.cpu })
    }
}

/// The stack slot that stack pointer `sp` points at.
pub open spec fn stack_addr(sp: u8) -> u16 {
    (0x100 + sp) as u16
}

/// Pushing a byte and pulling it again gives the byte back and restores the
/// stack pointer, when the stack slot is plain memory.
pub proof fn lemma_push_pull_byte(m: Mach, b: u8)
    requires
        m.mem.ram.len() == 0x10000,
        m.mem.is_plain(stack_addr(m.cpu.sp)),
    ensures
        ({
            let p = m.set_tmp0(b).stack_push_byte();
            let q = p.stack_pull_byte();
            &&& p.cpu.sp == add8(m.cpu.sp, -1)
            &&& p.mem == m.mem.store(stack_addr(m.cpu.sp), b)
            &&& q.cpu.tmp0 == b
            &&& q.cpu.sp == m.cpu.sp
            &&& q.mem == p.mem
            &&& q.ok == m.ok
        }),
{
    let a = stack_addr(m.cpu.sp);
    lemma_store_load(m.mem, a, b, a);
    let p = m.set_tmp0(b).stack_push_byte();
    assert(add8(p.cpu.sp, 1) == m.cpu.sp);
    lemma_plain_load(p.mem, a);
}

/// Pushing an address and pulling it again gives the address back and
/// restores the stack pointer, when the two stack bytes are plain memory.
pub proof fn lemma_push_pull_addr(m: Mach, w: u16)
    requires
        m.mem.ram.len() == 0x10000,
        m.mem.is_plain(stack_addr(add8(m.cpu.sp, -1))),
        m.mem.is_plain(add16(stack_addr(add8(m.cpu.sp, -1)), 1)),
    ensures
        ({
            let p = m.set_tmp_addr(w).stack_push_addr();
            let q = p.stack_pull_addr();
            &&& p.cpu.sp == add8(m.cpu.sp, -2)
            &&& q.cpu.tmp_addr == w
            &&& q.cpu.sp == m.cpu.sp
            &&& q.mem == p.mem
            &&& q.ok == m.ok
        }),
{
    let a = stack_addr(add8(m.cpu.sp, -1));
    let a1 = add16(a, 1);
    let m1 = m.set_tmp_addr(w);
    lemma_store_load(m1.mem, a, lo_byte(w), a1);
    let mem2 = m1.mem.store(a, lo_byte(w));
    lemma_store_load(mem2, a1, hi_byte(w), a);
    let p = m1.stack_push_addr();
    assert(p.mem == mem2.store(a1, hi_byte(w)));
    assert(add8(add8(p.cpu.sp, 1), 0) == add8(m.cpu.sp, -1));
    assert(stack_addr(add8(p.cpu.sp, 1)) == a);
    lemma_plain_load(p.mem, a);
    lemma_plain_load(p.mem, a1);
    assert(p.word(a) == w);
}

/// The CPU together with the memory it addresses, for the duration of an
/// instruction.
pub struct CpuBusTransfer {
    pub cpu: CPU,
    pub mem: Memory,
}

impl View for CpuBusTransfer {
    type V = Mach;

    open spec fn view(&self) -> Mach {
        Mach { cpu: self.cpu@, mem: self.mem@, ok: true }
    }
}

proof fn lemma_page(a: u16, b: u16)
    ensures
        (a & 0xff00 != b & 0xff00) == (page(a) != page(b)),
{
    assert((a & 0xff00 != b & 0xff00) == (a / 256 != b / 256)) by (bit_vector);
}

proof fn lemma_add_overflow_bits(a: u8, b: u8, c: u8)
    ensures
        ((a ^ c) & (b ^ c) & 0x80 != 0) == add_overflow(a, b, c),
{
    assert(((a ^ c) & (b ^ c) & 0x80 != 0) == ((a >= 128) == (b >= 128) && (c >= 128) != (a
        >= 128))) by (bit_vector);
}

proof fn lemma_sub_overflow_bits(a: u8, b: u8, r: u8)
    ensures
        ((a ^ b) & (a ^ r) & 0x80 != 0) == sub_overflow(a, b, r),
{
    assert(((a ^ b) & (a ^ r) & 0x80 != 0) == ((a >= 128) != (b >= 128) && (r >= 128) != (a
        >= 128))) by (bit_vector);
}

proof fn lemma_sbc_arith(a: u8, b: u8, d: u8)
    requires
        d <= 1,
    ensures
        add8(add8(a, -(b as int)), -(d as int)) == add8(a, -(b + d)),
        (add8(a, -(b as int)) > a || add8(add8(a, -(b as int)), -(d as int)) > add8(
            a,
            -(b as int),
        )) == (a < b + d),
{
}

proof fn lemma_shift_bits(t: u8)
    ensures
        (t & 0x80 != 0) == (t >= 128),
        (t & 1 != 0) == (t % 2 == 1),
        t << 1u8 == ((t * 2) % 256) as u8,
        t >> 1u8 == t / 2,
        (t << 1u8) | 1u8 == ((t * 2) % 256 + 1) as u8,
        (t << 1u8) | 0u8 == ((t * 2) % 256) as u8,
        (t >> 1u8) | 0x80u8 == (t / 2 + 128) as u8,
{
    assert((t & 0x80 != 0) == (t >= 128)) by (bit_vector);
    assert((t & 1 != 0) == (t % 2 == 1)) by (bit_vector);
    assert(t << 1u8 == ((t * 2) % 256) as u8) by (bit_vector);
    assert(t >> 1u8 == t / 2) by (bit_vector);
    assert((t << 1u8) | 1u8 == ((t * 2) % 256 + 1) as u8) by (bit_vector);
    assert((t << 1u8) | 0u8 == ((t * 2) % 256) as u8) by (bit_vector);
    assert((t >> 1u8) | 0x80u8 == (t / 2 + 128) as u8) by (bit_vector);
}

impl CpuBusTransfer {
    pub open spec fn wf(&self) -> bool {
        self.mem.wf()
    }

    pub fn new(cpu: CPU, mem: Memory) -> (r: Self)
        ensures
            r.cpu@ == cpu@,
            r.mem@ == mem@,
            r.mem.wf() == mem.wf(),
    {
        CpuBusTransfer { cpu, mem }
    }

    /// Hands the CPU and the memory back.
    pub fn into_parts(self) -> (r: (CPU, Memory))
        ensures
            r.0@ == self.cpu@,
            r.1@ == self.mem@,
            r.1.wf() == self.mem.wf(),
    {
        (self.cpu, self.mem)
    }

    fn load_byte(&mut self, addr: u16) -> (r: u8)
        requires
            old(self).wf(),
            old(self)@.rd(addr).ok,
        ensures
            final(self).wf(),
            r == old(self)@.val(addr),
            final(self)@ == old(self)@.rd(addr),
            final(self).cpu.cycle == old(self).cpu.cycle,
    {
        self.mem.load_memory_byte(addr)
    }

    fn load_word(&mut self, addr: u16) -> (r: u16)
        requires
            old(self).wf(),
            old(self)@.rd_word(addr).ok,
        ensures
            final(self).wf(),
            r == old(self)@.word(addr),
            final(self)@ == old(self)@.rd_word(addr),
            final(self).cpu.cycle == old(self).cpu.cycle,
    {
        self.mem.load_memory_word(addr)
    }

    fn store_byte(&mut self, addr: u16, b: u8)
        requires
            old(self).wf(),
            old(self)@.wr(addr, b).ok,
        ensures
            final(self).wf(),
            final(self)@ == old(self)@.wr(addr, b),
            final(self).cpu.cycle == old(self).cpu.cycle,
    {
        self.mem.store_memory_byte(addr, b)
    }

    fn store_word(&mut self, addr: u16, w: u16)
        requires
            old(self).wf(),
            old(self)@.wr_word(addr, w).ok,
        ensures
            final(self).wf(),
            final(self)@ == old(self)@.wr_word(addr, w),
            final(self).cpu.cycle == old(self).cpu.cycle,
    {
        self.mem.store_memory_word(addr, w)
    }

    fn _load_byte_arg_lo(&mut self)
        requires
            old(self).wf(),
            old(self)@._load_byte_arg_lo().ok,
        ensures
            final(self).wf(),
            final(self)@ == old(self)@._load_byte_arg_lo(),
            final(self).cpu.cycle == old(self).cpu.cycle,
    {
        let addr: u16 = self.cpu.pc.wrapping_add(1);
        self.cpu.tmp[0] = self.load_byte(addr);
    }

    fn _load_byte_arg_hi(&mut self)
        requires
            old(self).wf(),
            old(self)@._load_byte_arg_hi().ok,
        ensures
            final(self).wf(),
            final(self)@ == old(self)@._load_byte_arg_hi(),
            final(self).cpu.cycle == old(self).cpu.cycle,
    {
        let addr: u16 = self.cpu.pc.wrapping_add(2);
        self.cpu.tmp[1] = self.load_byte(addr);
    }

    /// Load the byte-sized argument into tmp[0]; tmp[1] is set to 0.
    pub fn load_byte_arg(&mut self)
        requires
            old(self).wf(),
            old(self)@.load_byte_arg().ok,
        ensures
            final(self).wf(),
            final(self)@ == old(self)@.load_byte_arg(),
            final(self).cpu.cycle == old(self).cpu.cycle,
    {
        self.cpu.tmp[1] = 0;
        self._load_byte_arg_lo();
    }

    /// Load the word-sized argument into tmp.
    pub fn load_word_arg(&mut self)
        requires
            old(self).wf(),
            old(self)@.load_word_arg().ok,
        ensures
            final(self).wf(),
            final(self)@ == old(self)@.load_word_arg(),
            final(self).cpu.cycle == old(self).cpu.cycle,
    {
        self._load_byte_arg_lo();
        self._load_byte_arg_hi();
    }

    fn latch_addr(&mut self)
        requires
            old(self).wf(),
            old(self)@.latch_addr().ok,
        ensures
            final(self).wf(),
            final(self)@ == old(self)@.latch_addr(),
            final(self).cpu.cycle == old(self).cpu.cycle,
    {
        self.cpu.tmp_addr = self.cpu.tmp[0] as u16 + 256 * self.cpu.tmp[1] as u16;
    }

    /// Load the address argument into tmp_addr.
    pub fn load_addr_arg(&mut self)
        requires
            old(self).wf(),
            old(self)@.load_addr_arg().ok,
        ensures
            final(self).wf(),
            final(self)@ == old(self)@.load_addr_arg(),
            final(self).cpu.cycle == old(self).cpu.cycle,
    {
        self.load_word_arg();
        self.latch_addr();
    }

    /// Load the zeropage address argument into tmp_addr.
    pub fn load_zp_arg(&mut self)
        requires
            old(self).wf(),
            old(self)@.load_zp_arg().ok,
        ensures
            final(self).wf(),
            final(self)@ == old(self)@.load_zp_arg(),
            final(self).cpu.cycle == old(self).cpu.cycle,
    {
        self.load_byte_arg();
        self.latch_addr();
    }

    fn load_at_addr(&mut self)
        requires
            old(self).wf(),
            old(self)@.load_at_addr().ok,
        ensures
            final(self).wf(),
            final(self)@ == old(self)@.load_at_addr(),
            final(self).cpu.cycle == old(self).cpu.cycle,
    {
        let a = self.cpu.tmp_addr;
        self.cpu.tmp[0] = self.load_byte(a);
    }

    fn _load_absolute_lo(&mut self)
        requires
            old(self).wf(),
            old(self)@._load_absolute_lo().ok,
        ensures
            final(self).wf(),
            final(self)@ == old(self)@._load_absolute_lo(),
            final(self).cpu.cycle == old(self).cpu.cycle,
    {
        self.load_addr_arg();
        self.load_at_addr();
    }

    /// Depends on _load_absolute_lo having been called before.
    fn _load_absolute_hi(&mut self)
        requires
            old(self).wf(),
            old(self)@._load_absolute_hi().ok,
        ensures
            final(self).wf(),
            final(self)@ == old(self)@._load_absolute_hi(),
            final(self).cpu.cycle == old(self).cpu.cycle,
    {
        let a = self.cpu.tmp_addr.wrapping_add(1);
        self.cpu.tmp[1] = self.load_byte(a);
    }

    /// Loads a byte from the address pointed at by the address argument.
    pub fn load_absolute_byte(&mut self)
        requires
            old(self).wf(),
            old(self)@.load_absolute_byte().ok,
        ensures
            final(self).wf(),
            final(self)@ == old(self)@.load_absolute_byte(),
            final(self).cpu.cycle == old(self).cpu.cycle,
    {
        self._load_absolute_lo();
    }

    /// Loads the word at the address latch into the address latch.
    pub fn load_absolute_addr(&mut self)
        requires
            old(self).wf(),
            old(self)@.load_absolute_addr().ok,
        ensures
            final(self).wf(),
            final(self)@ == old(self)@.load_absolute_addr(),
            final(self).cpu.cycle == old(self).cpu.cycle,
    {
        let a = self.cpu.tmp_addr;
        self.cpu.tmp_addr = self.load_word(a);
    }

    fn index_x(&mut self)
        requires
            old(self).wf(),
            old(self)@.index_x().ok,
        ensures
            final(self).wf(),
            final(self)@ == old(self)@.index_x(),
            final(self).cpu.cycle == old(self).cpu.cycle,
    {
        self.cpu.tmp_addr = self.cpu.tmp_addr.wrapping_add(self.cpu.x as u16);
    }

    fn index_y(&mut self)
        requires
            old(self).wf(),
            old(self)@.index_y().ok,
        ensures
            final(self).wf(),
            final(self)@ == old(self)@.index_y(),
            final(self).cpu.cycle == old(self).cpu.cycle,
    {
        self.cpu.tmp_addr = self.cpu.tmp_addr.wrapping_add(self.cpu.y as u16);
    }

    /// Loads the address that (abs) names: the word at the argument.
    pub fn load_absolute_indirect_addr(&mut self)
        requires
            old(self).wf(),
            old(self)@.load_absolute_indirect_addr().ok,
        ensures
            final(self).wf(),
            final(self)@ == old(self)@.load_absolute_indirect_addr(),
            final(self).cpu.cycle == old(self).cpu.cycle,
    {
        self.load_addr_arg();
        self.load_absolute_addr();
    }

    /// Loads a byte from (abs).
    pub fn load_absolute_indirect_byte(&mut self)
        requires
            old(self).wf(),
            old(self)@.load_absolute_indirect_byte().ok,
        ensures
            final(self).wf(),
            final(self)@ == old(self)@.load_absolute_indirect_byte(),
            final(self).cpu.cycle == old(self).cpu.cycle,
    {
        self.load_absolute_indirect_addr();
        self.load_at_addr();
    }

    pub fn load_absolute_indexed_indirect_addr(&mut self)
        requires
            old(self).wf(),
            old(self)@.load_absolute_indexed_indirect_addr().ok,
        ensures
            final(self).wf(),
            final(self)@ == old(self)@.load_absolute_indexed_indirect_addr(),
            final(self).cpu.cycle == old(self).cpu.cycle,
    {
        self.load_addr_arg();
        self.index_x();
        self.load_absolute_addr();
    }

    /// Loads a byte from (abs,x).
    pub fn load_absolute_indexed_indirect_byte(&mut self)
        requires
            old(self).wf(),
            old(self)@.load_absolute_indexed_indirect_byte().ok,
        ensures
            final(self).wf(),
            final(self)@ == old(self)@.load_absolute_indexed_indirect_byte(),
            final(self).cpu.cycle == old(self).cpu.cycle,
    {
        self.load_absolute_indexed_indirect_addr();
        self.load_at_addr();
    }

    pub fn load_absolute_indexed_with_x_addr(&mut self)
        requires
            old(self).wf(),
            old(self)@.load_absolute_indexed_with_x_addr().ok,
        ensures
            final(self).wf(),
            final(self)@ == old(self)@.load_absolute_indexed_with_x_addr(),
            final(self).cpu.cycle == old(self).cpu.cycle,
    {
        self.load_addr_arg();
        self.index_x();
    }

    /// Loads a byte from abs,x.
    pub fn load_absolute_indexed_with_x_byte(&mut self)
        requires
            old(self).wf(),
            old(self)@.load_absolute_indexed_with_x_byte().ok,
        ensures
            final(self).wf(),
            final(self)@ == old(self)@.load_absolute_indexed_with_x_byte(),
            final(self).cpu.cycle == old(self).cpu.cycle,
    {
        self.load_addr_arg();
        let old_addr = self.cpu.tmp_addr;
        self.index_x();
        self.load_at_addr();
        self.inc_cycles_if_page_boundary_crossed(old_addr);
    }

    pub fn load_absolute_indexed_with_y_addr(&mut self)
        requires
            old(self).wf(),
            old(self)@.load_absolute_indexed_with_y_addr().ok,
        ensures
            final(self).wf(),
            final(self)@ == old(self)@.load_absolute_indexed_with_y_addr(),
            final(self).cpu.cycle == old(self).cpu.cycle,
    {
        self.load_addr_arg();
        self.index_y();
    }

    /// Loads a byte from abs,y.
    pub fn load_absolute_indexed_with_y_byte(&mut self)
        requires
            old(self).wf(),
            old(self)@.load_absolute_indexed_with_y_byte().ok,
        ensures
            final(self).wf(),
            final(self)@ == old(self)@.load_absolute_indexed_with_y_byte(),
            final(self).cpu.cycle == old(self).cpu.cycle,
    {
        self.load_addr_arg();
        let old_addr = self.cpu.tmp_addr;
        self.index_y();
        self.load_at_addr();
        self.inc_cycles_if_page_boundary_crossed(old_addr);
    }

    pub fn load_zp_indexed_indirect_addr(&mut self)
        requires
            old(self).wf(),
            old(self)@.load_zp_indexed_indirect_addr().ok,
        ensures
            final(self).wf(),
            final(self)@ == old(self)@.load_zp_indexed_indirect_addr(),
            final(self).cpu.cycle == old(self).cpu.cycle,
    {
        self.load_zp_arg();
        self.index_x();
        self.load_absolute_addr();
    }

    /// Loads a byte from the (zp,x) address in the argument.
    pub fn load_zp_indexed_indirect_byte(&mut self)
        requires
            old(self).wf(),
            old(self)@.load_zp_indexed_indirect_byte().ok,
        ensures
            final(self).wf(),
            final(self)@ == old(self)@.load_zp_indexed_indirect_byte(),
            final(self).cpu.cycle == old(self).cpu.cycle,
    {
        self.load_zp_indexed_indirect_addr();
        self.load_at_addr();
    }

    pub fn load_zp_indirect_addr(&mut self)
        requires
            old(self).wf(),
            old(self)@.load_zp_indirect_addr().ok,
        ensures
            final(self).wf(),
            final(self)@ == old(self)@.load_zp_indirect_addr(),
            final(self).cpu.cycle == old(self).cpu.cycle,
    {
        self.load_zp_arg();
        self.load_absolute_addr();
    }

    /// Load a byte from the (zp) address in the argument.
    pub fn load_zp_indirect_byte(&mut self)
        requires
            old(self).wf(),
            old(self)@.load_zp_indirect_byte().ok,
        ensures
            final(self).wf(),
            final(self)@ == old(self)@.load_zp_indirect_byte(),
            final(self).cpu.cycle == old(self).cpu.cycle,
    {
        self.load_zp_indirect_addr();
        self.load_at_addr();
    }

    pub fn load_zp_indirect_indexed_with_y_addr(&mut self)
        requires
            old(self).wf(),
            old(self)@.load_zp_indirect_indexed_with_y_addr().ok,
        ensures
            final(self).wf(),
            final(self)@ == old(self)@.load_zp_indirect_indexed_with_y_addr(),
            final(self).cpu.cycle == old(self).cpu.cycle,
    {
        self.load_zp_arg();
        self.load_absolute_addr();
        self.index_y();
    }

    /// Load a byte from the (zp),y address in the argument.
    pub fn load_zp_indirect_indexed_with_y_byte(&mut self)
        requires
            old(self).wf(),
            old(self)@.load_zp_indirect_indexed_with_y_byte().ok,
        ensures
            final(self).wf(),
            final(self)@ == old(self)@.load_zp_indirect_indexed_with_y_byte(),
            final(self).cpu.cycle == old(self).cpu.cycle,
    {
        self.load_zp_arg();
        self.load_absolute_addr();
        let old_addr = self.cpu.tmp_addr;
        self.index_y();
        self.load_at_addr();
        self.inc_cycles_if_page_boundary_crossed(old_addr);
    }

    /// Load a byte from the zp address in the argument.
    pub fn load_zp_byte(&mut self)
        requires
            old(self).wf(),
            old(self)@.load_zp_byte().ok,
        ensures
            final(self).wf(),
            final(self)@ == old(self)@.load_zp_byte(),
            final(self).cpu.cycle == old(self).cpu.cycle,
    {
        self.load_zp_arg();
        self.load_at_addr();
    }

    pub fn load_zp_indexed_with_x_addr(&mut self)
        requires
            old(self).wf(),
            old(self)@.load_zp_indexed_with_x_addr().ok,
        ensures
            final(self).wf(),
            final(self)@ == old(self)@.load_zp_indexed_with_x_addr(),
            final(self).cpu.cycle == old(self).cpu.cycle,
    {
        self.load_zp_arg();
        self.index_x();
    }

    /// Load a byte from the zp,x address in the argument.
    pub fn load_zp_indexed_with_x_byte(&mut self)
        requires
            old(self).wf(),
            old(self)@.load_zp_indexed_with_x_byte().ok,
        ensures
            final(self).wf(),
            final(self)@ == old(self)@.load_zp_indexed_with_x_byte(),
            final(self).cpu.cycle == old(self).cpu.cycle,
    {
        self.load_zp_indexed_with_x_addr();
        self.load_at_addr();
    }

    pub fn load_zp_indexed_with_y_addr(&mut self)
        requires
            old(self).wf(),
            old(self)@.load_zp_indexed_with_y_addr().ok,
        ensures
            final(self).wf(),
            final(self)@ == old(self)@.load_zp_indexed_with_y_addr(),
            final(self).cpu.cycle == old(self).cpu.cycle,
    {
        self.load_zp_arg();
        self.index_y();
    }

    /// Load a byte from the zp,y address in the argument.
    pub fn load_zp_indexed_with_y_byte(&mut self)
        requires
            old(self).wf(),
            old(self)@.load_zp_indexed_with_y_byte().ok,
        ensures
            final(self).wf(),
            final(self)@ == old(self)@.load_zp_indexed_with_y_byte(),
            final(self).cpu.cycle == old(self).cpu.cycle,
    {
        self.load_zp_indexed_with_y_addr();
        self.load_at_addr();
    }

    fn inc_cycles_if_page_boundary_crossed(&mut self, old_addr: u16)
        requires
            old(self).wf(),
            old(self)@.inc_cycles_if_page_boundary_crossed(old_addr).ok,
        ensures
            final(self).wf(),
            final(self)@ == old(self)@.inc_cycles_if_page_boundary_crossed(old_addr),
            final(self).cpu.cycle == old(self).cpu.cycle,
    {
        proof {
            lemma_page(self.cpu.tmp_addr, old_addr);
        }
        if self.cpu.tmp_addr & 0xff00 != old_addr & 0xff00 {
            self.cpu.cycles = self.cpu.cycles + 1;
        }
    }

    fn _stack_push_byte(&mut self, hi: bool)
        requires
            old(self).wf(),
            old(self)@._stack_push_byte(hi).ok,
        ensures
            final(self).wf(),
            final(self)@ == old(self)@._stack_push_byte(hi),
            final(self).cpu.cycle == old(self).cpu.cycle,
    {
        let byte = self.cpu.tmp[if hi {
            1
        } else {
            0
        }];
        let addr: u16 = 0x100 + self.cpu.sp as u16;
        self.store_byte(addr, byte);
        self.cpu.sp = self.cpu.sp.wrapping_sub(1);
    }

    fn _stack_pull_byte(&mut self, hi: bool)
        requires
            old(self).wf(),
            old(self)@._stack_pull_byte(hi).ok,
        ensures
            final(self).wf(),
            final(self)@ == old(self)@._stack_pull_byte(hi),
            final(self).cpu.cycle == old(self).cpu.cycle,
    {
        self.cpu.sp = self.cpu.sp.wrapping_add(1);
        let addr: u16 = 0x100 + self.cpu.sp as u16;
        if hi {
            self.cpu.tmp[1] = self.load_byte(addr.wrapping_add(1));
        } else {
            self.cpu.tmp[0] = self.load_byte(addr);
        }
    }

    /// Pushes tmp[0].
    pub fn stack_push_byte(&mut self)
        requires
            old(self).wf(),
            old(self)@.stack_push_byte().ok,
        ensures
            final(self).wf(),
            final(self)@ == old(self)@.stack_push_byte(),
            final(self).cpu.cycle == old(self).cpu.cycle,
    {
        self._stack_push_byte(false);
    }

    /// Pulls a byte into tmp[0].
    pub fn stack_pull_byte(&mut self)
        requires
            old(self).wf(),
            old(self)@.stack_pull_byte().ok,
        ensures
            final(self).wf(),
            final(self)@ == old(self)@.stack_pull_byte(),
            final(self).cpu.cycle == old(self).cpu.cycle,
    {
        self._stack_pull_byte(false);
    }

    /// Pulls an address into tmp_addr.
    pub fn stack_pull_addr(&mut self)
        requires
            old(self).wf(),
            old(self)@.stack_pull_addr().ok,
        ensures
            final(self).wf(),
            final(self)@ == old(self)@.stack_pull_addr(),
            final(self).cpu.cycle == old(self).cpu.cycle,
    {
        self.cpu.sp = self.cpu.sp.wrapping_add(1);
        let addr: u16 = 0x100 + self.cpu.sp as u16;
        self.cpu.tmp_addr = self.load_word(addr);
        self.cpu.sp = self.cpu.sp.wrapping_add(1);
    }

    /// Pushes tmp_addr.
    pub fn stack_push_addr(&mut self)
        requires
            old(self).wf(),
            old(self)@.stack_push_addr().ok,
        ensures
            final(self).wf(),
            final(self)@ == old(self)@.stack_push_addr(),
            final(self).cpu.cycle == old(self).cpu.cycle,
    {
        self.cpu.sp = self.cpu.sp.wrapping_sub(1);
        let addr: u16 = 0x100 + self.cpu.sp as u16;
        let w = self.cpu.tmp_addr;
        self.store_word(addr, w);
        self.cpu.sp = self.cpu.sp.wrapping_sub(1);
    }

    /// Pushes the program counter plus `increment`.
    pub fn stack_push_pc(&mut self, increment: u8)
        requires
            old(self).wf(),
            old(self)@.stack_push_pc(increment).ok,
        ensures
            final(self).wf(),
            final(self)@ == old(self)@.stack_push_pc(increment),
            final(self).cpu.cycle == old(self).cpu.cycle,
    {
        self.cpu.tmp_addr = self.cpu.pc.wrapping_add(increment as u16);
        self.stack_push_addr();
    }

    pub fn stack_push_flags(&mut self)
        requires
            old(self).wf(),
            old(self)@.stack_push_flags().ok,
        ensures
            final(self).wf(),
            final(self)@ == old(self)@.stack_push_flags(),
            final(self).cpu.cycle == old(self).cpu.cycle,
    {
        self.cpu.tmp[0] = self.cpu.st.0;
        self.stack_push_byte();
    }

    pub fn stack_pull_flags(&mut self)
        requires
            old(self).wf(),
            old(self)@.stack_pull_flags().ok,
        ensures
            final(self).wf(),
            final(self)@ == old(self)@.stack_pull_flags(),
            final(self).cpu.cycle == old(self).cpu.cycle,
    {
        self.stack_pull_byte();
        self.cpu.st.0 = self.cpu.tmp[0];
    }

    /// Fetches the operand of an instruction in `mode` (only its address, for
    /// the stores) and counts the mode's base cycles.
    #[verifier::spinoff_prover]
    pub fn run_load(&mut self, inst: Instruction, mode: AddrMode)
        requires
            old(self).wf(),
            old(self)@.run_load(inst, mode).ok,
        ensures
            final(self).wf(),
            final(self)@ == old(self)@.run_load(inst, mode),
            final(self).cpu.cycle == old(self).cpu.cycle,
    {
        reveal(Mach::run_load);
        match (inst, mode) {
            (Instruction::STA | Instruction::STX | Instruction::STY | Instruction::STZ, AddrMode::Absolute) => self.load_addr_arg(),
            (Instruction::STA | Instruction::STX | Instruction::STY | Instruction::STZ, AddrMode::AbsoluteIndexedIndirect) => self.load_absolute_indexed_indirect_addr(),
            (Instruction::STA | Instruction::STX | Instruction::STY | Instruction::STZ, AddrMode::AbsoluteIndexedWithX) => self.load_absolute_indexed_with_x_addr(),
            (Instruction::STA | Instruction::STX | Instruction::STY | Instruction::STZ, AddrMode::AbsoluteIndexedWithY) => self.load_absolute_indexed_with_y_addr(),
            (Instruction::STA | Instruction::STX | Instruction::STY | Instruction::STZ, AddrMode::AbsoluteIndirect) => self.load_absolute_indirect_addr(),
            (Instruction::STA | Instruction::STX | Instruction::STY | Instruction::STZ, AddrMode::ZeroPage) => self.load_zp_arg(),
            (Instruction::STA | Instruction::STX | Instruction::STY | Instruction::STZ, AddrMode::ZeroPageIndexedIndirect) => self.load_zp_indexed_indirect_addr(),
            (Instruction::STA | Instruction::STX | Instruction::STY | Instruction::STZ, AddrMode::ZeroPageIndexedWithX) => self.load_zp_indexed_with_x_addr(),
            (Instruction::STA | Instruction::STX | Instruction::STY | Instruction::STZ, AddrMode::ZeroPageIndexedWithY) => self.load_zp_indexed_with_y_addr(),
            (Instruction::STA | Instruction::STX | Instruction::STY | Instruction::STZ, AddrMode::ZeroPageIndirect) => self.load_zp_indirect_addr(),
            (Instruction::STA | Instruction::STX | Instruction::STY | Instruction::STZ, AddrMode::ZeroPageIndirectIndexedWithY) => self.load_zp_indirect_indexed_with_y_addr(),
            (_, AddrMode::Absolute) => self.load_absolute_byte(),
            (_, AddrMode::AbsoluteIndexedIndirect) => self.load_absolute_indexed_indirect_byte(),
            (_, AddrMode::AbsoluteIndexedWithX) => self.load_absolute_indexed_with_x_byte(),
            (_, AddrMode::AbsoluteIndexedWithY) => self.load_absolute_indexed_with_y_byte(),
            (_, AddrMode::AbsoluteIndirect) => self.load_absolute_indirect_byte(),
            (_, AddrMode::Accumulator) => self.cpu.tmp[0] = self.cpu.a,
            (_, AddrMode::Immediate) => self.load_byte_arg(),
            (_, AddrMode::Implied) => {},
            (_, AddrMode::Relative) => {},
            (_, AddrMode::ZeroPage) => self.load_zp_byte(),
            (_, AddrMode::ZeroPageIndexedIndirect) => self.load_zp_indexed_indirect_byte(),
            (_, AddrMode::ZeroPageIndexedWithX) => self.load_zp_indexed_with_x_byte(),
            (_, AddrMode::ZeroPageIndexedWithY) => self.load_zp_indexed_with_y_byte(),
            (_, AddrMode::ZeroPageIndirect) => self.load_zp_indirect_byte(),
            (_, AddrMode::ZeroPageIndirectIndexedWithY) => self.load_zp_indirect_indexed_with_y_byte(),
            (_, AddrMode::ZeroPageRelative) => self.load_zp_byte(),
        }
        self.cpu.cycles = self.cpu.cycles + mode.get_cycles();
    }

    /// A relative branch, once tmp[0] says whether it is taken.
    fn branch(&mut self)
        requires
            old(self).wf(),
            old(self)@.branch().ok,
        ensures
            final(self).wf(),
            final(self)@ == old(self)@.branch(),
            final(self).cpu.cycle == old(self).cpu.cycle,
    {
        let take_branch = self.cpu.tmp[0] != 0;
        self.load_byte_arg();
        let old_pc = self.cpu.pc;
        self.cpu.inc_pc(2);
        if take_branch {
            let off = self.cpu.tmp[0];
            self.cpu.inc_pc(off);
            self.cpu.cycles = self.cpu.cycles + 1;
        }
        proof {
            lemma_page(old_pc, self.cpu.pc);
        }
        if old_pc & 0xff00 != self.cpu.pc & 0xff00 {
            self.cpu.cycles = self.cpu.cycles + 1;
        }
    }

    /// Writes back the result of read-modify-write instructions and moves the
    /// program counter past the instruction.
    #[verifier::spinoff_prover]
    pub fn run_store(&mut self, inst: Instruction, mode: AddrMode)
        requires
            old(self).wf(),
            old(self)@.run_store(inst, mode).ok,
        ensures
            final(self).wf(),
            final(self)@ == old(self)@.run_store(inst, mode),
            final(self).cpu.cycle == old(self).cpu.cycle,
    {
        reveal(Mach::run_store);
        match (inst, mode) {
            (
                Instruction::ASL
                | Instruction::DEC
                | Instruction::INC
                | Instruction::LSR
                | Instruction::ROL
                | Instruction::ROR,
                AddrMode::Absolute | AddrMode::AbsoluteIndexedWithX,
            ) => {
                let addr = self.cpu.tmp_addr;
                let b = self.cpu.tmp[0];
                self.store_byte(addr, b);
                self.cpu.cycles = self.cpu.cycles + 2;
                self.cpu.inc_pc(3);
            },
            (
                Instruction::ASL
                | Instruction::DEC
                | Instruction::INC
                | Instruction::LSR
                | Instruction::ROL
                | Instruction::ROR,
                AddrMode::ZeroPage | AddrMode::ZeroPageIndexedWithX,
            ) => {
                let addr = self.cpu.tmp_addr;
                let b = self.cpu.tmp[0];
                self.store_byte(addr, b);
                self.cpu.cycles = self.cpu.cycles + 2;
                self.cpu.inc_pc(2);
            },
            (
                Instruction::ASL
                | Instruction::DEC
                | Instruction::INC
                | Instruction::LSR
                | Instruction::ROL
                | Instruction::ROR,
                AddrMode::Accumulator,
            ) => {
                self.cpu.a = self.cpu.tmp[0];
                self.cpu.inc_pc(1);
            },
            (Instruction::JSR, _) => {},
            (Instruction::JMP, _) => {},
            (_, AddrMode::Absolute) => self.cpu.inc_pc(3),
            (_, AddrMode::AbsoluteIndexedIndirect) => self.cpu.inc_pc(3),
            (Instruction::STA, AddrMode::AbsoluteIndexedWithX) => {
                self.cpu.cycles = self.cpu.cycles + 1;
                self.cpu.inc_pc(3);
            },
            (_, AddrMode::AbsoluteIndexedWithX) => self.cpu.inc_pc(3),
            (_, AddrMode::AbsoluteIndexedWithY) => self.cpu.inc_pc(3),
            (_, AddrMode::AbsoluteIndirect) => self.cpu.inc_pc(3),
            (_, AddrMode::Accumulator) => self.cpu.inc_pc(1),
            (_, AddrMode::Immediate) => self.cpu.inc_pc(2),
            (Instruction::BRK, AddrMode::Implied) => {},
            (Instruction::RTI, AddrMode::Implied) => {},
            (Instruction::RTS, AddrMode::Implied) => {},
            (_, AddrMode::Implied) => self.cpu.inc_pc(1),
            (_, AddrMode::Relative) => self.branch(),
            (_, AddrMode::ZeroPage) => self.cpu.inc_pc(2),
            (_, AddrMode::ZeroPageIndexedIndirect) => self.cpu.inc_pc(2),
            (_, AddrMode::ZeroPageIndexedWithX) => self.cpu.inc_pc(2),
            (_, AddrMode::ZeroPageIndexedWithY) => self.cpu.inc_pc(2),
            (_, AddrMode::ZeroPageIndirect) => self.cpu.inc_pc(2),
            (_, AddrMode::ZeroPageIndirectIndexedWithY) => self.cpu.inc_pc(2),
            (_, AddrMode::ZeroPageRelative) => self.cpu.inc_pc(3),
        }
    }

    pub fn run_instruction(&mut self, inst: Instruction)
        requires
            old(self).wf(),
            old(self)@.run_instruction(inst).ok,
        ensures
            final(self).wf(),
            final(self)@ == old(self)@.run_instruction(inst),
            final(self).cpu.cycle == old(self).cpu.cycle,
    {
        match inst {
            Instruction::ADC => self.exec_adc(),
            Instruction::SBC => self.exec_sbc(),
            Instruction::AND | Instruction::ORA | Instruction::EOR | Instruction::BIT | Instruction::CMP | Instruction::CPX | Instruction::CPY => self.exec_logic_compare(inst),
            Instruction::ASL | Instruction::LSR | Instruction::ROL | Instruction::ROR | Instruction::INC | Instruction::DEC | Instruction::INX | Instruction::INY | Instruction::DEX | Instruction::DEY => self.exec_shift_count(inst),
            Instruction::BBR0 | Instruction::BBR1 | Instruction::BBR2 | Instruction::BBR3 | Instruction::BBR4 | Instruction::BBR5 | Instruction::BBR6 | Instruction::BBR7 | Instruction::BBS0 | Instruction::BBS1 | Instruction::BBS2 | Instruction::BBS3 | Instruction::BBS4 | Instruction::BBS5 | Instruction::BBS6 | Instruction::BBS7 | Instruction::BCC | Instruction::BCS | Instruction::BEQ | Instruction::BMI | Instruction::BNE | Instruction::BPL | Instruction::BVC | Instruction::BVS | Instruction::BRA => self.exec_branch_test(inst),
            Instruction::CLC | Instruction::CLD | Instruction::CLI | Instruction::CLV | Instruction::SEC | Instruction::SED | Instruction::SEI | Instruction::NOP | Instruction::STP | Instruction::WAI | Instruction::ILL => self.exec_flags(inst),
            Instruction::LDA | Instruction::LDX | Instruction::LDY | Instruction::TAX | Instruction::TAY | Instruction::TSX | Instruction::TXA | Instruction::TYA | Instruction::TXS | Instruction::JMP => self.exec_transfer(inst),
            Instruction::BRK | Instruction::JSR | Instruction::PHA | Instruction::PHP | Instruction::PHX | Instruction::PHY | Instruction::PLA | Instruction::PLP | Instruction::PLX | Instruction::PLY | Instruction::RTI | Instruction::RTS => self.exec_stack(inst),
            Instruction::STA | Instruction::STX | Instruction::STY | Instruction::STZ | Instruction::TRB | Instruction::TSB => self.exec_store(inst),
            Instruction::RMB0 | Instruction::RMB1 | Instruction::RMB2 | Instruction::RMB3 | Instruction::RMB4 | Instruction::RMB5 | Instruction::RMB6 | Instruction::RMB7 => self.exec_reset_bit(inst),
            Instruction::SMB0 | Instruction::SMB1 | Instruction::SMB2 | Instruction::SMB3 | Instruction::SMB4 | Instruction::SMB5 | Instruction::SMB6 | Instruction::SMB7 => self.exec_set_bit(inst),
        }
    }

    /// Add with carry.
    #[verifier::spinoff_prover]
    #[verifier::rlimit(40)]
    fn exec_adc(&mut self)
        requires
            old(self).wf(),
            old(self)@.run_instruction(Instruction::ADC).ok,
        ensures
            final(self).wf(),
            final(self)@ == old(self)@.run_instruction(Instruction::ADC),
            final(self).cpu.cycle == old(self).cpu.cycle,
    {
        let a = self.cpu.a;
        let b = self.cpu.tmp[0];
        // add the accumulator and the argument
        let c = a.wrapping_add(b);
        // An overflow occurs if and only if two numbers with the same sign are added,
        // but the result has the opposite sign:
        let ofl1 = (a ^ c) & (b ^ c) & 0x80 != 0;
        // add the carry
        let d: u8 = if self.cpu.is_set(StatusFlag::Carry) {
            1
        } else {
            0
        };
        self.cpu.a = c.wrapping_add(d);
        let r = self.cpu.a;
        let ofl2 = (c ^ r) & (d ^ r) & 0x80 != 0;
        proof {
            lemma_add_overflow_bits(a, b, c);
            lemma_add_overflow_bits(c, d, r);
            assert(c == add8(a, b as int));
            assert(r == add8(c, d as int));
            assert(old(self)@.run_instruction(Instruction::ADC) == old(self)@.with_cpu(
                old(self)@.cpu.adc(),
            )) by {
                reveal(Mach::run_instruction);
            }
        }
        // we set the overflow flag iff one occurred during either addition
        self.cpu.set_or_clear_flag(StatusFlag::Overflow, ofl1 || ofl2);
        // we set the carry flag iff the result is smaller than the first operand
        self.cpu.set_or_clear_flag(StatusFlag::Carry, r < a);
        self.cpu.check_and_set_nz_flags(r);
    }

    /// Subtract with borrow.
    #[verifier::spinoff_prover]
    #[verifier::rlimit(80)]
    fn exec_sbc(&mut self)
        requires
            old(self).wf(),
            old(self)@.run_instruction(Instruction::SBC).ok,
        ensures
            final(self).wf(),
            final(self)@ == old(self)@.run_instruction(Instruction::SBC),
            final(self).cpu.cycle == old(self).cpu.cycle,
    {
        let a = self.cpu.a;
        let b = self.cpu.tmp[0];
        // subtract the argument from the accumulator
        let c = a.wrapping_sub(b);
        let mut borrow = c > a;
        // subtract the inverted carry
        let d: u8 = if self.cpu.is_set(StatusFlag::Carry) {
            0
        } else {
            1
        };
        self.cpu.a = c.wrapping_sub(d);
        let r = self.cpu.a;
        borrow = borrow || r > c;
        // An overflow occurs if and only if two numbers with different sign are subtracted,
        // and the result has the opposite sign of the first number:
        let ofl = (a ^ b) & (a ^ r) & 0x80 != 0;
        proof {
            lemma_sub_overflow_bits(a, b, r);
            let dd: int = if old(self)@.cpu.flag(crate::cpu6502::cpu::CARRY) {
                0
            } else {
                1
            };
            assert(d == dd);
            assert(c == add8(a, -(b as int)));
            assert(r == add8(c, -(d as int)));
            lemma_sbc_arith(a, b, d);
            assert(old(self)@.run_instruction(Instruction::SBC) == old(self)@.with_cpu(
                old(self)@.cpu.sbc(),
            )) by {
                reveal(Mach::run_instruction);
            }
        }
        self.cpu.set_or_clear_flag(StatusFlag::Overflow, ofl);
        // We clear the carry flag when a borrow occurs.
        self.cpu.set_or_clear_flag(StatusFlag::Carry, !borrow);
        self.cpu.check_and_set_nz_flags(r);
    }

    /// Combines or compares the operand with a register.
    #[verifier::spinoff_prover]
    fn exec_logic_compare(&mut self, inst: Instruction)
        requires
            old(self).wf(),
            old(self)@.run_instruction(inst).ok,
            inst == Instruction::AND || inst == Instruction::ORA || inst == Instruction::EOR || inst == Instruction::BIT || inst == Instruction::CMP || inst == Instruction::CPX || inst == Instruction::CPY,
        ensures
            final(self).wf(),
            final(self)@ == old(self)@.run_instruction(inst),
            final(self).cpu.cycle == old(self).cpu.cycle,
    {
        reveal(Mach::run_instruction);
        match inst {
            Instruction::AND => {
                self.cpu.a = self.cpu.a & self.cpu.tmp[0];
                let r = self.cpu.a;
                self.cpu.check_and_set_nz_flags(r);
            },
            Instruction::ORA => {
                self.cpu.a = self.cpu.a | self.cpu.tmp[0];
                let r = self.cpu.a;
                self.cpu.check_and_set_nz_flags(r);
            },
            Instruction::EOR => {
                self.cpu.a = self.cpu.a ^ self.cpu.tmp[0];
                let r = self.cpu.a;
                self.cpu.check_and_set_nz_flags(r);
            },
            Instruction::BIT => {
                let t = self.cpu.tmp[0];
                let a = self.cpu.a;
                self.cpu.check_and_set_z_flag(a & t);
                self.cpu.check_and_set_n_flag(t);
                self.cpu.check_and_set_or_clear_flag(StatusFlag::Overflow, t & 0x40);
            },
            Instruction::CMP => {
                let reg = self.cpu.a;
                let t = self.cpu.tmp[0];
                self.cpu.compare_and_set_flags(reg, t);
            },
            Instruction::CPX => {
                let reg = self.cpu.x;
                let t = self.cpu.tmp[0];
                self.cpu.compare_and_set_flags(reg, t);
            },
            Instruction::CPY => {
                let reg = self.cpu.y;
                let t = self.cpu.tmp[0];
                self.cpu.compare_and_set_flags(reg, t);
            },
            _ => {},
        }
    }

    /// Shifts, rotates, increments or decrements.
    #[verifier::spinoff_prover]
    #[verifier::rlimit(60)]
    fn exec_shift_count(&mut self, inst: Instruction)
        requires
            old(self).wf(),
            old(self)@.run_instruction(inst).ok,
            inst == Instruction::ASL || inst == Instruction::LSR || inst == Instruction::ROL || inst == Instruction::ROR || inst == Instruction::INC || inst == Instruction::DEC || inst == Instruction::INX || inst == Instruction::INY || inst == Instruction::DEX || inst == Instruction::DEY,
        ensures
            final(self).wf(),
            final(self)@ == old(self)@.run_instruction(inst),
            final(self).cpu.cycle == old(self).cpu.cycle,
    {
        reveal(Mach::run_instruction);
        match inst {
            Instruction::ASL => {
                let t = self.cpu.tmp[0];
                proof {
                    lemma_shift_bits(t);
                }
                self.cpu.set_or_clear_flag(StatusFlag::Carry, t & 0x80 != 0);
                self.cpu.tmp[0] = t << 1u8;
                let r = self.cpu.tmp[0];
                self.cpu.check_and_set_nz_flags(r);
            },
            Instruction::LSR => {
                let t = self.cpu.tmp[0];
                proof {
                    lemma_shift_bits(t);
                }
                self.cpu.check_and_set_or_clear_flag(StatusFlag::Carry, t & 0x1);
                self.cpu.tmp[0] = t >> 1u8;
            },
            Instruction::ROL => {
                let t = self.cpu.tmp[0];
                let old_carry = self.cpu.is_set(StatusFlag::Carry);
                proof {
                    lemma_shift_bits(t);
                }
                self.cpu.check_and_set_or_clear_flag(StatusFlag::Carry, t & 0x80);
                self.cpu.tmp[0] = (t << 1u8) | if old_carry {
                    1u8
                } else {
                    0u8
                };
            },
            Instruction::ROR => {
                let t = self.cpu.tmp[0];
                let old_carry = self.cpu.is_set(StatusFlag::Carry);
                let b0 = t & 1;
                proof {
                    lemma_shift_bits(t);
                }
                self.cpu.check_and_set_or_clear_flag(StatusFlag::Carry, b0);
                self.cpu.tmp[0] = t >> 1u8;
                if old_carry {
                    self.cpu.tmp[0] = self.cpu.tmp[0] | 0x80;
                }
                let r = self.cpu.tmp[0];
                self.cpu.check_and_set_nz_flags(r);
            },
            Instruction::INC => {
                self.cpu.tmp[0] = self.cpu.tmp[0].wrapping_add(1);
                let r = self.cpu.tmp[0];
                self.cpu.check_and_set_nz_flags(r);
            },
            Instruction::DEC => {
                self.cpu.tmp[0] = self.cpu.tmp[0].wrapping_sub(1);
                let r = self.cpu.tmp[0];
                self.cpu.check_and_set_nz_flags(r);
            },
            Instruction::INX => {
                self.cpu.x = self.cpu.x.wrapping_add(1);
                let r = self.cpu.x;
                self.cpu.check_and_set_nz_flags(r);
            },
            Instruction::INY => {
                self.cpu.y = self.cpu.y.wrapping_add(1);
                let r = self.cpu.y;
                self.cpu.check_and_set_nz_flags(r);
            },
            Instruction::DEX => {
                self.cpu.x = self.cpu.x.wrapping_sub(1);
                let r = self.cpu.x;
                self.cpu.check_and_set_nz_flags(r);
            },
            Instruction::DEY => {
                self.cpu.y = self.cpu.y.wrapping_sub(1);
                let r = self.cpu.y;
                self.cpu.check_and_set_nz_flags(r);
            },
            _ => {},
        }
    }

    /// Decides whether a branch is taken.
    #[verifier::spinoff_prover]
    fn exec_branch_test(&mut self, inst: Instruction)
        requires
            old(self).wf(),
            old(self)@.run_instruction(inst).ok,
            inst == Instruction::BBR0 || inst == Instruction::BBR1 || inst == Instruction::BBR2 || inst == Instruction::BBR3 || inst == Instruction::BBR4 || inst == Instruction::BBR5 || inst == Instruction::BBR6 || inst == Instruction::BBR7 || inst == Instruction::BBS0 || inst == Instruction::BBS1 || inst == Instruction::BBS2 || inst == Instruction::BBS3 || inst == Instruction::BBS4 || inst == Instruction::BBS5 || inst == Instruction::BBS6 || inst == Instruction::BBS7 || inst == Instruction::BCC || inst == Instruction::BCS || inst == Instruction::BEQ || inst == Instruction::BMI || inst == Instruction::BNE || inst == Instruction::BPL || inst == Instruction::BVC || inst == Instruction::BVS || inst == Instruction::BRA,
        ensures
            final(self).wf(),
            final(self)@ == old(self)@.run_instruction(inst),
            final(self).cpu.cycle == old(self).cpu.cycle,
    {
        reveal(Mach::run_instruction);
        match inst {
            Instruction::BBR0 => {
                self.cpu.tmp[0] = !(self.cpu.tmp[0] & 0x01);
            },
            Instruction::BBR1 => {
                self.cpu.tmp[0] = !(self.cpu.tmp[0] & 0x02);
            },
            Instruction::BBR2 => {
                self.cpu.tmp[0] = !(self.cpu.tmp[0] & 0x04);
            },
            Instruction::BBR3 => {
                self.cpu.tmp[0] = !(self.cpu.tmp[0] & 0x08);
            },
            Instruction::BBR4 => {
                self.cpu.tmp[0] = !(self.cpu.tmp[0] & 0x10);
            },
            Instruction::BBR5 => {
                self.cpu.tmp[0] = !(self.cpu.tmp[0] & 0x20);
            },
            Instruction::BBR6 => {
                self.cpu.tmp[0] = !(self.cpu.tmp[0] & 0x40);
            },
            Instruction::BBR7 => {
                self.cpu.tmp[0] = !(self.cpu.tmp[0] & 0x80);
            },
            Instruction::BBS0 => {
                self.cpu.tmp[0] = self.cpu.tmp[0] & 0x01;
            },
            Instruction::BBS1 => {
                self.cpu.tmp[0] = self.cpu.tmp[0] & 0x02;
            },
            Instruction::BBS2 => {
                self.cpu.tmp[0] = self.cpu.tmp[0] & 0x04;
            },
            Instruction::BBS3 => {
                self.cpu.tmp[0] = self.cpu.tmp[0] & 0x08;
            },
            Instruction::BBS4 => {
                self.cpu.tmp[0] = self.cpu.tmp[0] & 0x10;
            },
            Instruction::BBS5 => {
                self.cpu.tmp[0] = self.cpu.tmp[0] & 0x20;
            },
            Instruction::BBS6 => {
                self.cpu.tmp[0] = self.cpu.tmp[0] & 0x40;
            },
            Instruction::BBS7 => {
                self.cpu.tmp[0] = self.cpu.tmp[0] & 0x80;
            },
            Instruction::BCC => {
                self.cpu.tmp[0] = if self.cpu.is_clear(StatusFlag::Carry) {
                    1
                } else {
                    0
                };
            },
            Instruction::BCS => {
                self.cpu.tmp[0] = if self.cpu.is_set(StatusFlag::Carry) {
                    1
                } else {
                    0
                };
            },
            Instruction::BEQ => {
                self.cpu.tmp[0] = if self.cpu.is_set(StatusFlag::Zero) {
                    1
                } else {
                    0
                };
            },
            Instruction::BMI => {
                self.cpu.tmp[0] = if self.cpu.is_set(StatusFlag::Negative) {
                    1
                } else {
                    0
                };
            },
            Instruction::BNE => {
                self.cpu.tmp[0] = if self.cpu.is_clear(StatusFlag::Zero) {
                    1
                } else {
                    0
                };
            },
            Instruction::BPL => {
                self.cpu.tmp[0] = if self.cpu.is_clear(StatusFlag::Negative) {
                    1
                } else {
                    0
                };
            },
            Instruction::BVC => {
                self.cpu.tmp[0] = if self.cpu.is_clear(StatusFlag::Overflow) {
                    1
                } else {
                    0
                };
            },
            Instruction::BVS => {
                self.cpu.tmp[0] = if self.cpu.is_set(StatusFlag::Overflow) {
                    1
                } else {
                    0
                };
            },
            Instruction::BRA => {
                self.cpu.tmp[0] = 1;
            },
            _ => {},
        }
    }

    /// Sets or clears a flag, or does nothing.
    #[verifier::spinoff_prover]
    fn exec_flags(&mut self, inst: Instruction)
        requires
            old(self).wf(),
            old(self)@.run_instruction(inst).ok,
            inst == Instruction::CLC || inst == Instruction::CLD || inst == Instruction::CLI || inst == Instruction::CLV || inst == Instruction::SEC || inst == Instruction::SED || inst == Instruction::SEI || inst == Instruction::NOP || inst == Instruction::STP || inst == Instruction::WAI || inst == Instruction::ILL,
        ensures
            final(self).wf(),
            final(self)@ == old(self)@.run_instruction(inst),
            final(self).cpu.cycle == old(self).cpu.cycle,
    {
        reveal(Mach::run_instruction);
        match inst {
            Instruction::CLC => {
                self.cpu.clear_flag(StatusFlag::Carry);
            },
            Instruction::CLD => {
                self.cpu.clear_flag(StatusFlag::Decimal);
            },
            Instruction::CLI => {
                self.cpu.clear_flag(StatusFlag::IRQDisable);
            },
            Instruction::CLV => {
                self.cpu.clear_flag(StatusFlag::Overflow);
            },
            Instruction::SEC => {
                self.cpu.set_flag(StatusFlag::Carry);
            },
            Instruction::SED => {
                self.cpu.set_flag(StatusFlag::Decimal);
            },
            Instruction::SEI => {
                self.cpu.set_flag(StatusFlag::IRQDisable);
            },
            Instruction::NOP => {

            },
            Instruction::STP => {

            },
            Instruction::WAI => {

            },
            Instruction::ILL => {

            },
            _ => {},
        }
    }

    /// Loads or transfers a register, or jumps.
    #[verifier::spinoff_prover]
    fn exec_transfer(&mut self, inst: Instruction)
        requires
            old(self).wf(),
            old(self)@.run_instruction(inst).ok,
            inst == Instruction::LDA || inst == Instruction::LDX || inst == Instruction::LDY || inst == Instruction::TAX || inst == Instruction::TAY || inst == Instruction::TSX || inst == Instruction::TXA || inst == Instruction::TYA || inst == Instruction::TXS || inst == Instruction::JMP,
        ensures
            final(self).wf(),
            final(self)@ == old(self)@.run_instruction(inst),
            final(self).cpu.cycle == old(self).cpu.cycle,
    {
        reveal(Mach::run_instruction);
        match inst {
            Instruction::LDA => {
                self.cpu.a = self.cpu.tmp[0];
                let r = self.cpu.a;
                self.cpu.check_and_set_nz_flags(r);
            },
            Instruction::LDX => {
                self.cpu.x = self.cpu.tmp[0];
                let r = self.cpu.x;
                self.cpu.check_and_set_nz_flags(r);
            },
            Instruction::LDY => {
                self.cpu.y = self.cpu.tmp[0];
                let r = self.cpu.y;
                self.cpu.check_and_set_nz_flags(r);
            },
            Instruction::TAX => {
                self.cpu.x = self.cpu.a;
                let r = self.cpu.x;
                self.cpu.check_and_set_nz_flags(r);
            },
            Instruction::TAY => {
                self.cpu.y = self.cpu.a;
                let r = self.cpu.y;
                self.cpu.check_and_set_nz_flags(r);
            },
            Instruction::TSX => {
                self.cpu.x = self.cpu.sp;
                let r = self.cpu.x;
                self.cpu.check_and_set_nz_flags(r);
            },
            Instruction::TXA => {
                self.cpu.a = self.cpu.x;
                let r = self.cpu.a;
                self.cpu.check_and_set_nz_flags(r);
            },
            Instruction::TYA => {
                self.cpu.a = self.cpu.y;
                let r = self.cpu.a;
                self.cpu.check_and_set_nz_flags(r);
            },
            Instruction::TXS => {
                self.cpu.sp = self.cpu.x;
            },
            Instruction::JMP => {
                self.cpu.set_pc();
            },
            _ => {},
        }
    }

    /// Uses the stack: pushes, pulls, calls, returns and breaks.
    #[verifier::spinoff_prover]
    fn exec_stack(&mut self, inst: Instruction)
        requires
            old(self).wf(),
            old(self)@.run_instruction(inst).ok,
            inst == Instruction::BRK || inst == Instruction::JSR || inst == Instruction::PHA || inst == Instruction::PHP || inst == Instruction::PHX || inst == Instruction::PHY || inst == Instruction::PLA || inst == Instruction::PLP || inst == Instruction::PLX || inst == Instruction::PLY || inst == Instruction::RTI || inst == Instruction::RTS,
        ensures
            final(self).wf(),
            final(self)@ == old(self)@.run_instruction(inst),
            final(self).cpu.cycle == old(self).cpu.cycle,
    {
        reveal(Mach::run_instruction);
        match inst {
            Instruction::BRK => {
                if self.cpu.is_set(StatusFlag::BRK) {
                    self.cpu.inc_pc(2);
                } else {
                    self.stack_push_pc(2);
                    self.stack_push_flags();
                    self.cpu.set_flag(StatusFlag::BRK);
                    self.cpu.set_flag(StatusFlag::IRQDisable);
                    self.cpu.clear_flag(StatusFlag::Decimal);
                    self.cpu.pc = self.load_word(0xfffe);
                    self.cpu.cycles = 7;
                }
            },
            Instruction::JSR => {
                self.stack_push_pc(3);
                self.load_addr_arg();
                self.cpu.cycles = 6;
                self.cpu.set_pc();
            },
            Instruction::PHA => {
                self.cpu.tmp[0] = self.cpu.a;
                self.stack_push_byte();
            },
            Instruction::PHP => {
                self.stack_push_flags();
            },
            Instruction::PHX => {
                self.cpu.tmp[0] = self.cpu.x;
                self.stack_push_byte();
            },
            Instruction::PHY => {
                self.cpu.tmp[0] = self.cpu.y;
                self.stack_push_byte();
            },
            Instruction::PLA => {
                self.stack_pull_byte();
                self.cpu.a = self.cpu.tmp[0];
                let r = self.cpu.a;
                self.cpu.check_and_set_nz_flags(r);
            },
            Instruction::PLP => {
                self.stack_pull_flags();
            },
            Instruction::PLX => {
                self.stack_pull_byte();
                self.cpu.x = self.cpu.tmp[0];
                let r = self.cpu.x;
                self.cpu.check_and_set_nz_flags(r);
            },
            Instruction::PLY => {
                self.stack_pull_byte();
                self.cpu.y = self.cpu.tmp[0];
                let r = self.cpu.y;
                self.cpu.check_and_set_nz_flags(r);
            },
            Instruction::RTI => {
                self.stack_pull_flags();
                self.stack_pull_addr();
                self.cpu.set_pc();
            },
            Instruction::RTS => {
                self.stack_pull_addr();
                self.cpu.set_pc();
            },
            _ => {},
        }
    }

    /// Stores a register, or tests and sets or resets bits in memory.
    #[verifier::spinoff_prover]
    fn exec_store(&mut self, inst: Instruction)
        requires
            old(self).wf(),
            old(self)@.run_instruction(inst).ok,
            inst == Instruction::STA || inst == Instruction::STX || inst == Instruction::STY || inst == Instruction::STZ || inst == Instruction::TRB || inst == Instruction::TSB,
        ensures
            final(self).wf(),
            final(self)@ == old(self)@.run_instruction(inst),
            final(self).cpu.cycle == old(self).cpu.cycle,
    {
        reveal(Mach::run_instruction);
        match inst {
            Instruction::STA => {
                let addr = self.cpu.tmp_addr;
                let b = self.cpu.a;
                self.store_byte(addr, b);
            },
            Instruction::STX => {
                let addr = self.cpu.tmp_addr;
                let b = self.cpu.x;
                self.store_byte(addr, b);
            },
            Instruction::STY => {
                let addr = self.cpu.tmp_addr;
                let b = self.cpu.y;
                self.store_byte(addr, b);
            },
            Instruction::STZ => {
                let addr = self.cpu.tmp_addr;
                let b: u8 = 0;
                self.store_byte(addr, b);
            },
            Instruction::TRB => {
                let a = self.cpu.a;
                let t = self.cpu.tmp[0];
                self.cpu.check_and_set_z_flag(a & t);
                let addr = self.cpu.tmp_addr;
                self.store_byte(addr, !a & t);
            },
            Instruction::TSB => {
                let a = self.cpu.a;
                let t = self.cpu.tmp[0];
                self.cpu.check_and_set_z_flag(a & t);
                let addr = self.cpu.tmp_addr;
                self.store_byte(addr, a | t);
            },
            _ => {},
        }
    }

    /// Resets a bit of a byte in memory.
    #[verifier::spinoff_prover]
    fn exec_reset_bit(&mut self, inst: Instruction)
        requires
            old(self).wf(),
            old(self)@.run_instruction(inst).ok,
            inst == Instruction::RMB0 || inst == Instruction::RMB1 || inst == Instruction::RMB2 || inst == Instruction::RMB3 || inst == Instruction::RMB4 || inst == Instruction::RMB5 || inst == Instruction::RMB6 || inst == Instruction::RMB7,
        ensures
            final(self).wf(),
            final(self)@ == old(self)@.run_instruction(inst),
            final(self).cpu.cycle == old(self).cpu.cycle,
    {
        reveal(Mach::run_instruction);
        match inst {
            Instruction::RMB0 => {
                let addr = self.cpu.tmp_addr;
                let b = self.cpu.tmp[0] & !0x01u8;
                self.store_byte(addr, b);
            },
            Instruction::RMB1 => {
                let addr = self.cpu.tmp_addr;
                let b = self.cpu.tmp[0] & !0x02u8;
                self.store_byte(addr, b);
            },
            Instruction::RMB2 => {
                let addr = self.cpu.tmp_addr;
                let b = self.cpu.tmp[0] & !0x04u8;
                self.store_byte(addr, b);
            },
            Instruction::RMB3 => {
                let addr = self.cpu.tmp_addr;
                let b = self.cpu.tmp[0] & !0x08u8;
                self.store_byte(addr, b);
            },
            Instruction::RMB4 => {
                let addr = self.cpu.tmp_addr;
                let b = self.cpu.tmp[0] & !0x10u8;
                self.store_byte(addr, b);
            },
            Instruction::RMB5 => {
                let addr = self.cpu.tmp_addr;
                let b = self.cpu.tmp[0] & !0x20u8;
                self.store_byte(addr, b);
            },
            Instruction::RMB6 => {
                let addr = self.cpu.tmp_addr;
                let b = self.cpu.tmp[0] & !0x40u8;
                self.store_byte(addr, b);
            },
            Instruction::RMB7 => {
                let addr = self.cpu.tmp_addr;
                let b = self.cpu.tmp[0] & !0x80u8;
                self.store_byte(addr, b);
            },
            _ => {},
        }
    }

    /// Writes back a byte of memory for a set-bit instruction.
    #[verifier::spinoff_prover]
    fn exec_set_bit(&mut self, inst: Instruction)
        requires
            old(self).wf(),
            old(self)@.run_instruction(inst).ok,
            inst == Instruction::SMB0 || inst == Instruction::SMB1 || inst == Instruction::SMB2 || inst == Instruction::SMB3 || inst == Instruction::SMB4 || inst == Instruction::SMB5 || inst == Instruction::SMB6 || inst == Instruction::SMB7,
        ensures
            final(self).wf(),
            final(self)@ == old(self)@.run_instruction(inst),
            final(self).cpu.cycle == old(self).cpu.cycle,
    {
        reveal(Mach::run_instruction);
        match inst {
            Instruction::SMB0 => {
                let addr = self.cpu.tmp_addr;
                let b = self.cpu.tmp[0] & !0x01u8;
                self.store_byte(addr, b);
            },
            Instruction::SMB1 => {
                let addr = self.cpu.tmp_addr;
                let b = self.cpu.tmp[0] & !0x02u8;
                self.store_byte(addr, b);
            },
            Instruction::SMB2 => {
                let addr = self.cpu.tmp_addr;
                let b = self.cpu.tmp[0] & !0x04u8;
                self.store_byte(addr, b);
            },
            Instruction::SMB3 => {
                let addr = self.cpu.tmp_addr;
                let b = self.cpu.tmp[0] & !0x08u8;
                self.store_byte(addr, b);
            },
            Instruction::SMB4 => {
                let addr = self.cpu.tmp_addr;
                let b = self.cpu.tmp[0] & !0x10u8;
                self.store_byte(addr, b);
            },
            Instruction::SMB5 => {
                let addr = self.cpu.tmp_addr;
                let b = self.cpu.tmp[0] & !0x20u8;
                self.store_byte(addr, b);
            },
            Instruction::SMB6 => {
                let addr = self.cpu.tmp_addr;
                let b = self.cpu.tmp[0] & !0x40u8;
                self.store_byte(addr, b);
            },
            Instruction::SMB7 => {
                let addr = self.cpu.tmp_addr;
                let b = self.cpu.tmp[0] & !0x80u8;
                self.store_byte(addr, b);
            },
            _ => {},
        }
    }
}

} // verus!

verus! {

pub const DOLLAR: u8 = 0x24;
pub const HASH: u8 = 0x23;
pub const LPAREN: u8 = 0x28;
pub const RPAREN: u8 = 0x29;
pub const COMMA: u8 = 0x2c;
pub const PLUS: u8 = 0x2b;
pub const UPPER_X: u8 = 0x58;
pub const UPPER_Y: u8 = 0x59;

/// The error of parsing an addressing mode: the text that could not be
/// parsed, or the message of a number that could not be read.
#[derive(Debug, Clone, PartialEq)]
pub struct ParseAddrModeError {
    pub s: String,
}

impl ParseAddrModeError {
    /// The error as text.
    pub fn message(&self) -> (r: String)
        ensures
            r@ == seq!['P', 'a', 'r', 's', 'e', 'A', 'd', 'd', 'r', 'M', 'o', 'd', 'e', 'E', 'r', 'r', 'o', 'r', ':', ' ', 'U', 'n', 'a', 'b', 'l', 'e', ' ', 't', 'o', ' ', 'p', 'a', 'r', 's', 'e', ' '] + self.s@,
    {
        let mut r = String::from_str("ParseAddrModeError: Unable to parse ");
        proof {
            reveal_strlit("ParseAddrModeError: Unable to parse ");
        }
        r.append(self.s.as_str());
        r
    }
}

/// An addressing mode with its argument and the argument's size in bytes.
#[derive(Debug, Clone, Copy, PartialEq, Eq, Structural)]
pub struct AddrModeWithAddr {
    pub mode: AddrMode,
    pub arg: u16,
    pub arg_size: u8,
}

/// The byte at `i`, if there is one.
pub open spec fn nth(b: Seq<u8>, i: int) -> Option<u8> {
    if 0 <= i < b.len() {
        Some(b[i])
    } else {
        None
    }
}

/// The index of the first `c` in `b`.
pub open spec fn find_from(b: Seq<u8>, c: u8, i: int) -> Option<int>
    decreases b.len() - i,
{
    if i < 0 || i >= b.len() {
        None
    } else if b[i] == c {
        Some(i)
    } else {
        find_from(b, c, i + 1)
    }
}

pub open spec fn find(b: Seq<u8>, c: u8) -> Option<int> {
    find_from(b, c, 0)
}

/// The text starts with `$` and a second byte that is not `(`.
pub open spec fn is_dollar(b: Seq<u8>) -> bool {
    nth(b, 0) == Some(DOLLAR) && b.len() >= 2 && b[1] != LPAREN
}

/// The text starts with `($`.
pub open spec fn is_paren(b: Seq<u8>) -> bool {
    nth(b, 0) == Some(LPAREN) && nth(b, 1) == Some(DOLLAR)
}

/// A comma followed by `x`, and no closing parenthesis.
pub open spec fn indexed_by(b: Seq<u8>, x: u8) -> bool {
    find(b, RPAREN) is None && find(b, COMMA) is Some && nth(b, find(b, COMMA)->0 + 1) == Some(x)
}

/// The addressing mode that an operand text such as `#$08` or `($ABCD),Y`
/// selects: the mode of its argument form (see `arm_of`); a text of three
/// bytes in no such form is a bare mnemonic, whose mode is implied.
pub open spec fn mode_of(b: Seq<u8>) -> Option<AddrMode> {
    match arm_of(b) {
        Some((m, _, _, _)) => Some(m),
        None => if b.len() == 3 {
            Some(AddrMode::Implied)
        } else {
            None
        },
    }
}

/// The addressing mode, the bytes that hold its argument and the argument's
/// size, for an operand text such as `$AAAA,X`; `None` when the text selects
/// no mode.
pub open spec fn arm_of(b: Seq<u8>) -> Option<(AddrMode, int, int, u8)> {
    let n = b.len();
    let rp = find(b, RPAREN);
    let co = find(b, COMMA);
    if is_dollar(b) && rp is None && co is None && n == 5 {
        Some((AddrMode::Absolute, 1int, 5int, 2u8))
    } else if is_paren(b) && rp is Some && co is Some && co->0 < rp->0 && n == 9 {
        Some((AddrMode::AbsoluteIndexedIndirect, 2int, 6int, 2u8))
    } else if nth(b, 0) == Some(DOLLAR) && n >= 2 && indexed_by(b, UPPER_X) && n == 7 {
        Some((AddrMode::AbsoluteIndexedWithX, 1int, 5int, 2u8))
    } else if nth(b, 0) == Some(DOLLAR) && n >= 2 && indexed_by(b, UPPER_Y) && n == 7 {
        Some((AddrMode::AbsoluteIndexedWithY, 1int, 5int, 2u8))
    } else if is_paren(b) && rp is Some && co is None && n == 7 {
        Some((AddrMode::AbsoluteIndirect, 2int, 6int, 2u8))
    } else if nth(b, 0) == Some(HASH) && nth(b, 1) == Some(DOLLAR) && rp is None && co is None {
        Some((AddrMode::Immediate, 2int, 4int, 1u8))
    } else if is_dollar(b) && rp is None && co is None && n == 3 {
        Some((AddrMode::ZeroPage, 1int, 3int, 1u8))
    } else if is_paren(b) && rp is Some && co is Some && co->0 < rp->0 && n == 7 {
        Some((AddrMode::ZeroPageIndexedIndirect, 2int, 4int, 1u8))
    } else if nth(b, 0) == Some(DOLLAR) && n >= 2 && indexed_by(b, UPPER_X) && n == 5 {
        Some((AddrMode::ZeroPageIndexedWithX, 1int, 3int, 1u8))
    } else if nth(b, 0) == Some(DOLLAR) && n >= 2 && indexed_by(b, UPPER_Y) && n == 5 {
        Some((AddrMode::ZeroPageIndexedWithY, 1int, 3int, 1u8))
    } else if is_paren(b) && rp is Some && co is None && n == 5 {
        Some((AddrMode::ZeroPageIndirect, 2int, 4int, 1u8))
    } else if is_paren(b) && rp is Some && co is Some && co->0 > rp->0 && n == 7 {
        Some((AddrMode::ZeroPageIndirectIndexedWithY, 2int, 4int, 1u8))
    } else {
        None
    }
}

/// The value of a hexadecimal digit (either case).
pub open spec fn hex_digit(c: u8) -> Option<int> {
    if 0x30 <= c <= 0x39 {
        Some(c - 0x30)
    } else if 0x41 <= c <= 0x46 {
        Some(c - 0x41 + 10)
    } else if 0x61 <= c <= 0x66 {
        Some(c - 0x61 + 10)
    } else {
        None
    }
}

/// The value of a string of hexadecimal digits.
pub open spec fn hex_digits(t: Seq<u8>) -> Option<int>
    decreases t.len(),
{
    if t.len() == 0 {
        Some(0)
    } else {
        match (hex_digits(t.drop_last()), hex_digit(t.last())) {
            (Some(v), Some(d)) => Some(v * 16 + d),
            _ => None,
        }
    }
}

/// The number a hexadecimal text denotes, as `u16::from_str_radix(t, 16)`
/// reads texts of two to four bytes: an optional leading `+`, then digits.
pub open spec fn hex_value(t: Seq<u8>) -> Option<int> {
    if t.len() == 0 {
        None
    } else if t[0] == PLUS {
        if t.len() == 1 {
            None
        } else {
            hex_digits(t.drop_first())
        }
    } else {
        hex_digits(t)
    }
}

/// The message of an argument that is no hexadecimal number.
pub open spec fn invalid_digit_message() -> Seq<char> {
    "ParseIntError occurred: invalid digit found in string"@
}

/// Parsing `b` slices it at byte boundaries of the text: those the selected
/// mode's argument lies between must be in the text and begin characters.
pub open spec fn slices_ok(b: Seq<u8>) -> bool {
    match arm_of(b) {
        Some((_, a, e, _)) => e <= b.len() && is_char_boundary(b, a) && is_char_boundary(b, e),
        None => true,
    }
}

proof fn lemma_find_range(b: Seq<u8>, c: u8, i: int)
    requires
        0 <= i,
    ensures
        find_from(b, c, i) is Some ==> i <= find_from(b, c, i)->0 < b.len(),
    decreases b.len() - i,
{
    if i < b.len() && b[i] != c {
        lemma_find_range(b, c, i + 1);
    }
}

fn find_byte(b: &[u8], c: u8) -> (r: Option<usize>)
    ensures
        r == (match find(b@, c) {
            Some(i) => Some(i as usize),
            None => None::<usize>,
        }),
        r is Some ==> r->0 < b@.len(),
        find(b@, c) is Some <==> r is Some,
        r is Some ==> r->0 as int == find(b@, c)->0,
{
    proof {
        lemma_find_range(b@, c, 0);
    }
    let mut i: usize = 0;
    while i < b.len()
        invariant
            i <= b@.len(),
            find(b@, c) == find_from(b@, c, i as int),
        decreases b@.len() - i,
    {
        if b[i] == c {
            return Some(i);
        }
        i = i + 1;
    }
    None
}

fn nth_byte(b: &[u8], i: usize) -> (r: Option<u8>)
    ensures
        r == nth(b@, i as int),
{
    if i < b.len() {
        Some(b[i])
    } else {
        None
    }
}

fn is_byte(b: &[u8], i: usize, c: u8) -> (r: bool)
    ensures
        r == (nth(b@, i as int) == Some(c)),
{
    i < b.len() && b[i] == c
}

fn hex_digit_value(c: u8) -> (r: Option<u16>)
    ensures
        r is Some <==> hex_digit(c) is Some,
        r is Some ==> r->0 == hex_digit(c)->0 && r->0 < 16,
{
    if c >= 0x30 && c <= 0x39 {
        Some((c - 0x30) as u16)
    } else if c >= 0x41 && c <= 0x46 {
        Some((c - 0x41 + 10) as u16)
    } else if c >= 0x61 && c <= 0x66 {
        Some((c - 0x61 + 10) as u16)
    } else {
        None
    }
}

/// Sixteen to the power `k`.
pub open spec fn p16(k: nat) -> int
    decreases k,
{
    if k == 0 {
        1
    } else {
        16 * p16((k - 1) as nat)
    }
}

proof fn lemma_hex_digits_bound(t: Seq<u8>)
    requires
        hex_digits(t) is Some,
    ensures
        0 <= hex_digits(t)->0 < p16(t.len()),
    decreases t.len(),
{
    if t.len() > 0 {
        lemma_hex_digits_bound(t.drop_last());
    }
}

/// Reads the hexadecimal number in `b[from..to]`, at most four bytes.
fn parse_hex(b: &[u8], from: usize, to: usize) -> (r: Option<u16>)
    requires
        from < to <= b@.len(),
        to - from <= 4,
    ensures
        r == (match hex_value(b@.subrange(from as int, to as int)) {
            Some(v) => Some(v as u16),
            None => None::<u16>,
        }),
        r is Some ==> r->0 == hex_value(b@.subrange(from as int, to as int))->0,
{
    let ghost t = b@.subrange(from as int, to as int);
    let mut start = from;
    if b[from] == PLUS {
        if to - from == 1 {
            return None;
        }
        start = from + 1;
    }
    let ghost digits = b@.subrange(start as int, to as int);
    proof {
        if b[from as int] == PLUS {
            assert(digits =~= t.drop_first());
        } else {
            assert(digits =~= t);
        }
    }
    let mut value: u16 = 0;
    let mut i = start;
    while i < to
        invariant
            start <= i <= to,
            to <= b@.len(),
            to - start <= 4,
            digits == b@.subrange(start as int, to as int),
            hex_digits(b@.subrange(start as int, i as int)) is Some,
            hex_value(b@.subrange(from as int, to as int)) == hex_digits(digits),
            value == hex_digits(b@.subrange(start as int, i as int))->0,
            value < p16((i - start) as nat),
        decreases to - i,
    {
        let d = hex_digit_value(b[i]);
        proof {
            assert(b@.subrange(start as int, i + 1).drop_last() =~= b@.subrange(
                start as int,
                i as int,
            ));
        }
        match d {
            None => {
                proof {
                    assert(digits[(i - start) as int] == b@[i as int]);
                    lemma_hex_prefix_fails(digits, (i - start) as int);
                }
                return None;
            },
            Some(dv) => {
                proof {
                    let k = (i - start) as nat;
                    reveal_with_fuel(p16, 5);
                    assert(k <= 3);
                    assert(p16(k) <= 4096) by {
                        reveal_with_fuel(p16, 5);
                        if k == 0 {
                        } else if k == 1 {
                        } else if k == 2 {
                        } else {
                        }
                    }
                    assert(p16((i + 1 - start) as nat) == 16 * p16(k));
                    assert(value * 16 + dv < 16 * p16(k)) by (nonlinear_arith)
                        requires
                            value < p16(k),
                            dv < 16,
                    ;
                }
                value = value * 16 + dv;
            },
        }
        i = i + 1;
    }
    proof {
        assert(b@.subrange(start as int, to as int) =~= digits);
    }
    Some(value)
}

/// A text of digits with a non-digit at `k` has no value.
proof fn lemma_hex_prefix_fails(t: Seq<u8>, k: int)
    requires
        0 <= k < t.len(),
        hex_digit(t[k]) is None,
    ensures
        hex_digits(t) is None,
    decreases t.len(),
{
    if k < t.len() - 1 {
        lemma_hex_prefix_fails(t.drop_last(), k);
    }
}

impl AddrMode {
    /// Converts a text of the form `#$08` or `($ABCD),Y` to the addressing
    /// mode it selects.
    pub fn from_str(s: &str) -> (r: Result<AddrMode, ParseAddrModeError>)
        ensures
            match mode_of(s.spec_bytes()) {
                Some(m) => r == Ok::<AddrMode, ParseAddrModeError>(m),
                None => r is Err && r->Err_0.s@ == s@,
            },
    {
        let b = s.as_bytes();
        let n = b.len();
        let rp = find_byte(b, RPAREN);
        let co = find_byte(b, COMMA);
        let starts_dollar = is_byte(b, 0, DOLLAR);
        let starts_hash = is_byte(b, 0, HASH) && is_byte(b, 1, DOLLAR);
        let dollar = starts_dollar && n >= 2 && b[1] != LPAREN;
        let paren = is_byte(b, 0, LPAREN) && is_byte(b, 1, DOLLAR);
        let idx_x = rp.is_none() && match co {
            Some(c) => is_byte(b, c + 1, UPPER_X),
            None => false,
        };
        let idx_y = rp.is_none() && match co {
            Some(c) => is_byte(b, c + 1, UPPER_Y),
            None => false,
        };
        let co_lt_rp = match (co, rp) {
            (Some(c), Some(r)) => c < r,
            _ => false,
        };
        let co_gt_rp = match (co, rp) {
            (Some(c), Some(r)) => c > r,
            _ => false,
        };
        proof {
            let bs = s.spec_bytes();
            assert(b@ == bs);
            assert(n == bs.len());
            assert(dollar == is_dollar(bs));
            assert(paren == is_paren(bs));
            assert(starts_dollar == (nth(bs, 0) == Some(DOLLAR)));
            assert(starts_hash == (nth(bs, 0) == Some(HASH) && nth(bs, 1) == Some(DOLLAR)));
            assert(idx_x == indexed_by(bs, UPPER_X));
            assert(idx_y == indexed_by(bs, UPPER_Y));
            assert(rp.is_none() == (find(bs, RPAREN) is None));
            assert(co.is_none() == (find(bs, COMMA) is None));
            assert(co_lt_rp == (find(bs, RPAREN) is Some && find(bs, COMMA) is Some && find(
                bs,
                COMMA,
            )->0 < find(bs, RPAREN)->0));
            assert(co_gt_rp == (find(bs, RPAREN) is Some && find(bs, COMMA) is Some && find(
                bs,
                COMMA,
            )->0 > find(bs, RPAREN)->0));
        }
        if dollar && rp.is_none() && co.is_none() && n == 5 {
            Ok(AddrMode::Absolute)
        } else if paren && co_lt_rp && n == 9 {
            Ok(AddrMode::AbsoluteIndexedIndirect)
        } else if starts_dollar && n >= 2 && idx_x && n == 7 {
            Ok(AddrMode::AbsoluteIndexedWithX)
        } else if starts_dollar && n >= 2 && idx_y && n == 7 {
            Ok(AddrMode::AbsoluteIndexedWithY)
        } else if paren && rp.is_some() && co.is_none() && n == 7 {
            Ok(AddrMode::AbsoluteIndirect)
        } else if starts_hash && rp.is_none() && co.is_none() {
            Ok(AddrMode::Immediate)
        } else if dollar && rp.is_none() && co.is_none() && n == 3 {
            Ok(AddrMode::ZeroPage)
        } else if paren && co_lt_rp && n == 7 {
            Ok(AddrMode::ZeroPageIndexedIndirect)
        } else if starts_dollar && n >= 2 && idx_x && n == 5 {
            Ok(AddrMode::ZeroPageIndexedWithX)
        } else if starts_dollar && n >= 2 && idx_y && n == 5 {
            Ok(AddrMode::ZeroPageIndexedWithY)
        } else if paren && rp.is_some() && co.is_none() && n == 5 {
            Ok(AddrMode::ZeroPageIndirect)
        } else if paren && co_gt_rp && n == 7 {
            Ok(AddrMode::ZeroPageIndirectIndexedWithY)
        } else if n == 3 {
            Ok(AddrMode::Implied)
        } else {
            Err(ParseAddrModeError { s: s.to_owned() })
        }
    }
}

impl AddrModeWithAddr {
    /// Converts a text of the form `#$08` or `($ABCD),Y` to the addressing
    /// mode it selects and the argument it gives.
    pub fn from_str(s: &str) -> (r: Result<AddrModeWithAddr, ParseAddrModeError>)
        requires
            slices_ok(s.spec_bytes()),
        ensures
            match arm_of(s.spec_bytes()) {
                Some((m, a, e, size)) => match hex_value(s.spec_bytes().subrange(a, e)) {
                    Some(v) => r == Ok::<AddrModeWithAddr, ParseAddrModeError>(
                        AddrModeWithAddr { mode: m, arg: v as u16, arg_size: size },
                    ),
                    None => r is Err && r->Err_0.s@ == invalid_digit_message(),
                },
                None => r is Err && r->Err_0.s@ == s@,
            },
    {
        let b = s.as_bytes();
        let n = b.len();
        let rp = find_byte(b, RPAREN);
        let co = find_byte(b, COMMA);
        let starts_dollar = is_byte(b, 0, DOLLAR);
        let starts_hash = is_byte(b, 0, HASH) && is_byte(b, 1, DOLLAR);
        let dollar = starts_dollar && n >= 2 && b[1] != LPAREN;
        let paren = is_byte(b, 0, LPAREN) && is_byte(b, 1, DOLLAR);
        let idx_x = rp.is_none() && match co {
            Some(c) => is_byte(b, c + 1, UPPER_X),
            None => false,
        };
        let idx_y = rp.is_none() && match co {
            Some(c) => is_byte(b, c + 1, UPPER_Y),
            None => false,
        };
        let co_lt_rp = match (co, rp) {
            (Some(c), Some(r)) => c < r,
            _ => false,
        };
        let co_gt_rp = match (co, rp) {
            (Some(c), Some(r)) => c > r,
            _ => false,
        };
        proof {
            let bs = s.spec_bytes();
            assert(b@ == bs);
            assert(n == bs.len());
            assert(dollar == is_dollar(bs));
            assert(paren == is_paren(bs));
            assert(starts_dollar == (nth(bs, 0) == Some(DOLLAR)));
            assert(starts_hash == (nth(bs, 0) == Some(HASH) && nth(bs, 1) == Some(DOLLAR)));
            assert(idx_x == indexed_by(bs, UPPER_X));
            assert(idx_y == indexed_by(bs, UPPER_Y));
            assert(rp.is_none() == (find(bs, RPAREN) is None));
            assert(co.is_none() == (find(bs, COMMA) is None));
            assert(co_lt_rp == (find(bs, RPAREN) is Some && find(bs, COMMA) is Some && find(
                bs,
                COMMA,
            )->0 < find(bs, RPAREN)->0));
            assert(co_gt_rp == (find(bs, RPAREN) is Some && find(bs, COMMA) is Some && find(
                bs,
                COMMA,
            )->0 > find(bs, RPAREN)->0));
        }
        let sel: Option<(AddrMode, usize, usize, u8)> = if dollar && rp.is_none() && co.is_none()
            && n == 5 {
            Some((AddrMode::Absolute, 1, 5, 2))
        } else if paren && co_lt_rp && n == 9 {
            Some((AddrMode::AbsoluteIndexedIndirect, 2, 6, 2))
        } else if starts_dollar && n >= 2 && idx_x && n == 7 {
            Some((AddrMode::AbsoluteIndexedWithX, 1, 5, 2))
        } else if starts_dollar && n >= 2 && idx_y && n == 7 {
            Some((AddrMode::AbsoluteIndexedWithY, 1, 5, 2))
        } else if paren && rp.is_some() && co.is_none() && n == 7 {
            Some((AddrMode::AbsoluteIndirect, 2, 6, 2))
        } else if starts_hash && rp.is_none() && co.is_none() {
            Some((AddrMode::Immediate, 2, 4, 1))
        } else if dollar && rp.is_none() && co.is_none() && n == 3 {
            Some((AddrMode::ZeroPage, 1, 3, 1))
        } else if paren && co_lt_rp && n == 7 {
            Some((AddrMode::ZeroPageIndexedIndirect, 2, 4, 1))
        } else if starts_dollar && n >= 2 && idx_x && n == 5 {
            Some((AddrMode::ZeroPageIndexedWithX, 1, 3, 1))
        } else if starts_dollar && n >= 2 && idx_y && n == 5 {
            Some((AddrMode::ZeroPageIndexedWithY, 1, 3, 1))
        } else if paren && rp.is_some() && co.is_none() && n == 5 {
            Some((AddrMode::ZeroPageIndirect, 2, 4, 1))
        } else if paren && co_gt_rp && n == 7 {
            Some((AddrMode::ZeroPageIndirectIndexedWithY, 2, 4, 1))
        } else {
            None
        };
        match sel {
            None => Err(ParseAddrModeError { s: s.to_owned() }),
            Some((mode, from, to, arg_size)) => match parse_hex(b, from, to) {
                Some(arg) => Ok(AddrModeWithAddr { mode, arg, arg_size }),
                None => {
                    let msg = String::from_str("ParseIntError occurred: invalid digit found in string");
                    Err(ParseAddrModeError { s: msg })
                },
            },
        }
    }
}

} // verus!
