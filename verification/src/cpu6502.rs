pub mod acia;
pub mod cpu;
pub mod device;
pub mod memory;
pub mod model;

use vstd::prelude::*;

use crate::cpu6502::cpu::{
    add16, add8, lemma_put, put, CpuState, StatusFlag, CPU, DECIMAL, IRQ_DISABLE, NEGATIVE, ZERO,
};
use crate::cpu6502::memory::Memory;
use crate::cpu6502::model::addr_mode::{AddrMode, CpuBusTransfer, Mach};
use crate::cpu6502::memory::{
    lemma_accepts_all_after_load, lemma_accepts_all_after_store, lemma_peek_load, lemma_plain_load,
    lemma_routing_kept, lemma_store_elsewhere, lemma_store_load, hi_byte, lo_byte,
};
use crate::cpu6502::model::instruction::Instruction;
use crate::cpu6502::model::addr_mode::{lemma_push_pull_addr, stack_addr};
use crate::cpu6502::model::semantics::{
    hi_byte_of, lemma_loads_keep, lemma_rti_pulls, lo_byte_of,
    lemma_run_instruction_ok, lemma_run_load_ok, lemma_run_store_ok, lemma_run_instruction_accepted,
    lemma_run_load_accepted, lemma_run_store_accepted, pointer_ok,
};
use crate::cpu6502::model::{decode, instruction_and_mode};

verus! {

impl Mach {
    /// An interrupt request: unless interrupts are disabled, the return
    /// address and the status are pushed, interrupts are disabled, decimal
    /// mode is cleared and the handler at the vector 0xfffe is entered. The
    /// request is cleared either way.
    pub open spec fn interrupt(self) -> Mach {
        let m = if !self.cpu.flag(IRQ_DISABLE) {
            let m1 = self.stack_push_pc(2).stack_push_flags();
            let st = (m1.cpu.st | IRQ_DISABLE) & !DECIMAL;
            m1.rd_word(0xfffe).with_cpu(
                CpuState { st: st, pc: m1.word(0xfffe), cycles: 7, ..m1.cpu },
            )
        } else {
            self
        };
        m.with_cpu(CpuState { irq: false, ..m.cpu })
    }

    /// The first cycle of an instruction: the opcode at the program counter
    /// is fetched and decoded, and the instruction runs to completion.
    pub open spec fn execute(self) -> Mach {
        let pc = self.cpu.pc;
        let (inst, mode) = decode(self.val(pc));
        let m = self.rd(pc).with_cpu(CpuState { cycles: 0, ..self.cpu }).run_load(
            inst,
            mode,
        ).run_instruction(inst).run_store(inst, mode);
        m.with_cpu(CpuState { cycle: 1, ..m.cpu })
    }

    /// One clock step: seven steps of reset, then for each instruction one
    /// step that runs it and one step for each further cycle it takes; a
    /// pending interrupt is served between instructions.
    pub open spec fn step(self) -> Mach {
        let c = self.cpu;
        if c.reset && c.cycle != 7 {
            Mach {
                cpu: CpuState { cycle: (c.cycle + 1) as u8, ..c },
                ok: self.ok && c.cycle < 255,
                ..self
            }
        } else {
            let s = if c.reset {
                self.with_cpu(CpuState { reset: false, cycle: 0, ..c })
            } else {
                self
            };
            let c1 = s.cpu;
            if c1.cycle == 0 && c1.irq {
                s.interrupt()
            } else if c1.cycle == 0 {
                s.execute()
            } else if c1.cycles == 0 {
                Mach { ok: false, ..s }
            } else if c1.cycle == c1.cycles - 1 {
                s.with_cpu(CpuState { cycle: 0, ..c1 })
            } else {
                Mach {
                    cpu: CpuState { cycle: (c1.cycle + 1) as u8, ..c1 },
                    ok: s.ok && c1.cycle < 255,
                    ..s
                }
            }
        }
    }
}

impl Mach {
    /// Whether the next clock step can be checked to succeed before it is
    /// taken, on a memory that accepts every access: the cycle counters do
    /// not run out, and when an instruction is fetched its opcode (and for
    /// `(abs)` and `(abs,X)` its argument) can be read without changing
    /// anything, and the word it jumps through does not sit at 0xffff.
    pub open spec fn step_ready(self) -> bool {
        let c = self.cpu;
        if c.reset && c.cycle != 7 {
            c.cycle < 255
        } else {
            let c1 = if c.reset {
                CpuState { reset: false, cycle: 0, ..c }
            } else {
                c
            };
            if c1.cycle == 0 && c1.irq {
                true
            } else if c1.cycle == 0 {
                let pc = c1.pc;
                let mode = decode(self.mem.load(pc)).1;
                &&& self.mem.peekable(pc)
                &&& (mode == AddrMode::AbsoluteIndirect || mode == AddrMode::AbsoluteIndexedIndirect)
                    ==> {
                    let p = (self.mem.load(add16(pc, 1)) + 256 * self.mem.load(add16(pc, 2))) as u16;
                    let q = if mode == AddrMode::AbsoluteIndexedIndirect {
                        add16(p, c1.x as int)
                    } else {
                        p
                    };
                    &&& self.mem.peekable(add16(pc, 1))
                    &&& self.mem.peekable(add16(pc, 2))
                    &&& q != 0xffff
                }
            } else if c1.cycles == 0 {
                false
            } else {
                c1.cycle == c1.cycles - 1 || c1.cycle < 255
            }
        }
    }
}

/// On a memory that accepts every access, a step that `step_ready` admits
/// succeeds, and the memory still accepts every access after it.
pub proof fn lemma_step_ready(m: Mach)
    requires
        m.ok,
        m.mem.accepts_all(),
        m.step_ready(),
    ensures
        m.step().ok,
        m.step().mem.accepts_all(),
{
    broadcast use lemma_accepts_all_after_load, lemma_accepts_all_after_store;
    let c = m.cpu;
    if !(c.reset && c.cycle != 7) {
        let s = if c.reset {
            m.with_cpu(CpuState { reset: false, cycle: 0, ..c })
        } else {
            m
        };
        let c1 = s.cpu;
        if c1.cycle == 0 && !c1.irq {
            let pc = c1.pc;
            let (inst, mode) = decode(s.val(pc));
            lemma_peek_load(m.mem, pc);
            let m0 = s.rd(pc).with_cpu(CpuState { cycles: 0, ..s.cpu });
            assert(m0.mem == m.mem);
            if mode == AddrMode::AbsoluteIndirect || mode == AddrMode::AbsoluteIndexedIndirect {
                lemma_peek_load(m.mem, add16(pc, 1));
                lemma_peek_load(m.mem, add16(pc, 2));
                assert(m0.load_addr_arg().mem == m.mem);
            }
            assert(pointer_ok(m0, mode));
            lemma_run_load_accepted(m0, inst, mode);
            let m1 = m0.run_load(inst, mode);
            lemma_run_instruction_accepted(m1, inst);
            let m2 = m1.run_instruction(inst);
            lemma_run_store_accepted(m2, inst, mode);
        }
    }
}

/// An interrupt request is only cleared while interrupts are disabled.
/// Otherwise the return address and the status are pushed (the stack
/// pointer moves down three bytes), interrupts are disabled, decimal mode is
/// cleared and the handler whose address is stored at 0xfffe is entered.
pub proof fn lemma_interrupt_entry(m: Mach)
    requires
        m.mem.ram.len() == 0x10000,
        m.mem.is_plain(0xfffe),
        m.mem.is_plain(0xffff),
    ensures
        m.cpu.flag(IRQ_DISABLE) ==> m.interrupt() == m.with_cpu(CpuState { irq: false, ..m.cpu }),
        !m.cpu.flag(IRQ_DISABLE) ==> ({
            let i = m.interrupt();
            &&& i.cpu.pc == m.mem.load(0xfffe) + 256 * m.mem.load(0xffff)
            &&& i.cpu.flag(IRQ_DISABLE)
            &&& !i.cpu.flag(DECIMAL)
            &&& !i.cpu.irq
            &&& i.cpu.sp == add8(m.cpu.sp, -3)
        }),
{
    if !m.cpu.flag(IRQ_DISABLE) {
        let p0 = m.set_tmp_addr(add16(m.cpu.pc, 2));
        let a = (0x100 + add8(p0.cpu.sp, -1)) as u16;
        let w = p0.cpu.tmp_addr;
        lemma_store_elsewhere(p0.mem, a, lo_byte(w), 0xfffe);
        lemma_store_elsewhere(p0.mem, a, lo_byte(w), 0xffff);
        let mem1 = p0.mem.store(a, lo_byte(w));
        lemma_store_elsewhere(mem1, add16(a, 1), hi_byte(w), 0xfffe);
        lemma_store_elsewhere(mem1, add16(a, 1), hi_byte(w), 0xffff);
        let p1 = m.stack_push_pc(2);
        assert(p1.mem == mem1.store(add16(a, 1), hi_byte(w)));
        let f = (0x100 + p1.cpu.sp) as u16;
        lemma_store_elsewhere(p1.mem, f, m.cpu.st, 0xfffe);
        lemma_store_elsewhere(p1.mem, f, m.cpu.st, 0xffff);
        let m1 = p1.stack_push_flags();
        lemma_plain_load(m1.mem, 0xfffe);
        let st = m.cpu.st;
        lemma_put(st, IRQ_DISABLE, true, DECIMAL);
        lemma_put(put(st, IRQ_DISABLE, true), DECIMAL, false, IRQ_DISABLE);
        lemma_put(put(st, IRQ_DISABLE, true), DECIMAL, false, DECIMAL);
        lemma_put(st, IRQ_DISABLE, true, IRQ_DISABLE);
    }
}

/// An interrupt request followed by RTI comes back to two bytes after the
/// interrupted instruction with the status register and the stack pointer
/// restored, when interrupts were enabled and the three stack bytes used are
/// plain memory; the request is cleared.
pub proof fn lemma_irq_rti(m: Mach)
    requires
        m.mem.ram.len() == 0x10000,
        !m.cpu.flag(IRQ_DISABLE),
        m.mem.is_plain(stack_addr(add8(m.cpu.sp, -1))),
        m.mem.is_plain(add16(stack_addr(add8(m.cpu.sp, -1)), 1)),
        m.mem.is_plain(stack_addr(add8(m.cpu.sp, -2))),
    ensures
        ({
            let i = m.interrupt();
            let r = i.run_instruction(Instruction::RTI);
            &&& !i.cpu.irq
            &&& i.cpu.flag(IRQ_DISABLE)
            &&& r.cpu.pc == add16(m.cpu.pc, 2)
            &&& r.cpu.st == m.cpu.st
            &&& r.cpu.sp == m.cpu.sp
            &&& r.ok == i.ok
        }),
{
    let a = stack_addr(add8(m.cpu.sp, -1));
    let a1 = add16(a, 1);
    let f = stack_addr(add8(m.cpu.sp, -2));
    let w = add16(m.cpu.pc, 2);
    lemma_push_pull_addr(m, w);
    let p = m.set_tmp_addr(w).stack_push_addr();
    lemma_plain_load(p.mem, a);
    lemma_plain_load(p.mem, a1);
    assert(p.mem.ram[a as int] + 256 * p.mem.ram[a1 as int] == w) by {
        assert(stack_addr(add8(p.cpu.sp, 1)) == a);
    }
    assert(p.mem.is_plain(f)) by {
        lemma_routing_kept(m.mem, a, lo_byte_of(w), f);
        lemma_routing_kept(m.mem.store(a, lo_byte_of(w)), a1, hi_byte_of(w), f);
    }
    assert(p.mem.is_plain(a) && p.mem.is_plain(a1)) by {
        lemma_routing_kept(m.mem, a, lo_byte_of(w), a1);
        lemma_routing_kept(m.mem.store(a, lo_byte_of(w)), a1, hi_byte_of(w), a);
    }
    lemma_store_load(p.mem, f, m.cpu.st, a);
    lemma_store_load(p.mem, f, m.cpu.st, a1);
    let p2 = p.set_tmp0(m.cpu.st).stack_push_byte();
    lemma_loads_keep(p2, 0xfffe, a);
    lemma_loads_keep(p2, 0xfffe, a1);
    lemma_loads_keep(p2, 0xfffe, f);
    let v = p2.rd(0xfffe);
    lemma_loads_keep(v, 0xffff, a);
    lemma_loads_keep(v, 0xffff, a1);
    lemma_loads_keep(v, 0xffff, f);
    let st = m.cpu.st;
    assert(((st | 4u8) & !8u8) & 4u8 != 0) by (bit_vector);
    let i = m.interrupt();
    assert(add8(i.cpu.sp, 1) == add8(m.cpu.sp, -2));
    assert(add8(i.cpu.sp, 2) == add8(m.cpu.sp, -1));
    assert(add8(i.cpu.sp, 3) == m.cpu.sp);
    lemma_rti_pulls(i, m.cpu.st, w);
}

impl Mach {
    /// The machine after `k` clock steps.
    pub open spec fn steps(self, k: nat) -> Mach
        decreases k,
    {
        if k == 0 {
            self
        } else {
            self.step().steps((k - 1) as nat)
        }
    }
}

/// Between instructions, the steps after the first only count cycles: from
/// cycle `c` of an instruction of `n` cycles, `k` more steps (up to the last
/// cycle) leave everything as it was but the cycle count.
proof fn lemma_counting_steps(m: Mach, k: nat)
    requires
        !m.cpu.reset,
        1 <= m.cpu.cycle,
        m.cpu.cycle + k <= m.cpu.cycles - 1,
    ensures
        m.steps(k) == (Mach { cpu: CpuState { cycle: (m.cpu.cycle + k) as u8, ..m.cpu }, ..m }),
    decreases k,
{
    if k > 0 {
        let m1 = m.step();
        assert(m1 == (Mach { cpu: CpuState { cycle: (m.cpu.cycle + 1) as u8, ..m.cpu }, ..m }));
        lemma_counting_steps(m1, (k - 1) as nat);
    }
}

/// An instruction takes as many steps as its cycle count: the first step
/// runs the whole instruction and starts counting at cycle 1, the following
/// steps up to the last only count cycles, and the step after that ends the
/// instruction at cycle 0, so that the next one is fetched on the step after.
pub proof fn lemma_instruction_steps(m: Mach)
    requires
        m.ok,
        !m.cpu.reset,
        !m.cpu.irq,
        m.cpu.cycle == 0,
        m.execute().ok,
        m.execute().cpu.cycles >= 2,
    ensures
        ({
            let e = m.execute();
            let n = e.cpu.cycles;
            &&& m.step() == e
            &&& e.cpu.cycle == 1
            &&& m.steps((n - 1) as nat) == (Mach {
                cpu: CpuState { cycle: (n - 1) as u8, ..e.cpu },
                ..e
            })
            &&& m.steps(n as nat) == (Mach { cpu: CpuState { cycle: 0, ..e.cpu }, ..e })
        }),
{
    let e = m.execute();
    let n = e.cpu.cycles;
    let pc = m.cpu.pc;
    let (inst, mode) = decode(m.val(pc));
    let m0 = m.rd(pc).with_cpu(CpuState { cycles: 0, ..m.cpu });
    lemma_run_load_ok(m0, inst, mode);
    lemma_run_instruction_ok(m0.run_load(inst, mode), inst);
    lemma_run_store_ok(m0.run_load(inst, mode).run_instruction(inst), inst, mode);
    assert(!e.cpu.reset);
    assert(m.step() == e);
    assert(m.steps(1) == e) by {
        reveal_with_fuel(Mach::steps, 2);
    }
    lemma_counting_steps(e, (n - 2) as nat);
    lemma_steps_split(m, 1, (n - 2) as nat);
    let l = Mach { cpu: CpuState { cycle: (n - 1) as u8, ..e.cpu }, ..e };
    assert(l.step() == (Mach { cpu: CpuState { cycle: 0, ..e.cpu }, ..e }));
    assert(l.steps(1) == l.step()) by {
        reveal_with_fuel(Mach::steps, 2);
    }
    lemma_steps_split(m, (n - 1) as nat, 1);
}

/// Stepping `a` and then `b` times is stepping `a + b` times.
proof fn lemma_steps_split(m: Mach, a: nat, b: nat)
    ensures
        m.steps(a + b) == m.steps(a).steps(b),
    decreases a,
{
    if a > 0 {
        lemma_steps_split(m.step(), (a - 1) as nat, b);
        assert((a + b - 1) as nat == ((a - 1) as nat + b) as nat);
    }
}

proof fn lemma_negative_bit(b: u8)
    ensures
        (b & 0x80 == 0) == (b < 128),
{
    assert((b & 0x80 == 0) == (b < 128)) by (bit_vector);
}

impl CPU {
    /// The flags of comparing `reg` with `byte`.
    fn compare_and_set_flags(&mut self, reg: u8, byte: u8)
        ensures
            final(self)@ == old(self)@.compare(reg, byte),
    {
        if reg < byte {
            self.set_flag(StatusFlag::Negative);
            self.clear_flag(StatusFlag::Carry);
            self.clear_flag(StatusFlag::Zero);
        } else if reg == byte {
            self.set_flag(StatusFlag::Zero);
            self.set_flag(StatusFlag::Carry);
            self.clear_flag(StatusFlag::Negative);
        } else {
            self.set_flag(StatusFlag::Carry);
            self.clear_flag(StatusFlag::Zero);
            self.clear_flag(StatusFlag::Negative);
        }
        proof {
            let s = old(self)@.st;
            if reg == byte {
                assert(((s | 2) | 1) & !128u8 == (((s & !128u8) | 1) | 2)) by (bit_vector);
            } else if reg > byte {
                assert(((s | 1) & !2u8) & !128u8 == (((s & !128u8) | 1) & !2u8)) by (bit_vector);
            }
        }
    }

    fn check_and_set_z_flag(&mut self, byte: u8)
        ensures
            final(self)@ == old(self)@.with_flag(ZERO, byte == 0),
    {
        if byte == 0 {
            self.set_flag(StatusFlag::Zero);
        } else {
            self.clear_flag(StatusFlag::Zero);
        }
    }

    fn check_and_set_n_flag(&mut self, byte: u8)
        ensures
            final(self)@ == old(self)@.with_flag(NEGATIVE, byte >= 128),
    {
        proof {
            lemma_negative_bit(byte);
        }
        if byte & 0x80 == 0 {
            self.clear_flag(StatusFlag::Negative);
        } else {
            self.set_flag(StatusFlag::Negative);
        }
    }

    fn check_and_set_nz_flags(&mut self, byte: u8)
        ensures
            final(self)@ == old(self)@.nz(byte),
    {
        self.check_and_set_z_flag(byte);
        self.check_and_set_n_flag(byte);
    }

    fn set_or_clear_flag(&mut self, flag: StatusFlag, val: bool)
        ensures
            final(self)@ == old(self)@.with_flag(flag.mask(), val),
    {
        if val {
            self.set_flag(flag);
        } else {
            self.clear_flag(flag);
        }
    }

    fn check_and_set_or_clear_flag(&mut self, flag: StatusFlag, val: u8)
        ensures
            final(self)@ == old(self)@.with_flag(flag.mask(), val != 0),
    {
        self.set_or_clear_flag(flag, val != 0);
    }

    /// Serves a pending interrupt request.
    fn serve_interrupt(&mut self, mem: &mut Memory)
        requires
            old(mem).wf(),
            (Mach { cpu: old(self)@, mem: old(mem)@, ok: true }).interrupt().ok,
        ensures
            final(mem).wf(),
            (Mach { cpu: final(self)@, mem: final(mem)@, ok: true }) == (Mach {
                cpu: old(self)@,
                mem: old(mem)@,
                ok: true,
            }).interrupt(),
            final(self).status_line@ == old(self).status_line@,
    {
        if self.is_clear(StatusFlag::IRQDisable) {
            let mut line = String::new();
            std::mem::swap(&mut line, &mut self.status_line);
            let mut c = CPU::new();
            std::mem::swap(&mut c, self);
            let mut m = Memory::placeholder();
            std::mem::swap(&mut m, mem);
            let mut bus_transfer = CpuBusTransfer::new(c, m);
            bus_transfer.stack_push_pc(2);
            bus_transfer.stack_push_flags();
            bus_transfer.cpu.set_flag(StatusFlag::IRQDisable);
            bus_transfer.cpu.clear_flag(StatusFlag::Decimal);
            bus_transfer.cpu.pc = bus_transfer.mem.load_memory_word(0xfffe);
            bus_transfer.cpu.cycles = 7;
            let (c2, m2) = bus_transfer.into_parts();
            *self = c2;
            *mem = m2;
            self.status_line = line;
        }
        self.irq = false;
    }

    /// Fetches, decodes and runs the instruction at the program counter.
    #[verifier::spinoff_prover]
    fn execute(&mut self, mem: &mut Memory)
        requires
            old(mem).wf(),
            old(self).cycle == 0,
            (Mach { cpu: old(self)@, mem: old(mem)@, ok: true }).execute().ok,
        ensures
            final(mem).wf(),
            (Mach { cpu: final(self)@, mem: final(mem)@, ok: true }) == (Mach {
                cpu: old(self)@,
                mem: old(mem)@,
                ok: true,
            }).execute(),
            final(self).status_line@ == old(self).status_line@,
    {
        let ghost m0 = Mach { cpu: self@, mem: mem@, ok: true };
        let ghost op = m0.val(m0.cpu.pc);
        let ghost m1 = m0.rd(m0.cpu.pc).with_cpu(CpuState { cycles: 0, ..m0.cpu });
        proof {
            let (i, md) = decode(op);
            lemma_run_store_ok(m1.run_load(i, md).run_instruction(i), i, md);
            lemma_run_instruction_ok(m1.run_load(i, md), i);
            lemma_run_load_ok(m1, i, md);
        }
        let opcode = mem.load_memory_byte(self.pc);
        let (inst, mode) = instruction_and_mode(opcode);
        self.cycles = 0;
        let mut line = String::new();
        std::mem::swap(&mut line, &mut self.status_line);
        let mut c = CPU::new();
        std::mem::swap(&mut c, self);
        let mut m = Memory::placeholder();
        std::mem::swap(&mut m, mem);
        let mut bus_transfer = CpuBusTransfer::new(c, m);
        bus_transfer.run_load(inst, mode);
        bus_transfer.run_instruction(inst);
        bus_transfer.run_store(inst, mode);
        let (c2, m2) = bus_transfer.into_parts();
        *self = c2;
        *mem = m2;
        self.status_line = line;
        self.cycle = self.cycle + 1;
    }

    /// Advances the CPU by one clock cycle, with `mem` as its address space.
    /// Whether the next step is one that `step_ready` admits, so that on a
    /// memory that accepts every access it is sure to succeed.
    pub fn ready_to_step(&self, mem: &Memory) -> (r: bool)
        requires
            mem.wf(),
        ensures
            r == (Mach { cpu: self@, mem: mem@, ok: true }).step_ready(),
    {
        if self.reset && self.cycle != 7 {
            return self.cycle < 255;
        }
        let cycle = if self.reset { 0 } else { self.cycle };
        if cycle == 0 && self.irq {
            true
        } else if cycle == 0 {
            let pc = self.pc;
            match mem.peek(pc) {
                None => false,
                Some(opcode) => {
                    let (_, mode) = instruction_and_mode(opcode);
                    match mode {
                        AddrMode::AbsoluteIndirect | AddrMode::AbsoluteIndexedIndirect => {
                            match (mem.peek(pc.wrapping_add(1)), mem.peek(pc.wrapping_add(2))) {
                                (Some(lo), Some(hi)) => {
                                    let p: u16 = lo as u16 + 256 * hi as u16;
                                    let q = match mode {
                                        AddrMode::AbsoluteIndexedIndirect => p.wrapping_add(self.x as u16),
                                        _ => p,
                                    };
                                    q != 0xffff
                                },
                                _ => false,
                            }
                        },
                        _ => true,
                    }
                },
            }
        } else if self.cycles == 0 {
            false
        } else {
            cycle == self.cycles - 1 || cycle < 255
        }
    }

    /// Takes the next step when `ready_to_step` admits it and returns true;
    /// otherwise changes nothing and returns false. The memory must accept
    /// every access (see `Memory::accepts_every_access`), and still does
    /// afterwards, so that a check at start-up covers every later step.
    pub fn step_checked(&mut self, mem: &mut Memory) -> (r: bool)
        requires
            old(mem).wf(),
            old(mem)@.accepts_all(),
        ensures
            final(mem).wf(),
            final(mem)@.accepts_all(),
            r == (Mach { cpu: old(self)@, mem: old(mem)@, ok: true }).step_ready(),
            r ==> (Mach { cpu: final(self)@, mem: final(mem)@, ok: true }) == (Mach {
                cpu: old(self)@,
                mem: old(mem)@,
                ok: true,
            }).step(),
            !r ==> final(self)@ == old(self)@ && final(mem)@ == old(mem)@,
            final(self).status_line@ == old(self).status_line@,
    {
        if !self.ready_to_step(mem) {
            return false;
        }
        proof {
            lemma_step_ready(Mach { cpu: self@, mem: mem@, ok: true });
        }
        self.step(mem);
        true
    }

    pub fn step(&mut self, mem: &mut Memory)
        requires
            old(mem).wf(),
            (Mach { cpu: old(self)@, mem: old(mem)@, ok: true }).step().ok,
        ensures
            final(mem).wf(),
            (Mach { cpu: final(self)@, mem: final(mem)@, ok: true }) == (Mach {
                cpu: old(self)@,
                mem: old(mem)@,
                ok: true,
            }).step(),
            final(self).status_line@ == old(self).status_line@,
    {
        if self.reset {
            if self.cycle == 7 {
                self.reset = false;
                self.cycle = 0;
            } else {
                self.cycle = self.cycle + 1;
                return ;
            }
        }
        if self.cycle == 0 && self.irq {
            self.serve_interrupt(mem);
            return ;
        }
        if self.cycle == 0 {
            self.execute(mem);
        } else if self.cycle == self.cycles - 1 {
            self.cycle = 0;
        } else {
            self.cycle = self.cycle + 1;
        }
    }
}

} // verus!
