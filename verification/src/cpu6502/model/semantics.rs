use vstd::prelude::*;

use crate::cpu6502::cpu::{
    add8, lemma_put, put, signed, CpuState, BRK, CARRY, DECIMAL, IRQ_DISABLE, NEGATIVE, OVERFLOW,
    ZERO,
};
use crate::cpu6502::cpu::{add16, lemma_mask_bits};
use crate::cpu6502::memory::{
    lemma_accepts_all_after_load, lemma_accepts_all_after_store, lemma_plain_load, lemma_routing_kept,
    lemma_store_load,
};
use crate::cpu6502::model::addr_mode::{
    lemma_push_pull_addr, page, stack_addr, AddrMode, Mach,
};
use crate::cpu6502::model::instruction::Instruction;
use crate::cpu6502::model::{arg_len, inst_len};

verus! {

/// Adding `x` and `y` gave `r` with a signed overflow: both operands have the
/// same sign and the result the other one.
pub open spec fn add_overflow(x: u8, y: u8, r: u8) -> bool {
    (x >= 128) == (y >= 128) && (r >= 128) != (x >= 128)
}

/// Subtracting `y` from `x` gave `r` with a signed overflow: the operands
/// have different signs and the result the sign of `y`.
pub open spec fn sub_overflow(x: u8, y: u8, r: u8) -> bool {
    (x >= 128) != (y >= 128) && (r >= 128) != (x >= 128)
}

/// The instructions that store a register.
pub open spec fn is_store(inst: Instruction) -> bool {
    inst == Instruction::STA || inst == Instruction::STX || inst == Instruction::STY || inst
        == Instruction::STZ
}

/// The read-modify-write instructions, which write their result back.
pub open spec fn is_rmw(inst: Instruction) -> bool {
    inst == Instruction::ASL || inst == Instruction::DEC || inst == Instruction::INC || inst
        == Instruction::LSR || inst == Instruction::ROL || inst == Instruction::ROR
}

impl CpuState {
    /// Add with carry: the accumulator plus the operand plus the carry, in
    /// two additions; overflow when either addition overflows, carry when the
    /// result is below the old accumulator.
    pub open spec fn adc(self) -> CpuState {
        let a = self.a;
        let b = self.tmp0;
        let s = add8(a, b as int);
        let d: u8 = if self.flag(CARRY) {
            1
        } else {
            0
        };
        let r = add8(s, d as int);
        CpuState { a: r, ..self }.with_flag(
            OVERFLOW,
            add_overflow(a, b, s) || add_overflow(s, d, r),
        ).with_flag(CARRY, r < a).nz(r)
    }

    /// Subtract with borrow: the accumulator minus the operand minus the
    /// inverted carry; carry when no borrow occurred.
    pub open spec fn sbc(self) -> CpuState {
        let a = self.a;
        let b = self.tmp0;
        let d: int = if self.flag(CARRY) {
            0
        } else {
            1
        };
        let r = add8(a, -(b + d));
        CpuState { a: r, ..self }.with_flag(OVERFLOW, sub_overflow(a, b, r)).with_flag(
            CARRY,
            a >= b + d,
        ).nz(r)
    }
}

impl Mach {
    /// The operand fetch of an instruction in `mode` (the address only, for
    /// the stores), then the mode's base cycle count.
    #[verifier::opaque]
    pub open spec fn run_load(self, inst: Instruction, mode: AddrMode) -> Mach {
        let m = if is_store(inst) {
            match mode {
                AddrMode::Absolute => self.load_addr_arg(),
                AddrMode::AbsoluteIndexedIndirect => self.load_absolute_indexed_indirect_addr(),
                AddrMode::AbsoluteIndexedWithX => self.load_absolute_indexed_with_x_addr(),
                AddrMode::AbsoluteIndexedWithY => self.load_absolute_indexed_with_y_addr(),
                AddrMode::AbsoluteIndirect => self.load_absolute_indirect_addr(),
                AddrMode::ZeroPage => self.load_zp_arg(),
                AddrMode::ZeroPageIndexedIndirect => self.load_zp_indexed_indirect_addr(),
                AddrMode::ZeroPageIndexedWithX => self.load_zp_indexed_with_x_addr(),
                AddrMode::ZeroPageIndexedWithY => self.load_zp_indexed_with_y_addr(),
                AddrMode::ZeroPageIndirect => self.load_zp_indirect_addr(),
                AddrMode::ZeroPageIndirectIndexedWithY => self.load_zp_indirect_indexed_with_y_addr(),
                _ => self.load_operand(mode),
            }
        } else {
            self.load_operand(mode)
        };
        m.add_cycles(mode.cycles() as int)
    }

    /// The operand byte of an instruction in `mode`, into tmp[0].
    pub open spec fn load_operand(self, mode: AddrMode) -> Mach {
        match mode {
            AddrMode::Absolute => self.load_absolute_byte(),
            AddrMode::AbsoluteIndexedIndirect => self.load_absolute_indexed_indirect_byte(),
            AddrMode::AbsoluteIndexedWithX => self.load_absolute_indexed_with_x_byte(),
            AddrMode::AbsoluteIndexedWithY => self.load_absolute_indexed_with_y_byte(),
            AddrMode::AbsoluteIndirect => self.load_absolute_indirect_byte(),
            AddrMode::Accumulator => self.set_tmp0(self.cpu.a),
            AddrMode::Immediate => self.load_byte_arg(),
            AddrMode::Implied => self,
            AddrMode::Relative => self,
            AddrMode::ZeroPage => self.load_zp_byte(),
            AddrMode::ZeroPageIndexedIndirect => self.load_zp_indexed_indirect_byte(),
            AddrMode::ZeroPageIndexedWithX => self.load_zp_indexed_with_x_byte(),
            AddrMode::ZeroPageIndexedWithY => self.load_zp_indexed_with_y_byte(),
            AddrMode::ZeroPageIndirect => self.load_zp_indirect_byte(),
            AddrMode::ZeroPageIndirectIndexedWithY => self.load_zp_indirect_indexed_with_y_byte(),
            AddrMode::ZeroPageRelative => self.load_zp_byte(),
        }
    }

    /// BRK: with the break flag already set it skips its signature byte;
    /// otherwise it pushes the return address and the status, sets the break
    /// and interrupt-disable flags, clears decimal mode and jumps through the
    /// vector at 0xfffe.
    pub open spec fn brk(self) -> Mach {
        if self.cpu.flag(BRK) {
            self.inc_pc(2)
        } else {
            let m = self.stack_push_pc(2).stack_push_flags();
            let st = (m.cpu.st | BRK | IRQ_DISABLE) & !DECIMAL;
            m.rd_word(0xfffe).with_cpu(
                CpuState { st: st, pc: m.word(0xfffe), cycles: 7, ..m.cpu },
            )
        }
    }

    /// What an instruction does once its operand is loaded: tmp[0] holds the
    /// operand (or, for branches, whether to take them) and tmp_addr the
    /// effective address.
    #[verifier::opaque]
    pub open spec fn run_instruction(self, inst: Instruction) -> Mach {
        let c = self.cpu;
        let t = c.tmp0;
        match inst {
            Instruction::ADC => self.with_cpu(c.adc()),
            Instruction::AND => self.with_cpu(CpuState { a: c.a & t, ..c }.nz(c.a & t)),
            Instruction::ASL => {
                let r = ((t * 2) % 256) as u8;
                self.with_cpu(CpuState { tmp0: r, ..c.with_flag(CARRY, t >= 128) }.nz(r))
            },
            Instruction::BBR0 => self.set_tmp0(!(t & 0x01u8)),
            Instruction::BBR1 => self.set_tmp0(!(t & 0x02u8)),
            Instruction::BBR2 => self.set_tmp0(!(t & 0x04u8)),
            Instruction::BBR3 => self.set_tmp0(!(t & 0x08u8)),
            Instruction::BBR4 => self.set_tmp0(!(t & 0x10u8)),
            Instruction::BBR5 => self.set_tmp0(!(t & 0x20u8)),
            Instruction::BBR6 => self.set_tmp0(!(t & 0x40u8)),
            Instruction::BBR7 => self.set_tmp0(!(t & 0x80u8)),
            Instruction::BBS0 => self.set_tmp0(t & 0x01u8),
            Instruction::BBS1 => self.set_tmp0(t & 0x02u8),
            Instruction::BBS2 => self.set_tmp0(t & 0x04u8),
            Instruction::BBS3 => self.set_tmp0(t & 0x08u8),
            Instruction::BBS4 => self.set_tmp0(t & 0x10u8),
            Instruction::BBS5 => self.set_tmp0(t & 0x20u8),
            Instruction::BBS6 => self.set_tmp0(t & 0x40u8),
            Instruction::BBS7 => self.set_tmp0(t & 0x80u8),
            Instruction::BCC => self.set_tmp0(if !c.flag(CARRY) {
                1
            } else {
                0
            }),
            Instruction::BCS => self.set_tmp0(if c.flag(CARRY) {
                1
            } else {
                0
            }),
            Instruction::BEQ => self.set_tmp0(if c.flag(ZERO) {
                1
            } else {
                0
            }),
            Instruction::BIT => self.with_cpu(
                c.with_flag(ZERO, c.a & t == 0).with_flag(NEGATIVE, t >= 128).with_flag(
                    OVERFLOW,
                    t & 0x40 != 0,
                ),
            ),
            Instruction::BMI => self.set_tmp0(if c.flag(NEGATIVE) {
                1
            } else {
                0
            }),
            Instruction::BNE => self.set_tmp0(if !c.flag(ZERO) {
                1
            } else {
                0
            }),
            Instruction::BPL => self.set_tmp0(if !c.flag(NEGATIVE) {
                1
            } else {
                0
            }),
            Instruction::BRA => self.set_tmp0(1),
            Instruction::BRK => self.brk(),
            Instruction::BVC => self.set_tmp0(if !c.flag(OVERFLOW) {
                1
            } else {
                0
            }),
            Instruction::BVS => self.set_tmp0(if c.flag(OVERFLOW) {
                1
            } else {
                0
            }),
            Instruction::CLC => self.with_cpu(c.with_flag(CARRY, false)),
            Instruction::CLD => self.with_cpu(c.with_flag(DECIMAL, false)),
            Instruction::CLI => self.with_cpu(c.with_flag(IRQ_DISABLE, false)),
            Instruction::CLV => self.with_cpu(c.with_flag(OVERFLOW, false)),
            Instruction::CMP => self.with_cpu(c.compare(c.a, t)),
            Instruction::CPX => self.with_cpu(c.compare(c.x, t)),
            Instruction::CPY => self.with_cpu(c.compare(c.y, t)),
            Instruction::DEC => self.with_cpu(CpuState { tmp0: add8(t, -1), ..c }.nz(add8(t, -1))),
            Instruction::DEX => self.with_cpu(CpuState { x: add8(c.x, -1), ..c }.nz(add8(c.x, -1))),
            Instruction::DEY => self.with_cpu(CpuState { y: add8(c.y, -1), ..c }.nz(add8(c.y, -1))),
            Instruction::EOR => self.with_cpu(CpuState { a: c.a ^ t, ..c }.nz(c.a ^ t)),
            Instruction::ILL => self,
            Instruction::INC => self.with_cpu(CpuState { tmp0: add8(t, 1), ..c }.nz(add8(t, 1))),
            Instruction::INX => self.with_cpu(CpuState { x: add8(c.x, 1), ..c }.nz(add8(c.x, 1))),
            Instruction::INY => self.with_cpu(CpuState { y: add8(c.y, 1), ..c }.nz(add8(c.y, 1))),
            Instruction::JMP => self.with_cpu(CpuState { pc: c.tmp_addr, ..c }),
            Instruction::JSR => {
                let m = self.stack_push_pc(3).load_addr_arg();
                m.with_cpu(CpuState { cycles: 6, pc: m.cpu.tmp_addr, ..m.cpu })
            },
            Instruction::LDA => self.with_cpu(CpuState { a: t, ..c }.nz(t)),
            Instruction::LDX => self.with_cpu(CpuState { x: t, ..c }.nz(t)),
            Instruction::LDY => self.with_cpu(CpuState { y: t, ..c }.nz(t)),
            Instruction::LSR => self.with_cpu(CpuState { tmp0: t / 2, ..c.with_flag(CARRY, t % 2 == 1) }),
            Instruction::NOP => self,
            Instruction::ORA => self.with_cpu(CpuState { a: c.a | t, ..c }.nz(c.a | t)),
            Instruction::PHA => self.set_tmp0(c.a).stack_push_byte(),
            Instruction::PHP => self.stack_push_flags(),
            Instruction::PHX => self.set_tmp0(c.x).stack_push_byte(),
            Instruction::PHY => self.set_tmp0(c.y).stack_push_byte(),
            Instruction::PLA => {
                let m = self.stack_pull_byte();
                m.with_cpu(CpuState { a: m.cpu.tmp0, ..m.cpu }.nz(m.cpu.tmp0))
            },
            Instruction::PLP => self.stack_pull_flags(),
            Instruction::PLX => {
                let m = self.stack_pull_byte();
                m.with_cpu(CpuState { x: m.cpu.tmp0, ..m.cpu }.nz(m.cpu.tmp0))
            },
            Instruction::PLY => {
                let m = self.stack_pull_byte();
                m.with_cpu(CpuState { y: m.cpu.tmp0, ..m.cpu }.nz(m.cpu.tmp0))
            },
            Instruction::RMB0 => self.wr(c.tmp_addr, t & !0x01u8),
            Instruction::RMB1 => self.wr(c.tmp_addr, t & !0x02u8),
            Instruction::RMB2 => self.wr(c.tmp_addr, t & !0x04u8),
            Instruction::RMB3 => self.wr(c.tmp_addr, t & !0x08u8),
            Instruction::RMB4 => self.wr(c.tmp_addr, t & !0x10u8),
            Instruction::RMB5 => self.wr(c.tmp_addr, t & !0x20u8),
            Instruction::RMB6 => self.wr(c.tmp_addr, t & !0x40u8),
            Instruction::RMB7 => self.wr(c.tmp_addr, t & !0x80u8),
            Instruction::ROL => {
                let r = ((t * 2) % 256 + if c.flag(CARRY) {
                    1int
                } else {
                    0int
                }) as u8;
                self.with_cpu(CpuState { tmp0: r, ..c.with_flag(CARRY, t >= 128) })
            },
            Instruction::ROR => {
                let r = (t / 2 + if c.flag(CARRY) {
                    128int
                } else {
                    0int
                }) as u8;
                self.with_cpu(CpuState { tmp0: r, ..c.with_flag(CARRY, t % 2 == 1) }.nz(r))
            },
            Instruction::RTI => {
                let m = self.stack_pull_flags().stack_pull_addr();
                m.with_cpu(CpuState { pc: m.cpu.tmp_addr, ..m.cpu })
            },
            Instruction::RTS => {
                let m = self.stack_pull_addr();
                m.with_cpu(CpuState { pc: m.cpu.tmp_addr, ..m.cpu })
            },
            Instruction::SBC => self.with_cpu(c.sbc()),
            Instruction::SEC => self.with_cpu(c.with_flag(CARRY, true)),
            Instruction::SED => self.with_cpu(c.with_flag(DECIMAL, true)),
            Instruction::SEI => self.with_cpu(c.with_flag(IRQ_DISABLE, true)),
            Instruction::SMB0 => self.wr(c.tmp_addr, t & !0x01u8),
            Instruction::SMB1 => self.wr(c.tmp_addr, t & !0x02u8),
            Instruction::SMB2 => self.wr(c.tmp_addr, t & !0x04u8),
            Instruction::SMB3 => self.wr(c.tmp_addr, t & !0x08u8),
            Instruction::SMB4 => self.wr(c.tmp_addr, t & !0x10u8),
            Instruction::SMB5 => self.wr(c.tmp_addr, t & !0x20u8),
            Instruction::SMB6 => self.wr(c.tmp_addr, t & !0x40u8),
            Instruction::SMB7 => self.wr(c.tmp_addr, t & !0x80u8),
            Instruction::STA => self.wr(c.tmp_addr, c.a),
            Instruction::STP => self,
            Instruction::STX => self.wr(c.tmp_addr, c.x),
            Instruction::STY => self.wr(c.tmp_addr, c.y),
            Instruction::STZ => self.wr(c.tmp_addr, 0),
            Instruction::TAX => self.with_cpu(CpuState { x: c.a, ..c }.nz(c.a)),
            Instruction::TAY => self.with_cpu(CpuState { y: c.a, ..c }.nz(c.a)),
            Instruction::TRB => self.with_cpu(c.with_flag(ZERO, c.a & t == 0)).wr(c.tmp_addr, !c.a & t),
            Instruction::TSB => self.with_cpu(c.with_flag(ZERO, c.a & t == 0)).wr(c.tmp_addr, c.a | t),
            Instruction::TSX => self.with_cpu(CpuState { x: c.sp, ..c }.nz(c.sp)),
            Instruction::TXA => self.with_cpu(CpuState { a: c.x, ..c }.nz(c.x)),
            Instruction::TXS => self.with_cpu(CpuState { sp: c.x, ..c }),
            Instruction::TYA => self.with_cpu(CpuState { a: c.y, ..c }.nz(c.y)),
            Instruction::WAI => self,
        }
    }

    /// A relative branch: the offset is fetched, the program counter moves
    /// past the instruction and, when the branch is taken, by the offset,
    /// with one more cycle for a taken branch and one for a page crossing.
    pub open spec fn branch(self) -> Mach {
        let take = self.cpu.tmp0 != 0;
        let m = self.load_byte_arg();
        let m2 = m.inc_pc(2);
        let m3 = if take {
            m2.inc_pc(m.cpu.tmp0).add_cycles(1)
        } else {
            m2
        };
        if page(m.cpu.pc) != page(m3.cpu.pc) {
            m3.add_cycles(1)
        } else {
            m3
        }
    }

    /// The write-back of read-modify-write instructions and the advance of
    /// the program counter past the instruction (jumps, BRK, RTI and RTS
    /// set it themselves).
    #[verifier::opaque]
    pub open spec fn run_store(self, inst: Instruction, mode: AddrMode) -> Mach {
        let c = self.cpu;
        if is_rmw(inst) && (mode == AddrMode::Absolute || mode == AddrMode::AbsoluteIndexedWithX) {
            self.wr(c.tmp_addr, c.tmp0).add_cycles(2).inc_pc(3)
        } else if is_rmw(inst) && (mode == AddrMode::ZeroPage || mode
            == AddrMode::ZeroPageIndexedWithX) {
            self.wr(c.tmp_addr, c.tmp0).add_cycles(2).inc_pc(2)
        } else if is_rmw(inst) && mode == AddrMode::Accumulator {
            self.with_cpu(CpuState { a: c.tmp0, ..c }).inc_pc(1)
        } else if inst == Instruction::JSR || inst == Instruction::JMP {
            self
        } else {
            match mode {
                AddrMode::Absolute => self.inc_pc(3),
                AddrMode::AbsoluteIndexedIndirect => self.inc_pc(3),
                AddrMode::AbsoluteIndexedWithX => if inst == Instruction::STA {
                    self.add_cycles(1).inc_pc(3)
                } else {
                    self.inc_pc(3)
                },
                AddrMode::AbsoluteIndexedWithY => self.inc_pc(3),
                AddrMode::AbsoluteIndirect => self.inc_pc(3),
                AddrMode::Accumulator => self.inc_pc(1),
                AddrMode::Immediate => self.inc_pc(2),
                AddrMode::Implied => if inst == Instruction::BRK || inst == Instruction::RTI || inst
                    == Instruction::RTS {
                    self
                } else {
                    self.inc_pc(1)
                },
                AddrMode::Relative => self.branch(),
                AddrMode::ZeroPageRelative => self.inc_pc(3),
                _ => self.inc_pc(2),
            }
        }
    }
}

/// Once an access fails, the state stays failed: operand fetching only
/// succeeds from a state that had not failed. It leaves the reset line alone.
pub proof fn lemma_run_load_ok(m: Mach, inst: Instruction, mode: AddrMode)
    ensures
        m.run_load(inst, mode).ok ==> m.ok,
        m.run_load(inst, mode).cpu.reset == m.cpu.reset,
{
    reveal(Mach::run_load);
    match mode {
        AddrMode::Absolute => {},
        AddrMode::AbsoluteIndexedIndirect => {},
        AddrMode::AbsoluteIndexedWithX => {},
        AddrMode::AbsoluteIndexedWithY => {},
        AddrMode::AbsoluteIndirect => {},
        AddrMode::Accumulator => {},
        AddrMode::Immediate => {},
        AddrMode::Implied => {},
        AddrMode::Relative => {},
        AddrMode::ZeroPage => {},
        AddrMode::ZeroPageIndexedIndirect => {},
        AddrMode::ZeroPageIndexedWithX => {},
        AddrMode::ZeroPageIndexedWithY => {},
        AddrMode::ZeroPageIndirect => {},
        AddrMode::ZeroPageIndirectIndexedWithY => {},
        AddrMode::ZeroPageRelative => {},
    }
}

/// An instruction only succeeds from a state that had not failed, and
/// leaves the reset line alone.
pub proof fn lemma_run_instruction_ok(m: Mach, inst: Instruction)
    ensures
        m.run_instruction(inst).ok ==> m.ok,
        m.run_instruction(inst).cpu.reset == m.cpu.reset,
{
    reveal(Mach::run_instruction);
    match inst {
        Instruction::ADC => {},
        Instruction::AND => {},
        Instruction::ASL => {},
        Instruction::BBR0 => {},
        Instruction::BBR1 => {},
        Instruction::BBR2 => {},
        Instruction::BBR3 => {},
        Instruction::BBR4 => {},
        Instruction::BBR5 => {},
        Instruction::BBR6 => {},
        Instruction::BBR7 => {},
        Instruction::BBS0 => {},
        Instruction::BBS1 => {},
        Instruction::BBS2 => {},
        Instruction::BBS3 => {},
        Instruction::BBS4 => {},
        Instruction::BBS5 => {},
        Instruction::BBS6 => {},
        Instruction::BBS7 => {},
        Instruction::BCC => {},
        Instruction::BCS => {},
        Instruction::BEQ => {},
        Instruction::BIT => {},
        Instruction::BMI => {},
        Instruction::BNE => {},
        Instruction::BPL => {},
        Instruction::BRA => {},
        Instruction::BRK => {},
        Instruction::BVC => {},
        Instruction::BVS => {},
        Instruction::CLC => {},
        Instruction::CLD => {},
        Instruction::CLI => {},
        Instruction::CLV => {},
        Instruction::CMP => {},
        Instruction::CPX => {},
        Instruction::CPY => {},
        Instruction::DEC => {},
        Instruction::DEX => {},
        Instruction::DEY => {},
        Instruction::EOR => {},
        Instruction::ILL => {},
        Instruction::INC => {},
        Instruction::INX => {},
        Instruction::INY => {},
        Instruction::JMP => {},
        Instruction::JSR => {},
        Instruction::LDA => {},
        Instruction::LDX => {},
        Instruction::LDY => {},
        Instruction::LSR => {},
        Instruction::NOP => {},
        Instruction::ORA => {},
        Instruction::PHA => {},
        Instruction::PHP => {},
        Instruction::PHX => {},
        Instruction::PHY => {},
        Instruction::PLA => {},
        Instruction::PLP => {},
        Instruction::PLX => {},
        Instruction::PLY => {},
        Instruction::RMB0 => {},
        Instruction::RMB1 => {},
        Instruction::RMB2 => {},
        Instruction::RMB3 => {},
        Instruction::RMB4 => {},
        Instruction::RMB5 => {},
        Instruction::RMB6 => {},
        Instruction::RMB7 => {},
        Instruction::ROL => {},
        Instruction::ROR => {},
        Instruction::RTI => {},
        Instruction::RTS => {},
        Instruction::SBC => {},
        Instruction::SEC => {},
        Instruction::SED => {},
        Instruction::SEI => {},
        Instruction::SMB0 => {},
        Instruction::SMB1 => {},
        Instruction::SMB2 => {},
        Instruction::SMB3 => {},
        Instruction::SMB4 => {},
        Instruction::SMB5 => {},
        Instruction::SMB6 => {},
        Instruction::SMB7 => {},
        Instruction::STA => {},
        Instruction::STP => {},
        Instruction::STX => {},
        Instruction::STY => {},
        Instruction::STZ => {},
        Instruction::TAX => {},
        Instruction::TAY => {},
        Instruction::TRB => {},
        Instruction::TSB => {},
        Instruction::TSX => {},
        Instruction::TXA => {},
        Instruction::TXS => {},
        Instruction::TYA => {},
        Instruction::WAI => {},
    }
}

/// The write-back only succeeds from a state that had not failed, and
/// leaves the reset line alone.
pub proof fn lemma_run_store_ok(m: Mach, inst: Instruction, mode: AddrMode)
    ensures
        m.run_store(inst, mode).ok ==> m.ok,
        m.run_store(inst, mode).cpu.reset == m.cpu.reset,
{
    reveal(Mach::run_store);
    match mode {
        AddrMode::Absolute => {},
        AddrMode::AbsoluteIndexedIndirect => {},
        AddrMode::AbsoluteIndexedWithX => {},
        AddrMode::AbsoluteIndexedWithY => {},
        AddrMode::AbsoluteIndirect => {},
        AddrMode::Accumulator => {},
        AddrMode::Immediate => {},
        AddrMode::Implied => {},
        AddrMode::Relative => {},
        AddrMode::ZeroPage => {},
        AddrMode::ZeroPageIndexedIndirect => {},
        AddrMode::ZeroPageIndexedWithX => {},
        AddrMode::ZeroPageIndexedWithY => {},
        AddrMode::ZeroPageIndirect => {},
        AddrMode::ZeroPageIndirectIndexedWithY => {},
        AddrMode::ZeroPageRelative => {},
    }
}

/// The address that an indirect `mode` reads a word through is not 0xffff,
/// where no word can be read; other modes read no word through a pointer.
pub open spec fn pointer_ok(m: Mach, mode: AddrMode) -> bool {
    match mode {
        AddrMode::AbsoluteIndirect => m.load_addr_arg().cpu.tmp_addr != 0xffff,
        AddrMode::AbsoluteIndexedIndirect => m.load_addr_arg().index_x().cpu.tmp_addr != 0xffff,
        _ => true,
    }
}

/// On a memory that accepts every access, operand fetching succeeds unless
/// it reads a word through the pointer 0xffff, and it counts few cycles.
pub proof fn lemma_run_load_accepted(m: Mach, inst: Instruction, mode: AddrMode)
    requires
        m.ok,
        m.mem.accepts_all(),
        m.cpu.cycles <= 200,
        pointer_ok(m, mode),
    ensures
        m.run_load(inst, mode).ok,
        m.run_load(inst, mode).mem.accepts_all(),
        m.run_load(inst, mode).cpu.cycles <= m.cpu.cycles + 10,
{
    broadcast use lemma_accepts_all_after_load, lemma_accepts_all_after_store;
    reveal(Mach::run_load);
    match mode {
        AddrMode::Absolute => {},
        AddrMode::AbsoluteIndexedIndirect => {},
        AddrMode::AbsoluteIndexedWithX => {},
        AddrMode::AbsoluteIndexedWithY => {},
        AddrMode::AbsoluteIndirect => {},
        AddrMode::Accumulator => {},
        AddrMode::Immediate => {},
        AddrMode::Implied => {},
        AddrMode::Relative => {},
        AddrMode::ZeroPage => {},
        AddrMode::ZeroPageIndexedIndirect => {},
        AddrMode::ZeroPageIndexedWithX => {},
        AddrMode::ZeroPageIndexedWithY => {},
        AddrMode::ZeroPageIndirect => {},
        AddrMode::ZeroPageIndirectIndexedWithY => {},
        AddrMode::ZeroPageRelative => {},
    }
}

/// On a memory that accepts every access, every instruction succeeds and
/// counts few cycles.
pub proof fn lemma_run_instruction_accepted(m: Mach, inst: Instruction)
    requires
        m.ok,
        m.mem.accepts_all(),
        m.cpu.cycles <= 210,
    ensures
        m.run_instruction(inst).ok,
        m.run_instruction(inst).mem.accepts_all(),
        m.run_instruction(inst).cpu.cycles <= m.cpu.cycles + 20,
{
    broadcast use lemma_accepts_all_after_load, lemma_accepts_all_after_store;
    reveal(Mach::run_instruction);
    match inst {
        Instruction::ADC => {},
        Instruction::AND => {},
        Instruction::ASL => {},
        Instruction::BBR0 => {},
        Instruction::BBR1 => {},
        Instruction::BBR2 => {},
        Instruction::BBR3 => {},
        Instruction::BBR4 => {},
        Instruction::BBR5 => {},
        Instruction::BBR6 => {},
        Instruction::BBR7 => {},
        Instruction::BBS0 => {},
        Instruction::BBS1 => {},
        Instruction::BBS2 => {},
        Instruction::BBS3 => {},
        Instruction::BBS4 => {},
        Instruction::BBS5 => {},
        Instruction::BBS6 => {},
        Instruction::BBS7 => {},
        Instruction::BCC => {},
        Instruction::BCS => {},
        Instruction::BEQ => {},
        Instruction::BIT => {},
        Instruction::BMI => {},
        Instruction::BNE => {},
        Instruction::BPL => {},
        Instruction::BRA => {},
        Instruction::BRK => {},
        Instruction::BVC => {},
        Instruction::BVS => {},
        Instruction::CLC => {},
        Instruction::CLD => {},
        Instruction::CLI => {},
        Instruction::CLV => {},
        Instruction::CMP => {},
        Instruction::CPX => {},
        Instruction::CPY => {},
        Instruction::DEC => {},
        Instruction::DEX => {},
        Instruction::DEY => {},
        Instruction::EOR => {},
        Instruction::ILL => {},
        Instruction::INC => {},
        Instruction::INX => {},
        Instruction::INY => {},
        Instruction::JMP => {},
        Instruction::JSR => {},
        Instruction::LDA => {},
        Instruction::LDX => {},
        Instruction::LDY => {},
        Instruction::LSR => {},
        Instruction::NOP => {},
        Instruction::ORA => {},
        Instruction::PHA => {},
        Instruction::PHP => {},
        Instruction::PHX => {},
        Instruction::PHY => {},
        Instruction::PLA => {},
        Instruction::PLP => {},
        Instruction::PLX => {},
        Instruction::PLY => {},
        Instruction::RMB0 => {},
        Instruction::RMB1 => {},
        Instruction::RMB2 => {},
        Instruction::RMB3 => {},
        Instruction::RMB4 => {},
        Instruction::RMB5 => {},
        Instruction::RMB6 => {},
        Instruction::RMB7 => {},
        Instruction::ROL => {},
        Instruction::ROR => {},
        Instruction::RTI => {},
        Instruction::RTS => {},
        Instruction::SBC => {},
        Instruction::SEC => {},
        Instruction::SED => {},
        Instruction::SEI => {},
        Instruction::SMB0 => {},
        Instruction::SMB1 => {},
        Instruction::SMB2 => {},
        Instruction::SMB3 => {},
        Instruction::SMB4 => {},
        Instruction::SMB5 => {},
        Instruction::SMB6 => {},
        Instruction::SMB7 => {},
        Instruction::STA => {},
        Instruction::STP => {},
        Instruction::STX => {},
        Instruction::STY => {},
        Instruction::STZ => {},
        Instruction::TAX => {},
        Instruction::TAY => {},
        Instruction::TRB => {},
        Instruction::TSB => {},
        Instruction::TSX => {},
        Instruction::TXA => {},
        Instruction::TXS => {},
        Instruction::TYA => {},
        Instruction::WAI => {},
    }
}

/// On a memory that accepts every access, the write-back succeeds and
/// counts few cycles.
pub proof fn lemma_run_store_accepted(m: Mach, inst: Instruction, mode: AddrMode)
    requires
        m.ok,
        m.mem.accepts_all(),
        m.cpu.cycles <= 230,
    ensures
        m.run_store(inst, mode).ok,
        m.run_store(inst, mode).mem.accepts_all(),
{
    broadcast use lemma_accepts_all_after_load, lemma_accepts_all_after_store;
    reveal(Mach::run_store);
    match mode {
        AddrMode::Absolute => {},
        AddrMode::AbsoluteIndexedIndirect => {},
        AddrMode::AbsoluteIndexedWithX => {},
        AddrMode::AbsoluteIndexedWithY => {},
        AddrMode::AbsoluteIndirect => {},
        AddrMode::Accumulator => {},
        AddrMode::Immediate => {},
        AddrMode::Implied => {},
        AddrMode::Relative => {},
        AddrMode::ZeroPage => {},
        AddrMode::ZeroPageIndexedIndirect => {},
        AddrMode::ZeroPageIndexedWithX => {},
        AddrMode::ZeroPageIndexedWithY => {},
        AddrMode::ZeroPageIndirect => {},
        AddrMode::ZeroPageIndirectIndexedWithY => {},
        AddrMode::ZeroPageRelative => {},
    }
}

/// Setting zero and negative from `b` sets them as `b` says and keeps the
/// other flags.
pub proof fn lemma_nz_flags(d: CpuState, b: u8)
    ensures
        d.nz(b).flag(ZERO) == (b == 0),
        d.nz(b).flag(NEGATIVE) == (b >= 128),
        d.nz(b).flag(CARRY) == d.flag(CARRY),
        d.nz(b).flag(OVERFLOW) == d.flag(OVERFLOW),
        d.nz(b).flag(DECIMAL) == d.flag(DECIMAL),
        d.nz(b).flag(IRQ_DISABLE) == d.flag(IRQ_DISABLE),
{
    let s1 = put(d.st, ZERO, b == 0);
    lemma_put(d.st, ZERO, b == 0, NEGATIVE);
    lemma_put(s1, NEGATIVE, b >= 128, ZERO);
    lemma_put(d.st, ZERO, b == 0, CARRY);
    lemma_put(s1, NEGATIVE, b >= 128, CARRY);
    lemma_put(d.st, ZERO, b == 0, OVERFLOW);
    lemma_put(s1, NEGATIVE, b >= 128, OVERFLOW);
    lemma_put(d.st, ZERO, b == 0, DECIMAL);
    lemma_put(s1, NEGATIVE, b >= 128, DECIMAL);
    lemma_put(d.st, ZERO, b == 0, IRQ_DISABLE);
    lemma_put(s1, NEGATIVE, b >= 128, IRQ_DISABLE);
}

/// The length of an instruction is its opcode and the argument bytes that
/// it reads (an accumulator operand has none), and it is how far the
/// write-back moves the program counter past every instruction that does not
/// jump, branch or return.
pub proof fn lemma_instruction_length(m: Mach, inst: Instruction, mode: AddrMode)
    ensures
        mode != AddrMode::Accumulator ==> inst_len(mode) == 1 + arg_len(mode),
        mode == AddrMode::Accumulator ==> inst_len(mode) == 1 && arg_len(mode) == 1,
        !(inst == Instruction::JMP || inst == Instruction::JSR || inst == Instruction::BRK || inst
            == Instruction::RTI || inst == Instruction::RTS) && mode != AddrMode::Relative
            ==> m.run_store(inst, mode).cpu.pc == add16(m.cpu.pc, inst_len(mode)),
{
    reveal(Mach::run_store);
    assert(signed(1) == 1 && signed(2) == 2 && signed(3) == 3);
}

/// After a logic instruction: the accumulator is `a`; zero and negative
/// tell whether it is 0 and whether its top bit is set; carry, overflow,
/// decimal and interrupt-disable are as before; the other registers, the
/// program counter, the stack pointer, memory and success are untouched.
pub open spec fn logic_result(m: Mach, r: Mach, a: u8) -> bool {
    &&& r.cpu.a == a
    &&& r.cpu.flag(ZERO) == (a == 0)
    &&& r.cpu.flag(NEGATIVE) == (a >= 128)
    &&& r.cpu.flag(CARRY) == m.cpu.flag(CARRY)
    &&& r.cpu.flag(OVERFLOW) == m.cpu.flag(OVERFLOW)
    &&& r.cpu.flag(DECIMAL) == m.cpu.flag(DECIMAL)
    &&& r.cpu.flag(IRQ_DISABLE) == m.cpu.flag(IRQ_DISABLE)
    &&& r.cpu.x == m.cpu.x
    &&& r.cpu.y == m.cpu.y
    &&& r.cpu.pc == m.cpu.pc
    &&& r.cpu.sp == m.cpu.sp
    &&& r.mem == m.mem
    &&& r.ok == m.ok
}

/// AND, ORA and EOR combine the accumulator with the operand bit by bit:
/// both bits set, either bit set, exactly one bit set. So EOR with the same
/// operand twice gives the accumulator back, and EOR of a byte with itself
/// gives 0 and sets zero.
pub proof fn lemma_logic_instructions(m: Mach)
    ensures
        logic_result(m, m.run_instruction(Instruction::AND), m.cpu.a & m.cpu.tmp0),
        logic_result(m, m.run_instruction(Instruction::ORA), m.cpu.a | m.cpu.tmp0),
        logic_result(m, m.run_instruction(Instruction::EOR), m.cpu.a ^ m.cpu.tmp0),
        m.run_instruction(Instruction::EOR).set_tmp0(m.cpu.tmp0).run_instruction(
            Instruction::EOR,
        ).cpu.a == m.cpu.a,
        m.cpu.a == m.cpu.tmp0 ==> m.run_instruction(Instruction::EOR).cpu.a == 0,
{
    reveal(Mach::run_instruction);
    let c = m.cpu;
    let t = c.tmp0;
    lemma_nz_flags(CpuState { a: c.a & t, ..c }, c.a & t);
    lemma_nz_flags(CpuState { a: c.a | t, ..c }, c.a | t);
    lemma_nz_flags(CpuState { a: c.a ^ t, ..c }, c.a ^ t);
    let r1 = m.run_instruction(Instruction::AND);
    let r2 = m.run_instruction(Instruction::ORA);
    let r3 = m.run_instruction(Instruction::EOR);
    lemma_mask_bits(c.a, t);
    let m2 = r3.set_tmp0(t);
    assert(m2.cpu.a == c.a ^ t && m2.cpu.tmp0 == t);
    assert(m2.run_instruction(Instruction::EOR).cpu.a == (c.a ^ t) ^ t);
}

/// The flags that `v`, `c`, `z` and `n` give when set in turn on `st`.
proof fn lemma_four_flags(st: u8, v: bool, c: bool, z: bool, n: bool)
    ensures
        ({
            let r = put(put(put(put(st, OVERFLOW, v), CARRY, c), ZERO, z), NEGATIVE, n);
            &&& (r & OVERFLOW != 0) == v
            &&& (r & CARRY != 0) == c
            &&& (r & ZERO != 0) == z
            &&& (r & NEGATIVE != 0) == n
            &&& (r & DECIMAL != 0) == (st & DECIMAL != 0)
            &&& (r & IRQ_DISABLE != 0) == (st & IRQ_DISABLE != 0)
            &&& (r & BRK != 0) == (st & BRK != 0)
        }),
{
    let r1 = put(st, OVERFLOW, v);
    let r2 = put(r1, CARRY, c);
    let r3 = put(r2, ZERO, z);
    let r4 = put(r3, NEGATIVE, n);
    lemma_put(st, OVERFLOW, v, OVERFLOW);
    lemma_put(st, OVERFLOW, v, DECIMAL);
    lemma_put(st, OVERFLOW, v, IRQ_DISABLE);
    lemma_put(st, OVERFLOW, v, BRK);
    lemma_put(r1, CARRY, c, CARRY);
    lemma_put(r1, CARRY, c, OVERFLOW);
    lemma_put(r1, CARRY, c, DECIMAL);
    lemma_put(r1, CARRY, c, IRQ_DISABLE);
    lemma_put(r1, CARRY, c, BRK);
    lemma_put(r2, ZERO, z, ZERO);
    lemma_put(r2, ZERO, z, CARRY);
    lemma_put(r2, ZERO, z, OVERFLOW);
    lemma_put(r2, ZERO, z, DECIMAL);
    lemma_put(r2, ZERO, z, IRQ_DISABLE);
    lemma_put(r2, ZERO, z, BRK);
    lemma_put(r3, NEGATIVE, n, NEGATIVE);
    lemma_put(r3, NEGATIVE, n, ZERO);
    lemma_put(r3, NEGATIVE, n, CARRY);
    lemma_put(r3, NEGATIVE, n, OVERFLOW);
    lemma_put(r3, NEGATIVE, n, DECIMAL);
    lemma_put(r3, NEGATIVE, n, IRQ_DISABLE);
    lemma_put(r3, NEGATIVE, n, BRK);
}

/// ADC in binary arithmetic: the accumulator becomes the sum of itself, the
/// operand and the carry, modulo 256, and the zero and negative flags
/// follow it. The carry tells whether the sum reached 256, except when the
/// operand is 0xff and the carry was set (then the carry is cleared). The
/// overflow flag tells whether the signed sum left -128..127, except when
/// the carry was set and the signed operands add up to -129 (then the flag
/// is set). The other flags stay.
pub proof fn lemma_adc(c: CpuState)
    ensures
        ({
            let cin: int = if c.flag(CARRY) {
                1
            } else {
                0
            };
            let sum = c.a + c.tmp0 + cin;
            let ssum = signed(c.a) + signed(c.tmp0) + cin;
            let r = c.adc();
            &&& r.a == sum % 256
            &&& !(c.tmp0 == 255 && c.flag(CARRY)) ==> r.flag(CARRY) == (sum >= 256)
            &&& !(c.flag(CARRY) && signed(c.a) + signed(c.tmp0) == -129) ==> r.flag(OVERFLOW) == !(
            -128 <= ssum <= 127)
            &&& r.flag(ZERO) == (r.a == 0)
            &&& r.flag(NEGATIVE) == (r.a >= 128)
            &&& r.flag(DECIMAL) == c.flag(DECIMAL)
            &&& r.flag(IRQ_DISABLE) == c.flag(IRQ_DISABLE)
            &&& r.flag(BRK) == c.flag(BRK)
            &&& r.x == c.x && r.y == c.y && r.sp == c.sp && r.pc == c.pc
        }),
{
    let a = c.a;
    let b = c.tmp0;
    let s = add8(a, b as int);
    let d: u8 = if c.flag(CARRY) {
        1
    } else {
        0
    };
    let r = add8(s, d as int);
    lemma_four_flags(c.st, add_overflow(a, b, s) || add_overflow(s, d, r), r < a, r == 0, r >= 128);
}

/// SBC in binary arithmetic: the accumulator becomes itself minus the
/// operand minus the inverted carry, modulo 256; the carry tells that no
/// borrow was needed, the overflow flag that the signed difference left
/// -128..127, and the zero and negative flags follow the result. The other
/// flags stay.
pub proof fn lemma_sbc(c: CpuState)
    ensures
        ({
            let bin: int = if c.flag(CARRY) {
                0
            } else {
                1
            };
            let diff = c.a - c.tmp0 - bin;
            let sdiff = signed(c.a) - signed(c.tmp0) - bin;
            let r = c.sbc();
            &&& r.a == (diff + 256) % 256
            &&& r.flag(CARRY) == (diff >= 0)
            &&& r.flag(OVERFLOW) == !(-128 <= sdiff <= 127)
            &&& r.flag(ZERO) == (r.a == 0)
            &&& r.flag(NEGATIVE) == (r.a >= 128)
            &&& r.flag(DECIMAL) == c.flag(DECIMAL)
            &&& r.flag(IRQ_DISABLE) == c.flag(IRQ_DISABLE)
            &&& r.flag(BRK) == c.flag(BRK)
            &&& r.x == c.x && r.y == c.y && r.sp == c.sp && r.pc == c.pc
        }),
{
    let a = c.a;
    let b = c.tmp0;
    let d: int = if c.flag(CARRY) {
        0
    } else {
        1
    };
    let r = add8(a, -(b + d));
    lemma_four_flags(c.st, sub_overflow(a, b, r), a >= b + d, r == 0, r >= 128);
}

/// Loads keep plain memory and the routing of every address.
pub proof fn lemma_loads_keep(m: Mach, x: u16, y: u16)
    ensures
        m.rd(x).mem.ram == m.mem.ram,
        m.rd(x).mem.is_plain(y) == m.mem.is_plain(y),
        m.rd(x).mem.devs.len() == m.mem.devs.len(),
{
    lemma_routing_kept(m.mem, x, 0, y);
}

/// JSR followed by RTS comes back to the instruction after the JSR (three
/// bytes on) with the stack pointer restored, when the two stack bytes that
/// the return address takes are plain memory.
pub proof fn lemma_jsr_rts(m: Mach)
    requires
        m.mem.ram.len() == 0x10000,
        m.mem.is_plain(stack_addr(add8(m.cpu.sp, -1))),
        m.mem.is_plain(add16(stack_addr(add8(m.cpu.sp, -1)), 1)),
    ensures
        ({
            let j = m.run_instruction(Instruction::JSR);
            let r = j.run_instruction(Instruction::RTS);
            &&& j.cpu.pc == j.cpu.tmp_addr
            &&& r.cpu.pc == add16(m.cpu.pc, 3)
            &&& r.cpu.sp == m.cpu.sp
            &&& r.ok == j.ok
        }),
{
    lemma_run_jsr(m);
    let a = stack_addr(add8(m.cpu.sp, -1));
    let a1 = add16(a, 1);
    let w = add16(m.cpu.pc, 3);
    lemma_push_pull_addr(m, w);
    let p = m.set_tmp_addr(w).stack_push_addr();
    let p1 = p._load_byte_arg_lo();
    let pc1 = add16(p.cpu.pc, 1);
    let pc2 = add16(p.cpu.pc, 2);
    lemma_loads_keep(p, pc1, a);
    lemma_loads_keep(p, pc1, a1);
    lemma_loads_keep(p1, pc2, a);
    lemma_loads_keep(p1, pc2, a1);
    let j = m.run_instruction(Instruction::JSR);
    lemma_run_rts(j);
    assert(j.mem.ram == p.mem.ram);
    assert(j.mem.is_plain(a) && j.mem.is_plain(a1));
    assert(j.cpu.sp == p.cpu.sp);
    lemma_plain_load(j.mem, a);
    lemma_plain_load(j.mem, a1);
    lemma_plain_load(p.mem, a);
    lemma_plain_load(p.mem, a1);
    assert(stack_addr(add8(j.cpu.sp, 1)) == a);
    assert(j.word(a) == p.word(a));
}

/// What BRK leaves on the stack: the address two bytes on and, below it,
/// the status register, when the break flag was clear.
proof fn lemma_brk_pushes(m: Mach)
    requires
        m.mem.ram.len() == 0x10000,
        !m.cpu.flag(BRK),
        m.mem.is_plain(stack_addr(add8(m.cpu.sp, -1))),
        m.mem.is_plain(add16(stack_addr(add8(m.cpu.sp, -1)), 1)),
        m.mem.is_plain(stack_addr(add8(m.cpu.sp, -2))),
    ensures
        ({
            let a = stack_addr(add8(m.cpu.sp, -1));
            let a1 = add16(a, 1);
            let f = stack_addr(add8(m.cpu.sp, -2));
            let w = add16(m.cpu.pc, 2);
            let b = m.brk();
            &&& b.cpu.flag(BRK)
            &&& b.cpu.sp == add8(m.cpu.sp, -3)
            &&& b.mem.ram.len() == 0x10000
            &&& b.mem.is_plain(a) && b.mem.is_plain(a1) && b.mem.is_plain(f)
            &&& b.mem.ram[f as int] == m.cpu.st
            &&& b.mem.ram[a as int] + 256 * b.mem.ram[a1 as int] == w
        }),
{
    let a = stack_addr(add8(m.cpu.sp, -1));
    let a1 = add16(a, 1);
    let f = stack_addr(add8(m.cpu.sp, -2));
    let w = add16(m.cpu.pc, 2);
    lemma_push_pull_addr(m, w);
    let p = m.set_tmp_addr(w).stack_push_addr();
    lemma_plain_load(p.mem, a);
    lemma_plain_load(p.mem, a1);
    assert(p.mem.ram[a as int] + 256 * p.mem.ram[a1 as int] == w) by {
        let q = p.stack_pull_addr();
        assert(stack_addr(add8(p.cpu.sp, 1)) == a);
    }
    assert(p.mem.is_plain(f)) by {
        lemma_routing_kept(m.mem, a, lo_byte_of(w), f);
        lemma_routing_kept(m.mem.store(a, lo_byte_of(w)), a1, hi_byte_of(w), f);
    }
    assert(p.mem.is_plain(a) && p.mem.is_plain(a1)) by {
        lemma_routing_kept(m.mem, a, lo_byte_of(w), a1);
        lemma_routing_kept(m.mem.store(a, lo_byte_of(w)), a1, hi_byte_of(w), a);
    }
    lemma_store_load(p.mem, f, m.cpu.st, a);
    lemma_store_load(p.mem, f, m.cpu.st, a1);
    assert(p.cpu.sp == add8(m.cpu.sp, -2));
    let p2 = p.set_tmp0(m.cpu.st).stack_push_byte();
    lemma_loads_keep(p2, 0xfffe, a);
    lemma_loads_keep(p2, 0xfffe, a1);
    lemma_loads_keep(p2, 0xfffe, f);
    let v = p2.rd(0xfffe);
    lemma_loads_keep(v, 0xffff, a);
    lemma_loads_keep(v, 0xffff, a1);
    lemma_loads_keep(v, 0xffff, f);
    let st = m.cpu.st;
    assert(((st | 16u8 | 4u8) & !8u8) & 16u8 != 0) by (bit_vector);
}

/// What RTI pulls: the status from the slot above the stack pointer and the
/// return address from the two above that.
pub proof fn lemma_rti_pulls(b: Mach, st: u8, w: u16)
    requires
        b.mem.ram.len() == 0x10000,
        b.mem.is_plain(stack_addr(add8(b.cpu.sp, 1))),
        b.mem.is_plain(stack_addr(add8(b.cpu.sp, 2))),
        b.mem.is_plain(add16(stack_addr(add8(b.cpu.sp, 2)), 1)),
        b.mem.ram[stack_addr(add8(b.cpu.sp, 1)) as int] == st,
        b.mem.ram[stack_addr(add8(b.cpu.sp, 2)) as int] + 256 * b.mem.ram[add16(
            stack_addr(add8(b.cpu.sp, 2)),
            1,
        ) as int] == w,
    ensures
        ({
            let r = b.run_instruction(Instruction::RTI);
            &&& r.cpu.pc == w
            &&& r.cpu.st == st
            &&& r.cpu.sp == add8(b.cpu.sp, 3)
            &&& r.ok == b.ok
        }),
{
    lemma_run_rti(b);
    let f = stack_addr(add8(b.cpu.sp, 1));
    let a = stack_addr(add8(b.cpu.sp, 2));
    let a1 = add16(a, 1);
    lemma_plain_load(b.mem, f);
    let b1 = b.stack_pull_flags();
    assert(b1.mem == b.mem);
    lemma_plain_load(b.mem, a);
    lemma_plain_load(b.mem, a1);
    assert(stack_addr(add8(b1.cpu.sp, 1)) == a);
}

/// BRK followed by RTI comes back two bytes after the BRK with the status
/// register and the stack pointer restored, when the break flag was clear
/// and the three stack bytes used are plain memory.
pub proof fn lemma_brk_rti(m: Mach)
    requires
        m.mem.ram.len() == 0x10000,
        !m.cpu.flag(BRK),
        m.mem.is_plain(stack_addr(add8(m.cpu.sp, -1))),
        m.mem.is_plain(add16(stack_addr(add8(m.cpu.sp, -1)), 1)),
        m.mem.is_plain(stack_addr(add8(m.cpu.sp, -2))),
    ensures
        ({
            let b = m.run_instruction(Instruction::BRK);
            let r = b.run_instruction(Instruction::RTI);
            &&& b.cpu.flag(BRK)
            &&& r.cpu.pc == add16(m.cpu.pc, 2)
            &&& r.cpu.st == m.cpu.st
            &&& r.cpu.sp == m.cpu.sp
            &&& r.ok == b.ok
        }),
{
    lemma_brk_pushes(m);
    lemma_run_brk(m);
    let b = m.run_instruction(Instruction::BRK);
    assert(add8(b.cpu.sp, 1) == add8(m.cpu.sp, -2));
    assert(add8(b.cpu.sp, 2) == add8(m.cpu.sp, -1));
    assert(add8(b.cpu.sp, 3) == m.cpu.sp);
    lemma_rti_pulls(b, m.cpu.st, add16(m.cpu.pc, 2));
}

/// What JSR does, spelled out.
proof fn lemma_run_jsr(m: Mach)
    ensures
        m.run_instruction(Instruction::JSR) == ({
            let p = m.stack_push_pc(3).load_addr_arg();
            p.with_cpu(CpuState { cycles: 6, pc: p.cpu.tmp_addr, ..p.cpu })
        }),
{
    reveal(Mach::run_instruction);
}

/// What RTS does, spelled out.
proof fn lemma_run_rts(m: Mach)
    ensures
        m.run_instruction(Instruction::RTS) == ({
            let q = m.stack_pull_addr();
            q.with_cpu(CpuState { pc: q.cpu.tmp_addr, ..q.cpu })
        }),
{
    reveal(Mach::run_instruction);
}

/// What BRK does, spelled out.
proof fn lemma_run_brk(m: Mach)
    ensures
        m.run_instruction(Instruction::BRK) == m.brk(),
{
    reveal(Mach::run_instruction);
}

/// What RTI does, spelled out.
proof fn lemma_run_rti(m: Mach)
    ensures
        m.run_instruction(Instruction::RTI) == ({
            let q = m.stack_pull_flags().stack_pull_addr();
            q.with_cpu(CpuState { pc: q.cpu.tmp_addr, ..q.cpu })
        }),
{
    reveal(Mach::run_instruction);
}

/// The low byte of a word.
pub open spec fn lo_byte_of(w: u16) -> u8 {
    (w % 256) as u8
}

/// The high byte of a word.
pub open spec fn hi_byte_of(w: u16) -> u8 {
    (w / 256) as u8
}

} // verus!
