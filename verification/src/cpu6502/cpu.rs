use vstd::prelude::*;

use crate::cpu6502::memory::Memory;

verus! {

/// The registers and internal latches of the 65C02.
pub struct CPU {
    pub a: u8,
    pub x: u8,
    pub y: u8,
    pub st: StatusFlags,
    pub pc: u16,
    pub sp: u8,
    /// The clock cycle within the current instruction.
    pub cycle: u8,
    /// The number of clock cycles the current instruction takes.
    pub cycles: u8,
    /// true if the IRQB pin is set to low
    pub irq: bool,
    /// true if the NMIB pin is set to low
    pub nmi: bool,
    pub reset: bool,
    /// The operand latch: the byte loaded for an instruction, and the high
    /// byte of a word argument.
    pub tmp: [u8; 2],
    /// The effective address latch.
    pub tmp_addr: u16,
    pub status_line: String,
}

/// The processor status register.
pub struct StatusFlags(pub u8);

#[derive(Debug, Clone, Copy, PartialEq, Eq, Hash, Structural)]
pub enum StatusFlag {
    Carry,
    Zero,
    IRQDisable,
    Decimal,
    BRK,
    Overflow,
    Negative,
}

pub const CARRY: u8 = 1;
pub const ZERO: u8 = 2;
pub const IRQ_DISABLE: u8 = 4;
pub const DECIMAL: u8 = 8;
pub const BRK: u8 = 16;
pub const OVERFLOW: u8 = 64;
pub const NEGATIVE: u8 = 128;

impl StatusFlag {
    /// The bit of the status register that holds the flag.
    pub open spec fn mask(self) -> u8 {
        match self {
            StatusFlag::Carry => CARRY,
            StatusFlag::Zero => ZERO,
            StatusFlag::IRQDisable => IRQ_DISABLE,
            StatusFlag::Decimal => DECIMAL,
            StatusFlag::BRK => BRK,
            StatusFlag::Overflow => OVERFLOW,
            StatusFlag::Negative => NEGATIVE,
        }
    }

    #[verifier::when_used_as_spec(mask)]
    pub fn bit(self) -> (r: u8)
        ensures
            r == self.mask(),
    {
        match self {
            StatusFlag::Carry => CARRY,
            StatusFlag::Zero => ZERO,
            StatusFlag::IRQDisable => IRQ_DISABLE,
            StatusFlag::Decimal => DECIMAL,
            StatusFlag::BRK => BRK,
            StatusFlag::Overflow => OVERFLOW,
            StatusFlag::Negative => NEGATIVE,
        }
    }
}

impl From<StatusFlag> for u8 {
    fn from(flag: StatusFlag) -> (r: u8) {
        flag.bit()
    }
}

impl vstd::std_specs::convert::FromSpecImpl<StatusFlag> for u8 {
    open spec fn obeys_from_spec() -> bool {
        true
    }

    open spec fn from_spec(v: StatusFlag) -> u8 {
        v.mask()
    }
}

/// The OR of the masks of `flags`.
pub open spec fn mask_of(flags: Seq<StatusFlag>) -> u8
    decreases flags.len(),
{
    if flags.len() == 0 {
        0
    } else {
        mask_of(flags.drop_last()) | flags.last().mask()
    }
}

/// The signed value of a byte in two's complement.
pub open spec fn signed(b: u8) -> int {
    if b < 128 {
        b as int
    } else {
        b - 256
    }
}

/// `pc` moved by the signed offset `off`, wrapping around the 64K space.
pub open spec fn rel(pc: u16, off: u8) -> u16 {
    ((pc + signed(off) + 0x10000) % 0x10000) as u16
}

/// `w` plus `n`, wrapping around the 64K space.
pub open spec fn add16(w: u16, n: int) -> u16 {
    ((w + n) % 0x10000) as u16
}

/// `b` plus `n`, wrapping at 256.
pub open spec fn add8(b: u8, n: int) -> u8 {
    ((b + n + 0x100) % 0x100) as u8
}

/// The mathematical value of a [`CPU`]: its registers and latches (the
/// status line is not part of it).
pub struct CpuState {
    pub a: u8,
    pub x: u8,
    pub y: u8,
    pub st: u8,
    pub pc: u16,
    pub sp: u8,
    pub cycle: u8,
    pub cycles: u8,
    pub irq: bool,
    pub nmi: bool,
    pub reset: bool,
    pub tmp0: u8,
    pub tmp1: u8,
    pub tmp_addr: u16,
}

impl View for CPU {
    type V = CpuState;

    open spec fn view(&self) -> CpuState {
        CpuState {
            a: self.a,
            x: self.x,
            y: self.y,
            st: self.st.0,
            pc: self.pc,
            sp: self.sp,
            cycle: self.cycle,
            cycles: self.cycles,
            irq: self.irq,
            nmi: self.nmi,
            reset: self.reset,
            tmp0: self.tmp[0],
            tmp1: self.tmp[1],
            tmp_addr: self.tmp_addr,
        }
    }
}

/// The status register with the bits of `m` set (`v`) or cleared.
pub open spec fn put(st: u8, m: u8, v: bool) -> u8 {
    if v {
        st | m
    } else {
        st & !m
    }
}

impl CpuState {
    pub open spec fn flag(self, m: u8) -> bool {
        self.st & m != 0
    }

    pub open spec fn with_flag(self, m: u8, v: bool) -> CpuState {
        CpuState { st: put(self.st, m, v), ..self }
    }

    /// The zero and negative flags set from `b`.
    pub open spec fn nz(self, b: u8) -> CpuState {
        self.with_flag(ZERO, b == 0).with_flag(NEGATIVE, b >= 128)
    }

    /// The flags of a comparison of `reg` with `byte`: negative when below,
    /// zero when equal, carry when not below.
    pub open spec fn compare(self, reg: u8, byte: u8) -> CpuState {
        self.with_flag(NEGATIVE, reg < byte).with_flag(CARRY, reg >= byte).with_flag(
            ZERO,
            reg == byte,
        )
    }

    pub open spec fn inc_pc(self, off: u8) -> CpuState {
        CpuState { pc: rel(self.pc, off), ..self }
    }
}

/// The single bits of the status register.
pub open spec fn is_flag_mask(m: u8) -> bool {
    m == CARRY || m == ZERO || m == IRQ_DISABLE || m == DECIMAL || m == BRK || m == OVERFLOW || m
        == NEGATIVE
}

/// Bytes under masks: clearing the bits of `m` leaves none of them and
/// keeps the rest; setting them sets all of them and keeps the rest; an
/// exclusive or with the same byte twice gives back the first, and with
/// itself gives 0; and and or do not depend on the order of their operands.
pub proof fn lemma_mask_bits(x: u8, m: u8)
    by (bit_vector)
    ensures
        (x & !m) & m == 0,
        (x & !m) & !m == x & !m,
        (x | m) & m == m,
        (x | m) & !m == x & !m,
        (x ^ m) ^ m == x,
        x ^ x == 0,
        !m & x == x & !m,
        m | x == x | m,
        (((x & !(m & 0x0f)) & 0x0f) | 0x80) & (m & 0x0f) == 0,
        ((x & !(m & 0x0f)) & 0x0f) & (m & 0x0f) == 0,
{
}

/// Setting or clearing a flag changes that flag and no other.
pub proof fn lemma_put(st: u8, m: u8, v: bool, m2: u8)
    requires
        is_flag_mask(m),
        is_flag_mask(m2),
    ensures
        (put(st, m, v) & m != 0) == v,
        m2 != m ==> ((put(st, m, v) & m2 != 0) == (st & m2 != 0)),
{
    assert(((st | m) & m != 0) && ((st & !m) & m == 0)) by (bit_vector)
        requires
            m == 1 || m == 2 || m == 4 || m == 8 || m == 16 || m == 64 || m == 128,
    ;
    if m2 != m {
        assert(((st | m) & m2 == st & m2) && ((st & !m) & m2 == st & m2)) by (bit_vector)
            requires
                m == 1 || m == 2 || m == 4 || m == 8 || m == 16 || m == 64 || m == 128,
                m2 == 1 || m2 == 2 || m2 == 4 || m2 == 8 || m2 == 16 || m2 == 64 || m2 == 128,
                m != m2,
        ;
    }
}

impl CPU {
    /// A CPU with cleared registers, the stack pointer at 0xff and the status
    /// register at 0x20 (the unused bit 5).
    pub fn new() -> (r: Self)
        ensures
            r@ == (CpuState {
                a: 0,
                x: 0,
                y: 0,
                st: 32,
                pc: 0,
                sp: 0xff,
                cycle: 0,
                cycles: 0,
                irq: false,
                nmi: false,
                reset: false,
                tmp0: 0,
                tmp1: 0,
                tmp_addr: 0,
            }),
            r.status_line@ == Seq::<char>::empty(),
    {
        CPU {
            a: 0,
            x: 0,
            y: 0,
            st: StatusFlags(32),
            pc: 0,
            sp: 0xff,
            cycle: 0,
            cycles: 0,
            irq: false,
            nmi: false,
            reset: false,
            tmp: [0, 0],
            tmp_addr: 0,
            status_line: String::new(),
        }
    }

    /// Starts the reset sequence: the program counter is loaded from the
    /// reset vector at 0xfffc, the status register and the interrupt lines
    /// are cleared, and the next seven steps are spent resetting.
    pub fn reset(&mut self, mem: &mut Memory)
        requires
            old(mem).wf(),
            old(mem)@.load_ok(0xfffc),
            old(mem)@.after_load(0xfffc).load_ok(0xfffd),
        ensures
            final(mem).wf(),
            final(mem)@ == old(mem)@.after_load(0xfffc).after_load(0xfffd),
            final(self)@ == (CpuState {
                pc: (old(mem)@.load(0xfffc) + 256 * old(mem)@.after_load(0xfffc).load(
                    0xfffd,
                )) as u16,
                st: 32,
                irq: false,
                nmi: false,
                cycle: 0,
                cycles: 0,
                reset: true,
                ..old(self)@
            }),
            final(self).status_line@ == "(Reset)"@,
    {
        self.pc = mem.load_memory_word(0xfffc);
        self.st = StatusFlags(32);
        self.irq = false;
        self.nmi = false;
        self.cycle = 0;
        self.cycles = 0;
        self.reset = true;
        self.status_line = String::from_str("(Reset)");
        proof {
            reveal_strlit("(Reset)");
        }
    }

    /// Sets the flags of `enable`, then clears those of `disable`.
    pub fn change_flags(&mut self, enable: &[StatusFlag], disable: &[StatusFlag])
        ensures
            final(self)@ == (CpuState {
                st: (old(self)@.st | mask_of(enable@)) & !mask_of(disable@),
                ..old(self)@
            }),
    {
        self.set_flags(enable);
        self.clear_flags(disable);
    }

    pub fn set_flag(&mut self, flag: StatusFlag)
        ensures
            final(self)@ == old(self)@.with_flag(flag.mask(), true),
    {
        let flag: u8 = flag.bit();
        self.st.0 = self.st.0 | flag;
    }

    pub fn set_flags(&mut self, flags: &[StatusFlag])
        ensures
            final(self)@ == (CpuState { st: old(self)@.st | mask_of(flags@), ..old(self)@ }),
    {
        let ghost st0 = self.st.0;
        let mut i: usize = 0;
        proof {
            assert(flags@.subrange(0, 0) =~= Seq::<StatusFlag>::empty());
            assert(st0 | 0u8 == st0) by (bit_vector);
        }
        while i < flags.len()
            invariant
                i <= flags@.len(),
                self@ == (CpuState { st: st0 | mask_of(flags@.subrange(0, i as int)), ..old(self)@ }),
            decreases flags@.len() - i,
        {
            let ghost before = mask_of(flags@.subrange(0, i as int));
            self.set_flag(flags[i]);
            proof {
                let next = flags@.subrange(0, i + 1);
                assert(next.drop_last() =~= flags@.subrange(0, i as int));
                let b = flags@[i as int].mask();
                assert((st0 | before) | b == st0 | (before | b)) by (bit_vector);
            }
            i = i + 1;
        }
        proof {
            assert(flags@.subrange(0, flags@.len() as int) =~= flags@);
        }
    }

    pub fn clear_flag(&mut self, flag: StatusFlag)
        ensures
            final(self)@ == old(self)@.with_flag(flag.mask(), false),
    {
        let flag: u8 = flag.bit();
        self.st.0 = self.st.0 & !flag;
    }

    pub fn clear_flags(&mut self, flags: &[StatusFlag])
        ensures
            final(self)@ == (CpuState { st: old(self)@.st & !mask_of(flags@), ..old(self)@ }),
    {
        let ghost st0 = self.st.0;
        let mut i: usize = 0;
        proof {
            assert(flags@.subrange(0, 0) =~= Seq::<StatusFlag>::empty());
            assert(st0 & !0u8 == st0) by (bit_vector);
        }
        while i < flags.len()
            invariant
                i <= flags@.len(),
                self@ == (CpuState {
                    st: st0 & !mask_of(flags@.subrange(0, i as int)),
                    ..old(self)@
                }),
            decreases flags@.len() - i,
        {
            let ghost before = mask_of(flags@.subrange(0, i as int));
            self.clear_flag(flags[i]);
            proof {
                let next = flags@.subrange(0, i + 1);
                assert(next.drop_last() =~= flags@.subrange(0, i as int));
                let b = flags@[i as int].mask();
                assert((st0 & !before) & !b == st0 & !(before | b)) by (bit_vector);
            }
            i = i + 1;
        }
        proof {
            assert(flags@.subrange(0, flags@.len() as int) =~= flags@);
        }
    }

    pub fn is_set(&self, flag: StatusFlag) -> (r: bool)
        ensures
            r == self@.flag(flag.mask()),
    {
        let flag: u8 = flag.bit();
        self.st.0 & flag != 0
    }

    pub fn is_clear(&self, flag: StatusFlag) -> (r: bool)
        ensures
            r == !self@.flag(flag.mask()),
    {
        let flag: u8 = flag.bit();
        self.st.0 & flag == 0
    }

    /// Jumps to the effective address latch.
    pub fn set_pc(&mut self)
        ensures
            final(self)@ == (CpuState { pc: old(self)@.tmp_addr, ..old(self)@ }),
    {
        self.pc = self.tmp_addr;
    }

    /// Moves the program counter by `arg` read as a signed byte.
    pub fn inc_pc(&mut self, arg: u8)
        ensures
            final(self)@ == old(self)@.inc_pc(arg),
    {
        if arg < 128 {
            self.pc = self.pc.wrapping_add(arg as u16);
        } else {
            self.pc = self.pc.wrapping_sub(256 - arg as u16);
        }
    }
}

} // verus!
