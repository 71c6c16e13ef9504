use std::ops::Range;

use vstd::prelude::*;

use crate::cpu6502::cpu::lemma_mask_bits;
use crate::cpu6502::memory::Device;
use crate::video::C64Colour;

verus! {

/// The VIC-II register file as seen by the CPU, and the raster line at which
/// a raster interrupt is requested.
pub struct Control {
    pub reg: [u8; 0x40],
    pub raster_interrupt_at_line: u16,
}

/// The mathematical value of a [`Control`]: its 64 registers and the raster
/// interrupt line.
pub struct ControlState {
    pub reg: Seq<u8>,
    pub raster_interrupt_at_line: u16,
}

impl View for Control {
    type V = ControlState;

    open spec fn view(&self) -> ControlState {
        ControlState { reg: self.reg@, raster_interrupt_at_line: self.raster_interrupt_at_line }
    }
}

#[derive(Debug, Clone, Copy, PartialEq, Eq, Structural)]
pub enum Coordinate {
    X,
    Y,
}

impl Coordinate {
    /// The register offset of the axis within a sprite's coordinate pair.
    pub open spec fn spec_offset(self) -> int {
        match self {
            Coordinate::X => 0,
            Coordinate::Y => 1,
        }
    }
}

impl From<u8> for Coordinate {
    fn from(value: u8) -> (r: Self) {
        if value == 0 {
            Coordinate::X
        } else {
            Coordinate::Y
        }
    }
}

impl vstd::std_specs::convert::FromSpecImpl<u8> for Coordinate {
    open spec fn obeys_from_spec() -> bool {
        true
    }

    open spec fn from_spec(v: u8) -> Coordinate {
        if v == 0 {
            Coordinate::X
        } else {
            Coordinate::Y
        }
    }
}

impl From<u16> for Coordinate {
    fn from(value: u16) -> (r: Self) {
        if value == 0 {
            Coordinate::X
        } else {
            Coordinate::Y
        }
    }
}

impl vstd::std_specs::convert::FromSpecImpl<u16> for Coordinate {
    open spec fn obeys_from_spec() -> bool {
        true
    }

    open spec fn from_spec(v: u16) -> Coordinate {
        if v == 0 {
            Coordinate::X
        } else {
            Coordinate::Y
        }
    }
}

#[derive(Debug, Clone, Copy, PartialEq, Eq, Structural)]
pub enum ScreenState {
    Off,
    On,
}

#[derive(Debug, Clone, Copy, PartialEq, Eq, Structural)]
pub enum ScreenMode {
    Text,
    Bitmap,
}

/// True when bit `n` of `b` is set.
pub open spec fn bit_set(b: u8, n: u8) -> bool {
    (b >> n) & 1 == 1
}

proof fn lemma_or_high_bit(lo: u8)
    ensures
        (lo as u16 | 256u16) == lo as u16 + 256,
        (lo as u16 | 0u16) == lo as u16,
{
    assert((lo as u16 | 256u16) == lo as u16 + 256) by (bit_vector);
    assert((lo as u16 | 0u16) == lo as u16) by (bit_vector);
}

proof fn lemma_mask_bit(b: u8, n: u8)
    requires
        n < 8,
    ensures
        (b & (1u8 << n) != 0) == bit_set(b, n),
        bit_set(b | (1u8 << n), n),
        forall|m: u8| m < 8 && m != n ==> bit_set(b | (1u8 << n), m) == bit_set(b, m),
{
    assert((b & (1u8 << n) != 0) == ((b >> n) & 1 == 1)) by (bit_vector)
        requires
            n < 8,
    ;
    assert(((b | (1u8 << n)) >> n) & 1 == 1) by (bit_vector)
        requires
            n < 8,
    ;
    assert(forall|m: u8|
        m < 8 && m != n ==> (((b | (1u8 << n)) >> m) & 1 == 1) == ((b >> m) & 1 == 1))
        by (bit_vector)
        requires
            n < 8,
    ;
}

impl ControlState {
    /// The 9-bit raster line: register 0x12 holds the low eight bits and bit 7
    /// of register 0x11 the ninth.
    pub open spec fn raster_line(self) -> int {
        self.reg[0x12] + if self.reg[0x11] >= 0x80 {
            256int
        } else {
            0int
        }
    }

    /// The value the CPU reads from register `addr`.
    pub open spec fn read_value(self, addr: u16) -> u8 {
        if addr == 0x18 {
            self.reg[0x18] | 1
        } else if addr == 0x19 {
            let res = self.reg[0x19] & 0x0f;
            if res != 0 {
                res | 0x80
            } else {
                res
            }
        } else {
            self.reg[addr as int]
        }
    }

    /// Reads are defined for the 64 registers only.
    pub open spec fn read_ok(self, addr: u16) -> bool {
        addr == 0x18 || addr == 0x19 || addr < 0x40
    }

    /// The effect of the CPU writing `byte` to register `addr`; addresses past
    /// the register file mirror it every 64 bytes.
    pub open spec fn write_value(self, addr: u16, byte: u8) -> ControlState {
        let a = if addr <= 0x3f {
            addr
        } else {
            (addr % 0x40) as u16
        };
        if a == 0x11 {
            ControlState {
                reg: self.reg.update(0x11, (self.reg[0x11] & 0x80) | (byte & 0x7f)),
                raster_interrupt_at_line: (self.raster_interrupt_at_line & 0xff) | (((byte as u16)
                    & 0x80) << 1u16),
            }
        } else if a == 0x12 {
            ControlState {
                reg: self.reg,
                raster_interrupt_at_line: (self.raster_interrupt_at_line & 0x100) | byte as u16,
            }
        } else if a == 0x18 {
            self
        } else if a == 0x19 {
            ControlState {
                reg: self.reg.update(0x19, self.reg[0x19] & !(byte & 0x0f)),
                raster_interrupt_at_line: self.raster_interrupt_at_line,
            }
        } else {
            ControlState {
                reg: self.reg.update(a as int, byte),
                raster_interrupt_at_line: self.raster_interrupt_at_line,
            }
        }
    }
}

impl Control {
    /// The register file after power-on: raster control 0x1b, horizontal
    /// control 0xc8, memory pointers 0x14, a light blue border and a blue
    /// background, everything else zero.
    pub open spec fn initial_regs() -> Seq<u8> {
        Seq::new(0x40, |i: int| 0u8).update(0x11, 0x1bu8).update(0x16, 0xc8u8).update(
            0x18,
            0x14u8,
        ).update(0x20, 14u8).update(0x21, 6u8)
    }

    pub fn new() -> (r: Self)
        ensures
            r@.reg == Self::initial_regs(),
            r@.raster_interrupt_at_line == 0,
    {
        let mut reg = [0u8; 0x40];
        reg[0x11] = 0x1b;
        reg[0x16] = 0xc8;
        reg[0x18] = 0x14;
        let mut ret = Control { reg, raster_interrupt_at_line: 0 };
        ret.set_border_color(C64Colour::LightBlue.index());
        ret.set_background_color(C64Colour::Blue.index());
        proof {
            assert(14u8 & 0x0f == 14u8 && 6u8 & 0x0f == 6u8) by (bit_vector);
            assert(ret@.reg =~= Self::initial_regs());
        }
        ret
    }

    /// The coordinate of sprite `sprite_no` on the given axis; the X axis has a
    /// ninth bit, taken from register 0x10.
    pub fn get_sprite_coordinate(&self, sprite_no: u8, coordinate_axis: Coordinate) -> (r: u16)
        requires
            sprite_no < 8,
        ensures
            r == self.reg[sprite_no * 2 + coordinate_axis.spec_offset()] + if coordinate_axis
                == Coordinate::X && bit_set(self.reg[0x10], sprite_no) {
                256int
            } else {
                0int
            },
    {
        let idx: usize = sprite_no as usize * 2 + match coordinate_axis {
            Coordinate::X => 0usize,
            Coordinate::Y => 1usize,
        };
        let lsb = self.reg[idx] as u16;
        let msb: u16 = if coordinate_axis == Coordinate::X && self.reg[0x10] & (1u8 << sprite_no)
            != 0 {
            1u16 << 8u16
        } else {
            0
        };
        proof {
            lemma_mask_bit(self.reg[0x10], sprite_no);
            lemma_or_high_bit(self.reg[idx as int]);
            assert(1u16 << 8u16 == 256u16) by (bit_vector);
        }
        lsb | msb
    }

    /// Stores the low eight bits of `value` as the sprite's coordinate; for the
    /// X axis a set ninth bit is recorded in register 0x10 (a clear one leaves
    /// that register as it was).
    pub fn set_sprite_coordinate(&mut self, sprite_no: u8, coordinate_axis: Coordinate, value: u16)
        requires
            sprite_no * 2 + coordinate_axis.spec_offset() < 0x40,
            coordinate_axis == Coordinate::X && value >= 0x100 && value % 0x200 >= 0x100
                ==> sprite_no < 8,
        ensures
            ({
                let idx = sprite_no * 2 + coordinate_axis.spec_offset();
                let r1 = old(self).reg@.update(idx, (value % 256) as u8);
                final(self).reg@ == if coordinate_axis == Coordinate::X && value % 0x200 >= 0x100 {
                    r1.update(0x10, r1[0x10] | (1u8 << sprite_no))
                } else {
                    r1
                }
            }),
            final(self).raster_interrupt_at_line == old(self).raster_interrupt_at_line,
    {
        let idx: usize = sprite_no as usize * 2 + match coordinate_axis {
            Coordinate::X => 0usize,
            Coordinate::Y => 1usize,
        };
        proof {
            assert(value & 0xff == value % 256) by (bit_vector);
            assert((value & 0x100 != 0) == (value % 0x200 >= 0x100)) by (bit_vector);
        }
        self.reg[idx] = (value & 0xff) as u8;
        if coordinate_axis == Coordinate::X && value & 0x100 != 0 {
            self.reg[0x10] = self.reg[0x10] | (1u8 << sprite_no);
        }
    }

    pub fn get_vertical_raster_scroll(&self) -> (r: u8)
        ensures
            r == self.reg[0x11] & 0b111,
    {
        self.reg[0x11] & 0b111
    }

    /// ORs the low three bits of `value` into the vertical scroll bits.
    pub fn set_vertical_raster_scroll(&mut self, value: u8)
        ensures
            final(self).reg@ == old(self).reg@.update(0x11, old(self).reg[0x11] | (value & 0b111)),
            final(self).raster_interrupt_at_line == old(self).raster_interrupt_at_line,
    {
        self.reg[0x11] = self.reg[0x11] | (value & 0b111);
    }

    /// 24 rows when bit 3 of register 0x11 is clear, 25 rows when it is set.
    pub fn get_screen_height_range(&self) -> (r: Range<u8>)
        ensures
            r.start == 0,
            r.end == if self.reg[0x11] & 0b1000 == 0 {
                24u8
            } else {
                25u8
            },
    {
        if self.reg[0x11] & 0b1000 == 0 {
            0..24
        } else {
            0..25
        }
    }

    pub fn set_screen_height_range(&mut self, reduced: bool)
        ensures
            final(self).reg@ == old(self).reg@.update(
                0x11,
                if reduced {
                    old(self).reg[0x11] & !0b1000u8
                } else {
                    old(self).reg[0x11] | 0b1000u8
                },
            ),
            final(self).raster_interrupt_at_line == old(self).raster_interrupt_at_line,
    {
        if reduced {
            self.reg[0x11] = self.reg[0x11] & !0b1000u8;
        } else {
            self.reg[0x11] = self.reg[0x11] | 0b1000u8;
        }
    }

    pub fn get_screen_state(&self) -> (r: ScreenState)
        ensures
            r == if self.reg[0x11] & 0b10000 == 0 {
                ScreenState::Off
            } else {
                ScreenState::On
            },
    {
        if self.reg[0x11] & 0b10000 == 0 {
            ScreenState::Off
        } else {
            ScreenState::On
        }
    }

    pub fn set_screen_state(&mut self, st: ScreenState)
        ensures
            final(self).reg@ == old(self).reg@.update(
                0x11,
                match st {
                    ScreenState::Off => old(self).reg[0x11] & !0b10000u8,
                    ScreenState::On => old(self).reg[0x11] | 0b10000u8,
                },
            ),
            final(self).raster_interrupt_at_line == old(self).raster_interrupt_at_line,
    {
        match st {
            ScreenState::Off => self.reg[0x11] = self.reg[0x11] & !0b10000u8,
            ScreenState::On => self.reg[0x11] = self.reg[0x11] | 0b10000u8,
        }
    }

    pub fn get_screen_mode(&self) -> (r: ScreenMode)
        ensures
            r == if self.reg[0x11] & 0b100000 == 0 {
                ScreenMode::Text
            } else {
                ScreenMode::Bitmap
            },
    {
        if self.reg[0x11] & 0b100000 == 0 {
            ScreenMode::Text
        } else {
            ScreenMode::Bitmap
        }
    }

    pub fn set_screen_mode(&mut self, m: ScreenMode)
        ensures
            final(self).reg@ == old(self).reg@.update(
                0x11,
                match m {
                    ScreenMode::Text => old(self).reg[0x11] & !0b100000u8,
                    ScreenMode::Bitmap => old(self).reg[0x11] | 0b100000u8,
                },
            ),
            final(self).raster_interrupt_at_line == old(self).raster_interrupt_at_line,
    {
        match m {
            ScreenMode::Text => self.reg[0x11] = self.reg[0x11] & !0b100000u8,
            ScreenMode::Bitmap => self.reg[0x11] = self.reg[0x11] | 0b100000u8,
        }
    }

    pub fn get_extended_background_mode(&self) -> (r: bool)
        ensures
            r == (self.reg[0x11] & 0b1000000 != 0),
    {
        self.reg[0x11] & 0b1000000 != 0
    }

    pub fn set_extended_background_mode(&mut self, extended: bool)
        ensures
            final(self).reg@ == old(self).reg@.update(
                0x11,
                if extended {
                    old(self).reg[0x11] | 0b1000000u8
                } else {
                    old(self).reg[0x11] & !0b1000000u8
                },
            ),
            final(self).raster_interrupt_at_line == old(self).raster_interrupt_at_line,
    {
        if extended {
            self.reg[0x11] = self.reg[0x11] | 0b1000000u8;
        } else {
            self.reg[0x11] = self.reg[0x11] & !0b1000000u8;
        }
    }

    pub fn get_current_raster_line(&self) -> (r: u16)
        ensures
            r == self@.raster_line(),
    {
        let lsb = self.reg[0x12] as u16;
        proof {
            let b = self.reg[0x11];
            assert((b & 0x80 != 0) == (b >= 0x80)) by (bit_vector);
        }
        let msb: u16 = if self.reg[0x11] & 0x80 != 0 {
            256
        } else {
            0
        };
        lsb + msb
    }

    /// Advances the 9-bit raster line counter by one, wrapping at 512.
    pub fn inc_current_raster_line(&mut self)
        ensures
            final(self)@.raster_line() == (old(self)@.raster_line() + 1) % 512,
            forall|i: int|
                0 <= i < 0x40 && i != 0x11 && i != 0x12 ==> final(self).reg[i] == old(self).reg[i],
            final(self).reg[0x11] % 0x80 == old(self).reg[0x11] % 0x80,
            final(self).raster_interrupt_at_line == old(self).raster_interrupt_at_line,
    {
        self.reg[0x12] = self.reg[0x12].wrapping_add(1);
        if self.reg[0x12] == 0 {
            proof {
                let b = self.reg[0x11];
                assert((b ^ 0x80) % 0x80 == b % 0x80) by (bit_vector);
                assert((b >= 0x80) == ((b ^ 0x80) < 0x80)) by (bit_vector);
            }
            self.reg[0x11] = self.reg[0x11] ^ 0x80;
        }
    }

    pub fn get_raster_interrupt_at_line(&self) -> (r: u16)
        ensures
            r == self.raster_interrupt_at_line,
    {
        self.raster_interrupt_at_line
    }

    pub fn set_raster_interrupt_at_line(&mut self, line: u16)
        ensures
            final(self).raster_interrupt_at_line == line,
            final(self).reg@ == old(self).reg@,
    {
        self.raster_interrupt_at_line = line;
    }

    pub fn get_horizontal_raster_scroll(&self) -> (r: u8)
        ensures
            r == self.reg[0x16] & 0b111,
    {
        self.reg[0x16] & 0b111
    }

    /// ORs the low three bits of `value` into the horizontal scroll bits.
    pub fn set_horizontal_raster_scroll(&mut self, value: u8)
        ensures
            final(self).reg@ == old(self).reg@.update(0x16, old(self).reg[0x16] | (value & 0b111)),
            final(self).raster_interrupt_at_line == old(self).raster_interrupt_at_line,
    {
        self.reg[0x16] = self.reg[0x16] | (value & 0b111);
    }

    pub fn is_multi_color_mode(&self) -> (r: bool)
        ensures
            r == (self.reg[0x16] & 0b1000 != 0),
    {
        self.reg[0x16] & 0b1000 != 0
    }

    pub fn set_multi_color_mode(&mut self, value: bool)
        ensures
            final(self).reg@ == old(self).reg@.update(
                0x16,
                if value {
                    old(self).reg[0x16] | 0b1000u8
                } else {
                    old(self).reg[0x16] & !0b1000u8
                },
            ),
            final(self).raster_interrupt_at_line == old(self).raster_interrupt_at_line,
    {
        if value {
            self.reg[0x16] = self.reg[0x16] | 0b1000u8;
        } else {
            self.reg[0x16] = self.reg[0x16] & !0b1000u8;
        }
    }

    /// Columns 1 to 38 when bit 3 of register 0x16 is clear, 0 to 39 when set.
    pub fn get_screen_width_range(&self) -> (r: Range<u8>)
        ensures
            self.reg[0x16] & 0b1000 == 0 ==> r.start == 1 && r.end == 39,
            self.reg[0x16] & 0b1000 != 0 ==> r.start == 0 && r.end == 40,
    {
        if self.reg[0x16] & 0b1000 == 0 {
            1..39
        } else {
            0..40
        }
    }

    pub fn set_screen_width_range(&mut self, reduced: bool)
        ensures
            final(self).reg@ == old(self).reg@.update(
                0x16,
                if reduced {
                    old(self).reg[0x16] & !0b1000u8
                } else {
                    old(self).reg[0x16] | 0b1000u8
                },
            ),
            final(self).raster_interrupt_at_line == old(self).raster_interrupt_at_line,
    {
        if reduced {
            self.reg[0x16] = self.reg[0x16] & !0b1000u8;
        } else {
            self.reg[0x16] = self.reg[0x16] | 0b1000u8;
        }
    }

    /// The high four bits of register 0x18, in units of 1K.
    pub fn get_screen_base_address(&self) -> (r: u16)
        ensures
            r == (self.reg[0x18] / 16) * 0x400,
    {
        (self.reg[0x18] / 16) as u16 * 0x400
    }

    /// The low three bits of register 0x18, in units of 2K.
    pub fn get_character_set_base_address(&self) -> (r: u16)
        ensures
            r == (self.reg[0x18] % 8) * 0x800,
    {
        (self.reg[0x18] % 8) as u16 * 0x800
    }

    /// Bit 3 of register 0x18 selects 0x0000 or 0x2000.
    pub fn get_bitmap_base_address(&self) -> (r: u16)
        ensures
            r == if self.reg[0x18] & 0x08 == 0 {
                0u16
            } else {
                0x2000u16
            },
    {
        proof {
            let b = self.reg[0x18];
            assert(b & 0x08 == 0 || b & 0x08 == 8) by (bit_vector);
        }
        (self.reg[0x18] & 0x08) as u16 * 0x400
    }

    pub fn is_raster_interrupt_enabled(&self) -> (r: bool)
        ensures
            r == (self.reg[0x1a] & 1 != 0),
    {
        self.reg[0x1a] & 1 != 0
    }

    pub fn set_source_is_raster_interrupt(&mut self)
        ensures
            final(self).reg@ == old(self).reg@.update(0x19, old(self).reg[0x19] | 1),
            final(self).raster_interrupt_at_line == old(self).raster_interrupt_at_line,
    {
        self.reg[0x19] = self.reg[0x19] | 1;
    }

    pub fn get_border_color(&self) -> (r: u8)
        ensures
            r == self.reg[0x20] % 16,
    {
        proof {
            let b = self.reg[0x20];
            assert(b & 0x0f == b % 16) by (bit_vector);
        }
        self.reg[0x20] & 0x0f
    }

    pub fn set_border_color(&mut self, color: u8)
        ensures
            final(self).reg@ == old(self).reg@.update(0x20, color % 16),
            final(self).raster_interrupt_at_line == old(self).raster_interrupt_at_line,
    {
        proof {
            assert(color & 0x0f == color % 16) by (bit_vector);
        }
        self.reg[0x20] = color & 0x0f;
    }

    pub fn get_background_color(&self) -> (r: u8)
        ensures
            r == self.reg[0x21] % 16,
    {
        proof {
            let b = self.reg[0x21];
            assert(b & 0x0f == b % 16) by (bit_vector);
        }
        self.reg[0x21] & 0x0f
    }

    pub fn set_background_color(&mut self, color: u8)
        ensures
            final(self).reg@ == old(self).reg@.update(0x21, color % 16),
            final(self).raster_interrupt_at_line == old(self).raster_interrupt_at_line,
    {
        proof {
            assert(color & 0x0f == color % 16) by (bit_vector);
        }
        self.reg[0x21] = color & 0x0f;
    }
}

/// What happens at the raster between two CPU steps, besides the line moving
/// on: whether the screen is to be redrawn and whether the raster interrupt
/// fires.
#[derive(Debug, Clone, Copy, PartialEq, Eq, Structural)]
pub struct RasterEvents {
    pub redraw: bool,
    pub irq: bool,
}

impl Control {
    /// Moves the raster on by one line. The screen is redrawn when the line
    /// count is a multiple of 20000 (that is, when it starts over at line 0);
    /// when raster interrupts are enabled and the new line is the one set for
    /// them, the interrupt fires and its source is recorded in register 0x19.
    pub fn advance_raster(&mut self) -> (r: RasterEvents)
        ensures
            final(self)@.raster_line() == (old(self)@.raster_line() + 1) % 512,
            r.redraw == (final(self)@.raster_line() % 20000 == 0),
            r.irq == (old(self).reg[0x1a] & 1 != 0 && final(self)@.raster_line()
                == old(self).raster_interrupt_at_line),
            final(self).reg[0x19] == if r.irq {
                old(self).reg[0x19] | 1
            } else {
                old(self).reg[0x19]
            },
            forall|i: int|
                0 <= i < 0x40 && i != 0x11 && i != 0x12 && i != 0x19 ==> final(self).reg[i]
                    == old(self).reg[i],
            final(self).reg[0x11] % 0x80 == old(self).reg[0x11] % 0x80,
            final(self).raster_interrupt_at_line == old(self).raster_interrupt_at_line,
    {
        self.inc_current_raster_line();
        let line = self.get_current_raster_line();
        let redraw = line % 20000 == 0;
        let irq = self.is_raster_interrupt_enabled() && line == self.get_raster_interrupt_at_line();
        if irq {
            self.set_source_is_raster_interrupt();
        }
        RasterEvents { redraw, irq }
    }
}

impl Device for Control {
    open spec fn read_ok(&self, addr: u16) -> bool {
        self@.read_ok(addr)
    }

    open spec fn write_ok(&self, addr: u16) -> bool {
        true
    }

    fn read(&mut self, addr: u16) -> (r: u8)
        ensures
            r == old(self)@.read_value(addr),
            final(self)@ == old(self)@,
    {
        if addr == 0x18 {
            self.reg[0x18] | 1
        } else if addr == 0x19 {
            let res = self.reg[0x19] & 0x0f;
            if res != 0 {
                res | 0x80
            } else {
                res
            }
        } else {
            self.reg[addr as usize]
        }
    }

    fn write(&mut self, addr: u16, byte: u8)
        ensures
            final(self)@ == old(self)@.write_value(addr, byte),
    {
        let a: u16 = if addr <= 0x3f {
            addr
        } else {
            addr % 0x40
        };
        if a == 0x11 {
            self.reg[0x11] = (self.reg[0x11] & 0x80) | (byte & 0x7f);
            self.raster_interrupt_at_line = (self.raster_interrupt_at_line & 0xff) | (((
            byte as u16) & 0x80) << 1u16);
        } else if a == 0x12 {
            self.raster_interrupt_at_line = (self.raster_interrupt_at_line & 0x100) | byte as u16;
        } else if a == 0x18 {
        } else if a == 0x19 {
            self.reg[0x19] = self.reg[0x19] & !(byte & 0x0f);
        } else {
            self.reg[a as usize] = byte;
        }
        proof {
            assert(final(self)@.reg =~= old(self)@.write_value(addr, byte).reg);
        }
    }
}

/// A byte written to an ordinary register (any but the raster control,
/// raster line, memory pointer and interrupt registers) reads back as
/// written, and every address past the register file writes the register it
/// mirrors.
pub proof fn lemma_control_write_read(c: ControlState, addr: u16, byte: u8)
    requires
        c.reg.len() == 0x40,
        addr < 0x40,
        addr != 0x11 && addr != 0x12 && addr != 0x18 && addr != 0x19,
    ensures
        c.write_value(addr, byte).read_value(addr) == byte,
        forall|k: u16| 1 <= k < 0x400 ==> #[trigger] c.write_value((addr + 0x40 * k) as u16, byte)
            == c.write_value(addr, byte),
{
    assert forall|k: u16| 1 <= k < 0x400 implies #[trigger] c.write_value((addr + 0x40 * k) as u16, byte)
        == c.write_value(addr, byte) by {
        assert(((addr + 0x40 * k) as u16) % 0x40 == addr) by (nonlinear_arith)
            requires
                addr < 0x40,
                1 <= k < 0x400,
        ;
    }
}

/// Writing a byte to register 0x19 acknowledges interrupts: each of the low
/// four bits set in the byte is cleared in the register, every other bit of
/// it and every other register stay as they were, and a read of 0x19 no
/// longer reports the acknowledged sources.
pub proof fn lemma_acknowledge_interrupts(c: ControlState, b: u8)
    requires
        c.reg.len() == 0x40,
    ensures
        ({
            let n = c.write_value(0x19, b);
            let m = b & 0x0f;
            &&& n.reg.len() == 0x40
            &&& n.reg[0x19] & m == 0
            &&& n.reg[0x19] & !m == c.reg[0x19] & !m
            &&& forall|k: int| 0 <= k < 0x40 && k != 0x19 ==> #[trigger] n.reg[k] == c.reg[k]
            &&& n.raster_interrupt_at_line == c.raster_interrupt_at_line
            &&& n.read_value(0x19) & m == 0
        }),
{
    let m = b & 0x0f;
    lemma_mask_bits(c.reg[0x19], m);
    lemma_mask_bits(c.reg[0x19], b);
    let n = c.write_value(0x19, b);
    assert(n.reg[0x19] == c.reg[0x19] & !m);
    assert(n.reg[0x19] & m == 0);
    assert(n.reg[0x19] & !m == c.reg[0x19] & !m);
    assert(n.read_value(0x19) & m == 0);
}

/// Setting the raster line for the interrupt through registers 0x11 (bit 7,
/// the ninth bit) and 0x12 (the low eight bits) gives that line.
pub proof fn lemma_raster_interrupt_line(c: ControlState, line: u16)
    requires
        c.reg.len() == 0x40,
        line < 0x200,
    ensures
        c.write_value(0x11, if line >= 0x100 {
            0x80u8
        } else {
            0u8
        }).write_value(0x12, (line % 256) as u8).raster_interrupt_at_line == line,
{
    let hi: u8 = if line >= 0x100 {
        0x80u8
    } else {
        0u8
    };
    let r0 = c.raster_interrupt_at_line;
    let r1 = (r0 & 0xff) | (((hi as u16) & 0x80) << 1u16);
    let lo = (line % 256) as u8;
    assert((r1 & 0x100) | lo as u16 == line) by (bit_vector)
        requires
            r1 == (r0 & 0xff) | (((hi as u16) & 0x80) << 1u16),
            hi == (if line >= 0x100 {
                0x80u8
            } else {
                0u8
            }),
            lo == (line % 256) as u8,
            line < 0x200,
    ;
}

} // verus!
