use vstd::prelude::*;

use crate::cpu6502::cpu::lemma_mask_bits;
use crate::cpu6502::memory::Device;

verus! {

/// The CIA1 chip: keyboard matrix ports, two interval timers, the interrupt
/// control registers and the time-of-day clock with its alarm. Joystick,
/// paddles, light pen and the serial port are not modelled.
pub struct Cia1 {
    /// write to select which keyboard row to read
    pub port_a: u8,
    /// read the columns of the selected rows
    pub port_b: u8,
    pub ddr_a: u8,
    pub ddr_b: u8,
    /// Keyboard matrix (8x8): each byte is a row, each bit a column,
    /// 0 = pressed, 1 = released.
    pub matrix: [u8; 8],
    pub serial_shift: u8,
    pub timer_a_ctrl: u8,
    pub timer_b_ctrl: u8,
    pub interrupt_ctrl: u8,
    pub interrupt_status: u8,
    pub timer_a_value: u16,
    pub timer_a_latch: u16,
    pub timer_b_value: u16,
    pub timer_b_latch: u16,
    pub alarm_triggered: bool,
    pub alarm_time: [u8; 4],
    pub current_time: [u8; 4],
}

/// The mathematical value of a [`Cia1`].
pub struct Cia1State {
    pub port_a: u8,
    pub port_b: u8,
    pub ddr_a: u8,
    pub ddr_b: u8,
    pub matrix: Seq<u8>,
    pub serial_shift: u8,
    pub timer_a_ctrl: u8,
    pub timer_b_ctrl: u8,
    pub interrupt_ctrl: u8,
    pub interrupt_status: u8,
    pub timer_a_value: u16,
    pub timer_a_latch: u16,
    pub timer_b_value: u16,
    pub timer_b_latch: u16,
    pub alarm_triggered: bool,
    pub alarm_time: Seq<u8>,
    pub current_time: Seq<u8>,
}

impl View for Cia1 {
    type V = Cia1State;

    open spec fn view(&self) -> Cia1State {
        Cia1State {
            port_a: self.port_a,
            port_b: self.port_b,
            ddr_a: self.ddr_a,
            ddr_b: self.ddr_b,
            matrix: self.matrix@,
            serial_shift: self.serial_shift,
            timer_a_ctrl: self.timer_a_ctrl,
            timer_b_ctrl: self.timer_b_ctrl,
            interrupt_ctrl: self.interrupt_ctrl,
            interrupt_status: self.interrupt_status,
            timer_a_value: self.timer_a_value,
            timer_a_latch: self.timer_a_latch,
            timer_b_value: self.timer_b_value,
            timer_b_latch: self.timer_b_latch,
            alarm_triggered: self.alarm_triggered,
            alarm_time: self.alarm_time@,
            current_time: self.current_time@,
        }
    }
}

/// The little-endian value of four bytes.
pub open spec fn le_u32(b: Seq<u8>) -> int {
    b[0] + b[1] * 0x100 + b[2] * 0x10000 + b[3] * 0x1000000
}

/// The BCD encoding of a number below 100: tens in the high nibble, units in
/// the low nibble.
pub open spec fn bcd(num: int) -> int {
    (num / 10) * 16 + num % 10
}

/// A valid reading of the time-of-day clock: tenths of a second below 20
/// (a leap second reaches up to 19), then seconds, minutes and hours in BCD,
/// with bit 7 of the hour marking the afternoon.
pub open spec fn is_tod(t: Seq<u8>) -> bool {
    &&& t.len() == 4
    &&& t[0] < 20
    &&& exists|s: int| 0 <= s < 60 && t[1] == bcd(s)
    &&& exists|m: int| 0 <= m < 60 && t[2] == bcd(m)
    &&& exists|h: int| 1 <= h <= 12 && (t[3] == bcd(h) || t[3] == bcd(h) + 0x80)
}

/// The result of scanning the keyboard matrix: the AND of the rows whose bit
/// in `row_sel` is low, over the first `n` rows.
pub open spec fn scan_rows(matrix: Seq<u8>, row_sel: u8, n: nat) -> u8
    decreases n,
{
    if n == 0 {
        0xff
    } else {
        let acc = scan_rows(matrix, row_sel, (n - 1) as nat);
        if (row_sel >> ((n - 1) as u8)) & 1 == 0 {
            acc & matrix[n - 1]
        } else {
            acc
        }
    }
}

impl Cia1State {
    pub open spec fn timer_a_started(self) -> bool {
        self.timer_a_ctrl & 1 != 0
    }

    pub open spec fn timer_b_started(self) -> bool {
        self.timer_b_ctrl & 1 != 0
    }

    /// The register a CPU address selects: the 16 registers repeat every 16
    /// bytes of the 256-byte window.
    pub open spec fn reg_of(addr: u16) -> u16 {
        if addr >= 0x10 {
            (addr % 0x10) as u16
        } else {
            addr
        }
    }

    pub open spec fn port_a_pins(self) -> u8 {
        (self.port_a & self.ddr_a) | !self.ddr_a
    }

    pub open spec fn read_value(self, addr: u16) -> u8 {
        let a = Self::reg_of(addr);
        if a == 0 {
            self.port_a_pins()
        } else if a == 1 {
            let res = scan_rows(self.matrix, self.port_a_pins(), 8);
            (res & !self.ddr_b) | (self.port_b & self.ddr_b)
        } else if a == 2 {
            self.ddr_a
        } else if a == 3 {
            self.ddr_b
        } else if a == 4 {
            (self.timer_a_value % 256) as u8
        } else if a == 5 {
            (self.timer_a_value / 256) as u8
        } else if a == 6 {
            (self.timer_b_value % 256) as u8
        } else if a == 7 {
            (self.timer_b_value / 256) as u8
        } else if a == 8 {
            self.current_time[0]
        } else if a == 9 {
            self.current_time[1]
        } else if a == 0xa {
            self.current_time[2]
        } else if a == 0xb {
            self.current_time[3]
        } else if a == 0xc {
            self.serial_shift
        } else if a == 0xd {
            self.interrupt_status
        } else if a == 0xe {
            self.timer_a_ctrl
        } else {
            self.timer_b_ctrl
        }
    }

    pub open spec fn write_value(self, addr: u16, byte: u8) -> Cia1State {
        let a = Self::reg_of(addr);
        if a == 0 {
            Cia1State { port_a: byte, ..self }
        } else if a == 1 {
            Cia1State { port_b: byte, ..self }
        } else if a == 2 {
            Cia1State { ddr_a: byte, ..self }
        } else if a == 3 {
            Cia1State { ddr_b: byte, ..self }
        } else if a == 4 {
            Cia1State {
                timer_a_value: ((self.timer_a_value / 256) * 256 + byte) as u16,
                timer_a_latch: ((self.timer_a_latch / 256) * 256 + byte) as u16,
                ..self
            }
        } else if a == 5 {
            Cia1State {
                timer_a_latch: (self.timer_a_latch % 256 + byte * 256) as u16,
                timer_a_value: if self.timer_a_started() {
                    self.timer_a_value
                } else {
                    (self.timer_a_value % 256 + byte * 256) as u16
                },
                ..self
            }
        } else if a == 6 {
            Cia1State {
                timer_b_value: ((self.timer_b_value / 256) * 256 + byte) as u16,
                timer_b_latch: ((self.timer_b_latch / 256) * 256 + byte) as u16,
                ..self
            }
        } else if a == 7 {
            Cia1State {
                timer_b_latch: (self.timer_b_latch % 256 + byte * 256) as u16,
                timer_b_value: if self.timer_b_started() {
                    self.timer_b_value
                } else {
                    (self.timer_b_value % 256 + byte * 256) as u16
                },
                ..self
            }
        } else if 8 <= a <= 0xb {
            if self.timer_b_ctrl & 0x80 != 0 {
                Cia1State { alarm_time: self.alarm_time.update(a - 8, byte), ..self }
            } else {
                self
            }
        } else if a == 0xc {
            Cia1State { serial_shift: byte, ..self }
        } else if a == 0xd {
            Cia1State {
                interrupt_ctrl: if byte & 0x80 != 0 {
                    self.interrupt_ctrl | byte
                } else {
                    self.interrupt_ctrl & !byte
                },
                ..self
            }
        } else if a == 0xe {
            Cia1State { timer_a_ctrl: byte, ..self }
        } else {
            Cia1State { timer_b_ctrl: byte, ..self }
        }
    }

    /// One tick of timer A: a running timer counts down; on reaching zero it
    /// either stops (one-shot mode) or reloads from its latch, and flags an
    /// underrun, which interrupts when enabled.
    pub open spec fn tick_a(self) -> (Cia1State, bool) {
        if self.timer_a_ctrl & 1 != 0 {
            if self.timer_a_value == 0 {
                let s = if self.timer_a_ctrl & 8 != 0 {
                    Cia1State { timer_a_ctrl: self.timer_a_ctrl & !1u8, ..self }
                } else {
                    Cia1State { timer_a_value: self.timer_a_latch, ..self }
                };
                (
                    Cia1State { interrupt_status: s.interrupt_status | 1, ..s },
                    self.interrupt_ctrl & 1 != 0,
                )
            } else {
                (Cia1State { timer_a_value: (self.timer_a_value - 1) as u16, ..self }, false)
            }
        } else {
            (self, false)
        }
    }

    /// One tick of timer B, as [`Cia1State::tick_a`].
    pub open spec fn tick_b(self) -> (Cia1State, bool) {
        if self.timer_b_ctrl & 1 != 0 {
            if self.timer_b_value == 0 {
                let s = if self.timer_b_ctrl & 8 != 0 {
                    Cia1State { timer_b_ctrl: self.timer_b_ctrl & !1u8, ..self }
                } else {
                    Cia1State { timer_b_value: self.timer_b_latch, ..self }
                };
                (
                    Cia1State { interrupt_status: s.interrupt_status | 2, ..s },
                    self.interrupt_ctrl & 2 != 0,
                )
            } else {
                (Cia1State { timer_b_value: (self.timer_b_value - 1) as u16, ..self }, false)
            }
        } else {
            (self, false)
        }
    }

    /// The force-load bits: a set bit 4 copies the latch into the timer and
    /// clears itself.
    pub open spec fn force_loads(self) -> Cia1State {
        let s = if self.timer_a_ctrl & 16 != 0 {
            Cia1State {
                timer_a_value: self.timer_a_latch,
                timer_a_ctrl: self.timer_a_ctrl & !16u8,
                ..self
            }
        } else {
            self
        };
        if s.timer_b_ctrl & 16 != 0 {
            Cia1State {
                timer_b_value: s.timer_b_latch,
                timer_b_ctrl: s.timer_b_ctrl & !16u8,
                ..s
            }
        } else {
            s
        }
    }

    /// The alarm: when enabled and not yet triggered, it triggers once the
    /// clock has reached the alarm time, flagging bit 2 of the status.
    pub open spec fn check_alarm(self) -> (Cia1State, bool) {
        if self.interrupt_ctrl & 4 != 0 && !self.alarm_triggered && le_u32(self.current_time)
            >= le_u32(self.alarm_time) {
            (
                Cia1State {
                    alarm_triggered: true,
                    interrupt_status: self.interrupt_status | 4,
                    ..self
                },
                true,
            )
        } else {
            (self, false)
        }
    }

    /// One step of the chip with the clock reading `now`: the new state, and
    /// whether an interrupt is requested.
    pub open spec fn step_with(self, now: Seq<u8>) -> (Cia1State, bool) {
        let s0 = Cia1State { current_time: now, ..self };
        let (s1, i1) = s0.tick_a();
        let (s2, i2) = s1.tick_b();
        let s3 = s2.force_loads();
        let (s4, i4) = s3.check_alarm();
        (s4, i1 || i2 || i4)
    }
}

/// Converts a number below 100 to BCD.
pub fn to_bcd(num: u8) -> (r: u8)
    requires
        num < 100,
    ensures
        r == bcd(num as int),
        r < 0x9a,
{
    let msb = num / 10;
    let lsb = num - msb * 10;
    msb * 16 + lsb
}

/// The time-of-day registers for a clock reading: tenths of a second, then
/// seconds, minutes and the hour in BCD, with bit 7 of the hour set in the
/// afternoon.
pub fn time_registers(nanos: u32, sec: u32, min: u32, pm: bool, hour: u32) -> (r: [u8; 4])
    requires
        nanos < 2_000_000_000,
        sec < 60,
        min < 60,
        1 <= hour <= 12,
    ensures
        r@ == seq![
            (nanos / 100_000_000) as u8,
            bcd(sec as int) as u8,
            bcd(min as int) as u8,
            (bcd(hour as int) + if pm {
                0x80int
            } else {
                0int
            }) as u8,
        ],
        is_tod(r@),
{
    let h = to_bcd(hour as u8);
    proof {
        assert(h < 0x80);
        assert((h | 0x80u8) == h + 0x80 && (h | 0x00u8) == h) by (bit_vector)
            requires
                h < 0x80,
        ;
    }
    let r = [
        (nanos / 100_000_000) as u8,
        to_bcd(sec as u8),
        to_bcd(min as u8),
        h | if pm {
            0x80u8
        } else {
            0x00u8
        },
    ];
    proof {
        let t = r@;
        assert(0 <= sec < 60 && t[1] == bcd(sec as int));
        assert(0 <= min < 60 && t[2] == bcd(min as int));
        assert(1 <= hour <= 12 && (t[3] == bcd(hour as int) || t[3] == bcd(hour as int) + 0x80));
    }
    r
}

/// True when the clock `time` has reached `alarm`, both read as
/// little-endian 32-bit numbers.
pub fn time_has_reached_alarm(time: [u8; 4], alarm: [u8; 4]) -> (r: bool)
    ensures
        r == (le_u32(time@) >= le_u32(alarm@)),
{
    let t: u32 = time[0] as u32 + time[1] as u32 * 0x100 + time[2] as u32 * 0x10000 + time[3] as u32
        * 0x1000000;
    let a: u32 = alarm[0] as u32 + alarm[1] as u32 * 0x100 + alarm[2] as u32 * 0x10000 + alarm[3] as u32
        * 0x1000000;
    t >= a
}

impl Cia1 {
    /// The chip after reset: ports high, nothing pressed, timers and
    /// interrupts off, the clock set to the reading `now` (the time-of-day
    /// registers: tenths, then seconds, minutes and hour in BCD).
    pub fn new_with_time(now: [u8; 4]) -> (r: Self)
        ensures
            r@.port_a == 0xff,
            r@.port_b == 0xff,
            r@.ddr_a == 0,
            r@.ddr_b == 0,
            r@.matrix == Seq::new(8, |i: int| 0xffu8),
            r@.serial_shift == 0,
            r@.timer_a_ctrl == 0,
            r@.timer_b_ctrl == 0,
            r@.interrupt_ctrl == 0,
            r@.interrupt_status == 0,
            r@.timer_a_value == 0,
            r@.timer_a_latch == 0,
            r@.timer_b_value == 0,
            r@.timer_b_latch == 0,
            !r@.alarm_triggered,
            r@.alarm_time == Seq::new(4, |i: int| 0u8),
            r@.current_time == now@,
    {
        let r = Self {
            port_a: 0xff,
            port_b: 0xff,
            ddr_a: 0,
            ddr_b: 0,
            matrix: [0xff; 8],
            serial_shift: 0,
            timer_a_ctrl: 0,
            timer_b_ctrl: 0,
            interrupt_ctrl: 0,
            interrupt_status: 0,
            timer_a_value: 0,
            timer_a_latch: 0,
            timer_b_value: 0,
            timer_b_latch: 0,
            alarm_triggered: false,
            alarm_time: [0; 4],
            current_time: now,
        };
        proof {
            assert(r@.matrix =~= Seq::new(8, |i: int| 0xffu8));
            assert(r@.alarm_time =~= Seq::new(4, |i: int| 0u8));
        }
        r
    }

    /// One step of the chip with the clock reading `now`; returns whether an
    /// interrupt is requested.
    pub fn step_with_time(&mut self, now: [u8; 4]) -> (r: bool)
        ensures
            (final(self)@, r) == old(self)@.step_with(now@),
    {
        let mut interrupt = false;
        self.current_time = now;
        if self.is_timer_a_started() {
            if self.timer_a_value == 0 {
                if self.is_timer_a_stopping() {
                    self.set_timer_a_started(false);
                } else {
                    self.timer_a_value = self.timer_a_latch;
                }
                self.signal_timer_a_underrun();
                if self.is_timer_a_int_enabled() {
                    interrupt = true;
                }
            } else {
                self.timer_a_value = self.timer_a_value - 1;
            }
        }
        if self.is_timer_b_started() {
            if self.timer_b_value == 0 {
                if self.is_timer_b_stopping() {
                    self.set_timer_b_started(false);
                } else {
                    self.timer_b_value = self.timer_b_latch;
                }
                self.signal_timer_b_underrun();
                if self.is_timer_b_int_enabled() {
                    interrupt = true;
                }
            } else {
                self.timer_b_value = self.timer_b_value - 1;
            }
        }
        if self.is_timer_a_load_once() {
            self.timer_a_value = self.timer_a_latch;
            self.set_timer_a_load_once(false);
        }
        if self.is_timer_b_load_once() {
            self.timer_b_value = self.timer_b_latch;
            self.set_timer_b_load_once(false);
        }
        if self.is_alarm_enabled() && !self.alarm_triggered && time_has_reached_alarm(
            self.current_time,
            self.alarm_time,
        ) {
            interrupt = true;
            self.set_alarm_triggered();
        }
        proof {
            assert(final(self)@.matrix =~= old(self)@.step_with(now@).0.matrix);
        }
        interrupt
    }

    /// Presses (clears) or releases (sets) the bit of a key in the matrix.
    pub fn set_key_state(&mut self, row: usize, col: usize, is_pressed: bool)
        requires
            row < 8,
            col < 8,
        ensures
            final(self)@ == (Cia1State {
                matrix: old(self)@.matrix.update(
                    row as int,
                    if is_pressed {
                        old(self)@.matrix[row as int] & !(1u8 << (col as u8))
                    } else {
                        old(self)@.matrix[row as int] | (1u8 << (col as u8))
                    },
                ),
                ..old(self)@
            }),
    {
        let bit: u8 = 1u8 << (col as u8);
        if is_pressed {
            self.matrix[row] = self.matrix[row] & !bit;
        } else {
            self.matrix[row] = self.matrix[row] | bit;
        }
        proof {
            assert(final(self)@.matrix =~= old(self)@.matrix.update(
                row as int,
                if is_pressed {
                    old(self)@.matrix[row as int] & !(1u8 << (col as u8))
                } else {
                    old(self)@.matrix[row as int] | (1u8 << (col as u8))
                },
            ));
        }
    }

    pub fn is_timer_a_started(&self) -> (r: bool)
        ensures
            r == (self.timer_a_ctrl & 1 != 0),
    {
        self.timer_a_ctrl & 1 != 0
    }

    pub fn set_timer_a_started(&mut self, value: bool)
        ensures
            final(self)@ == (Cia1State {
                timer_a_ctrl: if value {
                    old(self).timer_a_ctrl | 1
                } else {
                    old(self).timer_a_ctrl & !1u8
                },
                ..old(self)@
            }),
    {
        if value {
            self.timer_a_ctrl = self.timer_a_ctrl | 1;
        } else {
            self.timer_a_ctrl = self.timer_a_ctrl & !1u8;
        }
    }

    pub fn is_timer_b_started(&self) -> (r: bool)
        ensures
            r == (self.timer_b_ctrl & 1 != 0),
    {
        self.timer_b_ctrl & 1 != 0
    }

    pub fn set_timer_b_started(&mut self, value: bool)
        ensures
            final(self)@ == (Cia1State {
                timer_b_ctrl: if value {
                    old(self).timer_b_ctrl | 1
                } else {
                    old(self).timer_b_ctrl & !1u8
                },
                ..old(self)@
            }),
    {
        if value {
            self.timer_b_ctrl = self.timer_b_ctrl | 1;
        } else {
            self.timer_b_ctrl = self.timer_b_ctrl & !1u8;
        }
    }

    pub fn is_timer_a_changing_port_b(&self) -> (r: bool)
        ensures
            r == (self.timer_a_ctrl & 2 != 0),
    {
        self.timer_a_ctrl & 2 != 0
    }

    pub fn is_timer_b_changing_port_b(&self) -> (r: bool)
        ensures
            r == (self.timer_b_ctrl & 2 != 0),
    {
        self.timer_b_ctrl & 2 != 0
    }

    pub fn is_timer_a_inverting_port_b(&self) -> (r: bool)
        ensures
            r == (self.timer_a_ctrl & 4 == 0),
    {
        self.timer_a_ctrl & 4 == 0
    }

    pub fn is_timer_b_inverting_port_b(&self) -> (r: bool)
        ensures
            r == (self.timer_b_ctrl & 4 == 0),
    {
        self.timer_b_ctrl & 4 == 0
    }

    pub fn is_timer_a_stopping(&self) -> (r: bool)
        ensures
            r == (self.timer_a_ctrl & 8 != 0),
    {
        self.timer_a_ctrl & 8 != 0
    }

    pub fn is_timer_b_stopping(&self) -> (r: bool)
        ensures
            r == (self.timer_b_ctrl & 8 != 0),
    {
        self.timer_b_ctrl & 8 != 0
    }

    pub fn is_timer_a_load_once(&self) -> (r: bool)
        ensures
            r == (self.timer_a_ctrl & 16 != 0),
    {
        self.timer_a_ctrl & 16 != 0
    }

    pub fn set_timer_a_load_once(&mut self, value: bool)
        ensures
            final(self)@ == (Cia1State {
                timer_a_ctrl: if value {
                    old(self).timer_a_ctrl | 16
                } else {
                    old(self).timer_a_ctrl & !16u8
                },
                ..old(self)@
            }),
    {
        if value {
            self.timer_a_ctrl = self.timer_a_ctrl | 16;
        } else {
            self.timer_a_ctrl = self.timer_a_ctrl & !16u8;
        }
    }

    pub fn is_timer_b_load_once(&self) -> (r: bool)
        ensures
            r == (self.timer_b_ctrl & 16 != 0),
    {
        self.timer_b_ctrl & 16 != 0
    }

    pub fn set_timer_b_load_once(&mut self, value: bool)
        ensures
            final(self)@ == (Cia1State {
                timer_b_ctrl: if value {
                    old(self).timer_b_ctrl | 16
                } else {
                    old(self).timer_b_ctrl & !16u8
                },
                ..old(self)@
            }),
    {
        if value {
            self.timer_b_ctrl = self.timer_b_ctrl | 16;
        } else {
            self.timer_b_ctrl = self.timer_b_ctrl & !16u8;
        }
    }

    pub fn is_timer_a_underrun(&self) -> (r: bool)
        ensures
            r == (self.interrupt_status & 1 != 0),
    {
        self.interrupt_status & 1 != 0
    }

    pub fn is_timer_b_underrun(&self) -> (r: bool)
        ensures
            r == (self.interrupt_status & 2 != 0),
    {
        self.interrupt_status & 2 != 0
    }

    pub fn signal_timer_a_underrun(&mut self)
        ensures
            final(self)@ == (Cia1State {
                interrupt_status: old(self).interrupt_status | 1,
                ..old(self)@
            }),
    {
        self.interrupt_status = self.interrupt_status | 1;
    }

    pub fn signal_timer_b_underrun(&mut self)
        ensures
            final(self)@ == (Cia1State {
                interrupt_status: old(self).interrupt_status | 2,
                ..old(self)@
            }),
    {
        self.interrupt_status = self.interrupt_status | 2;
    }

    pub fn is_timer_a_int_enabled(&self) -> (r: bool)
        ensures
            r == (self.interrupt_ctrl & 1 != 0),
    {
        self.interrupt_ctrl & 1 != 0
    }

    pub fn is_timer_b_int_enabled(&self) -> (r: bool)
        ensures
            r == (self.interrupt_ctrl & 2 != 0),
    {
        self.interrupt_ctrl & 2 != 0
    }

    pub fn is_writing_alarm(&self) -> (r: bool)
        ensures
            r == (self.timer_b_ctrl & 0x80 != 0),
    {
        self.timer_b_ctrl & 0x80 != 0
    }

    pub fn is_alarm_enabled(&self) -> (r: bool)
        ensures
            r == (self.interrupt_ctrl & 4 != 0),
    {
        self.interrupt_ctrl & 4 != 0
    }

    pub fn set_alarm_triggered(&mut self)
        ensures
            final(self)@ == (Cia1State {
                alarm_triggered: true,
                interrupt_status: old(self).interrupt_status | 4,
                ..old(self)@
            }),
    {
        self.alarm_triggered = true;
        self.interrupt_status = self.interrupt_status | 4;
    }
}

proof fn lemma_byte_split(v: u16, b: u8)
    ensures
        (v & 0xff00) | (b as u16) == (v / 256) * 256 + b,
        (v & 0x00ff) | ((b as u16) << 8u16) == v % 256 + b * 256,
        (v % 256) as u8 == v as u8,
        (v >> 8u16) as u8 == (v / 256) as u8,
{
    assert((v & 0xff00) | (b as u16) == (v / 256) * 256 + b) by (bit_vector);
    assert((v & 0x00ff) | ((b as u16) << 8u16) == v % 256 + b * 256) by (bit_vector);
    assert((v % 256) as u8 == v as u8) by (bit_vector);
    assert((v >> 8u16) as u8 == (v / 256) as u8) by (bit_vector);
}

impl Device for Cia1 {
    open spec fn read_ok(&self, addr: u16) -> bool {
        addr <= 0xff
    }

    open spec fn write_ok(&self, addr: u16) -> bool {
        addr <= 0xff
    }

    fn read(&mut self, addr: u16) -> (r: u8)
        ensures
            r == old(self)@.read_value(addr),
            final(self)@ == old(self)@,
    {
        let a: u16 = if addr >= 0x10 {
            addr % 0x10
        } else {
            addr
        };
        proof {
            lemma_byte_split(self.timer_a_value, 0);
            lemma_byte_split(self.timer_b_value, 0);
        }
        match a {
            0x0 => (self.port_a & self.ddr_a) | !self.ddr_a,
            0x1 => {
                let mut res: u8 = 0xff;
                let row_sel = (self.port_a & self.ddr_a) | !self.ddr_a;
                let mut row: u8 = 0;
                while row < 8
                    invariant
                        row <= 8,
                        row_sel == self@.port_a_pins(),
                        res == scan_rows(self@.matrix, row_sel, row as nat),
                    decreases 8 - row,
                {
                    proof {
                        let rs = row_sel;
                        let rw = row;
                        assert((rs & (1u8 << rw) == 0) == ((rs >> rw) & 1 == 0)) by (bit_vector)
                            requires
                                rw < 8,
                        ;
                    }
                    if (row_sel & (1u8 << row)) == 0 {
                        res = res & self.matrix[row as usize];
                    }
                    row = row + 1;
                }
                (res & !self.ddr_b) | (self.port_b & self.ddr_b)
            },
            0x2 => self.ddr_a,
            0x3 => self.ddr_b,
            0x4 => self.timer_a_value as u8,
            0x5 => (self.timer_a_value >> 8u16) as u8,
            0x6 => self.timer_b_value as u8,
            0x7 => (self.timer_b_value >> 8u16) as u8,
            0x8 => self.current_time[0],
            0x9 => self.current_time[1],
            0xa => self.current_time[2],
            0xb => self.current_time[3],
            0xc => self.serial_shift,
            0xd => self.interrupt_status,
            0xe => self.timer_a_ctrl,
            _ => self.timer_b_ctrl,
        }
    }

    fn write(&mut self, addr: u16, byte: u8)
        ensures
            final(self)@ == old(self)@.write_value(addr, byte),
    {
        let a: u16 = if addr >= 0x10 {
            addr % 0x10
        } else {
            addr
        };
        proof {
            lemma_byte_split(self.timer_a_value, byte);
            lemma_byte_split(self.timer_a_latch, byte);
            lemma_byte_split(self.timer_b_value, byte);
            lemma_byte_split(self.timer_b_latch, byte);
        }
        match a {
            0x0 => self.port_a = byte,
            0x1 => self.port_b = byte,
            0x2 => self.ddr_a = byte,
            0x3 => self.ddr_b = byte,
            0x4 => {
                self.timer_a_value = (self.timer_a_value & 0xff00) | byte as u16;
                self.timer_a_latch = (self.timer_a_latch & 0xff00) | byte as u16;
            },
            0x5 => {
                self.timer_a_latch = (self.timer_a_latch & 0x00ff) | ((byte as u16) << 8u16);
                if !self.is_timer_a_started() {
                    self.timer_a_value = (self.timer_a_value & 0x00ff) | ((byte as u16) << 8u16);
                }
            },
            0x6 => {
                self.timer_b_value = (self.timer_b_value & 0xff00) | byte as u16;
                self.timer_b_latch = (self.timer_b_latch & 0xff00) | byte as u16;
            },
            0x7 => {
                self.timer_b_latch = (self.timer_b_latch & 0x00ff) | ((byte as u16) << 8u16);
                if !self.is_timer_b_started() {
                    self.timer_b_value = (self.timer_b_value & 0x00ff) | ((byte as u16) << 8u16);
                }
            },
            0x8 => if self.is_writing_alarm() {
                self.alarm_time[0] = byte;
            },
            0x9 => if self.is_writing_alarm() {
                self.alarm_time[1] = byte;
            },
            0xa => if self.is_writing_alarm() {
                self.alarm_time[2] = byte;
            },
            0xb => if self.is_writing_alarm() {
                self.alarm_time[3] = byte;
            },
            0xc => self.serial_shift = byte,
            0xd => {
                if byte & 0x80 != 0 {
                    self.interrupt_ctrl = self.interrupt_ctrl | byte;
                } else {
                    self.interrupt_ctrl = self.interrupt_ctrl & !byte;
                }
            },
            0xe => self.timer_a_ctrl = byte,
            _ => self.timer_b_ctrl = byte,
        }
        proof {
            assert(final(self)@.alarm_time =~= old(self)@.write_value(addr, byte).alarm_time);
        }
    }
}

/// The bit facts of selecting one keyboard row through port A.
proof fn lemma_row_select_bits(r: u8, k: u8, x: u8, y: u8, z: u8)
    by (bit_vector)
    requires
        r < 8,
        k < 8,
    ensures
        (((!(1u8 << r)) >> k) & 1 == 0) == (k == r),
        0xffu8 & x == x,
        (x & 0xffu8) | !0xffu8 == x,
        (y & !0u8) | (z & 0u8) == y,
{
}

/// Scanning the matrix with only row `r` selected gives that row.
pub proof fn lemma_scan_single_row(matrix: Seq<u8>, r: u8)
    requires
        matrix.len() == 8,
        r < 8,
    ensures
        scan_rows(matrix, !(1u8 << r), 8) == matrix[r as int],
{
    let sel = !(1u8 << r);
    reveal_with_fuel(scan_rows, 9);
    lemma_row_select_bits(r, 0, matrix[r as int], 0, 0);
    lemma_row_select_bits(r, 1, matrix[r as int], 0, 0);
    lemma_row_select_bits(r, 2, matrix[r as int], 0, 0);
    lemma_row_select_bits(r, 3, matrix[r as int], 0, 0);
    lemma_row_select_bits(r, 4, matrix[r as int], 0, 0);
    lemma_row_select_bits(r, 5, matrix[r as int], 0, 0);
    lemma_row_select_bits(r, 6, matrix[r as int], 0, 0);
    lemma_row_select_bits(r, 7, matrix[r as int], 0, 0);
}

/// With port A driving only row `r` low and port B an input, port B reads
/// the keys of row `r`: a pressed key (see `set_key_state`) reads as a
/// cleared bit in its column.
pub proof fn lemma_port_b_reads_row(s: Cia1State, r: u8)
    requires
        s.matrix.len() == 8,
        r < 8,
        s.ddr_a == 0xff,
        s.port_a == !(1u8 << r),
        s.ddr_b == 0,
    ensures
        s.read_value(1) == s.matrix[r as int],
{
    lemma_row_select_bits(r, 0, s.port_a, 0, 0);
    lemma_scan_single_row(s.matrix, r);
    let res = scan_rows(s.matrix, s.port_a_pins(), 8);
    lemma_row_select_bits(r, 0, 0, res, s.port_b);
}


/// A write to the interrupt control register 0x0d changes the interrupt
/// mask only: with bit 7 clear every bit set in the byte is cleared in the
/// mask, with bit 7 set every bit set in the byte is set, and the bits not
/// in the byte stay as they were either way.
pub proof fn lemma_interrupt_mask_write(s: Cia1State, b: u8)
    ensures
        ({
            let n = s.write_value(0x0d, b);
            &&& b & 0x80 == 0 ==> n.interrupt_ctrl & b == 0
            &&& b & 0x80 != 0 ==> n.interrupt_ctrl & b == b
            &&& n.interrupt_ctrl & !b == s.interrupt_ctrl & !b
            &&& n == Cia1State { interrupt_ctrl: n.interrupt_ctrl, ..s }
        }),
{
    lemma_mask_bits(s.interrupt_ctrl, b);
}


/// Writing the low byte of timer A (register 4) and then its high byte
/// (register 5) sets the latch to the word they make, and a stopped timer to
/// the same value, which reads back byte by byte; a running timer keeps
/// counting from where it was. Timer B (registers 6 and 7) works the same.
pub proof fn lemma_timer_writes(s: Cia1State, lo: u8, hi: u8)
    ensures
        ({
            let n = s.write_value(4, lo).write_value(5, hi);
            &&& n.timer_a_latch == lo + 256 * hi
            &&& !s.timer_a_started() ==> n.timer_a_value == lo + 256 * hi && n.read_value(4) == lo
                && n.read_value(5) == hi
            &&& s.timer_a_started() ==> n.timer_a_value == s.write_value(4, lo).timer_a_value
        }),
        ({
            let n = s.write_value(6, lo).write_value(7, hi);
            &&& n.timer_b_latch == lo + 256 * hi
            &&& !s.timer_b_started() ==> n.timer_b_value == lo + 256 * hi && n.read_value(6) == lo
                && n.read_value(7) == hi
            &&& s.timer_b_started() ==> n.timer_b_value == s.write_value(6, lo).timer_b_value
        }),
{
    let la = s.write_value(4, lo).timer_a_latch;
    assert(la % 256 == lo) by {
        assert(la == (s.timer_a_latch / 256) * 256 + lo);
    }
    let va = s.write_value(4, lo).timer_a_value;
    assert(va % 256 == lo) by {
        assert(va == (s.timer_a_value / 256) * 256 + lo);
    }
    let lb = s.write_value(6, lo).timer_b_latch;
    assert(lb % 256 == lo) by {
        assert(lb == (s.timer_b_latch / 256) * 256 + lo);
    }
    let vb = s.write_value(6, lo).timer_b_value;
    assert(vb % 256 == lo) by {
        assert(vb == (s.timer_b_value / 256) * 256 + lo);
    }
}

/// One tick of a running timer: above zero it counts down by one and asks
/// for nothing; at zero it reloads from its latch (or, in one-shot mode,
/// stops), flags its underrun in the interrupt status (bit 0 for timer A,
/// bit 1 for timer B) and asks for an interrupt exactly when that source is
/// enabled in the mask. A stopped timer does not change.
pub proof fn lemma_timer_tick(s: Cia1State)
    ensures
        ({
            let (n, irq) = s.tick_a();
            &&& !s.timer_a_started() ==> n == s && !irq
            &&& s.timer_a_started() && s.timer_a_value > 0 ==> n.timer_a_value + 1 == s.timer_a_value
                && !irq && n.interrupt_status == s.interrupt_status
            &&& s.timer_a_started() && s.timer_a_value == 0 ==> {
                &&& n.interrupt_status & 1 != 0
                &&& irq == (s.interrupt_ctrl & 1 != 0)
                &&& s.timer_a_ctrl & 8 == 0 ==> n.timer_a_value == s.timer_a_latch && n.timer_a_started()
                &&& s.timer_a_ctrl & 8 != 0 ==> !n.timer_a_started()
            }
        }),
        ({
            let (n, irq) = s.tick_b();
            &&& !s.timer_b_started() ==> n == s && !irq
            &&& s.timer_b_started() && s.timer_b_value > 0 ==> n.timer_b_value + 1 == s.timer_b_value
                && !irq && n.interrupt_status == s.interrupt_status
            &&& s.timer_b_started() && s.timer_b_value == 0 ==> {
                &&& n.interrupt_status & 2 != 0
                &&& irq == (s.interrupt_ctrl & 2 != 0)
                &&& s.timer_b_ctrl & 8 == 0 ==> n.timer_b_value == s.timer_b_latch && n.timer_b_started()
                &&& s.timer_b_ctrl & 8 != 0 ==> !n.timer_b_started()
            }
        }),
{
    lemma_tick_bits(s.interrupt_status, s.timer_a_ctrl);
    lemma_tick_bits(s.interrupt_status, s.timer_b_ctrl);
}

proof fn lemma_tick_bits(st: u8, ctrl: u8)
    by (bit_vector)
    ensures
        (st | 1) & 1 != 0,
        (st | 2) & 2 != 0,
        (ctrl & !1u8) & 1 == 0,
        (ctrl & !1u8) & 8 == ctrl & 8,
{
}


/// The alarm fires once: when enabled in the mask, not yet triggered and
/// the clock has reached the alarm time, it asks for an interrupt, flags
/// bit 2 of the interrupt status and is marked triggered; a second check
/// then asks for nothing. In every other case the check changes nothing.
pub proof fn lemma_alarm_fires_once(s: Cia1State)
    ensures
        ({
            let (n, irq) = s.check_alarm();
            let due = s.interrupt_ctrl & 4 != 0 && !s.alarm_triggered && le_u32(s.current_time)
                >= le_u32(s.alarm_time);
            &&& irq == due
            &&& due ==> n.alarm_triggered && n.interrupt_status & 4 != 0 && !n.check_alarm().1
            &&& !due ==> n == s
        }),
{
    lemma_mask_bits(s.interrupt_status, 4);
}

} // verus!
