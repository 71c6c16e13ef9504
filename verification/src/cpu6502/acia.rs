use std::collections::VecDeque;

use vstd::prelude::*;

use crate::cpu6502::memory::Device;

verus! {

/// The registers of the 6551 ACIA as Wozmon sees them: a receive queue fed
/// by the keyboard, the command and control registers, and the bytes the
/// program has transmitted, waiting to be shown.
pub struct Acia {
    input: VecDeque<u8>,
    stdin_enabled: bool,
    command: u8,
    control: u8,
    output: Vec<u8>,
}

/// The mathematical value of an [`Acia`].
pub struct AciaState {
    pub input: Seq<u8>,
    pub stdin_enabled: bool,
    pub command: u8,
    pub control: u8,
    pub output: Seq<u8>,
}

/// ASCII codes the ACIA translates.
pub const ASCII_LF: u8 = 0x0a;
pub const ASCII_CR: u8 = 0x0d;
pub const ASCII_QUESTION: u8 = 0x3f;
pub const ASCII_UPPER_A: u8 = 0x41;
pub const ASCII_LOWER_A: u8 = 0x61;
pub const ASCII_LOWER_Q: u8 = 0x71;
pub const ASCII_LOWER_Z: u8 = 0x7a;

/// Status register value with an empty receive register (bit 4: transmit
/// register empty).
pub const STATUS_RX_EMPTY: u8 = 0b00010000;

/// Status register value with a byte waiting (bits 4 and 3).
pub const STATUS_RX_FULL: u8 = 0b00011000;

impl View for Acia {
    type V = AciaState;

    closed spec fn view(&self) -> AciaState {
        AciaState {
            input: self.input@,
            stdin_enabled: self.stdin_enabled,
            command: self.command,
            control: self.control,
            output: self.output@,
        }
    }
}

/// Upper-cases a lower-case ASCII letter and leaves every other byte alone.
pub open spec fn upper(b: u8) -> u8 {
    if ASCII_LOWER_A <= b <= ASCII_LOWER_Z {
        (b - 32) as u8
    } else {
        b
    }
}

/// The byte a terminal key is queued as: a line feed becomes a carriage
/// return, lower-case letters become upper case, and `q` ends the input
/// (`None`).
pub open spec fn key_byte(c: u8) -> Option<u8> {
    if c == ASCII_LF {
        Some(ASCII_CR)
    } else if c == ASCII_LOWER_Q {
        None
    } else {
        Some(upper(c))
    }
}

/// The byte queued for a character of a scripted input: characters past
/// U+00FF become `?`, lower-case letters become upper case.
pub open spec fn char_byte(c: char) -> u8 {
    if (c as u32) < 256 {
        upper((c as u32) as u8)
    } else {
        ASCII_QUESTION
    }
}

impl AciaState {
    /// The value the CPU reads from register `addr`.
    pub open spec fn read_value(self, addr: u16) -> u8 {
        if addr == 0 {
            if self.input.len() == 0 {
                ASCII_QUESTION
            } else {
                self.input[0]
            }
        } else if addr == 1 {
            if self.input.len() == 0 {
                STATUS_RX_EMPTY
            } else {
                STATUS_RX_FULL
            }
        } else if addr == 2 {
            self.command
        } else if addr == 3 {
            self.control
        } else {
            0
        }
    }

    /// The state after the CPU reads register `addr`: reading the data
    /// register takes the oldest received byte off the queue.
    pub open spec fn after_read(self, addr: u16) -> AciaState {
        if addr == 0 && self.input.len() > 0 {
            AciaState { input: self.input.drop_first(), ..self }
        } else {
            self
        }
    }

    /// The state after the CPU writes `byte` to register `addr`: the data
    /// register transmits the byte, the command and control registers store
    /// it, everything else ignores it.
    pub open spec fn write_value(self, addr: u16, byte: u8) -> AciaState {
        if addr == 0 {
            AciaState { output: self.output.push(byte), ..self }
        } else if addr == 2 {
            AciaState { command: byte, ..self }
        } else if addr == 3 {
            AciaState { control: byte, ..self }
        } else {
            self
        }
    }
}

/// Translates a key read from the terminal into the byte queued for the CPU,
/// or `None` when the key ends the input.
pub fn key_to_input(c: u8) -> (r: Option<u8>)
    ensures
        r == key_byte(c),
{
    if c == ASCII_LF {
        Some(ASCII_CR)
    } else if c == ASCII_LOWER_Q {
        None
    } else if c >= ASCII_LOWER_A && c <= ASCII_LOWER_Z {
        Some(ASCII_UPPER_A + (c - ASCII_LOWER_A))
    } else {
        Some(c)
    }
}

impl Acia {
    /// An ACIA with nothing received or transmitted, reading from the terminal.
    pub fn new() -> (r: Self)
        ensures
            r@.input.len() == 0,
            r@.output.len() == 0,
            r@.stdin_enabled,
            r@.command == 0,
            r@.control == 0,
    {
        Acia {
            input: VecDeque::new(),
            stdin_enabled: true,
            command: 0,
            control: 0,
            output: Vec::new(),
        }
    }

    /// Whether the input is to be read from the terminal.
    pub fn is_stdin_enabled(&self) -> (r: bool)
        ensures
            r == self@.stdin_enabled,
    {
        self.stdin_enabled
    }

    /// Queues a byte received from the terminal.
    pub fn push_input(&mut self, byte: u8)
        ensures
            final(self)@ == (AciaState { input: old(self)@.input.push(byte), ..old(self)@ }),
    {
        self.input.push_back(byte);
    }

    /// Queues the characters of `s` as received bytes and stops reading from
    /// the terminal.
    pub fn set_input(&mut self, s: &str)
        ensures
            final(self)@ == (AciaState {
                input: old(self)@.input + s@.map_values(|c: char| char_byte(c)),
                stdin_enabled: false,
                ..old(self)@
            }),
    {
        let n = s.unicode_len();
        let ghost start = self@;
        let mut i: usize = 0;
        while i < n
            invariant
                n == s@.len(),
                i <= n,
                self@ == (AciaState {
                    input: start.input + s@.subrange(0, i as int).map_values(
                        |c: char| char_byte(c),
                    ),
                    ..start
                }),
            decreases n - i,
        {
            let c = s.get_char(i);
            let code = c as u32;
            let byte: u8 = if code < 256 {
                code as u8
            } else {
                ASCII_QUESTION
            };
            let b = if byte >= ASCII_LOWER_A && byte <= ASCII_LOWER_Z {
                ASCII_UPPER_A + (byte - ASCII_LOWER_A)
            } else {
                byte
            };
            self.input.push_back(b);
            proof {
                assert(s@.subrange(0, i + 1).map_values(|c: char| char_byte(c)) =~= s@.subrange(
                    0,
                    i as int,
                ).map_values(|c: char| char_byte(c)).push(char_byte(c)));
            }
            i = i + 1;
        }
        proof {
            assert(s@.subrange(0, n as int) =~= s@);
        }
        self.stdin_enabled = false;
    }

    /// Hands out the bytes transmitted since the last call.
    pub fn take_output(&mut self) -> (r: Vec<u8>)
        ensures
            r@ == old(self)@.output,
            final(self)@ == (AciaState { output: Seq::empty(), ..old(self)@ }),
    {
        let mut out = Vec::new();
        std::mem::swap(&mut out, &mut self.output);
        out
    }
}

impl Device for Acia {
    open spec fn read_ok(&self, addr: u16) -> bool {
        true
    }

    open spec fn write_ok(&self, addr: u16) -> bool {
        true
    }

    fn read(&mut self, addr: u16) -> (r: u8)
        ensures
            r == old(self)@.read_value(addr),
            final(self)@ == old(self)@.after_read(addr),
    {
        match addr {
            0 => match self.input.pop_front() {
                Some(b) => b,
                None => ASCII_QUESTION,
            },
            1 => {
                if self.input.len() == 0 {
                    STATUS_RX_EMPTY
                } else {
                    STATUS_RX_FULL
                }
            },
            2 => self.command,
            3 => self.control,
            _ => 0,
        }
    }

    fn write(&mut self, addr: u16, byte: u8)
        ensures
            final(self)@ == old(self)@.write_value(addr, byte),
    {
        match addr {
            0 => self.output.push(byte),
            1 => {},
            2 => self.command = byte,
            3 => self.control = byte,
            _ => {},
        }
    }
}

/// The receive queue is first in, first out: a byte received while others
/// wait does not change what the next read gives, and reading takes the
/// oldest byte whether or not more arrive; into an empty queue, a received
/// byte is the next one read.
pub proof fn lemma_acia_fifo(s: AciaState, b: u8)
    ensures
        ({
            let t = AciaState { input: s.input.push(b), ..s };
            &&& s.input.len() == 0 ==> t.read_value(0) == b
            &&& s.input.len() > 0 ==> t.read_value(0) == s.read_value(0)
            &&& t.read_value(1) == STATUS_RX_FULL
            &&& s.input.len() > 0 ==> t.after_read(0) == (AciaState {
                input: s.after_read(0).input.push(b),
                ..s
            })
            &&& s.input.len() == 0 ==> t.after_read(0).input.len() == 0
        }),
{
    let t = AciaState { input: s.input.push(b), ..s };
    if s.input.len() > 0 {
        assert(t.input.drop_first() =~= s.input.drop_first().push(b));
    } else {
        assert(t.input.drop_first() =~= Seq::<u8>::empty());
    }
}

/// A byte written to the data register is transmitted after the bytes
/// written before it.
pub proof fn lemma_acia_transmit(s: AciaState, b: u8)
    ensures
        s.write_value(0, b).output == s.output.push(b),
        s.write_value(0, b).input == s.input,
{
}

} // verus!
