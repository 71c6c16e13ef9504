use vstd::prelude::*;

use crate::cpu6502::acia::Acia;

verus! {

/// A memory-mapped peripheral addressed by register number. The CPU routes
/// loads and stores at the registered address to `read` and `write` instead
/// of to plain memory.
pub trait Device {
    /// Whether register `reg` can be read.
    spec fn read_ok(&self, reg: u8) -> bool;

    /// Whether register `reg` can be written.
    spec fn write_ok(&self, reg: u8) -> bool;

    fn read(&mut self, reg: u8) -> u8
        requires
            old(self).read_ok(reg),
    ;

    fn write(&mut self, reg: u8, byte: u8)
        requires
            old(self).write_ok(reg),
    ;
}

impl Device for Acia {
    open spec fn read_ok(&self, reg: u8) -> bool {
        true
    }

    open spec fn write_ok(&self, reg: u8) -> bool {
        true
    }

    fn read(&mut self, reg: u8) -> (r: u8)
        ensures
            r == old(self)@.read_value(reg as u16),
            final(self)@ == old(self)@.after_read(reg as u16),
    {
        crate::cpu6502::memory::Device::read(self, reg as u16)
    }

    fn write(&mut self, reg: u8, byte: u8)
        ensures
            final(self)@ == old(self)@.write_value(reg as u16, byte),
    {
        crate::cpu6502::memory::Device::write(self, reg as u16, byte)
    }
}

} // verus!
