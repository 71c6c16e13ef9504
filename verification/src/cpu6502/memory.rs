use std::ops::Range;

use vstd::prelude::*;

use crate::cpu6502::acia::{Acia, AciaState};
use crate::video::cia1::{Cia1, Cia1State};
use crate::video::control::{Control, ControlState};

verus! {

/// A memory-mapped peripheral. The CPU routes loads and stores at the
/// registered addresses to `read` and `write` instead of to plain memory;
/// `addr` is the offset from the start of the registered range.
pub trait Device {
    /// Whether offset `addr` can be read.
    spec fn read_ok(&self, addr: u16) -> bool;

    /// Whether offset `addr` can be written.
    spec fn write_ok(&self, addr: u16) -> bool;

    fn read(&mut self, addr: u16) -> u8
        requires
            old(self).read_ok(addr),
    ;

    fn write(&mut self, addr: u16, byte: u8)
        requires
            old(self).write_ok(addr),
    ;
}

/// Read-only memory holding the bytes of an image (a ROM dump); writes are
/// ignored.
pub struct MemoryFromFile {
    pub mem: Vec<u8>,
}

impl MemoryFromFile {
    /// A ROM holding `mem`.
    pub fn new(mem: Vec<u8>) -> (r: Self)
        ensures
            r.mem@ == mem@,
    {
        MemoryFromFile { mem }
    }
}

impl Device for MemoryFromFile {
    open spec fn read_ok(&self, addr: u16) -> bool {
        addr < self.mem@.len()
    }

    open spec fn write_ok(&self, addr: u16) -> bool {
        true
    }

    fn read(&mut self, addr: u16) -> (r: u8)
        ensures
            r == old(self).mem@[addr as int],
            final(self).mem@ == old(self).mem@,
    {
        self.mem[addr as usize]
    }

    fn write(&mut self, _addr: u16, _byte: u8)
        ensures
            final(self).mem@ == old(self).mem@,
    {
    }
}

/// Random-access memory of a fixed size, initially zero.
pub struct MemoryDevice {
    pub mem: Vec<u8>,
}

impl MemoryDevice {
    pub fn new(size: usize) -> (r: Self)
        ensures
            r.mem@ == Seq::new(size as nat, |i: int| 0u8),
    {
        let mem = vec![0u8; size];
        proof {
            assert(mem@ =~= Seq::new(size as nat, |i: int| 0u8));
        }
        MemoryDevice { mem }
    }
}

impl Device for MemoryDevice {
    open spec fn read_ok(&self, addr: u16) -> bool {
        addr < self.mem@.len()
    }

    open spec fn write_ok(&self, addr: u16) -> bool {
        addr < self.mem@.len()
    }

    fn read(&mut self, addr: u16) -> (r: u8)
        ensures
            r == old(self).mem@[addr as int],
            final(self).mem@ == old(self).mem@,
    {
        self.mem[addr as usize]
    }

    fn write(&mut self, addr: u16, byte: u8)
        ensures
            final(self).mem@ == old(self).mem@.update(addr as int, byte),
    {
        self.mem.set(addr as usize, byte);
    }
}

/// The peripherals that can be mapped into the address space.
pub enum Peripheral {
    Ram(MemoryDevice),
    Rom(MemoryFromFile),
    Acia(Acia),
    Cia1(Cia1),
    Control(Control),
}

/// The mathematical value of a [`Peripheral`].
pub enum DevState {
    Ram(Seq<u8>),
    Rom(Seq<u8>),
    Acia(AciaState),
    Cia1(Cia1State),
    Control(ControlState),
}

impl View for Peripheral {
    type V = DevState;

    open spec fn view(&self) -> DevState {
        match self {
            Peripheral::Ram(d) => DevState::Ram(d.mem@),
            Peripheral::Rom(d) => DevState::Rom(d.mem@),
            Peripheral::Acia(d) => DevState::Acia(d@),
            Peripheral::Cia1(d) => DevState::Cia1(d@),
            Peripheral::Control(d) => DevState::Control(d@),
        }
    }
}

impl DevState {
    /// Whether the device accepts a read at offset `off` (a read past the end
    /// of a RAM or ROM, or of a register file, fails).
    pub open spec fn read_ok(self, off: u16) -> bool {
        match self {
            DevState::Ram(m) => off < m.len(),
            DevState::Rom(m) => off < m.len(),
            DevState::Acia(_) => true,
            DevState::Cia1(_) => off <= 0xff,
            DevState::Control(c) => c.read_ok(off),
        }
    }

    pub open spec fn read_value(self, off: u16) -> u8 {
        match self {
            DevState::Ram(m) => m[off as int],
            DevState::Rom(m) => m[off as int],
            DevState::Acia(a) => a.read_value(off),
            DevState::Cia1(c) => c.read_value(off),
            DevState::Control(c) => c.read_value(off),
        }
    }

    /// The device after a read at `off`; only the ACIA's data register changes
    /// state when read.
    pub open spec fn after_read(self, off: u16) -> DevState {
        match self {
            DevState::Acia(a) => DevState::Acia(a.after_read(off)),
            _ => self,
        }
    }

    pub open spec fn write_ok(self, off: u16) -> bool {
        match self {
            DevState::Ram(m) => off < m.len(),
            DevState::Rom(_) => true,
            DevState::Acia(_) => true,
            DevState::Cia1(_) => off <= 0xff,
            DevState::Control(_) => true,
        }
    }

    pub open spec fn write_value(self, off: u16, byte: u8) -> DevState {
        match self {
            DevState::Ram(m) => DevState::Ram(m.update(off as int, byte)),
            DevState::Rom(m) => self,
            DevState::Acia(a) => DevState::Acia(a.write_value(off, byte)),
            DevState::Cia1(c) => DevState::Cia1(c.write_value(off, byte)),
            DevState::Control(c) => DevState::Control(c.write_value(off, byte)),
        }
    }
}

impl Peripheral {
    pub fn read(&mut self, off: u16) -> (r: u8)
        requires
            old(self)@.read_ok(off),
        ensures
            r == old(self)@.read_value(off),
            final(self)@ == old(self)@.after_read(off),
    {
        match self {
            Peripheral::Ram(d) => d.read(off),
            Peripheral::Rom(d) => d.read(off),
            Peripheral::Acia(d) => d.read(off),
            Peripheral::Cia1(d) => d.read(off),
            Peripheral::Control(d) => d.read(off),
        }
    }

    /// Whether the device accepts a read at offset `off`.
    pub fn accepts_read(&self, off: u16) -> (r: bool)
        ensures
            r == self@.read_ok(off),
    {
        match self {
            Peripheral::Ram(d) => (off as usize) < d.mem.len(),
            Peripheral::Rom(d) => (off as usize) < d.mem.len(),
            Peripheral::Acia(_) => true,
            Peripheral::Cia1(_) => off <= 0xff,
            Peripheral::Control(_) => off == 0x18 || off == 0x19 || off < 0x40,
        }
    }

    /// Whether the device accepts a write at offset `off`.
    pub fn accepts_write(&self, off: u16) -> (r: bool)
        ensures
            r == self@.write_ok(off),
    {
        match self {
            Peripheral::Ram(d) => (off as usize) < d.mem.len(),
            Peripheral::Rom(_) => true,
            Peripheral::Acia(_) => true,
            Peripheral::Cia1(_) => off <= 0xff,
            Peripheral::Control(_) => true,
        }
    }

    pub fn write(&mut self, off: u16, byte: u8)
        requires
            old(self)@.write_ok(off),
        ensures
            final(self)@ == old(self)@.write_value(off, byte),
    {
        match self {
            Peripheral::Ram(d) => d.write(off, byte),
            Peripheral::Rom(d) => d.write(off, byte),
            Peripheral::Acia(d) => d.write(off, byte),
            Peripheral::Cia1(d) => d.write(off, byte),
            Peripheral::Control(d) => d.write(off, byte),
        }
    }
}

/// A peripheral and the range of addresses it occupies.
pub struct MappedDevice {
    pub range: Range<usize>,
    pub device: Peripheral,
}

/// The mathematical value of a [`MappedDevice`].
pub struct MappedState {
    pub start: int,
    pub end: int,
    pub dev: DevState,
}

impl MappedState {
    pub open spec fn covers(self, addr: int) -> bool {
        self.start <= addr < self.end
    }
}

/// The index of the first device in `devs`, from index `i` on, whose range
/// contains `addr`, or `devs.len()` when there is none.
pub open spec fn first_device(devs: Seq<MappedState>, addr: int, i: int) -> int
    decreases devs.len() - i,
{
    if i >= devs.len() || i < 0 {
        devs.len() as int
    } else if devs[i].covers(addr) {
        i
    } else {
        first_device(devs, addr, i + 1)
    }
}

proof fn lemma_first_device(devs: Seq<MappedState>, addr: int, i: int)
    requires
        0 <= i <= devs.len(),
    ensures
        first_device(devs, addr, i) == devs.len() || (i <= first_device(devs, addr, i)
            < devs.len() && devs[first_device(devs, addr, i)].covers(addr)),
    decreases devs.len() - i,
{
    if i < devs.len() && !devs[i].covers(addr) {
        lemma_first_device(devs, addr, i + 1);
    }
}

/// The mathematical value of a [`Memory`]: 64K of plain memory and the
/// mapped devices in registration order.
pub struct MemState {
    pub ram: Seq<u8>,
    pub devs: Seq<MappedState>,
}

impl MemState {
    /// The device that serves `addr`: the first registered one whose range
    /// contains it, or `devs.len()` when plain memory serves it.
    pub open spec fn device_for(self, addr: u16) -> int {
        first_device(self.devs, addr as int, 0)
    }

    pub open spec fn offset(self, addr: u16) -> u16 {
        (addr - self.devs[self.device_for(addr)].start) as u16
    }

    /// Whether a load at `addr` can be performed (the serving device accepts
    /// the offset).
    pub open spec fn load_ok(self, addr: u16) -> bool {
        let i = self.device_for(addr);
        i < self.devs.len() ==> self.devs[i].dev.read_ok(self.offset(addr))
    }

    /// The byte a load at `addr` returns.
    pub open spec fn load(self, addr: u16) -> u8 {
        let i = self.device_for(addr);
        if i < self.devs.len() {
            self.devs[i].dev.read_value(self.offset(addr))
        } else {
            self.ram[addr as int]
        }
    }

    /// The memory after a load at `addr` (a device may change state when
    /// read).
    pub open spec fn after_load(self, addr: u16) -> MemState {
        let i = self.device_for(addr);
        if i < self.devs.len() {
            MemState {
                ram: self.ram,
                devs: self.devs.update(
                    i,
                    MappedState { dev: self.devs[i].dev.after_read(self.offset(addr)), ..self.devs[i] },
                ),
            }
        } else {
            self
        }
    }

    pub open spec fn store_ok(self, addr: u16) -> bool {
        let i = self.device_for(addr);
        i < self.devs.len() ==> self.devs[i].dev.write_ok(self.offset(addr))
    }

    /// The memory after storing `byte` at `addr`.
    pub open spec fn store(self, addr: u16, byte: u8) -> MemState {
        let i = self.device_for(addr);
        if i < self.devs.len() {
            MemState {
                ram: self.ram,
                devs: self.devs.update(
                    i,
                    MappedState {
                        dev: self.devs[i].dev.write_value(self.offset(addr), byte),
                        ..self.devs[i]
                    },
                ),
            }
        } else {
            MemState { ram: self.ram.update(addr as int, byte), devs: self.devs }
        }
    }

    /// Every address can be loaded from and stored to: each device accepts
    /// every offset at which it serves.
    pub open spec fn accepts_all(self) -> bool {
        &&& forall|a: u16| #[trigger] self.load_ok(a)
        &&& forall|a: u16| #[trigger] self.store_ok(a)
    }

    /// A load at `addr` can be made without changing anything: plain memory
    /// serves it, or a RAM or ROM that holds the offset.
    pub open spec fn peekable(self, addr: u16) -> bool {
        let i = self.device_for(addr);
        i < self.devs.len() ==> match self.devs[i].dev {
            DevState::Ram(m) => self.offset(addr) < m.len(),
            DevState::Rom(m) => self.offset(addr) < m.len(),
            _ => false,
        }
    }

    /// True when no device is mapped at `addr`, so that plain memory serves it.
    pub open spec fn is_plain(self, addr: u16) -> bool {
        self.device_for(addr) >= self.devs.len()
    }
}

/// Represents the whole range of accessible memory (64K). Registered devices
/// hide the memory below the addresses they occupy.
pub struct Memory {
    pub mem: Vec<u8>,
    pub devices: Vec<MappedDevice>,
}

impl View for Memory {
    type V = MemState;

    open spec fn view(&self) -> MemState {
        MemState {
            ram: self.mem@,
            devs: self.devices@.map_values(
                |d: MappedDevice|
                    MappedState {
                        start: d.range.start as int,
                        end: d.range.end as int,
                        dev: d.device@,
                    },
            ),
        }
    }
}

pub open spec fn lo_byte(word: u16) -> u8 {
    (word % 256) as u8
}

pub open spec fn hi_byte(word: u16) -> u8 {
    (word / 256) as u8
}

impl Memory {
    /// 64K of plain memory.
    pub open spec fn wf(&self) -> bool {
        self.mem@.len() == 0x10000
    }

    pub fn new() -> (r: Self)
        ensures
            r.wf(),
            r@.ram == Seq::new(0x10000, |i: int| 0u8),
            r@.devs.len() == 0,
    {
        let mem = vec![0u8; 0x10000];
        let r = Memory { mem, devices: Vec::new() };
        proof {
            assert(r@.ram =~= Seq::new(0x10000, |i: int| 0u8));
            assert(r@.devs =~= Seq::empty());
        }
        r
    }

    /// A memory with no storage, standing in for one that is lent out.
    pub(crate) fn placeholder() -> (r: Self)
        ensures
            r@.ram == Seq::<u8>::empty(),
            r@.devs == Seq::<MappedState>::empty(),
    {
        let r = Memory { mem: Vec::new(), devices: Vec::new() };
        proof {
            assert(r@.devs =~= Seq::<MappedState>::empty());
        }
        r
    }

    /// Maps `device` at the addresses `from` to `to`, both included. Devices
    /// registered earlier take precedence where ranges overlap.
    pub fn register_device(&mut self, device: Peripheral, from: usize, to: usize)
        requires
            to < usize::MAX,
        ensures
            final(self).wf() == old(self).wf(),
            final(self)@.ram == old(self)@.ram,
            final(self)@.devs == old(self)@.devs.push(
                MappedState { start: from as int, end: to + 1, dev: device@ },
            ),
    {
        let ghost d = device@;
        self.devices.push(MappedDevice { range: from..to + 1, device });
        proof {
            assert(self@.devs =~= old(self)@.devs.push(
                MappedState { start: from as int, end: to + 1, dev: d },
            ));
        }
    }

    /// The index of the device serving `addr`, or the number of devices.
    fn find_device(&self, addr: u16) -> (r: usize)
        ensures
            r == self@.device_for(addr),
            r <= self.devices.len(),
            r < self.devices.len() ==> self.devices@[r as int].range.start <= addr
                < self.devices@[r as int].range.end,
    {
        proof {
            lemma_first_device(self@.devs, addr as int, 0);
        }
        let addr_ = addr as usize;
        let mut i: usize = 0;
        while i < self.devices.len()
            invariant
                i <= self.devices.len(),
                addr_ == addr as usize,
                first_device(self@.devs, addr as int, i as int) == self@.device_for(addr),
                self@.devs.len() == self.devices@.len(),
                self@.device_for(addr) == self@.devs.len() || (self@.device_for(addr)
                    < self@.devs.len() && self@.devs[self@.device_for(addr)].covers(addr as int)),
            decreases self.devices.len() - i,
        {
            let r = &self.devices[i].range;
            assert(self@.devs[i as int].start == r.start && self@.devs[i as int].end == r.end);
            if r.start <= addr_ && addr_ < r.end {
                assert(self@.devs[i as int].covers(addr as int));
                assert(first_device(self@.devs, addr as int, i as int) == i as int);
                return i;
            }
            i = i + 1;
        }
        i
    }

    /// Whether a load at `addr` can be made: plain memory serves it, or the
    /// device that serves it accepts the offset.
    pub fn can_load(&self, addr: u16) -> (r: bool)
        ensures
            r == self@.load_ok(addr),
    {
        let i = self.find_device(addr);
        if i < self.devices.len() {
            let start = self.devices[i].range.start;
            let off = addr - start as u16;
            self.devices[i].device.accepts_read(off)
        } else {
            true
        }
    }

    /// Whether a store at `addr` can be made: plain memory serves it, or the
    /// device that serves it accepts the offset.
    pub fn can_store(&self, addr: u16) -> (r: bool)
        ensures
            r == self@.store_ok(addr),
    {
        let i = self.find_device(addr);
        if i < self.devices.len() {
            let start = self.devices[i].range.start;
            let off = addr - start as u16;
            self.devices[i].device.accepts_write(off)
        } else {
            true
        }
    }

    /// The byte a load at `addr` gives, when the load changes nothing (see
    /// `peekable`); `None` when a device other than a RAM or ROM serves it,
    /// or the offset lies past the end of the RAM or ROM.
    pub fn peek(&self, addr: u16) -> (r: Option<u8>)
        requires
            self.wf(),
        ensures
            match r {
                Some(v) => self@.peekable(addr) && v == self@.load(addr),
                None => !self@.peekable(addr),
            },
    {
        let i = self.find_device(addr);
        if i < self.devices.len() {
            let start = self.devices[i].range.start;
            let off = addr - start as u16;
            match &self.devices[i].device {
                Peripheral::Ram(d) => if (off as usize) < d.mem.len() {
                    Some(d.mem[off as usize])
                } else {
                    None
                },
                Peripheral::Rom(d) => if (off as usize) < d.mem.len() {
                    Some(d.mem[off as usize])
                } else {
                    None
                },
                _ => None,
            }
        } else {
            Some(self.mem[addr as usize])
        }
    }

    /// Whether every address can be loaded from and stored to (see
    /// `accepts_all`). This walks all 64K addresses.
    pub fn accepts_every_access(&self) -> (r: bool)
        ensures
            r == self@.accepts_all(),
    {
        let mut i: u32 = 0;
        while i < 0x10000
            invariant
                i <= 0x10000,
                forall|a: u16| (a as u32) < i ==> #[trigger] self@.load_ok(a) && self@.store_ok(a),
            decreases 0x10000 - i,
        {
            let a = i as u16;
            if !self.can_load(a) || !self.can_store(a) {
                return false;
            }
            i = i + 1;
        }
        proof {
            assert forall|a: u16| #[trigger] self@.store_ok(a) by {
                assert((a as u32) < i);
                assert(self@.load_ok(a));
            }
        }
        true
    }

    pub fn load_memory_byte(&mut self, addr: u16) -> (r: u8)
        requires
            old(self).wf(),
            old(self)@.load_ok(addr),
        ensures
            final(self).wf(),
            r == old(self)@.load(addr),
            final(self)@ == old(self)@.after_load(addr),
    {
        let i = self.find_device(addr);
        if i < self.devices.len() {
            let start = self.devices[i].range.start;
            let off = addr - start as u16;
            let r = self.devices[i].device.read(off);
            proof {
                assert(self@.devs =~= old(self)@.after_load(addr).devs);
            }
            r
        } else {
            self.mem[addr as usize]
        }
    }

    /// The little-endian word at `addr` and `addr + 1`.
    pub fn load_memory_word(&mut self, addr: u16) -> (r: u16)
        requires
            old(self).wf(),
            addr < 0xffff,
            old(self)@.load_ok(addr),
            old(self)@.after_load(addr).load_ok((addr + 1) as u16),
        ensures
            final(self).wf(),
            r == old(self)@.load(addr) + 256 * old(self)@.after_load(addr).load(
                (addr + 1) as u16,
            ),
            final(self)@ == old(self)@.after_load(addr).after_load((addr + 1) as u16),
    {
        let lo = self.load_memory_byte(addr);
        let hi = self.load_memory_byte(addr + 1);
        lo as u16 + 256 * hi as u16
    }

    pub fn store_memory_byte(&mut self, addr: u16, byte: u8)
        requires
            old(self).wf(),
            old(self)@.store_ok(addr),
        ensures
            final(self).wf(),
            final(self)@ == old(self)@.store(addr, byte),
    {
        let i = self.find_device(addr);
        if i < self.devices.len() {
            let start = self.devices[i].range.start;
            let off = addr - start as u16;
            self.devices[i].device.write(off, byte);
            proof {
                assert(self@.devs =~= old(self)@.store(addr, byte).devs);
            }
        } else {
            self.mem.set(addr as usize, byte);
        }
    }

    /// Stores the low byte of `word` at `addr` and the high byte at the next
    /// address, wrapping at the top of memory.
    pub fn store_memory_word(&mut self, addr: u16, word: u16)
        requires
            old(self).wf(),
            old(self)@.store_ok(addr),
            old(self)@.store(addr, lo_byte(word)).store_ok(addr.wrapping_add(1)),
        ensures
            final(self).wf(),
            final(self)@ == old(self)@.store(addr, lo_byte(word)).store(
                addr.wrapping_add(1),
                hi_byte(word),
            ),
    {
        self.store_memory_byte(addr, (word % 256) as u8);
        self.store_memory_byte(addr.wrapping_add(1), (word / 256) as u8);
    }

    /// The plain memory in `range` (devices are not consulted).
    pub fn get_range(&self, range: Range<usize>) -> (r: &[u8])
        requires
            self.wf(),
            range.start <= range.end <= 0x10000,
        ensures
            r@ == self@.ram.subrange(range.start as int, range.end as int),
    {
        vstd::slice::slice_subrange(self.mem.as_slice(), range.start, range.end)
    }
}

/// Two device lists with the same ranges route every address alike.
proof fn lemma_first_device_ranges(d1: Seq<MappedState>, d2: Seq<MappedState>, addr: int, i: int)
    requires
        d1.len() == d2.len(),
        forall|k: int| 0 <= k < d1.len() ==> #[trigger] d1[k].start == d2[k].start && d1[k].end == d2[k].end,
    ensures
        first_device(d1, addr, i) == first_device(d2, addr, i),
    decreases d1.len() - i,
{
    if 0 <= i < d1.len() && !d1[i].covers(addr) {
        lemma_first_device_ranges(d1, d2, addr, i + 1);
    }
}

/// Loads and stores keep the device ranges, so that every address is served
/// as before; a load keeps plain memory, a store to a device keeps it too.
pub proof fn lemma_routing_kept(mem: MemState, addr: u16, b: u8, other: u16)
    ensures
        mem.after_load(addr).device_for(other) == mem.device_for(other),
        mem.store(addr, b).device_for(other) == mem.device_for(other),
        mem.after_load(addr).ram == mem.ram,
        !mem.is_plain(addr) ==> mem.store(addr, b).ram == mem.ram,
        mem.after_load(addr).devs.len() == mem.devs.len(),
        mem.store(addr, b).devs.len() == mem.devs.len(),
{
    let d = mem.devs;
    let l = mem.after_load(addr).devs;
    let w = mem.store(addr, b).devs;
    lemma_first_device(d, addr as int, 0);
    assert forall|k: int| 0 <= k < d.len() implies #[trigger] d[k].start == l[k].start && d[k].end == l[k].end by {}
    assert forall|k: int| 0 <= k < d.len() implies #[trigger] d[k].start == w[k].start && d[k].end == w[k].end by {}
    lemma_first_device_ranges(d, l, other as int, 0);
    lemma_first_device_ranges(d, w, other as int, 0);
}

/// Reading or writing a device does not change which offsets it accepts.
proof fn lemma_dev_accepts_kept(d: DevState, off: u16, b: u8, x: u16)
    ensures
        d.after_read(off).read_ok(x) == d.read_ok(x),
        d.after_read(off).write_ok(x) == d.write_ok(x),
        d.write_ok(off) ==> d.write_value(off, b).read_ok(x) == d.read_ok(x),
        d.write_ok(off) ==> d.write_value(off, b).write_ok(x) == d.write_ok(x),
{
    match d {
        DevState::Ram(m) => {},
        DevState::Rom(m) => {},
        DevState::Acia(a) => {},
        DevState::Cia1(c) => {},
        DevState::Control(c) => {},
    }
}

/// After a load or a store at `addr`, the device serving `o` (if any) sits
/// at the same range and accepts the same offsets as before.
proof fn lemma_accepts_kept_at(mem: MemState, addr: u16, b: u8, o: u16)
    ensures
        mem.after_load(addr).load_ok(o) == mem.load_ok(o),
        mem.after_load(addr).store_ok(o) == mem.store_ok(o),
        mem.store_ok(addr) ==> mem.store(addr, b).load_ok(o) == mem.load_ok(o),
        mem.store_ok(addr) ==> mem.store(addr, b).store_ok(o) == mem.store_ok(o),
{
    lemma_routing_kept(mem, addr, b, o);
    lemma_first_device(mem.devs, addr as int, 0);
    lemma_first_device(mem.devs, o as int, 0);
    let i = mem.device_for(o);
    let j = mem.device_for(addr);
    if i < mem.devs.len() {
        lemma_dev_accepts_kept(mem.devs[i].dev, mem.offset(addr), b, mem.offset(o));
        if i == j {
            assert(mem.after_load(addr).devs[i].dev == mem.devs[i].dev.after_read(mem.offset(addr)));
            assert(mem.store(addr, b).devs[i].dev == mem.devs[i].dev.write_value(mem.offset(addr), b));
        } else {
            assert(mem.after_load(addr).devs[i] == mem.devs[i]);
            assert(mem.store(addr, b).devs[i] == mem.devs[i]);
        }
    }
}

/// A memory that accepts every access still does after a load.
pub broadcast proof fn lemma_accepts_all_after_load(mem: MemState, addr: u16)
    requires
        mem.accepts_all(),
    ensures
        (#[trigger] mem.after_load(addr)).accepts_all(),
{
    let n = mem.after_load(addr);
    assert forall|o: u16| #[trigger] n.load_ok(o) by {
        lemma_accepts_kept_at(mem, addr, 0, o);
        assert(mem.load_ok(o));
    }
    assert forall|o: u16| #[trigger] n.store_ok(o) by {
        lemma_accepts_kept_at(mem, addr, 0, o);
        assert(mem.store_ok(o));
    }
}

/// A memory that accepts every access still does after a store.
pub broadcast proof fn lemma_accepts_all_after_store(mem: MemState, addr: u16, b: u8)
    requires
        mem.accepts_all(),
    ensures
        (#[trigger] mem.store(addr, b)).accepts_all(),
{
    let n = mem.store(addr, b);
    assert(mem.store_ok(addr));
    assert forall|o: u16| #[trigger] n.load_ok(o) by {
        lemma_accepts_kept_at(mem, addr, b, o);
        assert(mem.load_ok(o));
    }
    assert forall|o: u16| #[trigger] n.store_ok(o) by {
        lemma_accepts_kept_at(mem, addr, b, o);
        assert(mem.store_ok(o));
    }
}

/// A load that `peekable` admits succeeds and changes nothing.
pub proof fn lemma_peek_load(mem: MemState, addr: u16)
    requires
        mem.peekable(addr),
    ensures
        mem.load_ok(addr),
        mem.after_load(addr) == mem,
{
    lemma_first_device(mem.devs, addr as int, 0);
    let i = mem.device_for(addr);
    if i < mem.devs.len() {
        let d = mem.devs[i];
        assert(d.dev.after_read(mem.offset(addr)) == d.dev);
        assert((MappedState { dev: d.dev, ..d }) == d);
        assert(mem.after_load(addr).devs =~= mem.devs);
    }
}

/// A load from plain memory gives the byte stored there and changes
/// nothing.
pub proof fn lemma_plain_load(mem: MemState, addr: u16)
    requires
        mem.is_plain(addr),
    ensures
        mem.load_ok(addr),
        mem.load(addr) == mem.ram[addr as int],
        mem.after_load(addr) == mem,
{
}

/// What a store to plain memory does: a load from the same address gives the
/// byte back, every other address loads as before, and the devices are
/// untouched.
pub proof fn lemma_store_load(mem: MemState, addr: u16, b: u8, other: u16)
    requires
        mem.ram.len() == 0x10000,
        mem.is_plain(addr),
    ensures
        mem.store_ok(addr),
        mem.store(addr, b).devs == mem.devs,
        mem.store(addr, b).is_plain(addr),
        mem.store(addr, b).load(addr) == b,
        other != addr ==> mem.store(addr, b).load(other) == mem.load(other),
        other != addr ==> mem.store(addr, b).load_ok(other) == mem.load_ok(other),
{
}


proof fn lemma_first_device_push(devs: Seq<MappedState>, d: MappedState, addr: int, i: int)
    requires
        0 <= i <= devs.len(),
    ensures
        first_device(devs, addr, i) < devs.len() ==> first_device(devs.push(d), addr, i)
            == first_device(devs, addr, i),
        first_device(devs, addr, i) >= devs.len() ==> first_device(devs.push(d), addr, i) == if d.covers(
            addr,
        ) {
            devs.len() as int
        } else {
            devs.len() + 1int
        },
    decreases devs.len() - i,
{
    let e = devs.push(d);
    if i < devs.len() {
        assert(e[i] == devs[i]);
        if !devs[i].covers(addr) {
            lemma_first_device_push(devs, d, addr, i + 1);
        }
    } else {
        assert(e[i] == d);
        if !d.covers(addr) {
            assert(first_device(e, addr, i + 1) == e.len());
        }
    }
}

/// A device mapped after the others serves exactly the addresses of its
/// range that no earlier device covers; every other address is served as
/// before, by the same device or by plain memory.
pub proof fn lemma_register_routing(mem: MemState, d: MappedState, addr: u16)
    ensures
        ({
            let n = MemState { ram: mem.ram, devs: mem.devs.push(d) };
            &&& !mem.is_plain(addr) ==> n.device_for(addr) == mem.device_for(addr)
            &&& mem.is_plain(addr) && d.covers(addr as int) ==> n.device_for(addr) == mem.devs.len()
            &&& mem.is_plain(addr) && !d.covers(addr as int) ==> n.is_plain(addr)
        }),
{
    lemma_first_device(mem.devs, addr as int, 0);
    lemma_first_device_push(mem.devs, d, addr as int, 0);
}


/// A store elsewhere leaves a plain address plain and holding what it held.
pub proof fn lemma_store_elsewhere(mem: MemState, addr: u16, b: u8, v: u16)
    requires
        mem.ram.len() == 0x10000,
        mem.is_plain(v),
        v != addr,
    ensures
        mem.store(addr, b).ram.len() == 0x10000,
        mem.store(addr, b).is_plain(v),
        mem.store(addr, b).load(v) == mem.load(v),
{
    lemma_routing_kept(mem, addr, b, v);
    lemma_routing_kept(mem, addr, b, addr);
}

} // verus!
