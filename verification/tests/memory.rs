use emu6502::cpu6502::acia::{key_to_input, Acia};
use emu6502::cpu6502::memory::{Device, Memory, MemoryDevice, MemoryFromFile, Peripheral};

#[test]
fn plain_memory_store_then_load() {
    let mut mem = Memory::new();
    assert_eq!(0, mem.load_memory_byte(0x1234));
    mem.store_memory_byte(0x1234, 0xab);
    assert_eq!(0xab, mem.load_memory_byte(0x1234));
    assert_eq!(0, mem.load_memory_byte(0x1235));
    mem.store_memory_word(0x2000, 0xbeef);
    assert_eq!(0xef, mem.load_memory_byte(0x2000));
    assert_eq!(0xbe, mem.load_memory_byte(0x2001));
    assert_eq!(0xbeef, mem.load_memory_word(0x2000));
    assert_eq!(&[0xef, 0xbe], mem.get_range(0x2000..0x2002));
}

#[test]
fn word_store_wraps_at_the_top() {
    let mut mem = Memory::new();
    mem.store_memory_word(0xffff, 0x1234);
    assert_eq!(0x34, mem.load_memory_byte(0xffff));
    assert_eq!(0x12, mem.load_memory_byte(0x0000));
}

#[test]
fn rom_device_serves_reads_and_ignores_writes() {
    let mut mem = Memory::new();
    mem.store_memory_byte(0xe001, 0x55);
    mem.register_device(Peripheral::Rom(MemoryFromFile::new(vec![1, 2, 3, 4])), 0xe000, 0xe003);
    assert_eq!(2, mem.load_memory_byte(0xe001));
    mem.store_memory_byte(0xe001, 0x99);
    assert_eq!(2, mem.load_memory_byte(0xe001));
    // the plain memory below the ROM is untouched and still there
    assert_eq!(&[0x55], mem.get_range(0xe001..0xe002));
}

#[test]
fn ram_device_and_precedence() {
    let mut mem = Memory::new();
    mem.register_device(Peripheral::Ram(MemoryDevice::new(16)), 0x8000, 0x800f);
    mem.register_device(Peripheral::Ram(MemoryDevice::new(16)), 0x8008, 0x8017);
    mem.store_memory_byte(0x8009, 7);
    assert_eq!(7, mem.load_memory_byte(0x8009));
    // the first device registered serves the overlap
    assert_eq!(0, mem.load_memory_byte(0x8011));
    mem.store_memory_byte(0x8011, 9);
    assert_eq!(9, mem.load_memory_byte(0x8011));
    assert_eq!(&[0], mem.get_range(0x8009..0x800a));
}

#[test]
fn acia_receives_in_order() {
    let mut acia = Acia::new();
    assert_eq!(0b0001_0000, acia.read(1));
    acia.push_input(b'A');
    acia.push_input(b'B');
    assert_eq!(0b0001_1000, acia.read(1));
    assert_eq!(b'A', acia.read(0));
    assert_eq!(b'B', acia.read(0));
    assert_eq!(b'?', acia.read(0));
}

#[test]
fn acia_transmits_and_keeps_registers() {
    let mut acia = Acia::new();
    acia.write(0, b'H');
    acia.write(0, b'I');
    acia.write(2, 0x0b);
    acia.write(3, 0x1f);
    assert_eq!(0x0b, acia.read(2));
    assert_eq!(0x1f, acia.read(3));
    assert_eq!(vec![b'H', b'I'], acia.take_output());
    assert!(acia.take_output().is_empty());
}

#[test]
fn acia_set_input_upper_cases() {
    let mut acia = Acia::new();
    assert!(acia.is_stdin_enabled());
    acia.set_input("ff0.fff\r");
    assert!(!acia.is_stdin_enabled());
    let mut got = Vec::new();
    for _ in 0..8 {
        got.push(acia.read(0));
    }
    assert_eq!(b"FF0.FFF\r".to_vec(), got);
}

#[test]
fn acia_through_the_memory_bus() {
    let mut mem = Memory::new();
    let mut acia = Acia::new();
    acia.push_input(b'X');
    mem.register_device(Peripheral::Acia(acia), 0xd010, 0xd013);
    assert_eq!(0b0001_1000, mem.load_memory_byte(0xd011));
    assert_eq!(b'X', mem.load_memory_byte(0xd010));
    assert_eq!(0b0001_0000, mem.load_memory_byte(0xd011));
}

#[test]
fn keys_translate_for_the_monitor() {
    assert_eq!(Some(0x0d), key_to_input(0x0a));
    assert_eq!(None, key_to_input(b'q'));
    assert_eq!(Some(b'A'), key_to_input(b'a'));
    assert_eq!(Some(b'Z'), key_to_input(b'z'));
    assert_eq!(Some(b'1'), key_to_input(b'1'));
}
