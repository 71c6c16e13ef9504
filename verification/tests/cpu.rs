use emu6502::cpu6502::cpu::{StatusFlag, CPU};
use emu6502::cpu6502::memory::{Memory, MemoryDevice, MemoryFromFile, Peripheral};
use emu6502::cpu6502::model::addr_mode::AddrMode;
use emu6502::cpu6502::model::instruction::Instruction;
use emu6502::cpu6502::model::{
    disasm, disasm_and_len, disasm_listing, instruction_and_mode, opcode_from_instruction_and_mode, status_line,
    try_disasm_and_len,
};

#[test]
fn test_brk_rti() {
    let mut cpu = CPU::new();
    let mut mem = Memory::new();
    cpu.reset(&mut mem);
    mem.store_memory_byte(0xfffe, 0xee);
    mem.store_memory_byte(0xffff, 0xee);
    mem.store_memory_byte(0xeef0, 0x40); // RTI
    for step in 0..14 {
        println!("Step {step}");
        cpu.step(&mut mem);
    }
    assert!(cpu.is_set(StatusFlag::BRK));
    assert!(cpu.is_set(StatusFlag::IRQDisable));
    assert_eq!(0xeeee, cpu.pc);
    for step in 14..16 {
        println!("Step {step}");
        cpu.step(&mut mem);
    }
    assert!(cpu.is_set(StatusFlag::BRK));
    assert!(cpu.is_set(StatusFlag::IRQDisable));
    assert_eq!(0xeef0, cpu.pc);
    for step in 16..18 {
        println!("Step {step}");
        cpu.step(&mut mem);
    }
    assert!(cpu.is_clear(StatusFlag::BRK));
    assert!(cpu.is_clear(StatusFlag::IRQDisable));
    assert_eq!(0x0002, cpu.pc);
}

#[test]
fn test_jsr_ret() {
    let mut cpu = CPU::new();
    let mut mem = Memory::new();
    mem.store_memory_byte(0xfffc, 0xcc);
    mem.store_memory_byte(0xfffd, 0xcc);
    mem.store_memory_byte(0xcccc, 0x20); // JSR
    mem.store_memory_byte(0xcccd, 0xdd);
    mem.store_memory_byte(0xccce, 0xdd);
    mem.store_memory_byte(0xdddd, 0x60); // RTS
    cpu.reset(&mut mem);
    for step in 0..13 {
        println!("Step {step}");
        cpu.step(&mut mem);
    }
    assert_eq!(0xdddd, cpu.pc);
    for step in 13..15 {
        println!("Step {step}");
        cpu.step(&mut mem);
    }
    assert_eq!(0xcccf, cpu.pc);
}

#[test]
fn test_beq_taken() {
    let mut cpu = CPU::new();
    let mut mem = Memory::new();
    mem.store_memory_byte(0xfffc, 0xaa);
    mem.store_memory_byte(0xfffd, 0xaa);
    mem.store_memory_byte(0xaaaa, 0xf0); // BEQ
    mem.store_memory_byte(0xaaab, 0xc0);
    cpu.reset(&mut mem);
    cpu.set_flag(StatusFlag::Zero);
    for step in 0..10 {
        cpu.step(&mut mem);
        println!("Step {step}: {}", cpu.status_line);
    }
    assert_eq!(0, cpu.cycle);
    assert_eq!(0xaa6c, cpu.pc);
}

#[test]
fn test_beq_not_taken() {
    let mut cpu = CPU::new();
    let mut mem = Memory::new();
    mem.store_memory_byte(0xfffc, 0xaa);
    mem.store_memory_byte(0xfffd, 0xaa);
    mem.store_memory_byte(0xaaaa, 0xf0); // BEQ
    mem.store_memory_byte(0xaaab, 0xc0);
    cpu.reset(&mut mem);
    cpu.clear_flag(StatusFlag::Zero);
    for step in 0..9 {
        println!("Step {step}");
        cpu.step(&mut mem);
    }
    assert_eq!(0, cpu.cycle);
    assert_eq!(0xaaac, cpu.pc);
}

fn cmp_zpx_ind(a: u8, operand: u8) -> CPU {
    let mut cpu = CPU::new();
    let mut mem = Memory::new();
    cpu.reset(&mut mem);
    cpu.pc = 0x1000;
    cpu.a = a;
    cpu.x = 1;
    mem.store_memory_byte(0x50, 0x99);
    mem.store_memory_byte(0x51, 0x99);
    mem.store_memory_byte(0x1000, 0xc1); // CMP (zp,x)
    mem.store_memory_byte(0x1001, 0x4f);
    mem.store_memory_byte(0x9999, operand);
    for step in 0..13 {
        println!("Step {step}");
        cpu.step(&mut mem);
    }
    cpu
}

#[test]
fn test_cmp_zpx_ind_lt() {
    let cpu = cmp_zpx_ind(0x55, 0xf0);
    assert!(cpu.is_set(StatusFlag::Negative));
    assert!(cpu.is_clear(StatusFlag::Zero));
    assert!(cpu.is_clear(StatusFlag::Carry));
}

#[test]
fn test_cmp_zpx_ind_eq() {
    let cpu = cmp_zpx_ind(0x55, 0x55);
    assert!(cpu.is_clear(StatusFlag::Negative));
    assert!(cpu.is_set(StatusFlag::Zero));
    assert!(cpu.is_set(StatusFlag::Carry));
}

#[test]
fn test_cmp_zpx_ind_gt() {
    let cpu = cmp_zpx_ind(0xfe, 0x55);
    assert!(cpu.is_clear(StatusFlag::Negative));
    assert!(cpu.is_clear(StatusFlag::Zero));
    assert!(cpu.is_set(StatusFlag::Carry));
}

/// Runs LDA #a, SEC or CLC, then `op` #b, and returns the CPU.
fn run_arith(op: Instruction, a: u8, b: u8, carry: bool) -> CPU {
    let mut cpu = CPU::new();
    let mut mem = Memory::new();
    let carry_inst = if carry { Instruction::SEC } else { Instruction::CLC };
    let prog = [
        opcode_from_instruction_and_mode(Instruction::LDA, AddrMode::Immediate),
        a,
        opcode_from_instruction_and_mode(carry_inst, AddrMode::Implied),
        opcode_from_instruction_and_mode(op, AddrMode::Immediate),
        b,
    ];
    cpu.reset(&mut mem);
    cpu.pc = 0x1000;
    for (pos, b) in prog.iter().enumerate() {
        mem.store_memory_byte(0x1000 + pos as u16, *b);
    }
    for step in 0..14 {
        cpu.step(&mut mem);
        println!("Step {step}: {}", cpu.status_line);
    }
    cpu
}

fn _test_sbc(a: u8, b: u8, carry: bool, expected_res: u8, expected_overflow: bool, expected_carry: bool) {
    let cpu = run_arith(Instruction::SBC, a, b, carry);
    assert_eq!(expected_res, cpu.a, "The unsigned result of {} - {} should be {}", a, b, expected_res);
    assert_eq!(
        expected_overflow,
        cpu.is_set(StatusFlag::Overflow),
        "The overflow flag should {}be set.",
        if expected_overflow { "" } else { "not " }
    );
    assert_eq!(
        expected_carry,
        cpu.is_set(StatusFlag::Carry),
        "The carry flag should {}be set.",
        if expected_carry { "" } else { "not " }
    );
}

fn _test_adc(a: u8, b: u8, expected_res: u8, expected_overflow: bool, expected_carry: bool) {
    let cpu = run_arith(Instruction::ADC, a, b, false);
    assert_eq!(expected_res, cpu.a, "The unsigned result of {} + {} should be {}", a, b, expected_res);
    assert_eq!(
        expected_overflow,
        cpu.is_set(StatusFlag::Overflow),
        "The overflow flag should {}be set.",
        if expected_overflow { "" } else { "not " }
    );
    assert_eq!(
        expected_carry,
        cpu.is_set(StatusFlag::Carry),
        "The carry flag should {}be set.",
        if expected_carry { "" } else { "not " }
    );
}

#[test]
fn test_sbc_1() {
    _test_sbc(3, 5, true, 0xfe, false, false);
    _test_sbc(3, 5, false, 0xfd, false, false);
}

#[test]
fn test_sbc_2() {
    _test_sbc((-120_i8) as u8, 10, true, 0x7e, true, true);
    _test_sbc((-120_i8) as u8, 10, false, 0x7d, true, true);
}

#[test]
fn test_sbc_3a() {
    _test_sbc(250, 252, true, 0xfe, false, false);
    _test_sbc(250, 252, false, 0xfd, false, false);
}

#[test]
fn test_sbc_3b() {
    _test_sbc(250, 250, false, 0xff, false, false);
}

#[test]
fn test_sbc_3c() {
    _test_sbc(251, 250, false, 0, false, true);
}

#[test]
fn test_sbc_3d() {
    _test_sbc(251, 255, false, 251, false, false);
}

#[test]
fn test_sbc_4() {
    _test_sbc(127, (-127_i8) as u8, true, 0xfe, true, false);
    _test_sbc(127, (-127_i8) as u8, false, 0xfd, true, false);
}

#[test]
fn test_sbc_5() {
    _test_sbc(253, 5, true, 0xf8, false, true);
    _test_sbc(253, 5, false, 0xf7, false, true);
}

#[test]
fn test_sbc_6() {
    _test_sbc(126, 123, true, 3, false, true);
    _test_sbc(126, 123, false, 2, false, true);
}

#[test]
fn test_sbc_7() {
    _test_sbc(6, 3, true, 3, false, true);
    _test_sbc(6, 3, false, 2, false, true);
}

#[test]
fn test_adc_1() {
    _test_adc(3, (-5_i8) as u8, 0xfe, false, false);
}

#[test]
fn test_adc_2() {
    _test_adc((-120_i8) as u8, 10, 0x92, false, false);
}

#[test]
fn test_adc_3() {
    _test_adc(250, 252, 0xf6, false, true);
}

#[test]
fn test_adc_4() {
    _test_adc(127, (-127_i8) as u8, 0, false, true);
}

#[test]
fn test_adc_5() {
    _test_adc((-3_i8) as u8, 5, 2, false, true);
}

#[test]
fn test_adc_6() {
    _test_adc(126, 123, 249, true, false);
}

#[test]
fn test_adc_7() {
    _test_adc(6, 3, 9, false, false);
}

#[test]
fn adc_with_carry_in_adds_one() {
    let cpu = run_arith(Instruction::ADC, 0x7f, 0x00, true);
    assert_eq!(0x80, cpu.a);
    assert!(cpu.is_set(StatusFlag::Overflow));
    assert!(cpu.is_clear(StatusFlag::Carry));
    assert!(cpu.is_set(StatusFlag::Negative));
}

#[test]
fn adc_operand_ff_with_carry_keeps_carry_clear() {
    // 5 + 0xff + 1 = 0x105: the two-step addition leaves the carry clear.
    let cpu = run_arith(Instruction::ADC, 0x05, 0xff, true);
    assert_eq!(0x05, cpu.a);
    assert!(cpu.is_clear(StatusFlag::Carry));
}

#[test]
fn adc_minus_129_with_carry_sets_overflow() {
    // -128 + -1 + 1 = -128 fits, but the first addition overflowed.
    let cpu = run_arith(Instruction::ADC, 0x80, 0xff, true);
    assert_eq!(0x80, cpu.a);
    assert!(cpu.is_set(StatusFlag::Overflow));
}

#[test]
fn sbc_zero_result_sets_zero_flag() {
    let cpu = run_arith(Instruction::SBC, 0x42, 0x42, true);
    assert_eq!(0, cpu.a);
    assert!(cpu.is_set(StatusFlag::Zero));
    assert!(cpu.is_set(StatusFlag::Carry));
}

#[test]
fn reset_loads_the_vector_and_waits_seven_steps() {
    let mut cpu = CPU::new();
    let mut mem = Memory::new();
    mem.store_memory_byte(0xfffc, 0x34);
    mem.store_memory_byte(0xfffd, 0x12);
    cpu.reset(&mut mem);
    assert_eq!(0x1234, cpu.pc);
    assert!(cpu.reset);
    for _ in 0..7 {
        cpu.step(&mut mem);
    }
    assert!(cpu.reset);
    assert_eq!(0x1234, cpu.pc);
    cpu.step(&mut mem);
    assert!(!cpu.reset);
}

#[test]
fn pha_pla_round_trip() {
    let mut cpu = CPU::new();
    let mut mem = Memory::new();
    let prog = [
        opcode_from_instruction_and_mode(Instruction::LDA, AddrMode::Immediate),
        0x5a,
        opcode_from_instruction_and_mode(Instruction::PHA, AddrMode::Implied),
        opcode_from_instruction_and_mode(Instruction::LDA, AddrMode::Immediate),
        0x00,
        opcode_from_instruction_and_mode(Instruction::PLA, AddrMode::Implied),
    ];
    cpu.reset(&mut mem);
    cpu.pc = 0x2000;
    for (pos, b) in prog.iter().enumerate() {
        mem.store_memory_byte(0x2000 + pos as u16, *b);
    }
    let sp = cpu.sp;
    for _ in 0..40 {
        cpu.step(&mut mem);
        if cpu.pc == 0x2006 && cpu.cycle == 0 {
            break;
        }
    }
    assert_eq!(0x2006, cpu.pc);
    assert_eq!(0x5a, cpu.a);
    assert_eq!(sp, cpu.sp);
}

#[test]
fn flags_set_and_clear() {
    let mut cpu = CPU::new();
    cpu.set_flags(&[StatusFlag::Carry, StatusFlag::Negative]);
    assert!(cpu.is_set(StatusFlag::Carry));
    assert!(cpu.is_set(StatusFlag::Negative));
    assert!(cpu.is_clear(StatusFlag::Zero));
    cpu.change_flags(&[StatusFlag::Zero], &[StatusFlag::Carry]);
    assert!(cpu.is_set(StatusFlag::Zero));
    assert!(cpu.is_clear(StatusFlag::Carry));
    assert!(cpu.is_set(StatusFlag::Negative));
    cpu.clear_flags(&[StatusFlag::Negative, StatusFlag::Zero]);
    assert_eq!(32, cpu.st.0);
}

#[test]
fn decode_and_encode_agree() {
    assert_eq!((Instruction::LDA, AddrMode::Immediate), instruction_and_mode(0xa9));
    assert_eq!((Instruction::JSR, AddrMode::Absolute), instruction_and_mode(0x20));
    assert_eq!(0xa9, opcode_from_instruction_and_mode(Instruction::LDA, AddrMode::Immediate));
    assert_eq!(0x60, opcode_from_instruction_and_mode(Instruction::RTS, AddrMode::Implied));
    for op in 0..=255u8 {
        let (inst, mode) = instruction_and_mode(op);
        let back = opcode_from_instruction_and_mode(inst, mode);
        assert_eq!((inst, mode), instruction_and_mode(back));
        assert!(back <= op);
    }
}

#[test]
fn disassembles_operands() {
    assert_eq!("JSR $DDDD", disasm(0xcccc, &[0x20, 0xdd, 0xdd]));
    assert_eq!("BEQ $AA6C", disasm(0xaaaa, &[0xf0, 0xc0]));
    assert_eq!("BEQ $AAB0", disasm(0xaaaa, &[0xf0, 0x04]));
    assert_eq!("LDA #$5A", disasm(0, &[0xa9, 0x5a]));
    assert_eq!("LDA ($16),Y", disasm(0, &[0xb1, 0x10]));
    assert_eq!("CMP ($4F,X)", disasm(0, &[0xc1, 0x4f]));
    assert_eq!("RTS", disasm(0, &[0x60]));
    assert_eq!("JMP ($1234)", disasm(0, &[0x6c, 0x34, 0x12]));
}

#[test]
fn disassembly_lengths() {
    assert_eq!(("JSR $DDDD".to_string(), 3), disasm_and_len(0xcccc, &[0x20, 0xdd, 0xdd]));
    assert_eq!(("LDA #$01".to_string(), 2), disasm_and_len(0, &[0xa9, 0x01]));
    assert_eq!(("RTS".to_string(), 1), disasm_and_len(0, &[0x60]));
    assert_eq!(("ASL #$00".to_string(), 1), disasm_and_len(0, &[0x0a, 0x00]));
}

#[test]
fn disassembly_needs_its_operand_bytes() {
    assert_eq!(None, try_disasm_and_len(0, &[]));
    assert_eq!(None, try_disasm_and_len(0, &[0x20, 0xdd]));
    assert_eq!(Some(("JSR $DDDD".to_string(), 3)), try_disasm_and_len(0, &[0x20, 0xdd, 0xdd]));
    assert_eq!(Some(("NOP".to_string(), 1)), try_disasm_and_len(0, &[0xea]));
    assert_eq!(None, try_disasm_and_len(0, &[0xa9]));
}

#[test]
fn interrupt_then_rti_resumes_two_bytes_on() {
    let mut cpu = CPU::new();
    let mut mem = Memory::new();
    mem.store_memory_word(0xfffc, 0x1000);
    mem.store_memory_word(0xfffe, 0x2000);
    mem.store_memory_byte(0x2000, 0x40); // RTI
    cpu.reset(&mut mem);
    cpu.irq = true;
    for _ in 0..8 {
        cpu.step(&mut mem);
    }
    assert_eq!(0x2000, cpu.pc);
    assert!(cpu.is_set(StatusFlag::IRQDisable));
    assert!(!cpu.irq);
    assert_eq!(0xfc, cpu.sp);
    cpu.step(&mut mem);
    assert_eq!(0x1002, cpu.pc);
    assert!(cpu.is_clear(StatusFlag::IRQDisable));
    assert_eq!(0xff, cpu.sp);
}

#[test]
fn masked_interrupt_is_dropped() {
    let mut cpu = CPU::new();
    let mut mem = Memory::new();
    mem.store_memory_word(0xfffc, 0x1000);
    cpu.reset(&mut mem);
    cpu.set_flag(StatusFlag::IRQDisable);
    cpu.irq = true;
    for _ in 0..8 {
        cpu.step(&mut mem);
    }
    assert_eq!(0x1000, cpu.pc);
    assert!(!cpu.irq);
    assert_eq!(0xff, cpu.sp);
}

#[test]
fn jmp_indirect_goes_through_the_argument() {
    let mut cpu = CPU::new();
    let mut mem = Memory::new();
    mem.store_memory_word(0xfffc, 0x0200);
    mem.store_memory_byte(0x0200, 0x6c); // JMP ($1000)
    mem.store_memory_word(0x0201, 0x1000);
    mem.store_memory_word(0x1000, 0x1234);
    cpu.reset(&mut mem);
    for _ in 0..9 {
        cpu.step(&mut mem);
    }
    assert_eq!(0x1234, cpu.pc);
}

#[test]
fn status_line_shows_registers_and_instruction() {
    assert_eq!(
        "0b00100100 a:01 x:02 y:FF 0x0200 LDA #$5A",
        status_line(0x24, 0x01, 0x02, 0xff, 0x0200, &[0xa9, 0x5a, 0x00])
    );
    assert_eq!(
        "0b10000001 a:00 x:00 y:00 0xCCCC JSR $DDDD",
        status_line(0x81, 0, 0, 0, 0xcccc, &[0x20, 0xdd, 0xdd])
    );
}

#[test]
fn an_instruction_lasts_its_cycle_count() {
    let mut cpu = CPU::new();
    let mut mem = Memory::new();
    mem.store_memory_word(0xfffc, 0x0200);
    mem.store_memory_byte(0x0200, 0xa9); // LDA #$42
    mem.store_memory_byte(0x0201, 0x42);
    mem.store_memory_byte(0x0202, 0xea); // NOP
    cpu.reset(&mut mem);
    for _ in 0..8 {
        cpu.step(&mut mem);
    }
    assert_eq!(0x42, cpu.a);
    assert_eq!(0x0202, cpu.pc);
    assert_eq!(1, cpu.cycle);
    assert_eq!(2, cpu.cycles);
    cpu.step(&mut mem);
    assert_eq!(0, cpu.cycle);
    assert_eq!(0x0202, cpu.pc);
    cpu.step(&mut mem);
    assert_eq!(0x0203, cpu.pc);
    assert_eq!(1, cpu.cycle);
}

#[test]
fn listing_walks_instructions_by_length() {
    let code = [0xa9, 0x5a, 0x20, 0xdd, 0xdd, 0x60];
    let lines = disasm_listing(&code, 0x200, 0x206).unwrap();
    let expected = vec![
        (0x200, "LDA #$5A".to_string()),
        (0x202, "JSR $DDDD".to_string()),
        (0x205, "RTS".to_string()),
    ];
    assert_eq!(expected, lines);
    assert_eq!(None, disasm_listing(&[0x20, 0xdd], 0, 1));
    assert_eq!(Some(vec![]), disasm_listing(&code, 0x200, 0x200));
}

#[test]
fn memory_checks_device_offsets() {
    let mut mem = Memory::new();
    assert!(mem.accepts_every_access());
    mem.register_device(Peripheral::Ram(MemoryDevice::new(0x10)), 0x1000, 0x10ff);
    assert!(mem.can_load(0x0fff));
    assert!(mem.can_load(0x100f));
    assert!(!mem.can_load(0x1010));
    assert!(mem.can_store(0x100f));
    assert!(!mem.can_store(0x1010));
    assert_eq!(Some(0), mem.peek(0x100f));
    assert_eq!(None, mem.peek(0x1010));
    assert!(!mem.accepts_every_access());
    mem.register_device(Peripheral::Rom(MemoryFromFile::new(vec![1, 2])), 0x2000, 0x2003);
    assert!(mem.can_load(0x2001));
    assert!(!mem.can_load(0x2002));
    assert!(mem.can_store(0x2002));
    assert_eq!(Some(2), mem.peek(0x2001));
}

#[test]
fn checked_step_refuses_a_jump_through_ffff() {
    let mut cpu = CPU::new();
    let mut mem = Memory::new();
    mem.store_memory_word(0xfffc, 0x0200);
    mem.store_memory_byte(0x0200, 0x6c); // JMP ($FFFF)
    mem.store_memory_word(0x0201, 0xffff);
    cpu.reset(&mut mem);
    for _ in 0..7 {
        assert!(cpu.step_checked(&mut mem));
    }
    assert!(!cpu.ready_to_step(&mem));
    assert!(!cpu.step_checked(&mut mem));
    assert_eq!(0x0200, cpu.pc);
    assert_eq!(7, cpu.cycle);
    mem.store_memory_word(0x0201, 0x1000); // JMP ($1000)
    mem.store_memory_word(0x1000, 0x1234);
    assert!(cpu.ready_to_step(&mem));
    assert!(cpu.step_checked(&mut mem));
    assert_eq!(0x1234, cpu.pc);
}
