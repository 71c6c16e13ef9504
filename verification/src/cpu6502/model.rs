pub mod addr_mode;
pub mod instruction;
pub mod laws;
pub mod semantics;

use vstd::prelude::*;

use addr_mode::{
    arm_of, find_from, hex_digit, hex_digits, hex_value, AddrMode, COMMA, DOLLAR, HASH, LPAREN, RPAREN,
    UPPER_X, UPPER_Y,
};
use instruction::Instruction;

use crate::cpu6502::cpu::{add16, rel, signed};

verus! {

/// Tells the addressing modes of the NMOS 6502 from those that the
/// 65C02 added.
pub trait IsOriginal {
    fn is_original(&self) -> bool;
}

/// The instruction and addressing mode that each opcode encodes.
#[verifier::opaque]
pub open spec fn decode(opcode: u8) -> (Instruction, AddrMode) {
    match opcode {
        0x00 => (Instruction::BRK, AddrMode::Implied),
        0x01 => (Instruction::ORA, AddrMode::ZeroPageIndexedIndirect),
        0x02 => (Instruction::ILL, AddrMode::Implied),
        0x03 => (Instruction::ILL, AddrMode::Implied),
        0x04 => (Instruction::TSB, AddrMode::ZeroPage),
        0x05 => (Instruction::ORA, AddrMode::ZeroPage),
        0x06 => (Instruction::ASL, AddrMode::ZeroPage),
        0x07 => (Instruction::RMB0, AddrMode::ZeroPage),
        0x08 => (Instruction::PHP, AddrMode::Implied),
        0x09 => (Instruction::ORA, AddrMode::Immediate),
        0x0a => (Instruction::ASL, AddrMode::Accumulator),
        0x0b => (Instruction::ILL, AddrMode::Implied),
        0x0c => (Instruction::TSB, AddrMode::Absolute),
        0x0d => (Instruction::ORA, AddrMode::Absolute),
        0x0e => (Instruction::ASL, AddrMode::Absolute),
        0x0f => (Instruction::BBR0, AddrMode::ZeroPageRelative),
        0x10 => (Instruction::BPL, AddrMode::Relative),
        0x11 => (Instruction::ORA, AddrMode::ZeroPageIndirectIndexedWithY),
        0x12 => (Instruction::ORA, AddrMode::ZeroPageIndirect),
        0x13 => (Instruction::ILL, AddrMode::Implied),
        0x14 => (Instruction::TRB, AddrMode::ZeroPage),
        0x15 => (Instruction::ORA, AddrMode::ZeroPageIndexedWithX),
        0x16 => (Instruction::ASL, AddrMode::ZeroPageIndexedWithX),
        0x17 => (Instruction::RMB1, AddrMode::ZeroPage),
        0x18 => (Instruction::CLC, AddrMode::Implied),
        0x19 => (Instruction::ORA, AddrMode::AbsoluteIndexedWithY),
        0x1a => (Instruction::INC, AddrMode::Accumulator),
        0x1b => (Instruction::ILL, AddrMode::Implied),
        0x1c => (Instruction::TRB, AddrMode::Absolute),
        0x1d => (Instruction::ORA, AddrMode::AbsoluteIndexedWithX),
        0x1e => (Instruction::ASL, AddrMode::AbsoluteIndexedWithX),
        0x1f => (Instruction::BBR1, AddrMode::ZeroPageRelative),
        0x20 => (Instruction::JSR, AddrMode::Absolute),
        0x21 => (Instruction::AND, AddrMode::ZeroPageIndexedIndirect),
        0x22 => (Instruction::ILL, AddrMode::Implied),
        0x23 => (Instruction::ILL, AddrMode::Implied),
        0x24 => (Instruction::BIT, AddrMode::ZeroPage),
        0x25 => (Instruction::AND, AddrMode::ZeroPage),
        0x26 => (Instruction::ROL, AddrMode::ZeroPage),
        0x27 => (Instruction::RMB2, AddrMode::ZeroPage),
        0x28 => (Instruction::PLP, AddrMode::Implied),
        0x29 => (Instruction::AND, AddrMode::Immediate),
        0x2a => (Instruction::ROL, AddrMode::Accumulator),
        0x2b => (Instruction::ILL, AddrMode::Implied),
        0x2c => (Instruction::BIT, AddrMode::Absolute),
        0x2d => (Instruction::AND, AddrMode::Absolute),
        0x2e => (Instruction::ROL, AddrMode::Absolute),
        0x2f => (Instruction::BBR2, AddrMode::ZeroPageRelative),
        0x30 => (Instruction::BMI, AddrMode::Relative),
        0x31 => (Instruction::AND, AddrMode::ZeroPageIndirectIndexedWithY),
        0x32 => (Instruction::AND, AddrMode::ZeroPageIndirect),
        0x33 => (Instruction::ILL, AddrMode::Implied),
        0x34 => (Instruction::BIT, AddrMode::ZeroPageIndexedWithX),
        0x35 => (Instruction::AND, AddrMode::ZeroPageIndexedWithX),
        0x36 => (Instruction::ROL, AddrMode::ZeroPageIndexedWithX),
        0x37 => (Instruction::RMB3, AddrMode::ZeroPage),
        0x38 => (Instruction::SEC, AddrMode::Implied),
        0x39 => (Instruction::AND, AddrMode::AbsoluteIndexedWithY),
        0x3a => (Instruction::DEC, AddrMode::Accumulator),
        0x3b => (Instruction::ILL, AddrMode::Implied),
        0x3c => (Instruction::BIT, AddrMode::AbsoluteIndexedWithX),
        0x3d => (Instruction::AND, AddrMode::AbsoluteIndexedWithX),
        0x3e => (Instruction::ROL, AddrMode::AbsoluteIndexedWithX),
        0x3f => (Instruction::BBR3, AddrMode::ZeroPageRelative),
        0x40 => (Instruction::RTI, AddrMode::Implied),
        0x41 => (Instruction::EOR, AddrMode::ZeroPageIndexedIndirect),
        0x42 => (Instruction::ILL, AddrMode::Implied),
        0x43 => (Instruction::ILL, AddrMode::Implied),
        0x44 => (Instruction::ILL, AddrMode::Implied),
        0x45 => (Instruction::EOR, AddrMode::ZeroPage),
        0x46 => (Instruction::LSR, AddrMode::ZeroPage),
        0x47 => (Instruction::RMB4, AddrMode::ZeroPage),
        0x48 => (Instruction::PHA, AddrMode::Implied),
        0x49 => (Instruction::EOR, AddrMode::Immediate),
        0x4a => (Instruction::LSR, AddrMode::Accumulator),
        0x4b => (Instruction::ILL, AddrMode::Implied),
        0x4c => (Instruction::JMP, AddrMode::Absolute),
        0x4d => (Instruction::EOR, AddrMode::Absolute),
        0x4e => (Instruction::LSR, AddrMode::Absolute),
        0x4f => (Instruction::BBR4, AddrMode::ZeroPageRelative),
        0x50 => (Instruction::BVC, AddrMode::Relative),
        0x51 => (Instruction::EOR, AddrMode::ZeroPageIndirectIndexedWithY),
        0x52 => (Instruction::EOR, AddrMode::ZeroPageIndirect),
        0x53 => (Instruction::ILL, AddrMode::Implied),
        0x54 => (Instruction::ILL, AddrMode::Implied),
        0x55 => (Instruction::EOR, AddrMode::ZeroPageIndexedWithX),
        0x56 => (Instruction::LSR, AddrMode::ZeroPageIndexedWithX),
        0x57 => (Instruction::RMB5, AddrMode::ZeroPage),
        0x58 => (Instruction::CLI, AddrMode::Implied),
        0x59 => (Instruction::EOR, AddrMode::AbsoluteIndexedWithY),
        0x5a => (Instruction::PHY, AddrMode::Implied),
        0x5b => (Instruction::ILL, AddrMode::Implied),
        0x5c => (Instruction::ILL, AddrMode::Implied),
        0x5d => (Instruction::EOR, AddrMode::AbsoluteIndexedWithX),
        0x5e => (Instruction::LSR, AddrMode::AbsoluteIndexedWithX),
        0x5f => (Instruction::BBR5, AddrMode::ZeroPageRelative),
        0x60 => (Instruction::RTS, AddrMode::Implied),
        0x61 => (Instruction::ADC, AddrMode::ZeroPageIndexedIndirect),
        0x62 => (Instruction::ILL, AddrMode::Implied),
        0x63 => (Instruction::ILL, AddrMode::Implied),
        0x64 => (Instruction::STZ, AddrMode::ZeroPage),
        0x65 => (Instruction::ADC, AddrMode::ZeroPage),
        0x66 => (Instruction::ROR, AddrMode::ZeroPage),
        0x67 => (Instruction::RMB6, AddrMode::ZeroPage),
        0x68 => (Instruction::PLA, AddrMode::Implied),
        0x69 => (Instruction::ADC, AddrMode::Immediate),
        0x6a => (Instruction::ROR, AddrMode::Accumulator),
        0x6b => (Instruction::ILL, AddrMode::Implied),
        0x6c => (Instruction::JMP, AddrMode::AbsoluteIndirect),
        0x6d => (Instruction::ADC, AddrMode::Absolute),
        0x6e => (Instruction::ROR, AddrMode::Absolute),
        0x6f => (Instruction::BBR6, AddrMode::ZeroPageRelative),
        0x70 => (Instruction::BVS, AddrMode::Relative),
        0x71 => (Instruction::ADC, AddrMode::ZeroPageIndirectIndexedWithY),
        0x72 => (Instruction::ADC, AddrMode::ZeroPageIndirect),
        0x73 => (Instruction::ILL, AddrMode::Implied),
        0x74 => (Instruction::STZ, AddrMode::ZeroPageIndexedWithX),
        0x75 => (Instruction::ADC, AddrMode::ZeroPageIndexedWithX),
        0x76 => (Instruction::ROR, AddrMode::ZeroPageIndexedWithX),
        0x77 => (Instruction::RMB7, AddrMode::ZeroPage),
        0x78 => (Instruction::SEI, AddrMode::Implied),
        0x79 => (Instruction::ADC, AddrMode::AbsoluteIndexedWithY),
        0x7a => (Instruction::PLY, AddrMode::Implied),
        0x7b => (Instruction::ILL, AddrMode::Implied),
        0x7c => (Instruction::JMP, AddrMode::AbsoluteIndexedIndirect),
        0x7d => (Instruction::ADC, AddrMode::AbsoluteIndexedWithX),
        0x7e => (Instruction::ROR, AddrMode::AbsoluteIndexedWithX),
        0x7f => (Instruction::BBR7, AddrMode::ZeroPageRelative),
        0x80 => (Instruction::BRA, AddrMode::Relative),
        0x81 => (Instruction::STA, AddrMode::ZeroPageIndexedIndirect),
        0x82 => (Instruction::ILL, AddrMode::Implied),
        0x83 => (Instruction::ILL, AddrMode::Implied),
        0x84 => (Instruction::STY, AddrMode::ZeroPage),
        0x85 => (Instruction::STA, AddrMode::ZeroPage),
        0x86 => (Instruction::STX, AddrMode::ZeroPage),
        0x87 => (Instruction::SMB0, AddrMode::ZeroPage),
        0x88 => (Instruction::DEY, AddrMode::Implied),
        0x89 => (Instruction::BIT, AddrMode::Immediate),
        0x8a => (Instruction::TXA, AddrMode::Implied),
        0x8b => (Instruction::ILL, AddrMode::Implied),
        0x8c => (Instruction::STY, AddrMode::Absolute),
        0x8d => (Instruction::STA, AddrMode::Absolute),
        0x8e => (Instruction::STX, AddrMode::Absolute),
        0x8f => (Instruction::BBS0, AddrMode::ZeroPageRelative),
        0x90 => (Instruction::BCC, AddrMode::Relative),
        0x91 => (Instruction::STA, AddrMode::ZeroPageIndirectIndexedWithY),
        0x92 => (Instruction::STA, AddrMode::ZeroPageIndirect),
        0x93 => (Instruction::ILL, AddrMode::Implied),
        0x94 => (Instruction::STY, AddrMode::ZeroPageIndexedWithX),
        0x95 => (Instruction::STA, AddrMode::ZeroPageIndexedWithX),
        0x96 => (Instruction::STX, AddrMode::ZeroPageIndexedWithY),
        0x97 => (Instruction::SMB1, AddrMode::ZeroPage),
        0x98 => (Instruction::TYA, AddrMode::Implied),
        0x99 => (Instruction::STA, AddrMode::AbsoluteIndexedWithY),
        0x9a => (Instruction::TXS, AddrMode::Implied),
        0x9b => (Instruction::ILL, AddrMode::Implied),
        0x9c => (Instruction::STZ, AddrMode::Absolute),
        0x9d => (Instruction::STA, AddrMode::AbsoluteIndexedWithX),
        0x9e => (Instruction::STZ, AddrMode::AbsoluteIndexedWithX),
        0x9f => (Instruction::BBS1, AddrMode::ZeroPageRelative),
        0xa0 => (Instruction::LDY, AddrMode::Immediate),
        0xa1 => (Instruction::LDA, AddrMode::ZeroPageIndexedIndirect),
        0xa2 => (Instruction::LDX, AddrMode::Immediate),
        0xa3 => (Instruction::ILL, AddrMode::Implied),
        0xa4 => (Instruction::LDY, AddrMode::ZeroPage),
        0xa5 => (Instruction::LDA, AddrMode::ZeroPage),
        0xa6 => (Instruction::LDX, AddrMode::ZeroPage),
        0xa7 => (Instruction::SMB2, AddrMode::ZeroPage),
        0xa8 => (Instruction::TAY, AddrMode::Implied),
        0xa9 => (Instruction::LDA, AddrMode::Immediate),
        0xaa => (Instruction::TAX, AddrMode::Implied),
        0xab => (Instruction::ILL, AddrMode::Implied),
        0xac => (Instruction::LDY, AddrMode::Absolute),
        0xad => (Instruction::LDA, AddrMode::Absolute),
        0xae => (Instruction::LDX, AddrMode::Absolute),
        0xaf => (Instruction::BBS2, AddrMode::ZeroPageRelative),
        0xb0 => (Instruction::BCS, AddrMode::Relative),
        0xb1 => (Instruction::LDA, AddrMode::ZeroPageIndirectIndexedWithY),
        0xb2 => (Instruction::LDA, AddrMode::ZeroPageIndirect),
        0xb3 => (Instruction::ILL, AddrMode::Implied),
        0xb4 => (Instruction::LDY, AddrMode::ZeroPageIndexedWithX),
        0xb5 => (Instruction::LDA, AddrMode::ZeroPageIndexedWithX),
        0xb6 => (Instruction::LDX, AddrMode::ZeroPageIndexedWithY),
        0xb7 => (Instruction::SMB3, AddrMode::ZeroPage),
        0xb8 => (Instruction::CLV, AddrMode::Implied),
        0xb9 => (Instruction::LDA, AddrMode::AbsoluteIndexedWithY),
        0xba => (Instruction::TSX, AddrMode::Implied),
        0xbb => (Instruction::ILL, AddrMode::Implied),
        0xbc => (Instruction::LDY, AddrMode::AbsoluteIndexedWithX),
        0xbd => (Instruction::LDA, AddrMode::AbsoluteIndexedWithX),
        0xbe => (Instruction::LDX, AddrMode::AbsoluteIndexedWithY),
        0xbf => (Instruction::BBS3, AddrMode::ZeroPageRelative),
        0xc0 => (Instruction::CPY, AddrMode::Immediate),
        0xc1 => (Instruction::CMP, AddrMode::ZeroPageIndexedIndirect),
        0xc2 => (Instruction::ILL, AddrMode::Implied),
        0xc3 => (Instruction::ILL, AddrMode::Implied),
        0xc4 => (Instruction::CPY, AddrMode::ZeroPage),
        0xc5 => (Instruction::CMP, AddrMode::ZeroPage),
        0xc6 => (Instruction::DEC, AddrMode::ZeroPage),
        0xc7 => (Instruction::SMB4, AddrMode::ZeroPage),
        0xc8 => (Instruction::INY, AddrMode::Implied),
        0xc9 => (Instruction::CMP, AddrMode::Immediate),
        0xca => (Instruction::DEX, AddrMode::Implied),
        0xcb => (Instruction::WAI, AddrMode::Implied),
        0xcc => (Instruction::CPY, AddrMode::Absolute),
        0xcd => (Instruction::CMP, AddrMode::Absolute),
        0xce => (Instruction::DEC, AddrMode::Absolute),
        0xcf => (Instruction::BBS4, AddrMode::ZeroPageRelative),
        0xd0 => (Instruction::BNE, AddrMode::Relative),
        0xd1 => (Instruction::CMP, AddrMode::ZeroPageIndirectIndexedWithY),
        0xd2 => (Instruction::CMP, AddrMode::ZeroPageIndirect),
        0xd3 => (Instruction::ILL, AddrMode::Implied),
        0xd4 => (Instruction::ILL, AddrMode::Implied),
        0xd5 => (Instruction::CMP, AddrMode::ZeroPageIndexedWithX),
        0xd6 => (Instruction::DEC, AddrMode::ZeroPageIndexedWithX),
        0xd7 => (Instruction::SMB5, AddrMode::ZeroPage),
        0xd8 => (Instruction::CLD, AddrMode::Implied),
        0xd9 => (Instruction::CMP, AddrMode::AbsoluteIndexedWithY),
        0xda => (Instruction::PHX, AddrMode::Implied),
        0xdb => (Instruction::STP, AddrMode::Implied),
        0xdc => (Instruction::ILL, AddrMode::Implied),
        0xdd => (Instruction::CMP, AddrMode::AbsoluteIndexedWithX),
        0xde => (Instruction::DEC, AddrMode::AbsoluteIndexedWithX),
        0xdf => (Instruction::BBS5, AddrMode::ZeroPageRelative),
        0xe0 => (Instruction::CPX, AddrMode::Immediate),
        0xe1 => (Instruction::SBC, AddrMode::ZeroPageIndexedIndirect),
        0xe2 => (Instruction::ILL, AddrMode::Implied),
        0xe3 => (Instruction::ILL, AddrMode::Implied),
        0xe4 => (Instruction::CPX, AddrMode::ZeroPage),
        0xe5 => (Instruction::SBC, AddrMode::ZeroPage),
        0xe6 => (Instruction::INC, AddrMode::ZeroPage),
        0xe7 => (Instruction::SMB6, AddrMode::ZeroPage),
        0xe8 => (Instruction::INX, AddrMode::Implied),
        0xe9 => (Instruction::SBC, AddrMode::Immediate),
        0xea => (Instruction::NOP, AddrMode::Implied),
        0xeb => (Instruction::ILL, AddrMode::Implied),
        0xec => (Instruction::CPX, AddrMode::Absolute),
        0xed => (Instruction::SBC, AddrMode::Absolute),
        0xee => (Instruction::INC, AddrMode::Absolute),
        0xef => (Instruction::BBS6, AddrMode::ZeroPageRelative),
        0xf0 => (Instruction::BEQ, AddrMode::Relative),
        0xf1 => (Instruction::SBC, AddrMode::ZeroPageIndirectIndexedWithY),
        0xf2 => (Instruction::SBC, AddrMode::ZeroPageIndirect),
        0xf3 => (Instruction::ILL, AddrMode::Implied),
        0xf4 => (Instruction::ILL, AddrMode::Implied),
        0xf5 => (Instruction::SBC, AddrMode::ZeroPageIndexedWithX),
        0xf6 => (Instruction::INC, AddrMode::ZeroPageIndexedWithX),
        0xf7 => (Instruction::SMB7, AddrMode::ZeroPage),
        0xf8 => (Instruction::SED, AddrMode::Implied),
        0xf9 => (Instruction::SBC, AddrMode::AbsoluteIndexedWithY),
        0xfa => (Instruction::PLX, AddrMode::Implied),
        0xfb => (Instruction::ILL, AddrMode::Implied),
        0xfc => (Instruction::ILL, AddrMode::Implied),
        0xfd => (Instruction::SBC, AddrMode::AbsoluteIndexedWithX),
        0xfe => (Instruction::INC, AddrMode::AbsoluteIndexedWithX),
        _ => (Instruction::BBS7, AddrMode::ZeroPageRelative),
    }
}

/// Decodes an opcode.
pub fn instruction_and_mode(opcode: u8) -> (r: (Instruction, AddrMode))
    ensures
        r == decode(opcode),
{
    reveal(decode);
    match opcode {
        0x00 => (Instruction::BRK, AddrMode::Implied),
        0x01 => (Instruction::ORA, AddrMode::ZeroPageIndexedIndirect),
        0x02 => (Instruction::ILL, AddrMode::Implied),
        0x03 => (Instruction::ILL, AddrMode::Implied),
        0x04 => (Instruction::TSB, AddrMode::ZeroPage),
        0x05 => (Instruction::ORA, AddrMode::ZeroPage),
        0x06 => (Instruction::ASL, AddrMode::ZeroPage),
        0x07 => (Instruction::RMB0, AddrMode::ZeroPage),
        0x08 => (Instruction::PHP, AddrMode::Implied),
        0x09 => (Instruction::ORA, AddrMode::Immediate),
        0x0a => (Instruction::ASL, AddrMode::Accumulator),
        0x0b => (Instruction::ILL, AddrMode::Implied),
        0x0c => (Instruction::TSB, AddrMode::Absolute),
        0x0d => (Instruction::ORA, AddrMode::Absolute),
        0x0e => (Instruction::ASL, AddrMode::Absolute),
        0x0f => (Instruction::BBR0, AddrMode::ZeroPageRelative),
        0x10 => (Instruction::BPL, AddrMode::Relative),
        0x11 => (Instruction::ORA, AddrMode::ZeroPageIndirectIndexedWithY),
        0x12 => (Instruction::ORA, AddrMode::ZeroPageIndirect),
        0x13 => (Instruction::ILL, AddrMode::Implied),
        0x14 => (Instruction::TRB, AddrMode::ZeroPage),
        0x15 => (Instruction::ORA, AddrMode::ZeroPageIndexedWithX),
        0x16 => (Instruction::ASL, AddrMode::ZeroPageIndexedWithX),
        0x17 => (Instruction::RMB1, AddrMode::ZeroPage),
        0x18 => (Instruction::CLC, AddrMode::Implied),
        0x19 => (Instruction::ORA, AddrMode::AbsoluteIndexedWithY),
        0x1a => (Instruction::INC, AddrMode::Accumulator),
        0x1b => (Instruction::ILL, AddrMode::Implied),
        0x1c => (Instruction::TRB, AddrMode::Absolute),
        0x1d => (Instruction::ORA, AddrMode::AbsoluteIndexedWithX),
        0x1e => (Instruction::ASL, AddrMode::AbsoluteIndexedWithX),
        0x1f => (Instruction::BBR1, AddrMode::ZeroPageRelative),
        0x20 => (Instruction::JSR, AddrMode::Absolute),
        0x21 => (Instruction::AND, AddrMode::ZeroPageIndexedIndirect),
        0x22 => (Instruction::ILL, AddrMode::Implied),
        0x23 => (Instruction::ILL, AddrMode::Implied),
        0x24 => (Instruction::BIT, AddrMode::ZeroPage),
        0x25 => (Instruction::AND, AddrMode::ZeroPage),
        0x26 => (Instruction::ROL, AddrMode::ZeroPage),
        0x27 => (Instruction::RMB2, AddrMode::ZeroPage),
        0x28 => (Instruction::PLP, AddrMode::Implied),
        0x29 => (Instruction::AND, AddrMode::Immediate),
        0x2a => (Instruction::ROL, AddrMode::Accumulator),
        0x2b => (Instruction::ILL, AddrMode::Implied),
        0x2c => (Instruction::BIT, AddrMode::Absolute),
        0x2d => (Instruction::AND, AddrMode::Absolute),
        0x2e => (Instruction::ROL, AddrMode::Absolute),
        0x2f => (Instruction::BBR2, AddrMode::ZeroPageRelative),
        0x30 => (Instruction::BMI, AddrMode::Relative),
        0x31 => (Instruction::AND, AddrMode::ZeroPageIndirectIndexedWithY),
        0x32 => (Instruction::AND, AddrMode::ZeroPageIndirect),
        0x33 => (Instruction::ILL, AddrMode::Implied),
        0x34 => (Instruction::BIT, AddrMode::ZeroPageIndexedWithX),
        0x35 => (Instruction::AND, AddrMode::ZeroPageIndexedWithX),
        0x36 => (Instruction::ROL, AddrMode::ZeroPageIndexedWithX),
        0x37 => (Instruction::RMB3, AddrMode::ZeroPage),
        0x38 => (Instruction::SEC, AddrMode::Implied),
        0x39 => (Instruction::AND, AddrMode::AbsoluteIndexedWithY),
        0x3a => (Instruction::DEC, AddrMode::Accumulator),
        0x3b => (Instruction::ILL, AddrMode::Implied),
        0x3c => (Instruction::BIT, AddrMode::AbsoluteIndexedWithX),
        0x3d => (Instruction::AND, AddrMode::AbsoluteIndexedWithX),
        0x3e => (Instruction::ROL, AddrMode::AbsoluteIndexedWithX),
        0x3f => (Instruction::BBR3, AddrMode::ZeroPageRelative),
        0x40 => (Instruction::RTI, AddrMode::Implied),
        0x41 => (Instruction::EOR, AddrMode::ZeroPageIndexedIndirect),
        0x42 => (Instruction::ILL, AddrMode::Implied),
        0x43 => (Instruction::ILL, AddrMode::Implied),
        0x44 => (Instruction::ILL, AddrMode::Implied),
        0x45 => (Instruction::EOR, AddrMode::ZeroPage),
        0x46 => (Instruction::LSR, AddrMode::ZeroPage),
        0x47 => (Instruction::RMB4, AddrMode::ZeroPage),
        0x48 => (Instruction::PHA, AddrMode::Implied),
        0x49 => (Instruction::EOR, AddrMode::Immediate),
        0x4a => (Instruction::LSR, AddrMode::Accumulator),
        0x4b => (Instruction::ILL, AddrMode::Implied),
        0x4c => (Instruction::JMP, AddrMode::Absolute),
        0x4d => (Instruction::EOR, AddrMode::Absolute),
        0x4e => (Instruction::LSR, AddrMode::Absolute),
        0x4f => (Instruction::BBR4, AddrMode::ZeroPageRelative),
        0x50 => (Instruction::BVC, AddrMode::Relative),
        0x51 => (Instruction::EOR, AddrMode::ZeroPageIndirectIndexedWithY),
        0x52 => (Instruction::EOR, AddrMode::ZeroPageIndirect),
        0x53 => (Instruction::ILL, AddrMode::Implied),
        0x54 => (Instruction::ILL, AddrMode::Implied),
        0x55 => (Instruction::EOR, AddrMode::ZeroPageIndexedWithX),
        0x56 => (Instruction::LSR, AddrMode::ZeroPageIndexedWithX),
        0x57 => (Instruction::RMB5, AddrMode::ZeroPage),
        0x58 => (Instruction::CLI, AddrMode::Implied),
        0x59 => (Instruction::EOR, AddrMode::AbsoluteIndexedWithY),
        0x5a => (Instruction::PHY, AddrMode::Implied),
        0x5b => (Instruction::ILL, AddrMode::Implied),
        0x5c => (Instruction::ILL, AddrMode::Implied),
        0x5d => (Instruction::EOR, AddrMode::AbsoluteIndexedWithX),
        0x5e => (Instruction::LSR, AddrMode::AbsoluteIndexedWithX),
        0x5f => (Instruction::BBR5, AddrMode::ZeroPageRelative),
        0x60 => (Instruction::RTS, AddrMode::Implied),
        0x61 => (Instruction::ADC, AddrMode::ZeroPageIndexedIndirect),
        0x62 => (Instruction::ILL, AddrMode::Implied),
        0x63 => (Instruction::ILL, AddrMode::Implied),
        0x64 => (Instruction::STZ, AddrMode::ZeroPage),
        0x65 => (Instruction::ADC, AddrMode::ZeroPage),
        0x66 => (Instruction::ROR, AddrMode::ZeroPage),
        0x67 => (Instruction::RMB6, AddrMode::ZeroPage),
        0x68 => (Instruction::PLA, AddrMode::Implied),
        0x69 => (Instruction::ADC, AddrMode::Immediate),
        0x6a => (Instruction::ROR, AddrMode::Accumulator),
        0x6b => (Instruction::ILL, AddrMode::Implied),
        0x6c => (Instruction::JMP, AddrMode::AbsoluteIndirect),
        0x6d => (Instruction::ADC, AddrMode::Absolute),
        0x6e => (Instruction::ROR, AddrMode::Absolute),
        0x6f => (Instruction::BBR6, AddrMode::ZeroPageRelative),
        0x70 => (Instruction::BVS, AddrMode::Relative),
        0x71 => (Instruction::ADC, AddrMode::ZeroPageIndirectIndexedWithY),
        0x72 => (Instruction::ADC, AddrMode::ZeroPageIndirect),
        0x73 => (Instruction::ILL, AddrMode::Implied),
        0x74 => (Instruction::STZ, AddrMode::ZeroPageIndexedWithX),
        0x75 => (Instruction::ADC, AddrMode::ZeroPageIndexedWithX),
        0x76 => (Instruction::ROR, AddrMode::ZeroPageIndexedWithX),
        0x77 => (Instruction::RMB7, AddrMode::ZeroPage),
        0x78 => (Instruction::SEI, AddrMode::Implied),
        0x79 => (Instruction::ADC, AddrMode::AbsoluteIndexedWithY),
        0x7a => (Instruction::PLY, AddrMode::Implied),
        0x7b => (Instruction::ILL, AddrMode::Implied),
        0x7c => (Instruction::JMP, AddrMode::AbsoluteIndexedIndirect),
        0x7d => (Instruction::ADC, AddrMode::AbsoluteIndexedWithX),
        0x7e => (Instruction::ROR, AddrMode::AbsoluteIndexedWithX),
        0x7f => (Instruction::BBR7, AddrMode::ZeroPageRelative),
        0x80 => (Instruction::BRA, AddrMode::Relative),
        0x81 => (Instruction::STA, AddrMode::ZeroPageIndexedIndirect),
        0x82 => (Instruction::ILL, AddrMode::Implied),
        0x83 => (Instruction::ILL, AddrMode::Implied),
        0x84 => (Instruction::STY, AddrMode::ZeroPage),
        0x85 => (Instruction::STA, AddrMode::ZeroPage),
        0x86 => (Instruction::STX, AddrMode::ZeroPage),
        0x87 => (Instruction::SMB0, AddrMode::ZeroPage),
        0x88 => (Instruction::DEY, AddrMode::Implied),
        0x89 => (Instruction::BIT, AddrMode::Immediate),
        0x8a => (Instruction::TXA, AddrMode::Implied),
        0x8b => (Instruction::ILL, AddrMode::Implied),
        0x8c => (Instruction::STY, AddrMode::Absolute),
        0x8d => (Instruction::STA, AddrMode::Absolute),
        0x8e => (Instruction::STX, AddrMode::Absolute),
        0x8f => (Instruction::BBS0, AddrMode::ZeroPageRelative),
        0x90 => (Instruction::BCC, AddrMode::Relative),
        0x91 => (Instruction::STA, AddrMode::ZeroPageIndirectIndexedWithY),
        0x92 => (Instruction::STA, AddrMode::ZeroPageIndirect),
        0x93 => (Instruction::ILL, AddrMode::Implied),
        0x94 => (Instruction::STY, AddrMode::ZeroPageIndexedWithX),
        0x95 => (Instruction::STA, AddrMode::ZeroPageIndexedWithX),
        0x96 => (Instruction::STX, AddrMode::ZeroPageIndexedWithY),
        0x97 => (Instruction::SMB1, AddrMode::ZeroPage),
        0x98 => (Instruction::TYA, AddrMode::Implied),
        0x99 => (Instruction::STA, AddrMode::AbsoluteIndexedWithY),
        0x9a => (Instruction::TXS, AddrMode::Implied),
        0x9b => (Instruction::ILL, AddrMode::Implied),
        0x9c => (Instruction::STZ, AddrMode::Absolute),
        0x9d => (Instruction::STA, AddrMode::AbsoluteIndexedWithX),
        0x9e => (Instruction::STZ, AddrMode::AbsoluteIndexedWithX),
        0x9f => (Instruction::BBS1, AddrMode::ZeroPageRelative),
        0xa0 => (Instruction::LDY, AddrMode::Immediate),
        0xa1 => (Instruction::LDA, AddrMode::ZeroPageIndexedIndirect),
        0xa2 => (Instruction::LDX, AddrMode::Immediate),
        0xa3 => (Instruction::ILL, AddrMode::Implied),
        0xa4 => (Instruction::LDY, AddrMode::ZeroPage),
        0xa5 => (Instruction::LDA, AddrMode::ZeroPage),
        0xa6 => (Instruction::LDX, AddrMode::ZeroPage),
        0xa7 => (Instruction::SMB2, AddrMode::ZeroPage),
        0xa8 => (Instruction::TAY, AddrMode::Implied),
        0xa9 => (Instruction::LDA, AddrMode::Immediate),
        0xaa => (Instruction::TAX, AddrMode::Implied),
        0xab => (Instruction::ILL, AddrMode::Implied),
        0xac => (Instruction::LDY, AddrMode::Absolute),
        0xad => (Instruction::LDA, AddrMode::Absolute),
        0xae => (Instruction::LDX, AddrMode::Absolute),
        0xaf => (Instruction::BBS2, AddrMode::ZeroPageRelative),
        0xb0 => (Instruction::BCS, AddrMode::Relative),
        0xb1 => (Instruction::LDA, AddrMode::ZeroPageIndirectIndexedWithY),
        0xb2 => (Instruction::LDA, AddrMode::ZeroPageIndirect),
        0xb3 => (Instruction::ILL, AddrMode::Implied),
        0xb4 => (Instruction::LDY, AddrMode::ZeroPageIndexedWithX),
        0xb5 => (Instruction::LDA, AddrMode::ZeroPageIndexedWithX),
        0xb6 => (Instruction::LDX, AddrMode::ZeroPageIndexedWithY),
        0xb7 => (Instruction::SMB3, AddrMode::ZeroPage),
        0xb8 => (Instruction::CLV, AddrMode::Implied),
        0xb9 => (Instruction::LDA, AddrMode::AbsoluteIndexedWithY),
        0xba => (Instruction::TSX, AddrMode::Implied),
        0xbb => (Instruction::ILL, AddrMode::Implied),
        0xbc => (Instruction::LDY, AddrMode::AbsoluteIndexedWithX),
        0xbd => (Instruction::LDA, AddrMode::AbsoluteIndexedWithX),
        0xbe => (Instruction::LDX, AddrMode::AbsoluteIndexedWithY),
        0xbf => (Instruction::BBS3, AddrMode::ZeroPageRelative),
        0xc0 => (Instruction::CPY, AddrMode::Immediate),
        0xc1 => (Instruction::CMP, AddrMode::ZeroPageIndexedIndirect),
        0xc2 => (Instruction::ILL, AddrMode::Implied),
        0xc3 => (Instruction::ILL, AddrMode::Implied),
        0xc4 => (Instruction::CPY, AddrMode::ZeroPage),
        0xc5 => (Instruction::CMP, AddrMode::ZeroPage),
        0xc6 => (Instruction::DEC, AddrMode::ZeroPage),
        0xc7 => (Instruction::SMB4, AddrMode::ZeroPage),
        0xc8 => (Instruction::INY, AddrMode::Implied),
        0xc9 => (Instruction::CMP, AddrMode::Immediate),
        0xca => (Instruction::DEX, AddrMode::Implied),
        0xcb => (Instruction::WAI, AddrMode::Implied),
        0xcc => (Instruction::CPY, AddrMode::Absolute),
        0xcd => (Instruction::CMP, AddrMode::Absolute),
        0xce => (Instruction::DEC, AddrMode::Absolute),
        0xcf => (Instruction::BBS4, AddrMode::ZeroPageRelative),
        0xd0 => (Instruction::BNE, AddrMode::Relative),
        0xd1 => (Instruction::CMP, AddrMode::ZeroPageIndirectIndexedWithY),
        0xd2 => (Instruction::CMP, AddrMode::ZeroPageIndirect),
        0xd3 => (Instruction::ILL, AddrMode::Implied),
        0xd4 => (Instruction::ILL, AddrMode::Implied),
        0xd5 => (Instruction::CMP, AddrMode::ZeroPageIndexedWithX),
        0xd6 => (Instruction::DEC, AddrMode::ZeroPageIndexedWithX),
        0xd7 => (Instruction::SMB5, AddrMode::ZeroPage),
        0xd8 => (Instruction::CLD, AddrMode::Implied),
        0xd9 => (Instruction::CMP, AddrMode::AbsoluteIndexedWithY),
        0xda => (Instruction::PHX, AddrMode::Implied),
        0xdb => (Instruction::STP, AddrMode::Implied),
        0xdc => (Instruction::ILL, AddrMode::Implied),
        0xdd => (Instruction::CMP, AddrMode::AbsoluteIndexedWithX),
        0xde => (Instruction::DEC, AddrMode::AbsoluteIndexedWithX),
        0xdf => (Instruction::BBS5, AddrMode::ZeroPageRelative),
        0xe0 => (Instruction::CPX, AddrMode::Immediate),
        0xe1 => (Instruction::SBC, AddrMode::ZeroPageIndexedIndirect),
        0xe2 => (Instruction::ILL, AddrMode::Implied),
        0xe3 => (Instruction::ILL, AddrMode::Implied),
        0xe4 => (Instruction::CPX, AddrMode::ZeroPage),
        0xe5 => (Instruction::SBC, AddrMode::ZeroPage),
        0xe6 => (Instruction::INC, AddrMode::ZeroPage),
        0xe7 => (Instruction::SMB6, AddrMode::ZeroPage),
        0xe8 => (Instruction::INX, AddrMode::Implied),
        0xe9 => (Instruction::SBC, AddrMode::Immediate),
        0xea => (Instruction::NOP, AddrMode::Implied),
        0xeb => (Instruction::ILL, AddrMode::Implied),
        0xec => (Instruction::CPX, AddrMode::Absolute),
        0xed => (Instruction::SBC, AddrMode::Absolute),
        0xee => (Instruction::INC, AddrMode::Absolute),
        0xef => (Instruction::BBS6, AddrMode::ZeroPageRelative),
        0xf0 => (Instruction::BEQ, AddrMode::Relative),
        0xf1 => (Instruction::SBC, AddrMode::ZeroPageIndirectIndexedWithY),
        0xf2 => (Instruction::SBC, AddrMode::ZeroPageIndirect),
        0xf3 => (Instruction::ILL, AddrMode::Implied),
        0xf4 => (Instruction::ILL, AddrMode::Implied),
        0xf5 => (Instruction::SBC, AddrMode::ZeroPageIndexedWithX),
        0xf6 => (Instruction::INC, AddrMode::ZeroPageIndexedWithX),
        0xf7 => (Instruction::SMB7, AddrMode::ZeroPage),
        0xf8 => (Instruction::SED, AddrMode::Implied),
        0xf9 => (Instruction::SBC, AddrMode::AbsoluteIndexedWithY),
        0xfa => (Instruction::PLX, AddrMode::Implied),
        0xfb => (Instruction::ILL, AddrMode::Implied),
        0xfc => (Instruction::ILL, AddrMode::Implied),
        0xfd => (Instruction::SBC, AddrMode::AbsoluteIndexedWithX),
        0xfe => (Instruction::INC, AddrMode::AbsoluteIndexedWithX),
        0xff => (Instruction::BBS7, AddrMode::ZeroPageRelative),
    }
}

/// The opcode that encodes `inst` in `mode`, for every pair but the illegal
/// instruction (which many opcodes decode to) and the pairs no opcode has.
pub open spec fn encode(inst: Instruction, mode: AddrMode) -> Option<u8> {
    match (inst, mode) {
        (Instruction::BRK, AddrMode::Implied) => Some(0x00u8),
        (Instruction::ORA, AddrMode::ZeroPageIndexedIndirect) => Some(0x01u8),
        (Instruction::TSB, AddrMode::ZeroPage) => Some(0x04u8),
        (Instruction::ORA, AddrMode::ZeroPage) => Some(0x05u8),
        (Instruction::ASL, AddrMode::ZeroPage) => Some(0x06u8),
        (Instruction::RMB0, AddrMode::ZeroPage) => Some(0x07u8),
        (Instruction::PHP, AddrMode::Implied) => Some(0x08u8),
        (Instruction::ORA, AddrMode::Immediate) => Some(0x09u8),
        (Instruction::ASL, AddrMode::Accumulator) => Some(0x0au8),
        (Instruction::TSB, AddrMode::Absolute) => Some(0x0cu8),
        (Instruction::ORA, AddrMode::Absolute) => Some(0x0du8),
        (Instruction::ASL, AddrMode::Absolute) => Some(0x0eu8),
        (Instruction::BBR0, AddrMode::ZeroPageRelative) => Some(0x0fu8),
        (Instruction::BPL, AddrMode::Relative) => Some(0x10u8),
        (Instruction::ORA, AddrMode::ZeroPageIndirectIndexedWithY) => Some(0x11u8),
        (Instruction::ORA, AddrMode::ZeroPageIndirect) => Some(0x12u8),
        (Instruction::TRB, AddrMode::ZeroPage) => Some(0x14u8),
        (Instruction::ORA, AddrMode::ZeroPageIndexedWithX) => Some(0x15u8),
        (Instruction::ASL, AddrMode::ZeroPageIndexedWithX) => Some(0x16u8),
        (Instruction::RMB1, AddrMode::ZeroPage) => Some(0x17u8),
        (Instruction::CLC, AddrMode::Implied) => Some(0x18u8),
        (Instruction::ORA, AddrMode::AbsoluteIndexedWithY) => Some(0x19u8),
        (Instruction::INC, AddrMode::Accumulator) => Some(0x1au8),
        (Instruction::TRB, AddrMode::Absolute) => Some(0x1cu8),
        (Instruction::ORA, AddrMode::AbsoluteIndexedWithX) => Some(0x1du8),
        (Instruction::ASL, AddrMode::AbsoluteIndexedWithX) => Some(0x1eu8),
        (Instruction::BBR1, AddrMode::ZeroPageRelative) => Some(0x1fu8),
        (Instruction::JSR, AddrMode::Absolute) => Some(0x20u8),
        (Instruction::AND, AddrMode::ZeroPageIndexedIndirect) => Some(0x21u8),
        (Instruction::BIT, AddrMode::ZeroPage) => Some(0x24u8),
        (Instruction::AND, AddrMode::ZeroPage) => Some(0x25u8),
        (Instruction::ROL, AddrMode::ZeroPage) => Some(0x26u8),
        (Instruction::RMB2, AddrMode::ZeroPage) => Some(0x27u8),
        (Instruction::PLP, AddrMode::Implied) => Some(0x28u8),
        (Instruction::AND, AddrMode::Immediate) => Some(0x29u8),
        (Instruction::ROL, AddrMode::Accumulator) => Some(0x2au8),
        (Instruction::BIT, AddrMode::Absolute) => Some(0x2cu8),
        (Instruction::AND, AddrMode::Absolute) => Some(0x2du8),
        (Instruction::ROL, AddrMode::Absolute) => Some(0x2eu8),
        (Instruction::BBR2, AddrMode::ZeroPageRelative) => Some(0x2fu8),
        (Instruction::BMI, AddrMode::Relative) => Some(0x30u8),
        (Instruction::AND, AddrMode::ZeroPageIndirectIndexedWithY) => Some(0x31u8),
        (Instruction::AND, AddrMode::ZeroPageIndirect) => Some(0x32u8),
        (Instruction::BIT, AddrMode::ZeroPageIndexedWithX) => Some(0x34u8),
        (Instruction::AND, AddrMode::ZeroPageIndexedWithX) => Some(0x35u8),
        (Instruction::ROL, AddrMode::ZeroPageIndexedWithX) => Some(0x36u8),
        (Instruction::RMB3, AddrMode::ZeroPage) => Some(0x37u8),
        (Instruction::SEC, AddrMode::Implied) => Some(0x38u8),
        (Instruction::AND, AddrMode::AbsoluteIndexedWithY) => Some(0x39u8),
        (Instruction::DEC, AddrMode::Accumulator) => Some(0x3au8),
        (Instruction::BIT, AddrMode::AbsoluteIndexedWithX) => Some(0x3cu8),
        (Instruction::AND, AddrMode::AbsoluteIndexedWithX) => Some(0x3du8),
        (Instruction::ROL, AddrMode::AbsoluteIndexedWithX) => Some(0x3eu8),
        (Instruction::BBR3, AddrMode::ZeroPageRelative) => Some(0x3fu8),
        (Instruction::RTI, AddrMode::Implied) => Some(0x40u8),
        (Instruction::EOR, AddrMode::ZeroPageIndexedIndirect) => Some(0x41u8),
        (Instruction::EOR, AddrMode::ZeroPage) => Some(0x45u8),
        (Instruction::LSR, AddrMode::ZeroPage) => Some(0x46u8),
        (Instruction::RMB4, AddrMode::ZeroPage) => Some(0x47u8),
        (Instruction::PHA, AddrMode::Implied) => Some(0x48u8),
        (Instruction::EOR, AddrMode::Immediate) => Some(0x49u8),
        (Instruction::LSR, AddrMode::Accumulator) => Some(0x4au8),
        (Instruction::JMP, AddrMode::Absolute) => Some(0x4cu8),
        (Instruction::EOR, AddrMode::Absolute) => Some(0x4du8),
        (Instruction::LSR, AddrMode::Absolute) => Some(0x4eu8),
        (Instruction::BBR4, AddrMode::ZeroPageRelative) => Some(0x4fu8),
        (Instruction::BVC, AddrMode::Relative) => Some(0x50u8),
        (Instruction::EOR, AddrMode::ZeroPageIndirectIndexedWithY) => Some(0x51u8),
        (Instruction::EOR, AddrMode::ZeroPageIndirect) => Some(0x52u8),
        (Instruction::EOR, AddrMode::ZeroPageIndexedWithX) => Some(0x55u8),
        (Instruction::LSR, AddrMode::ZeroPageIndexedWithX) => Some(0x56u8),
        (Instruction::RMB5, AddrMode::ZeroPage) => Some(0x57u8),
        (Instruction::CLI, AddrMode::Implied) => Some(0x58u8),
        (Instruction::EOR, AddrMode::AbsoluteIndexedWithY) => Some(0x59u8),
        (Instruction::PHY, AddrMode::Implied) => Some(0x5au8),
        (Instruction::EOR, AddrMode::AbsoluteIndexedWithX) => Some(0x5du8),
        (Instruction::LSR, AddrMode::AbsoluteIndexedWithX) => Some(0x5eu8),
        (Instruction::BBR5, AddrMode::ZeroPageRelative) => Some(0x5fu8),
        (Instruction::RTS, AddrMode::Implied) => Some(0x60u8),
        (Instruction::ADC, AddrMode::ZeroPageIndexedIndirect) => Some(0x61u8),
        (Instruction::STZ, AddrMode::ZeroPage) => Some(0x64u8),
        (Instruction::ADC, AddrMode::ZeroPage) => Some(0x65u8),
        (Instruction::ROR, AddrMode::ZeroPage) => Some(0x66u8),
        (Instruction::RMB6, AddrMode::ZeroPage) => Some(0x67u8),
        (Instruction::PLA, AddrMode::Implied) => Some(0x68u8),
        (Instruction::ADC, AddrMode::Immediate) => Some(0x69u8),
        (Instruction::ROR, AddrMode::Accumulator) => Some(0x6au8),
        (Instruction::JMP, AddrMode::AbsoluteIndirect) => Some(0x6cu8),
        (Instruction::ADC, AddrMode::Absolute) => Some(0x6du8),
        (Instruction::ROR, AddrMode::Absolute) => Some(0x6eu8),
        (Instruction::BBR6, AddrMode::ZeroPageRelative) => Some(0x6fu8),
        (Instruction::BVS, AddrMode::Relative) => Some(0x70u8),
        (Instruction::ADC, AddrMode::ZeroPageIndirectIndexedWithY) => Some(0x71u8),
        (Instruction::ADC, AddrMode::ZeroPageIndirect) => Some(0x72u8),
        (Instruction::STZ, AddrMode::ZeroPageIndexedWithX) => Some(0x74u8),
        (Instruction::ADC, AddrMode::ZeroPageIndexedWithX) => Some(0x75u8),
        (Instruction::ROR, AddrMode::ZeroPageIndexedWithX) => Some(0x76u8),
        (Instruction::RMB7, AddrMode::ZeroPage) => Some(0x77u8),
        (Instruction::SEI, AddrMode::Implied) => Some(0x78u8),
        (Instruction::ADC, AddrMode::AbsoluteIndexedWithY) => Some(0x79u8),
        (Instruction::PLY, AddrMode::Implied) => Some(0x7au8),
        (Instruction::JMP, AddrMode::AbsoluteIndexedIndirect) => Some(0x7cu8),
        (Instruction::ADC, AddrMode::AbsoluteIndexedWithX) => Some(0x7du8),
        (Instruction::ROR, AddrMode::AbsoluteIndexedWithX) => Some(0x7eu8),
        (Instruction::BBR7, AddrMode::ZeroPageRelative) => Some(0x7fu8),
        (Instruction::BRA, AddrMode::Relative) => Some(0x80u8),
        (Instruction::STA, AddrMode::ZeroPageIndexedIndirect) => Some(0x81u8),
        (Instruction::STY, AddrMode::ZeroPage) => Some(0x84u8),
        (Instruction::STA, AddrMode::ZeroPage) => Some(0x85u8),
        (Instruction::STX, AddrMode::ZeroPage) => Some(0x86u8),
        (Instruction::SMB0, AddrMode::ZeroPage) => Some(0x87u8),
        (Instruction::DEY, AddrMode::Implied) => Some(0x88u8),
        (Instruction::BIT, AddrMode::Immediate) => Some(0x89u8),
        (Instruction::TXA, AddrMode::Implied) => Some(0x8au8),
        (Instruction::STY, AddrMode::Absolute) => Some(0x8cu8),
        (Instruction::STA, AddrMode::Absolute) => Some(0x8du8),
        (Instruction::STX, AddrMode::Absolute) => Some(0x8eu8),
        (Instruction::BBS0, AddrMode::ZeroPageRelative) => Some(0x8fu8),
        (Instruction::BCC, AddrMode::Relative) => Some(0x90u8),
        (Instruction::STA, AddrMode::ZeroPageIndirectIndexedWithY) => Some(0x91u8),
        (Instruction::STA, AddrMode::ZeroPageIndirect) => Some(0x92u8),
        (Instruction::STY, AddrMode::ZeroPageIndexedWithX) => Some(0x94u8),
        (Instruction::STA, AddrMode::ZeroPageIndexedWithX) => Some(0x95u8),
        (Instruction::STX, AddrMode::ZeroPageIndexedWithY) => Some(0x96u8),
        (Instruction::SMB1, AddrMode::ZeroPage) => Some(0x97u8),
        (Instruction::TYA, AddrMode::Implied) => Some(0x98u8),
        (Instruction::STA, AddrMode::AbsoluteIndexedWithY) => Some(0x99u8),
        (Instruction::TXS, AddrMode::Implied) => Some(0x9au8),
        (Instruction::STZ, AddrMode::Absolute) => Some(0x9cu8),
        (Instruction::STA, AddrMode::AbsoluteIndexedWithX) => Some(0x9du8),
        (Instruction::STZ, AddrMode::AbsoluteIndexedWithX) => Some(0x9eu8),
        (Instruction::BBS1, AddrMode::ZeroPageRelative) => Some(0x9fu8),
        (Instruction::LDY, AddrMode::Immediate) => Some(0xa0u8),
        (Instruction::LDA, AddrMode::ZeroPageIndexedIndirect) => Some(0xa1u8),
        (Instruction::LDX, AddrMode::Immediate) => Some(0xa2u8),
        (Instruction::LDY, AddrMode::ZeroPage) => Some(0xa4u8),
        (Instruction::LDA, AddrMode::ZeroPage) => Some(0xa5u8),
        (Instruction::LDX, AddrMode::ZeroPage) => Some(0xa6u8),
        (Instruction::SMB2, AddrMode::ZeroPage) => Some(0xa7u8),
        (Instruction::TAY, AddrMode::Implied) => Some(0xa8u8),
        (Instruction::LDA, AddrMode::Immediate) => Some(0xa9u8),
        (Instruction::TAX, AddrMode::Implied) => Some(0xaau8),
        (Instruction::LDY, AddrMode::Absolute) => Some(0xacu8),
        (Instruction::LDA, AddrMode::Absolute) => Some(0xadu8),
        (Instruction::LDX, AddrMode::Absolute) => Some(0xaeu8),
        (Instruction::BBS2, AddrMode::ZeroPageRelative) => Some(0xafu8),
        (Instruction::BCS, AddrMode::Relative) => Some(0xb0u8),
        (Instruction::LDA, AddrMode::ZeroPageIndirectIndexedWithY) => Some(0xb1u8),
        (Instruction::LDA, AddrMode::ZeroPageIndirect) => Some(0xb2u8),
        (Instruction::LDY, AddrMode::ZeroPageIndexedWithX) => Some(0xb4u8),
        (Instruction::LDA, AddrMode::ZeroPageIndexedWithX) => Some(0xb5u8),
        (Instruction::LDX, AddrMode::ZeroPageIndexedWithY) => Some(0xb6u8),
        (Instruction::SMB3, AddrMode::ZeroPage) => Some(0xb7u8),
        (Instruction::CLV, AddrMode::Implied) => Some(0xb8u8),
        (Instruction::LDA, AddrMode::AbsoluteIndexedWithY) => Some(0xb9u8),
        (Instruction::TSX, AddrMode::Implied) => Some(0xbau8),
        (Instruction::LDY, AddrMode::AbsoluteIndexedWithX) => Some(0xbcu8),
        (Instruction::LDA, AddrMode::AbsoluteIndexedWithX) => Some(0xbdu8),
        (Instruction::LDX, AddrMode::AbsoluteIndexedWithY) => Some(0xbeu8),
        (Instruction::BBS3, AddrMode::ZeroPageRelative) => Some(0xbfu8),
        (Instruction::CPY, AddrMode::Immediate) => Some(0xc0u8),
        (Instruction::CMP, AddrMode::ZeroPageIndexedIndirect) => Some(0xc1u8),
        (Instruction::CPY, AddrMode::ZeroPage) => Some(0xc4u8),
        (Instruction::CMP, AddrMode::ZeroPage) => Some(0xc5u8),
        (Instruction::DEC, AddrMode::ZeroPage) => Some(0xc6u8),
        (Instruction::SMB4, AddrMode::ZeroPage) => Some(0xc7u8),
        (Instruction::INY, AddrMode::Implied) => Some(0xc8u8),
        (Instruction::CMP, AddrMode::Immediate) => Some(0xc9u8),
        (Instruction::DEX, AddrMode::Implied) => Some(0xcau8),
        (Instruction::WAI, AddrMode::Implied) => Some(0xcbu8),
        (Instruction::CPY, AddrMode::Absolute) => Some(0xccu8),
        (Instruction::CMP, AddrMode::Absolute) => Some(0xcdu8),
        (Instruction::DEC, AddrMode::Absolute) => Some(0xceu8),
        (Instruction::BBS4, AddrMode::ZeroPageRelative) => Some(0xcfu8),
        (Instruction::BNE, AddrMode::Relative) => Some(0xd0u8),
        (Instruction::CMP, AddrMode::ZeroPageIndirectIndexedWithY) => Some(0xd1u8),
        (Instruction::CMP, AddrMode::ZeroPageIndirect) => Some(0xd2u8),
        (Instruction::CMP, AddrMode::ZeroPageIndexedWithX) => Some(0xd5u8),
        (Instruction::DEC, AddrMode::ZeroPageIndexedWithX) => Some(0xd6u8),
        (Instruction::SMB5, AddrMode::ZeroPage) => Some(0xd7u8),
        (Instruction::CLD, AddrMode::Implied) => Some(0xd8u8),
        (Instruction::CMP, AddrMode::AbsoluteIndexedWithY) => Some(0xd9u8),
        (Instruction::PHX, AddrMode::Implied) => Some(0xdau8),
        (Instruction::STP, AddrMode::Implied) => Some(0xdbu8),
        (Instruction::CMP, AddrMode::AbsoluteIndexedWithX) => Some(0xddu8),
        (Instruction::DEC, AddrMode::AbsoluteIndexedWithX) => Some(0xdeu8),
        (Instruction::BBS5, AddrMode::ZeroPageRelative) => Some(0xdfu8),
        (Instruction::CPX, AddrMode::Immediate) => Some(0xe0u8),
        (Instruction::SBC, AddrMode::ZeroPageIndexedIndirect) => Some(0xe1u8),
        (Instruction::CPX, AddrMode::ZeroPage) => Some(0xe4u8),
        (Instruction::SBC, AddrMode::ZeroPage) => Some(0xe5u8),
        (Instruction::INC, AddrMode::ZeroPage) => Some(0xe6u8),
        (Instruction::SMB6, AddrMode::ZeroPage) => Some(0xe7u8),
        (Instruction::INX, AddrMode::Implied) => Some(0xe8u8),
        (Instruction::SBC, AddrMode::Immediate) => Some(0xe9u8),
        (Instruction::NOP, AddrMode::Implied) => Some(0xeau8),
        (Instruction::CPX, AddrMode::Absolute) => Some(0xecu8),
        (Instruction::SBC, AddrMode::Absolute) => Some(0xedu8),
        (Instruction::INC, AddrMode::Absolute) => Some(0xeeu8),
        (Instruction::BBS6, AddrMode::ZeroPageRelative) => Some(0xefu8),
        (Instruction::BEQ, AddrMode::Relative) => Some(0xf0u8),
        (Instruction::SBC, AddrMode::ZeroPageIndirectIndexedWithY) => Some(0xf1u8),
        (Instruction::SBC, AddrMode::ZeroPageIndirect) => Some(0xf2u8),
        (Instruction::SBC, AddrMode::ZeroPageIndexedWithX) => Some(0xf5u8),
        (Instruction::INC, AddrMode::ZeroPageIndexedWithX) => Some(0xf6u8),
        (Instruction::SMB7, AddrMode::ZeroPage) => Some(0xf7u8),
        (Instruction::SED, AddrMode::Implied) => Some(0xf8u8),
        (Instruction::SBC, AddrMode::AbsoluteIndexedWithY) => Some(0xf9u8),
        (Instruction::PLX, AddrMode::Implied) => Some(0xfau8),
        (Instruction::SBC, AddrMode::AbsoluteIndexedWithX) => Some(0xfdu8),
        (Instruction::INC, AddrMode::AbsoluteIndexedWithX) => Some(0xfeu8),
        (Instruction::BBS7, AddrMode::ZeroPageRelative) => Some(0xffu8),
        _ => None,
    }
}

/// `encode` undoes `decode` on every legal opcode.
proof fn lemma_encode_decode(op: u8)
    ensures
        decode(op).0 != Instruction::ILL ==> encode(decode(op).0, decode(op).1) == Some(op),
{
    reveal(decode);
    match op {
        0x00 => {},
        0x01 => {},
        0x02 => {},
        0x03 => {},
        0x04 => {},
        0x05 => {},
        0x06 => {},
        0x07 => {},
        0x08 => {},
        0x09 => {},
        0x0a => {},
        0x0b => {},
        0x0c => {},
        0x0d => {},
        0x0e => {},
        0x0f => {},
        0x10 => {},
        0x11 => {},
        0x12 => {},
        0x13 => {},
        0x14 => {},
        0x15 => {},
        0x16 => {},
        0x17 => {},
        0x18 => {},
        0x19 => {},
        0x1a => {},
        0x1b => {},
        0x1c => {},
        0x1d => {},
        0x1e => {},
        0x1f => {},
        0x20 => {},
        0x21 => {},
        0x22 => {},
        0x23 => {},
        0x24 => {},
        0x25 => {},
        0x26 => {},
        0x27 => {},
        0x28 => {},
        0x29 => {},
        0x2a => {},
        0x2b => {},
        0x2c => {},
        0x2d => {},
        0x2e => {},
        0x2f => {},
        0x30 => {},
        0x31 => {},
        0x32 => {},
        0x33 => {},
        0x34 => {},
        0x35 => {},
        0x36 => {},
        0x37 => {},
        0x38 => {},
        0x39 => {},
        0x3a => {},
        0x3b => {},
        0x3c => {},
        0x3d => {},
        0x3e => {},
        0x3f => {},
        0x40 => {},
        0x41 => {},
        0x42 => {},
        0x43 => {},
        0x44 => {},
        0x45 => {},
        0x46 => {},
        0x47 => {},
        0x48 => {},
        0x49 => {},
        0x4a => {},
        0x4b => {},
        0x4c => {},
        0x4d => {},
        0x4e => {},
        0x4f => {},
        0x50 => {},
        0x51 => {},
        0x52 => {},
        0x53 => {},
        0x54 => {},
        0x55 => {},
        0x56 => {},
        0x57 => {},
        0x58 => {},
        0x59 => {},
        0x5a => {},
        0x5b => {},
        0x5c => {},
        0x5d => {},
        0x5e => {},
        0x5f => {},
        0x60 => {},
        0x61 => {},
        0x62 => {},
        0x63 => {},
        0x64 => {},
        0x65 => {},
        0x66 => {},
        0x67 => {},
        0x68 => {},
        0x69 => {},
        0x6a => {},
        0x6b => {},
        0x6c => {},
        0x6d => {},
        0x6e => {},
        0x6f => {},
        0x70 => {},
        0x71 => {},
        0x72 => {},
        0x73 => {},
        0x74 => {},
        0x75 => {},
        0x76 => {},
        0x77 => {},
        0x78 => {},
        0x79 => {},
        0x7a => {},
        0x7b => {},
        0x7c => {},
        0x7d => {},
        0x7e => {},
        0x7f => {},
        0x80 => {},
        0x81 => {},
        0x82 => {},
        0x83 => {},
        0x84 => {},
        0x85 => {},
        0x86 => {},
        0x87 => {},
        0x88 => {},
        0x89 => {},
        0x8a => {},
        0x8b => {},
        0x8c => {},
        0x8d => {},
        0x8e => {},
        0x8f => {},
        0x90 => {},
        0x91 => {},
        0x92 => {},
        0x93 => {},
        0x94 => {},
        0x95 => {},
        0x96 => {},
        0x97 => {},
        0x98 => {},
        0x99 => {},
        0x9a => {},
        0x9b => {},
        0x9c => {},
        0x9d => {},
        0x9e => {},
        0x9f => {},
        0xa0 => {},
        0xa1 => {},
        0xa2 => {},
        0xa3 => {},
        0xa4 => {},
        0xa5 => {},
        0xa6 => {},
        0xa7 => {},
        0xa8 => {},
        0xa9 => {},
        0xaa => {},
        0xab => {},
        0xac => {},
        0xad => {},
        0xae => {},
        0xaf => {},
        0xb0 => {},
        0xb1 => {},
        0xb2 => {},
        0xb3 => {},
        0xb4 => {},
        0xb5 => {},
        0xb6 => {},
        0xb7 => {},
        0xb8 => {},
        0xb9 => {},
        0xba => {},
        0xbb => {},
        0xbc => {},
        0xbd => {},
        0xbe => {},
        0xbf => {},
        0xc0 => {},
        0xc1 => {},
        0xc2 => {},
        0xc3 => {},
        0xc4 => {},
        0xc5 => {},
        0xc6 => {},
        0xc7 => {},
        0xc8 => {},
        0xc9 => {},
        0xca => {},
        0xcb => {},
        0xcc => {},
        0xcd => {},
        0xce => {},
        0xcf => {},
        0xd0 => {},
        0xd1 => {},
        0xd2 => {},
        0xd3 => {},
        0xd4 => {},
        0xd5 => {},
        0xd6 => {},
        0xd7 => {},
        0xd8 => {},
        0xd9 => {},
        0xda => {},
        0xdb => {},
        0xdc => {},
        0xdd => {},
        0xde => {},
        0xdf => {},
        0xe0 => {},
        0xe1 => {},
        0xe2 => {},
        0xe3 => {},
        0xe4 => {},
        0xe5 => {},
        0xe6 => {},
        0xe7 => {},
        0xe8 => {},
        0xe9 => {},
        0xea => {},
        0xeb => {},
        0xec => {},
        0xed => {},
        0xee => {},
        0xef => {},
        0xf0 => {},
        0xf1 => {},
        0xf2 => {},
        0xf3 => {},
        0xf4 => {},
        0xf5 => {},
        0xf6 => {},
        0xf7 => {},
        0xf8 => {},
        0xf9 => {},
        0xfa => {},
        0xfb => {},
        0xfc => {},
        0xfd => {},
        0xfe => {},
        _ => {},
    }
}

/// Every opcode that `encode` gives for an instruction in a mode decodes to
/// that instruction in that mode.
pub proof fn lemma_decode_encode(inst: Instruction, mode: AddrMode)
    ensures
        encode(inst, mode) is Some ==> decode(encode(inst, mode).unwrap()) == (inst, mode),
{
    reveal(decode);
}

/// Every instruction of the 65C02 but the stand-in for illegal opcodes has
/// an opcode.
#[verifier::spinoff_prover]
pub proof fn lemma_every_instruction_decoded(inst: Instruction)
    ensures
        inst != Instruction::ILL ==> exists|op: u8| (#[trigger] decode(op)).0 == inst,
{
    match inst {
        Instruction::ADC => {
            lemma_decode_encode(Instruction::ADC, AddrMode::ZeroPageIndexedIndirect);
            assert(decode(0x61).0 == Instruction::ADC);
        },
        Instruction::AND => {
            lemma_decode_encode(Instruction::AND, AddrMode::ZeroPageIndexedIndirect);
            assert(decode(0x21).0 == Instruction::AND);
        },
        Instruction::ASL => {
            lemma_decode_encode(Instruction::ASL, AddrMode::ZeroPage);
            assert(decode(0x06).0 == Instruction::ASL);
        },
        Instruction::BBR0 => {
            lemma_decode_encode(Instruction::BBR0, AddrMode::ZeroPageRelative);
            assert(decode(0x0f).0 == Instruction::BBR0);
        },
        Instruction::BBR1 => {
            lemma_decode_encode(Instruction::BBR1, AddrMode::ZeroPageRelative);
            assert(decode(0x1f).0 == Instruction::BBR1);
        },
        Instruction::BBR2 => {
            lemma_decode_encode(Instruction::BBR2, AddrMode::ZeroPageRelative);
            assert(decode(0x2f).0 == Instruction::BBR2);
        },
        Instruction::BBR3 => {
            lemma_decode_encode(Instruction::BBR3, AddrMode::ZeroPageRelative);
            assert(decode(0x3f).0 == Instruction::BBR3);
        },
        Instruction::BBR4 => {
            lemma_decode_encode(Instruction::BBR4, AddrMode::ZeroPageRelative);
            assert(decode(0x4f).0 == Instruction::BBR4);
        },
        Instruction::BBR5 => {
            lemma_decode_encode(Instruction::BBR5, AddrMode::ZeroPageRelative);
            assert(decode(0x5f).0 == Instruction::BBR5);
        },
        Instruction::BBR6 => {
            lemma_decode_encode(Instruction::BBR6, AddrMode::ZeroPageRelative);
            assert(decode(0x6f).0 == Instruction::BBR6);
        },
        Instruction::BBR7 => {
            lemma_decode_encode(Instruction::BBR7, AddrMode::ZeroPageRelative);
            assert(decode(0x7f).0 == Instruction::BBR7);
        },
        Instruction::BBS0 => {
            lemma_decode_encode(Instruction::BBS0, AddrMode::ZeroPageRelative);
            assert(decode(0x8f).0 == Instruction::BBS0);
        },
        Instruction::BBS1 => {
            lemma_decode_encode(Instruction::BBS1, AddrMode::ZeroPageRelative);
            assert(decode(0x9f).0 == Instruction::BBS1);
        },
        Instruction::BBS2 => {
            lemma_decode_encode(Instruction::BBS2, AddrMode::ZeroPageRelative);
            assert(decode(0xaf).0 == Instruction::BBS2);
        },
        Instruction::BBS3 => {
            lemma_decode_encode(Instruction::BBS3, AddrMode::ZeroPageRelative);
            assert(decode(0xbf).0 == Instruction::BBS3);
        },
        Instruction::BBS4 => {
            lemma_decode_encode(Instruction::BBS4, AddrMode::ZeroPageRelative);
            assert(decode(0xcf).0 == Instruction::BBS4);
        },
        Instruction::BBS5 => {
            lemma_decode_encode(Instruction::BBS5, AddrMode::ZeroPageRelative);
            assert(decode(0xdf).0 == Instruction::BBS5);
        },
        Instruction::BBS6 => {
            lemma_decode_encode(Instruction::BBS6, AddrMode::ZeroPageRelative);
            assert(decode(0xef).0 == Instruction::BBS6);
        },
        Instruction::BBS7 => {
            lemma_decode_encode(Instruction::BBS7, AddrMode::ZeroPageRelative);
            assert(decode(0xff).0 == Instruction::BBS7);
        },
        Instruction::BCC => {
            lemma_decode_encode(Instruction::BCC, AddrMode::Relative);
            assert(decode(0x90).0 == Instruction::BCC);
        },
        Instruction::BCS => {
            lemma_decode_encode(Instruction::BCS, AddrMode::Relative);
            assert(decode(0xb0).0 == Instruction::BCS);
        },
        Instruction::BEQ => {
            lemma_decode_encode(Instruction::BEQ, AddrMode::Relative);
            assert(decode(0xf0).0 == Instruction::BEQ);
        },
        Instruction::BIT => {
            lemma_decode_encode(Instruction::BIT, AddrMode::ZeroPage);
            assert(decode(0x24).0 == Instruction::BIT);
        },
        Instruction::BMI => {
            lemma_decode_encode(Instruction::BMI, AddrMode::Relative);
            assert(decode(0x30).0 == Instruction::BMI);
        },
        Instruction::BNE => {
            lemma_decode_encode(Instruction::BNE, AddrMode::Relative);
            assert(decode(0xd0).0 == Instruction::BNE);
        },
        Instruction::BPL => {
            lemma_decode_encode(Instruction::BPL, AddrMode::Relative);
            assert(decode(0x10).0 == Instruction::BPL);
        },
        Instruction::BRA => {
            lemma_decode_encode(Instruction::BRA, AddrMode::Relative);
            assert(decode(0x80).0 == Instruction::BRA);
        },
        Instruction::BRK => {
            lemma_decode_encode(Instruction::BRK, AddrMode::Implied);
            assert(decode(0x00).0 == Instruction::BRK);
        },
        Instruction::BVC => {
            lemma_decode_encode(Instruction::BVC, AddrMode::Relative);
            assert(decode(0x50).0 == Instruction::BVC);
        },
        Instruction::BVS => {
            lemma_decode_encode(Instruction::BVS, AddrMode::Relative);
            assert(decode(0x70).0 == Instruction::BVS);
        },
        Instruction::CLC => {
            lemma_decode_encode(Instruction::CLC, AddrMode::Implied);
            assert(decode(0x18).0 == Instruction::CLC);
        },
        Instruction::CLD => {
            lemma_decode_encode(Instruction::CLD, AddrMode::Implied);
            assert(decode(0xd8).0 == Instruction::CLD);
        },
        Instruction::CLI => {
            lemma_decode_encode(Instruction::CLI, AddrMode::Implied);
            assert(decode(0x58).0 == Instruction::CLI);
        },
        Instruction::CLV => {
            lemma_decode_encode(Instruction::CLV, AddrMode::Implied);
            assert(decode(0xb8).0 == Instruction::CLV);
        },
        Instruction::CMP => {
            lemma_decode_encode(Instruction::CMP, AddrMode::ZeroPageIndexedIndirect);
            assert(decode(0xc1).0 == Instruction::CMP);
        },
        Instruction::CPX => {
            lemma_decode_encode(Instruction::CPX, AddrMode::Immediate);
            assert(decode(0xe0).0 == Instruction::CPX);
        },
        Instruction::CPY => {
            lemma_decode_encode(Instruction::CPY, AddrMode::Immediate);
            assert(decode(0xc0).0 == Instruction::CPY);
        },
        Instruction::DEC => {
            lemma_decode_encode(Instruction::DEC, AddrMode::Accumulator);
            assert(decode(0x3a).0 == Instruction::DEC);
        },
        Instruction::DEX => {
            lemma_decode_encode(Instruction::DEX, AddrMode::Implied);
            assert(decode(0xca).0 == Instruction::DEX);
        },
        Instruction::DEY => {
            lemma_decode_encode(Instruction::DEY, AddrMode::Implied);
            assert(decode(0x88).0 == Instruction::DEY);
        },
        Instruction::EOR => {
            lemma_decode_encode(Instruction::EOR, AddrMode::ZeroPageIndexedIndirect);
            assert(decode(0x41).0 == Instruction::EOR);
        },
        Instruction::ILL => {},
        Instruction::INC => {
            lemma_decode_encode(Instruction::INC, AddrMode::Accumulator);
            assert(decode(0x1a).0 == Instruction::INC);
        },
        Instruction::INX => {
            lemma_decode_encode(Instruction::INX, AddrMode::Implied);
            assert(decode(0xe8).0 == Instruction::INX);
        },
        Instruction::INY => {
            lemma_decode_encode(Instruction::INY, AddrMode::Implied);
            assert(decode(0xc8).0 == Instruction::INY);
        },
        Instruction::JMP => {
            lemma_decode_encode(Instruction::JMP, AddrMode::Absolute);
            assert(decode(0x4c).0 == Instruction::JMP);
        },
        Instruction::JSR => {
            lemma_decode_encode(Instruction::JSR, AddrMode::Absolute);
            assert(decode(0x20).0 == Instruction::JSR);
        },
        Instruction::LDA => {
            lemma_decode_encode(Instruction::LDA, AddrMode::ZeroPageIndexedIndirect);
            assert(decode(0xa1).0 == Instruction::LDA);
        },
        Instruction::LDX => {
            lemma_decode_encode(Instruction::LDX, AddrMode::Immediate);
            assert(decode(0xa2).0 == Instruction::LDX);
        },
        Instruction::LDY => {
            lemma_decode_encode(Instruction::LDY, AddrMode::Immediate);
            assert(decode(0xa0).0 == Instruction::LDY);
        },
        Instruction::LSR => {
            lemma_decode_encode(Instruction::LSR, AddrMode::ZeroPage);
            assert(decode(0x46).0 == Instruction::LSR);
        },
        Instruction::NOP => {
            lemma_decode_encode(Instruction::NOP, AddrMode::Implied);
            assert(decode(0xea).0 == Instruction::NOP);
        },
        Instruction::ORA => {
            lemma_decode_encode(Instruction::ORA, AddrMode::ZeroPageIndexedIndirect);
            assert(decode(0x01).0 == Instruction::ORA);
        },
        Instruction::PHA => {
            lemma_decode_encode(Instruction::PHA, AddrMode::Implied);
            assert(decode(0x48).0 == Instruction::PHA);
        },
        Instruction::PHP => {
            lemma_decode_encode(Instruction::PHP, AddrMode::Implied);
            assert(decode(0x08).0 == Instruction::PHP);
        },
        Instruction::PHX => {
            lemma_decode_encode(Instruction::PHX, AddrMode::Implied);
            assert(decode(0xda).0 == Instruction::PHX);
        },
        Instruction::PHY => {
            lemma_decode_encode(Instruction::PHY, AddrMode::Implied);
            assert(decode(0x5a).0 == Instruction::PHY);
        },
        Instruction::PLA => {
            lemma_decode_encode(Instruction::PLA, AddrMode::Implied);
            assert(decode(0x68).0 == Instruction::PLA);
        },
        Instruction::PLP => {
            lemma_decode_encode(Instruction::PLP, AddrMode::Implied);
            assert(decode(0x28).0 == Instruction::PLP);
        },
        Instruction::PLX => {
            lemma_decode_encode(Instruction::PLX, AddrMode::Implied);
            assert(decode(0xfa).0 == Instruction::PLX);
        },
        Instruction::PLY => {
            lemma_decode_encode(Instruction::PLY, AddrMode::Implied);
            assert(decode(0x7a).0 == Instruction::PLY);
        },
        Instruction::RMB0 => {
            lemma_decode_encode(Instruction::RMB0, AddrMode::ZeroPage);
            assert(decode(0x07).0 == Instruction::RMB0);
        },
        Instruction::RMB1 => {
            lemma_decode_encode(Instruction::RMB1, AddrMode::ZeroPage);
            assert(decode(0x17).0 == Instruction::RMB1);
        },
        Instruction::RMB2 => {
            lemma_decode_encode(Instruction::RMB2, AddrMode::ZeroPage);
            assert(decode(0x27).0 == Instruction::RMB2);
        },
        Instruction::RMB3 => {
            lemma_decode_encode(Instruction::RMB3, AddrMode::ZeroPage);
            assert(decode(0x37).0 == Instruction::RMB3);
        },
        Instruction::RMB4 => {
            lemma_decode_encode(Instruction::RMB4, AddrMode::ZeroPage);
            assert(decode(0x47).0 == Instruction::RMB4);
        },
        Instruction::RMB5 => {
            lemma_decode_encode(Instruction::RMB5, AddrMode::ZeroPage);
            assert(decode(0x57).0 == Instruction::RMB5);
        },
        Instruction::RMB6 => {
            lemma_decode_encode(Instruction::RMB6, AddrMode::ZeroPage);
            assert(decode(0x67).0 == Instruction::RMB6);
        },
        Instruction::RMB7 => {
            lemma_decode_encode(Instruction::RMB7, AddrMode::ZeroPage);
            assert(decode(0x77).0 == Instruction::RMB7);
        },
        Instruction::ROL => {
            lemma_decode_encode(Instruction::ROL, AddrMode::ZeroPage);
            assert(decode(0x26).0 == Instruction::ROL);
        },
        Instruction::ROR => {
            lemma_decode_encode(Instruction::ROR, AddrMode::ZeroPage);
            assert(decode(0x66).0 == Instruction::ROR);
        },
        Instruction::RTI => {
            lemma_decode_encode(Instruction::RTI, AddrMode::Implied);
            assert(decode(0x40).0 == Instruction::RTI);
        },
        Instruction::RTS => {
            lemma_decode_encode(Instruction::RTS, AddrMode::Implied);
            assert(decode(0x60).0 == Instruction::RTS);
        },
        Instruction::SBC => {
            lemma_decode_encode(Instruction::SBC, AddrMode::ZeroPageIndexedIndirect);
            assert(decode(0xe1).0 == Instruction::SBC);
        },
        Instruction::SEC => {
            lemma_decode_encode(Instruction::SEC, AddrMode::Implied);
            assert(decode(0x38).0 == Instruction::SEC);
        },
        Instruction::SED => {
            lemma_decode_encode(Instruction::SED, AddrMode::Implied);
            assert(decode(0xf8).0 == Instruction::SED);
        },
        Instruction::SEI => {
            lemma_decode_encode(Instruction::SEI, AddrMode::Implied);
            assert(decode(0x78).0 == Instruction::SEI);
        },
        Instruction::SMB0 => {
            lemma_decode_encode(Instruction::SMB0, AddrMode::ZeroPage);
            assert(decode(0x87).0 == Instruction::SMB0);
        },
        Instruction::SMB1 => {
            lemma_decode_encode(Instruction::SMB1, AddrMode::ZeroPage);
            assert(decode(0x97).0 == Instruction::SMB1);
        },
        Instruction::SMB2 => {
            lemma_decode_encode(Instruction::SMB2, AddrMode::ZeroPage);
            assert(decode(0xa7).0 == Instruction::SMB2);
        },
        Instruction::SMB3 => {
            lemma_decode_encode(Instruction::SMB3, AddrMode::ZeroPage);
            assert(decode(0xb7).0 == Instruction::SMB3);
        },
        Instruction::SMB4 => {
            lemma_decode_encode(Instruction::SMB4, AddrMode::ZeroPage);
            assert(decode(0xc7).0 == Instruction::SMB4);
        },
        Instruction::SMB5 => {
            lemma_decode_encode(Instruction::SMB5, AddrMode::ZeroPage);
            assert(decode(0xd7).0 == Instruction::SMB5);
        },
        Instruction::SMB6 => {
            lemma_decode_encode(Instruction::SMB6, AddrMode::ZeroPage);
            assert(decode(0xe7).0 == Instruction::SMB6);
        },
        Instruction::SMB7 => {
            lemma_decode_encode(Instruction::SMB7, AddrMode::ZeroPage);
            assert(decode(0xf7).0 == Instruction::SMB7);
        },
        Instruction::STA => {
            lemma_decode_encode(Instruction::STA, AddrMode::ZeroPageIndexedIndirect);
            assert(decode(0x81).0 == Instruction::STA);
        },
        Instruction::STP => {
            lemma_decode_encode(Instruction::STP, AddrMode::Implied);
            assert(decode(0xdb).0 == Instruction::STP);
        },
        Instruction::STX => {
            lemma_decode_encode(Instruction::STX, AddrMode::ZeroPage);
            assert(decode(0x86).0 == Instruction::STX);
        },
        Instruction::STY => {
            lemma_decode_encode(Instruction::STY, AddrMode::ZeroPage);
            assert(decode(0x84).0 == Instruction::STY);
        },
        Instruction::STZ => {
            lemma_decode_encode(Instruction::STZ, AddrMode::ZeroPage);
            assert(decode(0x64).0 == Instruction::STZ);
        },
        Instruction::TAX => {
            lemma_decode_encode(Instruction::TAX, AddrMode::Implied);
            assert(decode(0xaa).0 == Instruction::TAX);
        },
        Instruction::TAY => {
            lemma_decode_encode(Instruction::TAY, AddrMode::Implied);
            assert(decode(0xa8).0 == Instruction::TAY);
        },
        Instruction::TRB => {
            lemma_decode_encode(Instruction::TRB, AddrMode::ZeroPage);
            assert(decode(0x14).0 == Instruction::TRB);
        },
        Instruction::TSB => {
            lemma_decode_encode(Instruction::TSB, AddrMode::ZeroPage);
            assert(decode(0x04).0 == Instruction::TSB);
        },
        Instruction::TSX => {
            lemma_decode_encode(Instruction::TSX, AddrMode::Implied);
            assert(decode(0xba).0 == Instruction::TSX);
        },
        Instruction::TXA => {
            lemma_decode_encode(Instruction::TXA, AddrMode::Implied);
            assert(decode(0x8a).0 == Instruction::TXA);
        },
        Instruction::TXS => {
            lemma_decode_encode(Instruction::TXS, AddrMode::Implied);
            assert(decode(0x9a).0 == Instruction::TXS);
        },
        Instruction::TYA => {
            lemma_decode_encode(Instruction::TYA, AddrMode::Implied);
            assert(decode(0x98).0 == Instruction::TYA);
        },
        Instruction::WAI => {
            lemma_decode_encode(Instruction::WAI, AddrMode::Implied);
            assert(decode(0xcb).0 == Instruction::WAI);
        },
    }
}

/// No two opcodes decode to the same legal instruction and mode, so that
/// looking up the opcode of what an opcode decodes to gives it back.
pub proof fn lemma_decode_injective(op1: u8, op2: u8)
    requires
        decode(op1).0 != Instruction::ILL,
        decode(op1) == decode(op2),
    ensures
        op1 == op2,
{
    lemma_encode_decode(op1);
    lemma_encode_decode(op2);
}

/// An opcode that encodes `inst` in `mode`: the lowest such.
pub fn opcode_from_instruction_and_mode(inst: Instruction, mode: AddrMode) -> (r: u8)
    requires
        exists|op: u8| decode(op) == (inst, mode),
    ensures
        decode(r) == (inst, mode),
        forall|op: u8| op < r ==> decode(op) != (inst, mode),
{
    let mut op: u8 = 0;
    loop
        invariant
            exists|o: u8| o >= op && decode(o) == (inst, mode),
            forall|o: u8| o < op ==> decode(o) != (inst, mode),
        decreases 255 - op,
    {
        let (i, m) = instruction_and_mode(op);
        if i == inst && m == mode {
            return op;
        }
        proof {
            assert(op < 255) by {
                let w = choose|o: u8| o >= op && decode(o) == (inst, mode);
                assert(w != op);
            }
        }
        op = op + 1;
    }
}

/// The upper-case hexadecimal digit of `n` (below 16).
pub open spec fn hex_char(n: int) -> char {
    if n == 0 { '0' } else if n == 1 { '1' } else if n == 2 { '2' } else if n == 3 { '3' }
    else if n == 4 { '4' } else if n == 5 { '5' } else if n == 6 { '6' } else if n == 7 { '7' }
    else if n == 8 { '8' } else if n == 9 { '9' } else if n == 10 { 'A' } else if n == 11 { 'B' }
    else if n == 12 { 'C' } else if n == 13 { 'D' } else if n == 14 { 'E' } else { 'F' }
}

/// A byte as two hexadecimal digits.
pub open spec fn hex2(b: int) -> Seq<char> {
    seq![hex_char((b / 16) % 16), hex_char(b % 16)]
}

/// A word as four hexadecimal digits.
pub open spec fn hex4(w: int) -> Seq<char> {
    hex2(w / 256) + hex2(w % 256)
}

/// The decimal digit of `n` (below 10).
pub open spec fn dec_char(n: int) -> char {
    hex_char(n)
}

/// A byte in decimal, without leading zeros.
pub open spec fn dec(b: int) -> Seq<char> {
    if b < 10 {
        seq![dec_char(b)]
    } else if b < 100 {
        seq![dec_char(b / 10), dec_char(b % 10)]
    } else {
        seq![dec_char(b / 100), dec_char((b / 10) % 10), dec_char(b % 10)]
    }
}

/// The number of argument bytes that disassembly reads after the opcode in
/// `mode`.
pub open spec fn arg_len(mode: AddrMode) -> int {
    match mode {
        AddrMode::Absolute | AddrMode::AbsoluteIndexedIndirect | AddrMode::AbsoluteIndexedWithX
        | AddrMode::AbsoluteIndexedWithY | AddrMode::AbsoluteIndirect
        | AddrMode::ZeroPageRelative => 2,
        AddrMode::Implied => 0,
        _ => 1,
    }
}

/// The number of bytes an instruction in `mode` takes: the opcode and its
/// argument bytes (an accumulator operand takes none).
pub open spec fn inst_len(mode: AddrMode) -> int {
    match mode {
        AddrMode::Absolute | AddrMode::AbsoluteIndexedIndirect | AddrMode::AbsoluteIndexedWithX
        | AddrMode::AbsoluteIndexedWithY | AddrMode::AbsoluteIndirect
        | AddrMode::ZeroPageRelative => 3,
        AddrMode::Implied | AddrMode::Accumulator => 1,
        _ => 2,
    }
}

/// The text written between the mnemonic and the operand's value.
pub open spec fn operand_prefix(mode: AddrMode) -> Seq<char> {
    match mode {
        AddrMode::Implied => seq![],
        AddrMode::AbsoluteIndexedIndirect | AddrMode::AbsoluteIndirect
        | AddrMode::ZeroPageIndexedIndirect | AddrMode::ZeroPageIndirect
        | AddrMode::ZeroPageIndirectIndexedWithY => seq![' ', '(', '$'],
        AddrMode::Accumulator | AddrMode::Immediate | AddrMode::ZeroPageRelative => seq![
            ' ',
            '#',
            '$',
        ],
        _ => seq![' ', '$'],
    }
}

/// The text written after the operand's value.
pub open spec fn operand_suffix(mode: AddrMode) -> Seq<char> {
    match mode {
        AddrMode::AbsoluteIndexedIndirect | AddrMode::ZeroPageIndexedIndirect => seq![',', 'X', ')'],
        AddrMode::AbsoluteIndexedWithX | AddrMode::ZeroPageIndexedWithX => seq![',', 'X'],
        AddrMode::AbsoluteIndexedWithY | AddrMode::ZeroPageIndexedWithY => seq![',', 'Y'],
        AddrMode::AbsoluteIndirect | AddrMode::ZeroPageIndirect => seq![')'],
        AddrMode::ZeroPageIndirectIndexedWithY => seq![')', ',', 'Y'],
        _ => seq![],
    }
}

/// The operand's value as disassembly writes it: a word in four hexadecimal
/// digits, a byte in two (in decimal for `(zp),Y`), a branch by its target.
pub open spec fn operand_value(pc: u16, mode: AddrMode, mem: Seq<u8>) -> Seq<char> {
    match mode {
        AddrMode::Absolute | AddrMode::AbsoluteIndexedIndirect | AddrMode::AbsoluteIndexedWithX
        | AddrMode::AbsoluteIndexedWithY | AddrMode::AbsoluteIndirect => hex4(
            mem[1] + 256 * mem[2],
        ),
        AddrMode::Implied => seq![],
        AddrMode::Relative => hex4(rel(add16(pc, 2), mem[1]) as int),
        AddrMode::ZeroPageIndirectIndexedWithY => dec(mem[1] as int),
        AddrMode::ZeroPageRelative => hex2(mem[1] as int) + seq![' ', '$'] + hex2(mem[2] as int),
        _ => hex2(mem[1] as int),
    }
}

/// The assembly text of the instruction whose bytes start `mem`, at address
/// `pc`.
pub open spec fn disasm_text(pc: u16, mem: Seq<u8>) -> Seq<char> {
    let (inst, mode) = decode(mem[0]);
    inst.name_chars() + operand_prefix(mode) + operand_value(pc, mode, mem) + operand_suffix(mode)
}

fn hex_digit_str(n: u8) -> (r: &'static str)
    requires
        n < 16,
    ensures
        r@ == seq![hex_char(n as int)],
{
    match n {
        0 => {
            proof {
                reveal_strlit("0");
            }
            "0"
        },
        1 => {
            proof {
                reveal_strlit("1");
            }
            "1"
        },
        2 => {
            proof {
                reveal_strlit("2");
            }
            "2"
        },
        3 => {
            proof {
                reveal_strlit("3");
            }
            "3"
        },
        4 => {
            proof {
                reveal_strlit("4");
            }
            "4"
        },
        5 => {
            proof {
                reveal_strlit("5");
            }
            "5"
        },
        6 => {
            proof {
                reveal_strlit("6");
            }
            "6"
        },
        7 => {
            proof {
                reveal_strlit("7");
            }
            "7"
        },
        8 => {
            proof {
                reveal_strlit("8");
            }
            "8"
        },
        9 => {
            proof {
                reveal_strlit("9");
            }
            "9"
        },
        10 => {
            proof {
                reveal_strlit("A");
            }
            "A"
        },
        11 => {
            proof {
                reveal_strlit("B");
            }
            "B"
        },
        12 => {
            proof {
                reveal_strlit("C");
            }
            "C"
        },
        13 => {
            proof {
                reveal_strlit("D");
            }
            "D"
        },
        14 => {
            proof {
                reveal_strlit("E");
            }
            "E"
        },
        _ => {
            proof {
                reveal_strlit("F");
            }
            "F"
        },
    }
}

fn dec_digit_str(n: u8) -> (r: &'static str)
    requires
        n < 10,
    ensures
        r@ == seq![dec_char(n as int)],
{
    match n {
        0 => {
            proof {
                reveal_strlit("0");
            }
            "0"
        },
        1 => {
            proof {
                reveal_strlit("1");
            }
            "1"
        },
        2 => {
            proof {
                reveal_strlit("2");
            }
            "2"
        },
        3 => {
            proof {
                reveal_strlit("3");
            }
            "3"
        },
        4 => {
            proof {
                reveal_strlit("4");
            }
            "4"
        },
        5 => {
            proof {
                reveal_strlit("5");
            }
            "5"
        },
        6 => {
            proof {
                reveal_strlit("6");
            }
            "6"
        },
        7 => {
            proof {
                reveal_strlit("7");
            }
            "7"
        },
        8 => {
            proof {
                reveal_strlit("8");
            }
            "8"
        },
        _ => {
            proof {
                reveal_strlit("9");
            }
            "9"
        },
    }
}

fn push_hex2(s: &mut String, b: u8)
    ensures
        final(s)@ == old(s)@ + hex2(b as int),
{
    s.append(hex_digit_str(b / 16));
    s.append(hex_digit_str(b % 16));
    proof {
        assert(final(s)@ =~= old(s)@ + hex2(b as int));
    }
}

fn push_hex4(s: &mut String, w: u16)
    ensures
        final(s)@ == old(s)@ + hex4(w as int),
{
    push_hex2(s, (w / 256) as u8);
    push_hex2(s, (w % 256) as u8);
    proof {
        assert(final(s)@ =~= old(s)@ + hex4(w as int));
    }
}

fn push_dec(s: &mut String, b: u8)
    ensures
        final(s)@ == old(s)@ + dec(b as int),
{
    if b < 10 {
        s.append(dec_digit_str(b));
    } else if b < 100 {
        s.append(dec_digit_str(b / 10));
        s.append(dec_digit_str(b % 10));
    } else {
        s.append(dec_digit_str(b / 100));
        s.append(dec_digit_str((b / 10) % 10));
        s.append(dec_digit_str(b % 10));
    }
    proof {
        assert(final(s)@ =~= old(s)@ + dec(b as int));
    }
}

fn prefix_str(mode: AddrMode) -> (r: &'static str)
    ensures
        r@ == operand_prefix(mode),
{
    match mode {
        AddrMode::Implied => {
            proof {
                reveal_strlit("");
            }
            ""
        },
        AddrMode::AbsoluteIndexedIndirect | AddrMode::AbsoluteIndirect
        | AddrMode::ZeroPageIndexedIndirect | AddrMode::ZeroPageIndirect
        | AddrMode::ZeroPageIndirectIndexedWithY => {
            proof {
                reveal_strlit(" ($");
            }
            " ($"
        },
        AddrMode::Accumulator | AddrMode::Immediate | AddrMode::ZeroPageRelative => {
            proof {
                reveal_strlit(" #$");
            }
            " #$"
        },
        _ => {
            proof {
                reveal_strlit(" $");
            }
            " $"
        },
    }
}

fn suffix_str(mode: AddrMode) -> (r: &'static str)
    ensures
        r@ == operand_suffix(mode),
{
    match mode {
        AddrMode::AbsoluteIndexedIndirect | AddrMode::ZeroPageIndexedIndirect => {
            proof {
                reveal_strlit(",X)");
            }
            ",X)"
        },
        AddrMode::AbsoluteIndexedWithX | AddrMode::ZeroPageIndexedWithX => {
            proof {
                reveal_strlit(",X");
            }
            ",X"
        },
        AddrMode::AbsoluteIndexedWithY | AddrMode::ZeroPageIndexedWithY => {
            proof {
                reveal_strlit(",Y");
            }
            ",Y"
        },
        AddrMode::AbsoluteIndirect | AddrMode::ZeroPageIndirect => {
            proof {
                reveal_strlit(")");
            }
            ")"
        },
        AddrMode::ZeroPageIndirectIndexedWithY => {
            proof {
                reveal_strlit("),Y");
            }
            "),Y"
        },
        _ => {
            proof {
                reveal_strlit("");
            }
            ""
        },
    }
}

fn branch_target(pc: u16, off: u8) -> (r: u16)
    ensures
        r == rel(add16(pc, 2), off),
{
    let base = pc.wrapping_add(2);
    if off < 128 {
        base.wrapping_add(off as u16)
    } else {
        base.wrapping_sub(256 - off as u16)
    }
}

fn push_value(s: &mut String, pc: u16, mode: AddrMode, mem: &[u8])
    requires
        mem@.len() > arg_len(mode),
    ensures
        final(s)@ == old(s)@ + operand_value(pc, mode, mem@),
{
    match mode {
        AddrMode::Absolute | AddrMode::AbsoluteIndexedIndirect | AddrMode::AbsoluteIndexedWithX
        | AddrMode::AbsoluteIndexedWithY | AddrMode::AbsoluteIndirect => {
            push_hex4(s, mem[1] as u16 + 256 * mem[2] as u16);
        },
        AddrMode::Implied => {
            proof {
                assert(old(s)@ + operand_value(pc, mode, mem@) =~= old(s)@);
            }
        },
        AddrMode::Relative => {
            push_hex4(s, branch_target(pc, mem[1]));
        },
        AddrMode::ZeroPageIndirectIndexedWithY => {
            push_dec(s, mem[1]);
        },
        AddrMode::ZeroPageRelative => {
            push_hex2(s, mem[1]);
            proof {
                reveal_strlit(" $");
            }
            s.append(" $");
            push_hex2(s, mem[2]);
            proof {
                assert(final(s)@ =~= old(s)@ + operand_value(pc, mode, mem@));
            }
        },
        _ => {
            push_hex2(s, mem[1]);
        },
    }
}

/// Disassembles the instruction whose bytes start `mem`, at address `pc`.
pub fn disasm(pc: u16, mem: &[u8]) -> (r: String)
    requires
        mem@.len() >= 1,
        mem@.len() > arg_len(decode(mem@[0]).1),
    ensures
        r@ == disasm_text(pc, mem@),
{
    let (inst, mode) = instruction_and_mode(mem[0]);
    let mut s = String::from_str(inst.name());
    s.append(prefix_str(mode));
    push_value(&mut s, pc, mode, mem);
    s.append(suffix_str(mode));
    s
}

/// Disassembles the instruction whose bytes start `mem`, at address `pc`,
/// and gives the number of bytes it takes.
pub fn disasm_and_len(pc: u16, mem: &[u8]) -> (r: (String, u8))
    requires
        mem@.len() >= 1,
        mem@.len() > arg_len(decode(mem@[0]).1),
    ensures
        r.0@ == disasm_text(pc, mem@),
        r.1 == inst_len(decode(mem@[0]).1),
{
    let (_, mode) = instruction_and_mode(mem[0]);
    let len: u8 = match mode {
        AddrMode::Absolute | AddrMode::AbsoluteIndexedIndirect | AddrMode::AbsoluteIndexedWithX
        | AddrMode::AbsoluteIndexedWithY | AddrMode::AbsoluteIndirect
        | AddrMode::ZeroPageRelative => 3,
        AddrMode::Implied | AddrMode::Accumulator => 1,
        _ => 2,
    };
    (disasm(pc, mem), len)
}

/// The binary digit for the lowest bit of `n`.
pub open spec fn bit_char(n: int) -> char {
    if n % 2 == 1 {
        '1'
    } else {
        '0'
    }
}

/// A byte as eight binary digits, the highest bit first.
pub open spec fn bin8(b: int) -> Seq<char> {
    seq![
        bit_char(b / 128),
        bit_char(b / 64),
        bit_char(b / 32),
        bit_char(b / 16),
        bit_char(b / 8),
        bit_char(b / 4),
        bit_char(b / 2),
        bit_char(b),
    ]
}

/// The line that shows the machine before the instruction at `pc` runs:
/// the status register in binary, the registers and the program counter in
/// hexadecimal, and the instruction whose bytes start `code`, disassembled.
pub open spec fn status_text(st: u8, a: u8, x: u8, y: u8, pc: u16, code: Seq<u8>) -> Seq<char> {
    seq!['0', 'b'] + bin8(st as int) + seq![' ', 'a', ':'] + hex2(a as int) + seq![' ', 'x', ':']
        + hex2(x as int) + seq![' ', 'y', ':'] + hex2(y as int) + seq![' ', '0', 'x'] + hex4(
        pc as int,
    ) + seq![' '] + disasm_text(pc, code)
}

fn bit_str(n: u8) -> (r: &'static str)
    ensures
        r@ == seq![bit_char(n as int)],
{
    if n % 2 == 1 {
        proof {
            reveal_strlit("1");
        }
        "1"
    } else {
        proof {
            reveal_strlit("0");
        }
        "0"
    }
}

fn push_bin8(s: &mut String, b: u8)
    ensures
        final(s)@ == old(s)@ + bin8(b as int),
{
    s.append(bit_str(b / 128));
    s.append(bit_str(b / 64));
    s.append(bit_str(b / 32));
    s.append(bit_str(b / 16));
    s.append(bit_str(b / 8));
    s.append(bit_str(b / 4));
    s.append(bit_str(b / 2));
    s.append(bit_str(b));
    proof {
        assert(final(s)@ =~= old(s)@ + bin8(b as int));
    }
}

/// The line that shows the machine before the instruction at `pc` runs,
/// from the status register `st`, the registers `a`, `x` and `y`, and the
/// bytes `code` that start at `pc`.
pub fn status_line(st: u8, a: u8, x: u8, y: u8, pc: u16, code: &[u8]) -> (r: String)
    requires
        code@.len() >= 3,
    ensures
        r@ == status_text(st, a, x, y, pc, code@),
{
    proof {
        reveal_strlit("0b");
        reveal_strlit(" a:");
        reveal_strlit(" x:");
        reveal_strlit(" y:");
        reveal_strlit(" 0x");
        reveal_strlit(" ");
    }
    let mut s = String::from_str("0b");
    push_bin8(&mut s, st);
    s.append(" a:");
    push_hex2(&mut s, a);
    s.append(" x:");
    push_hex2(&mut s, x);
    s.append(" y:");
    push_hex2(&mut s, y);
    s.append(" 0x");
    push_hex4(&mut s, pc);
    s.append(" ");
    let text = disasm(pc, code);
    s.append(text.as_str());
    proof {
        assert(s@ =~= status_text(st, a, x, y, pc, code@));
    }
    s
}

/// Disassembles the instruction whose bytes start `mem`, at address `pc`,
/// with its length, when `mem` holds all the bytes that disassembly reads;
/// `None` otherwise.
pub fn try_disasm_and_len(pc: u16, mem: &[u8]) -> (r: Option<(String, u8)>)
    ensures
        match r {
            Some((text, len)) => {
                &&& mem@.len() >= 1
                &&& mem@.len() > arg_len(decode(mem@[0]).1)
                &&& text@ == disasm_text(pc, mem@)
                &&& len == inst_len(decode(mem@[0]).1)
            },
            None => mem@.len() == 0 || mem@.len() <= arg_len(decode(mem@[0]).1),
        },
{
    if mem.len() == 0 {
        return None;
    }
    let (_, mode) = instruction_and_mode(mem[0]);
    let need: usize = match mode {
        AddrMode::Absolute | AddrMode::AbsoluteIndexedIndirect | AddrMode::AbsoluteIndexedWithX
        | AddrMode::AbsoluteIndexedWithY | AddrMode::AbsoluteIndirect
        | AddrMode::ZeroPageRelative => 2,
        AddrMode::Implied => 0,
        _ => 1,
    };
    if mem.len() > need {
        Some(disasm_and_len(pc, mem))
    } else {
        None
    }
}

/// The listing of `code`, loaded at address `org`, from address `pc` up to
/// (not including) `end`: each instruction's address and its disassembly,
/// one after the other; `None` when an instruction runs past the end of
/// `code`.
pub open spec fn listing(code: Seq<u8>, org: int, pc: int, end: int) -> Option<Seq<(int, Seq<char>)>>
    decreases left_to_list(pc, end),
{
    if pc >= end || pc < org {
        Some(seq![])
    } else {
        let rest = if pc - org < code.len() {
            code.skip(pc - org)
        } else {
            Seq::empty()
        };
        if rest.len() >= 1 && rest.len() > arg_len(decode(rest[0]).1) {
            let next = pc + inst_len(decode(rest[0]).1);
            if next <= pc {
                None
            } else {
                match listing(code, org, next, end) {
                    Some(more) => Some(seq![(pc, disasm_text(pc as u16, rest))] + more),
                    None => None,
                }
            }
        } else {
            None
        }
    }
}

/// How far `pc` is from `end`, or 0 once it has reached it.
pub open spec fn left_to_list(pc: int, end: int) -> int {
    if pc >= end {
        0
    } else {
        end - pc
    }
}

/// The lines of a listing as addresses and texts.
pub open spec fn view_lines(v: Seq<(usize, String)>) -> Seq<(int, Seq<char>)> {
    v.map_values(|l: (usize, String)| (l.0 as int, l.1@))
}

/// `p` put before the lines of `o`, if there are any.
pub open spec fn prepend_lines(p: Seq<(int, Seq<char>)>, o: Option<Seq<(int, Seq<char>)>>) -> Option<
    Seq<(int, Seq<char>)>,
> {
    match o {
        Some(s) => Some(p + s),
        None => None,
    }
}

/// Disassembles `code`, loaded at address `org`, from `org` up to (not
/// including) `end`: each instruction's address with its text; `None` when
/// an instruction runs past the end of `code`.
pub fn disasm_listing(code: &[u8], org: usize, end: usize) -> (r: Option<Vec<(usize, String)>>)
    requires
        end <= usize::MAX - 3,
    ensures
        match listing(code@, org as int, org as int, end as int) {
            Some(ls) => r is Some && view_lines(r->0@) == ls,
            None => r is None,
        },
{
    let mut lines: Vec<(usize, String)> = Vec::new();
    let mut pc = org;
    proof {
        assert(view_lines(lines@) =~= Seq::<(int, Seq<char>)>::empty());
        assert(prepend_lines(seq![], listing(code@, org as int, pc as int, end as int)) =~= listing(
            code@, org as int, pc as int, end as int));
    }
    while pc < end
        invariant
            org <= pc,
            end <= usize::MAX - 3,
            listing(code@, org as int, org as int, end as int) == prepend_lines(
                view_lines(lines@),
                listing(code@, org as int, pc as int, end as int),
            ),
        decreases end + 3 - pc,
    {
        let at = pc - org;
        let rest: &[u8] = if at < code.len() {
            vstd::slice::slice_subrange(code, at, code.len())
        } else {
            vstd::slice::slice_subrange(code, code.len(), code.len())
        };
        proof {
            if (at as int) < code@.len() {
                assert(rest@ =~= code@.skip(at as int));
            } else {
                assert(rest@ =~= Seq::<u8>::empty());
            }
        }
        match try_disasm_and_len(pc as u16, rest) {
            Some((text, size)) => {
                let ghost before = lines@;
                let ghost line = (pc as int, text@);
                lines.push((pc, text));
                proof {
                    assert(view_lines(lines@) =~= view_lines(before) + seq![line]);
                    let more = listing(code@, org as int, pc + size, end as int);
                    match more {
                        Some(m) => {
                            assert(view_lines(before) + (seq![line] + m) =~= view_lines(before)
                                + seq![line] + m);
                        },
                        None => {},
                    }
                }
                pc = pc + size as usize;
            },
            None => {
                return None;
            },
        }
    }
    proof {
        assert(view_lines(lines@) + seq![] =~= view_lines(lines@));
    }
    Some(lines)
}

/// The bytes of a text of ASCII characters.
pub open spec fn ascii(t: Seq<char>) -> Seq<u8> {
    t.map_values(|c: char| c as u8)
}

/// The operand that disassembly writes for an instruction in `mode`:
/// what follows its mnemonic and the space after it.
pub open spec fn operand_in(pc: u16, mode: AddrMode, mem: Seq<u8>) -> Seq<char> {
    (operand_prefix(mode) + operand_value(pc, mode, mem) + operand_suffix(mode)).drop_first()
}

/// The operand of a disassembled instruction.
pub open spec fn operand_text(pc: u16, mem: Seq<u8>) -> Seq<char> {
    operand_in(pc, decode(mem[0]).1, mem)
}

/// The modes whose disassembled operand the operand parser reads back as
/// written: all but implied (no operand), the accumulator (written like an
/// immediate byte), branches (written as their targets) and `(zp),Y`
/// (written in decimal).
pub open spec fn reads_back(mode: AddrMode) -> bool {
    match mode {
        AddrMode::Implied | AddrMode::Accumulator | AddrMode::Relative
        | AddrMode::ZeroPageIndirectIndexedWithY | AddrMode::ZeroPageRelative => false,
        _ => true,
    }
}

/// The argument that the bytes of an instruction give in `mode`: the word
/// after the opcode for the absolute modes, the byte after it otherwise.
pub open spec fn operand_arg(mode: AddrMode, mem: Seq<u8>) -> int {
    if arg_len(mode) == 2 {
        mem[1] + 256 * mem[2]
    } else {
        mem[1] as int
    }
}

/// The byte of the high hexadecimal digit of `v`.
pub open spec fn hi_digit(v: int) -> u8 {
    hex_char((v / 16) % 16) as u8
}

/// The byte of the low hexadecimal digit of `v`.
pub open spec fn lo_digit(v: int) -> u8 {
    hex_char(v % 16) as u8
}

proof fn lemma_hex_char_byte(n: int)
    requires
        0 <= n < 16,
    ensures
        hex_digit(hex_char(n) as u8) == Some(n),
{
}

proof fn lemma_byte_digits(v: int)
    requires
        0 <= v < 256,
    ensures
        hex_digit(hi_digit(v)) == Some(v / 16),
        hex_digit(lo_digit(v)) == Some(v % 16),
        ascii(hex2(v)) == seq![hi_digit(v), lo_digit(v)],
        hex_value(seq![hi_digit(v), lo_digit(v)]) == Some(v),
{
    lemma_hex_char_byte((v / 16) % 16);
    lemma_hex_char_byte(v % 16);
    assert(ascii(hex2(v)) =~= seq![hi_digit(v), lo_digit(v)]);
    let t = seq![hi_digit(v), lo_digit(v)];
    assert(t.drop_last() =~= seq![hi_digit(v)]);
    assert(seq![hi_digit(v)].drop_last() =~= Seq::<u8>::empty());
    reveal_with_fuel(hex_digits, 3);
}

proof fn lemma_word_digits(lo: u8, hi: u8)
    ensures
        ascii(hex4(lo + 256 * hi)) == seq![hi_digit(hi as int), lo_digit(hi as int), hi_digit(lo as int), lo_digit(lo as int)],
        hex_value(seq![hi_digit(hi as int), lo_digit(hi as int), hi_digit(lo as int), lo_digit(lo as int)]) == Some(lo + 256 * hi),
{
    let w = lo + 256 * hi;
    lemma_byte_digits(lo as int);
    lemma_byte_digits(hi as int);
    assert(w / 256 == hi && w % 256 == lo);
    assert(ascii(hex4(w)) =~= ascii(hex2(hi as int)) + ascii(hex2(lo as int)));
    let t = seq![hi_digit(hi as int), lo_digit(hi as int), hi_digit(lo as int), lo_digit(lo as int)];
    assert(ascii(hex4(w)) =~= t);
    assert(t.drop_last() =~= seq![hi_digit(hi as int), lo_digit(hi as int), hi_digit(lo as int)]);
    assert(t.drop_last().drop_last() =~= seq![hi_digit(hi as int), lo_digit(hi as int)]);
    assert(t.drop_last().drop_last().drop_last() =~= seq![hi_digit(hi as int)]);
    assert(t.drop_last().drop_last().drop_last().drop_last() =~= Seq::<u8>::empty());
    reveal_with_fuel(hex_digits, 5);
}

/// The operand parser reads `b` as `mode` with the argument `arg`.
pub open spec fn parses_as(b: Seq<u8>, mode: AddrMode, arg: int) -> bool {
    &&& arm_of(b) is Some
    &&& arm_of(b).unwrap().0 == mode
    &&& arm_of(b).unwrap().3 == arg_len(mode)
    &&& hex_value(b.subrange(arm_of(b).unwrap().1, arm_of(b).unwrap().2)) == Some(arg)
}

#[verifier::spinoff_prover]
#[verifier::rlimit(30)]
proof fn lemma_reads_back_absolute(pc: u16, mem: Seq<u8>)
    requires
        mem.len() >= 3,
    ensures
        parses_as(ascii(operand_in(pc, AddrMode::Absolute, mem)), AddrMode::Absolute, operand_arg(AddrMode::Absolute, mem)),
{
    let b = ascii(operand_in(pc, AddrMode::Absolute, mem));
    let m1 = mem[1];
    let m2 = mem[2];
    lemma_word_digits(m1, m2);
    lemma_byte_digits(m1 as int);
    lemma_byte_digits(m2 as int);
    let h1 = hi_digit(m2 as int);
    let h2 = lo_digit(m2 as int);
    let h3 = hi_digit(m1 as int);
    let h4 = lo_digit(m1 as int);
    assert(b =~= seq![DOLLAR, h1, h2, h3, h4]);
    assert(b.subrange(1, 5) =~= seq![h1, h2, h3, h4]);
    reveal_with_fuel(find_from, 10);
}

#[verifier::spinoff_prover]
#[verifier::rlimit(30)]
proof fn lemma_reads_back_absolute_indexed_indirect(pc: u16, mem: Seq<u8>)
    requires
        mem.len() >= 3,
    ensures
        parses_as(ascii(operand_in(pc, AddrMode::AbsoluteIndexedIndirect, mem)), AddrMode::AbsoluteIndexedIndirect, operand_arg(AddrMode::AbsoluteIndexedIndirect, mem)),
{
    let b = ascii(operand_in(pc, AddrMode::AbsoluteIndexedIndirect, mem));
    let m1 = mem[1];
    let m2 = mem[2];
    lemma_word_digits(m1, m2);
    lemma_byte_digits(m1 as int);
    lemma_byte_digits(m2 as int);
    let h1 = hi_digit(m2 as int);
    let h2 = lo_digit(m2 as int);
    let h3 = hi_digit(m1 as int);
    let h4 = lo_digit(m1 as int);
    assert(b =~= seq![LPAREN, DOLLAR, h1, h2, h3, h4, COMMA, UPPER_X, RPAREN]);
    assert(b.subrange(2, 6) =~= seq![h1, h2, h3, h4]);
    reveal_with_fuel(find_from, 10);
}

#[verifier::spinoff_prover]
#[verifier::rlimit(30)]
proof fn lemma_reads_back_absolute_x(pc: u16, mem: Seq<u8>)
    requires
        mem.len() >= 3,
    ensures
        parses_as(ascii(operand_in(pc, AddrMode::AbsoluteIndexedWithX, mem)), AddrMode::AbsoluteIndexedWithX, operand_arg(AddrMode::AbsoluteIndexedWithX, mem)),
{
    let b = ascii(operand_in(pc, AddrMode::AbsoluteIndexedWithX, mem));
    let m1 = mem[1];
    let m2 = mem[2];
    lemma_word_digits(m1, m2);
    lemma_byte_digits(m1 as int);
    lemma_byte_digits(m2 as int);
    let h1 = hi_digit(m2 as int);
    let h2 = lo_digit(m2 as int);
    let h3 = hi_digit(m1 as int);
    let h4 = lo_digit(m1 as int);
    assert(b =~= seq![DOLLAR, h1, h2, h3, h4, COMMA, UPPER_X]);
    assert(b.subrange(1, 5) =~= seq![h1, h2, h3, h4]);
    reveal_with_fuel(find_from, 10);
}

#[verifier::spinoff_prover]
#[verifier::rlimit(30)]
proof fn lemma_reads_back_absolute_y(pc: u16, mem: Seq<u8>)
    requires
        mem.len() >= 3,
    ensures
        parses_as(ascii(operand_in(pc, AddrMode::AbsoluteIndexedWithY, mem)), AddrMode::AbsoluteIndexedWithY, operand_arg(AddrMode::AbsoluteIndexedWithY, mem)),
{
    let b = ascii(operand_in(pc, AddrMode::AbsoluteIndexedWithY, mem));
    let m1 = mem[1];
    let m2 = mem[2];
    lemma_word_digits(m1, m2);
    lemma_byte_digits(m1 as int);
    lemma_byte_digits(m2 as int);
    let h1 = hi_digit(m2 as int);
    let h2 = lo_digit(m2 as int);
    let h3 = hi_digit(m1 as int);
    let h4 = lo_digit(m1 as int);
    assert(b =~= seq![DOLLAR, h1, h2, h3, h4, COMMA, UPPER_Y]);
    assert(b.subrange(1, 5) =~= seq![h1, h2, h3, h4]);
    reveal_with_fuel(find_from, 10);
}

#[verifier::spinoff_prover]
#[verifier::rlimit(30)]
proof fn lemma_reads_back_absolute_indirect(pc: u16, mem: Seq<u8>)
    requires
        mem.len() >= 3,
    ensures
        parses_as(ascii(operand_in(pc, AddrMode::AbsoluteIndirect, mem)), AddrMode::AbsoluteIndirect, operand_arg(AddrMode::AbsoluteIndirect, mem)),
{
    let b = ascii(operand_in(pc, AddrMode::AbsoluteIndirect, mem));
    let m1 = mem[1];
    let m2 = mem[2];
    lemma_word_digits(m1, m2);
    lemma_byte_digits(m1 as int);
    lemma_byte_digits(m2 as int);
    let h1 = hi_digit(m2 as int);
    let h2 = lo_digit(m2 as int);
    let h3 = hi_digit(m1 as int);
    let h4 = lo_digit(m1 as int);
    assert(b =~= seq![LPAREN, DOLLAR, h1, h2, h3, h4, RPAREN]);
    assert(b.subrange(2, 6) =~= seq![h1, h2, h3, h4]);
    reveal_with_fuel(find_from, 10);
}

#[verifier::spinoff_prover]
#[verifier::rlimit(30)]
proof fn lemma_reads_back_immediate(pc: u16, mem: Seq<u8>)
    requires
        mem.len() >= 3,
    ensures
        parses_as(ascii(operand_in(pc, AddrMode::Immediate, mem)), AddrMode::Immediate, operand_arg(AddrMode::Immediate, mem)),
{
    let b = ascii(operand_in(pc, AddrMode::Immediate, mem));
    let m1 = mem[1];
    let m2 = mem[2];
    lemma_byte_digits(m1 as int);
    let h3 = hi_digit(m1 as int);
    let h4 = lo_digit(m1 as int);
    assert(b =~= seq![HASH, DOLLAR, h3, h4]);
    assert(b.subrange(2, 4) =~= seq![h3, h4]);
    reveal_with_fuel(find_from, 10);
}

#[verifier::spinoff_prover]
#[verifier::rlimit(30)]
proof fn lemma_reads_back_zero_page(pc: u16, mem: Seq<u8>)
    requires
        mem.len() >= 3,
    ensures
        parses_as(ascii(operand_in(pc, AddrMode::ZeroPage, mem)), AddrMode::ZeroPage, operand_arg(AddrMode::ZeroPage, mem)),
{
    let b = ascii(operand_in(pc, AddrMode::ZeroPage, mem));
    let m1 = mem[1];
    let m2 = mem[2];
    lemma_byte_digits(m1 as int);
    let h3 = hi_digit(m1 as int);
    let h4 = lo_digit(m1 as int);
    assert(b =~= seq![DOLLAR, h3, h4]);
    assert(b.subrange(1, 3) =~= seq![h3, h4]);
    reveal_with_fuel(find_from, 10);
}

#[verifier::spinoff_prover]
#[verifier::rlimit(30)]
proof fn lemma_reads_back_zero_page_indexed_indirect(pc: u16, mem: Seq<u8>)
    requires
        mem.len() >= 3,
    ensures
        parses_as(ascii(operand_in(pc, AddrMode::ZeroPageIndexedIndirect, mem)), AddrMode::ZeroPageIndexedIndirect, operand_arg(AddrMode::ZeroPageIndexedIndirect, mem)),
{
    let b = ascii(operand_in(pc, AddrMode::ZeroPageIndexedIndirect, mem));
    let m1 = mem[1];
    let m2 = mem[2];
    lemma_byte_digits(m1 as int);
    let h3 = hi_digit(m1 as int);
    let h4 = lo_digit(m1 as int);
    assert(b =~= seq![LPAREN, DOLLAR, h3, h4, COMMA, UPPER_X, RPAREN]);
    assert(b.subrange(2, 4) =~= seq![h3, h4]);
    reveal_with_fuel(find_from, 10);
}

#[verifier::spinoff_prover]
#[verifier::rlimit(30)]
proof fn lemma_reads_back_zero_page_x(pc: u16, mem: Seq<u8>)
    requires
        mem.len() >= 3,
    ensures
        parses_as(ascii(operand_in(pc, AddrMode::ZeroPageIndexedWithX, mem)), AddrMode::ZeroPageIndexedWithX, operand_arg(AddrMode::ZeroPageIndexedWithX, mem)),
{
    let b = ascii(operand_in(pc, AddrMode::ZeroPageIndexedWithX, mem));
    let m1 = mem[1];
    let m2 = mem[2];
    lemma_byte_digits(m1 as int);
    let h3 = hi_digit(m1 as int);
    let h4 = lo_digit(m1 as int);
    assert(b =~= seq![DOLLAR, h3, h4, COMMA, UPPER_X]);
    assert(b.subrange(1, 3) =~= seq![h3, h4]);
    reveal_with_fuel(find_from, 10);
}

#[verifier::spinoff_prover]
#[verifier::rlimit(30)]
proof fn lemma_reads_back_zero_page_y(pc: u16, mem: Seq<u8>)
    requires
        mem.len() >= 3,
    ensures
        parses_as(ascii(operand_in(pc, AddrMode::ZeroPageIndexedWithY, mem)), AddrMode::ZeroPageIndexedWithY, operand_arg(AddrMode::ZeroPageIndexedWithY, mem)),
{
    let b = ascii(operand_in(pc, AddrMode::ZeroPageIndexedWithY, mem));
    let m1 = mem[1];
    let m2 = mem[2];
    lemma_byte_digits(m1 as int);
    let h3 = hi_digit(m1 as int);
    let h4 = lo_digit(m1 as int);
    assert(b =~= seq![DOLLAR, h3, h4, COMMA, UPPER_Y]);
    assert(b.subrange(1, 3) =~= seq![h3, h4]);
    reveal_with_fuel(find_from, 10);
}

#[verifier::spinoff_prover]
#[verifier::rlimit(30)]
proof fn lemma_reads_back_zero_page_indirect(pc: u16, mem: Seq<u8>)
    requires
        mem.len() >= 3,
    ensures
        parses_as(ascii(operand_in(pc, AddrMode::ZeroPageIndirect, mem)), AddrMode::ZeroPageIndirect, operand_arg(AddrMode::ZeroPageIndirect, mem)),
{
    let b = ascii(operand_in(pc, AddrMode::ZeroPageIndirect, mem));
    let m1 = mem[1];
    let m2 = mem[2];
    lemma_byte_digits(m1 as int);
    let h3 = hi_digit(m1 as int);
    let h4 = lo_digit(m1 as int);
    assert(b =~= seq![LPAREN, DOLLAR, h3, h4, RPAREN]);
    assert(b.subrange(2, 4) =~= seq![h3, h4]);
    reveal_with_fuel(find_from, 10);
}

/// The operand parser reads the operand that disassembly writes in `mode`
/// back as `mode` with the argument that the instruction's bytes hold.
proof fn lemma_operand_reads_back(pc: u16, mode: AddrMode, mem: Seq<u8>)
    requires
        mem.len() >= 3,
        reads_back(mode),
    ensures
        parses_as(ascii(operand_in(pc, mode, mem)), mode, operand_arg(mode, mem)),
{
    match mode {
        AddrMode::Absolute => lemma_reads_back_absolute(pc, mem),
        AddrMode::AbsoluteIndexedIndirect => lemma_reads_back_absolute_indexed_indirect(pc, mem),
        AddrMode::AbsoluteIndexedWithX => lemma_reads_back_absolute_x(pc, mem),
        AddrMode::AbsoluteIndexedWithY => lemma_reads_back_absolute_y(pc, mem),
        AddrMode::AbsoluteIndirect => lemma_reads_back_absolute_indirect(pc, mem),
        AddrMode::Immediate => lemma_reads_back_immediate(pc, mem),
        AddrMode::ZeroPage => lemma_reads_back_zero_page(pc, mem),
        AddrMode::ZeroPageIndexedIndirect => lemma_reads_back_zero_page_indexed_indirect(pc, mem),
        AddrMode::ZeroPageIndexedWithX => lemma_reads_back_zero_page_x(pc, mem),
        AddrMode::ZeroPageIndexedWithY => lemma_reads_back_zero_page_y(pc, mem),
        AddrMode::ZeroPageIndirect => lemma_reads_back_zero_page_indirect(pc, mem),
        _ => {},
    }
}

/// The disassembly of an instruction is its mnemonic, a space and its
/// operand; and the operand parser reads the operand back as the
/// instruction's addressing mode with the argument its bytes hold, in every
/// mode whose operand is written as the parser reads it.
pub proof fn lemma_disasm_reads_back(pc: u16, mem: Seq<u8>)
    requires
        mem.len() >= 3,
        reads_back(decode(mem[0]).1),
    ensures
        ({
            let (inst, mode) = decode(mem[0]);
            let b = ascii(operand_text(pc, mem));
            &&& disasm_text(pc, mem) == inst.name_chars() + seq![' '] + operand_text(pc, mem)
            &&& parses_as(b, mode, operand_arg(mode, mem))
        }),
{
    let (inst, mode) = decode(mem[0]);
    let t = operand_prefix(mode) + operand_value(pc, mode, mem) + operand_suffix(mode);
    assert(t[0] == ' ');
    assert(t =~= seq![' '] + operand_in(pc, mode, mem));
    assert(disasm_text(pc, mem) =~= inst.name_chars() + seq![' '] + operand_text(pc, mem));
    lemma_operand_reads_back(pc, mode, mem);
}


/// A branch is disassembled with its target: the address two bytes past the
/// branch moved by the signed offset in its second byte, which is where the
/// branch goes when it is taken.
pub proof fn lemma_disasm_branch_target(pc: u16, mem: Seq<u8>)
    requires
        mem.len() >= 2,
        decode(mem[0]).1 == AddrMode::Relative,
    ensures
        operand_text(pc, mem) == seq!['$'] + hex4(add16(pc, 2 + signed(mem[1])) as int),
{
    let t = operand_prefix(AddrMode::Relative) + operand_value(pc, AddrMode::Relative, mem)
        + operand_suffix(AddrMode::Relative);
    assert(rel(add16(pc, 2), mem[1]) == add16(pc, 2 + signed(mem[1])));
    assert(t.drop_first() =~= seq!['$'] + hex4(add16(pc, 2 + signed(mem[1])) as int));
}


/// The number that a string of binary digits denotes, the highest first.
pub open spec fn binary_value(d: Seq<char>) -> int
    decreases d.len(),
{
    if d.len() == 0 {
        0
    } else {
        binary_value(d.drop_last()) * 2 + if d.last() == '1' {
            1int
        } else {
            0int
        }
    }
}

/// The status register is shown as eight binary digits that read back as
/// its value, highest bit first.
pub proof fn lemma_bin8_reads_back(b: u8)
    ensures
        bin8(b as int).len() == 8,
        binary_value(bin8(b as int)) == b,
{
    let d = bin8(b as int);
    reveal_with_fuel(binary_value, 9);
    assert(d.drop_last() =~= d.subrange(0, 7));
    assert(d.subrange(0, 7).drop_last() =~= d.subrange(0, 6));
    assert(d.subrange(0, 6).drop_last() =~= d.subrange(0, 5));
    assert(d.subrange(0, 5).drop_last() =~= d.subrange(0, 4));
    assert(d.subrange(0, 4).drop_last() =~= d.subrange(0, 3));
    assert(d.subrange(0, 3).drop_last() =~= d.subrange(0, 2));
    assert(d.subrange(0, 2).drop_last() =~= d.subrange(0, 1));
    assert(d.subrange(0, 1).drop_last() =~= Seq::<char>::empty());
    let x = b as int;
    assert(binary_value(d.subrange(0, 1)) == x / 128);
    assert(binary_value(d.subrange(0, 2)) == x / 64);
    assert(binary_value(d.subrange(0, 3)) == x / 32);
    assert(binary_value(d.subrange(0, 4)) == x / 16);
    assert(binary_value(d.subrange(0, 5)) == x / 8);
    assert(binary_value(d.subrange(0, 6)) == x / 4);
    assert(binary_value(d.subrange(0, 7)) == x / 2);
}

} // verus!
