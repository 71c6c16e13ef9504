use vstd::prelude::*;

verus! {

/// The 65C02 instruction set; `ILL` stands for the opcodes that encode no
/// instruction.
#[derive(Debug, Clone, Copy, PartialEq, Eq, Structural)]
pub enum Instruction {
    ADC,
    AND,
    ASL,
    BBR0,
    BBR1,
    BBR2,
    BBR3,
    BBR4,
    BBR5,
    BBR6,
    BBR7,
    BBS0,
    BBS1,
    BBS2,
    BBS3,
    BBS4,
    BBS5,
    BBS6,
    BBS7,
    BCC,
    BCS,
    BEQ,
    BIT,
    BMI,
    BNE,
    BPL,
    BRA,
    BRK,
    BVC,
    BVS,
    CLC,
    CLD,
    CLI,
    CLV,
    CMP,
    CPX,
    CPY,
    DEC,
    DEX,
    DEY,
    EOR,
    ILL,
    INC,
    INX,
    INY,
    JMP,
    JSR,
    LDA,
    LDX,
    LDY,
    LSR,
    NOP,
    ORA,
    PHA,
    PHP,
    PHX,
    PHY,
    PLA,
    PLP,
    PLX,
    PLY,
    RMB0,
    RMB1,
    RMB2,
    RMB3,
    RMB4,
    RMB5,
    RMB6,
    RMB7,
    ROL,
    ROR,
    RTI,
    RTS,
    SBC,
    SEC,
    SED,
    SEI,
    SMB0,
    SMB1,
    SMB2,
    SMB3,
    SMB4,
    SMB5,
    SMB6,
    SMB7,
    STA,
    STP,
    STX,
    STY,
    STZ,
    TAX,
    TAY,
    TRB,
    TSB,
    TSX,
    TXA,
    TXS,
    TYA,
    WAI,
}

impl Instruction {
    /// The mnemonic of the instruction.
    pub open spec fn name_chars(self) -> Seq<char> {
        match self {
            Instruction::ADC => seq!['A', 'D', 'C'],
            Instruction::AND => seq!['A', 'N', 'D'],
            Instruction::ASL => seq!['A', 'S', 'L'],
            Instruction::BBR0 => seq!['B', 'B', 'R', '0'],
            Instruction::BBR1 => seq!['B', 'B', 'R', '1'],
            Instruction::BBR2 => seq!['B', 'B', 'R', '2'],
            Instruction::BBR3 => seq!['B', 'B', 'R', '3'],
            Instruction::BBR4 => seq!['B', 'B', 'R', '4'],
            Instruction::BBR5 => seq!['B', 'B', 'R', '5'],
            Instruction::BBR6 => seq!['B', 'B', 'R', '6'],
            Instruction::BBR7 => seq!['B', 'B', 'R', '7'],
            Instruction::BBS0 => seq!['B', 'B', 'S', '0'],
            Instruction::BBS1 => seq!['B', 'B', 'S', '1'],
            Instruction::BBS2 => seq!['B', 'B', 'S', '2'],
            Instruction::BBS3 => seq!['B', 'B', 'S', '3'],
            Instruction::BBS4 => seq!['B', 'B', 'S', '4'],
            Instruction::BBS5 => seq!['B', 'B', 'S', '5'],
            Instruction::BBS6 => seq!['B', 'B', 'S', '6'],
            Instruction::BBS7 => seq!['B', 'B', 'S', '7'],
            Instruction::BCC => seq!['B', 'C', 'C'],
            Instruction::BCS => seq!['B', 'C', 'S'],
            Instruction::BEQ => seq!['B', 'E', 'Q'],
            Instruction::BIT => seq!['B', 'I', 'T'],
            Instruction::BMI => seq!['B', 'M', 'I'],
            Instruction::BNE => seq!['B', 'N', 'E'],
            Instruction::BPL => seq!['B', 'P', 'L'],
            Instruction::BRA => seq!['B', 'R', 'A'],
            Instruction::BRK => seq!['B', 'R', 'K'],
            Instruction::BVC => seq!['B', 'V', 'C'],
            Instruction::BVS => seq!['B', 'V', 'S'],
            Instruction::CLC => seq!['C', 'L', 'C'],
            Instruction::CLD => seq!['C', 'L', 'D'],
            Instruction::CLI => seq!['C', 'L', 'I'],
            Instruction::CLV => seq!['C', 'L', 'V'],
            Instruction::CMP => seq!['C', 'M', 'P'],
            Instruction::CPX => seq!['C', 'P', 'X'],
            Instruction::CPY => seq!['C', 'P', 'Y'],
            Instruction::DEC => seq!['D', 'E', 'C'],
            Instruction::DEX => seq!['D', 'E', 'X'],
            Instruction::DEY => seq!['D', 'E', 'Y'],
            Instruction::EOR => seq!['E', 'O', 'R'],
            Instruction::ILL => seq!['I', 'L', 'L'],
            Instruction::INC => seq!['I', 'N', 'C'],
            Instruction::INX => seq!['I', 'N', 'X'],
            Instruction::INY => seq!['I', 'N', 'Y'],
            Instruction::JMP => seq!['J', 'M', 'P'],
            Instruction::JSR => seq!['J', 'S', 'R'],
            Instruction::LDA => seq!['L', 'D', 'A'],
            Instruction::LDX => seq!['L', 'D', 'X'],
            Instruction::LDY => seq!['L', 'D', 'Y'],
            Instruction::LSR => seq!['L', 'S', 'R'],
            Instruction::NOP => seq!['N', 'O', 'P'],
            Instruction::ORA => seq!['O', 'R', 'A'],
            Instruction::PHA => seq!['P', 'H', 'A'],
            Instruction::PHP => seq!['P', 'H', 'P'],
            Instruction::PHX => seq!['P', 'H', 'X'],
            Instruction::PHY => seq!['P', 'H', 'Y'],
            Instruction::PLA => seq!['P', 'L', 'A'],
            Instruction::PLP => seq!['P', 'L', 'P'],
            Instruction::PLX => seq!['P', 'L', 'X'],
            Instruction::PLY => seq!['P', 'L', 'Y'],
            Instruction::RMB0 => seq!['R', 'M', 'B', '0'],
            Instruction::RMB1 => seq!['R', 'M', 'B', '1'],
            Instruction::RMB2 => seq!['R', 'M', 'B', '2'],
            Instruction::RMB3 => seq!['R', 'M', 'B', '3'],
            Instruction::RMB4 => seq!['R', 'M', 'B', '4'],
            Instruction::RMB5 => seq!['R', 'M', 'B', '5'],
            Instruction::RMB6 => seq!['R', 'M', 'B', '6'],
            Instruction::RMB7 => seq!['R', 'M', 'B', '7'],
            Instruction::ROL => seq!['R', 'O', 'L'],
            Instruction::ROR => seq!['R', 'O', 'R'],
            Instruction::RTI => seq!['R', 'T', 'I'],
            Instruction::RTS => seq!['R', 'T', 'S'],
            Instruction::SBC => seq!['S', 'B', 'C'],
            Instruction::SEC => seq!['S', 'E', 'C'],
            Instruction::SED => seq!['S', 'E', 'D'],
            Instruction::SEI => seq!['S', 'E', 'I'],
            Instruction::SMB0 => seq!['S', 'M', 'B', '0'],
            Instruction::SMB1 => seq!['S', 'M', 'B', '1'],
            Instruction::SMB2 => seq!['S', 'M', 'B', '2'],
            Instruction::SMB3 => seq!['S', 'M', 'B', '3'],
            Instruction::SMB4 => seq!['S', 'M', 'B', '4'],
            Instruction::SMB5 => seq!['S', 'M', 'B', '5'],
            Instruction::SMB6 => seq!['S', 'M', 'B', '6'],
            Instruction::SMB7 => seq!['S', 'M', 'B', '7'],
            Instruction::STA => seq!['S', 'T', 'A'],
            Instruction::STP => seq!['S', 'T', 'P'],
            Instruction::STX => seq!['S', 'T', 'X'],
            Instruction::STY => seq!['S', 'T', 'Y'],
            Instruction::STZ => seq!['S', 'T', 'Z'],
            Instruction::TAX => seq!['T', 'A', 'X'],
            Instruction::TAY => seq!['T', 'A', 'Y'],
            Instruction::TRB => seq!['T', 'R', 'B'],
            Instruction::TSB => seq!['T', 'S', 'B'],
            Instruction::TSX => seq!['T', 'S', 'X'],
            Instruction::TXA => seq!['T', 'X', 'A'],
            Instruction::TXS => seq!['T', 'X', 'S'],
            Instruction::TYA => seq!['T', 'Y', 'A'],
            Instruction::WAI => seq!['W', 'A', 'I'],
        }
    }

    /// The mnemonic of the instruction.
    pub fn name(&self) -> (r: &'static str)
        ensures
            r@ == self.name_chars(),
    {
        match self {
            Instruction::ADC => {
                proof {
                    reveal_strlit("ADC");
                }
                "ADC"
            },
            Instruction::AND => {
                proof {
                    reveal_strlit("AND");
                }
                "AND"
            },
            Instruction::ASL => {
                proof {
                    reveal_strlit("ASL");
                }
                "ASL"
            },
            Instruction::BBR0 => {
                proof {
                    reveal_strlit("BBR0");
                }
                "BBR0"
            },
            Instruction::BBR1 => {
                proof {
                    reveal_strlit("BBR1");
                }
                "BBR1"
            },
            Instruction::BBR2 => {
                proof {
                    reveal_strlit("BBR2");
                }
                "BBR2"
            },
            Instruction::BBR3 => {
                proof {
                    reveal_strlit("BBR3");
                }
                "BBR3"
            },
            Instruction::BBR4 => {
                proof {
                    reveal_strlit("BBR4");
                }
                "BBR4"
            },
            Instruction::BBR5 => {
                proof {
                    reveal_strlit("BBR5");
                }
                "BBR5"
            },
            Instruction::BBR6 => {
                proof {
                    reveal_strlit("BBR6");
                }
                "BBR6"
            },
            Instruction::BBR7 => {
                proof {
                    reveal_strlit("BBR7");
                }
                "BBR7"
            },
            Instruction::BBS0 => {
                proof {
                    reveal_strlit("BBS0");
                }
                "BBS0"
            },
            Instruction::BBS1 => {
                proof {
                    reveal_strlit("BBS1");
                }
                "BBS1"
            },
            Instruction::BBS2 => {
                proof {
                    reveal_strlit("BBS2");
                }
                "BBS2"
            },
            Instruction::BBS3 => {
                proof {
                    reveal_strlit("BBS3");
                }
                "BBS3"
            },
            Instruction::BBS4 => {
                proof {
                    reveal_strlit("BBS4");
                }
                "BBS4"
            },
            Instruction::BBS5 => {
                proof {
                    reveal_strlit("BBS5");
                }
                "BBS5"
            },
            Instruction::BBS6 => {
                proof {
                    reveal_strlit("BBS6");
                }
                "BBS6"
            },
            Instruction::BBS7 => {
                proof {
                    reveal_strlit("BBS7");
                }
                "BBS7"
            },
            Instruction::BCC => {
                proof {
                    reveal_strlit("BCC");
                }
                "BCC"
            },
            Instruction::BCS => {
                proof {
                    reveal_strlit("BCS");
                }
                "BCS"
            },
            Instruction::BEQ => {
                proof {
                    reveal_strlit("BEQ");
                }
                "BEQ"
            },
            Instruction::BIT => {
                proof {
                    reveal_strlit("BIT");
                }
                "BIT"
            },
            Instruction::BMI => {
                proof {
                    reveal_strlit("BMI");
                }
                "BMI"
            },
            Instruction::BNE => {
                proof {
                    reveal_strlit("BNE");
                }
                "BNE"
            },
            Instruction::BPL => {
                proof {
                    reveal_strlit("BPL");
                }
                "BPL"
            },
            Instruction::BRA => {
                proof {
                    reveal_strlit("BRA");
                }
                "BRA"
            },
            Instruction::BRK => {
                proof {
                    reveal_strlit("BRK");
                }
                "BRK"
            },
            Instruction::BVC => {
                proof {
                    reveal_strlit("BVC");
                }
                "BVC"
            },
            Instruction::BVS => {
                proof {
                    reveal_strlit("BVS");
                }
                "BVS"
            },
            Instruction::CLC => {
                proof {
                    reveal_strlit("CLC");
                }
                "CLC"
            },
            Instruction::CLD => {
                proof {
                    reveal_strlit("CLD");
                }
                "CLD"
            },
            Instruction::CLI => {
                proof {
                    reveal_strlit("CLI");
                }
                "CLI"
            },
            Instruction::CLV => {
                proof {
                    reveal_strlit("CLV");
                }
                "CLV"
            },
            Instruction::CMP => {
                proof {
                    reveal_strlit("CMP");
                }
                "CMP"
            },
            Instruction::CPX => {
                proof {
                    reveal_strlit("CPX");
                }
                "CPX"
            },
            Instruction::CPY => {
                proof {
                    reveal_strlit("CPY");
                }
                "CPY"
            },
            Instruction::DEC => {
                proof {
                    reveal_strlit("DEC");
                }
                "DEC"
            },
            Instruction::DEX => {
                proof {
                    reveal_strlit("DEX");
                }
                "DEX"
            },
            Instruction::DEY => {
                proof {
                    reveal_strlit("DEY");
                }
                "DEY"
            },
            Instruction::EOR => {
                proof {
                    reveal_strlit("EOR");
                }
                "EOR"
            },
            Instruction::ILL => {
                proof {
                    reveal_strlit("ILL");
                }
                "ILL"
            },
            Instruction::INC => {
                proof {
                    reveal_strlit("INC");
                }
                "INC"
            },
            Instruction::INX => {
                proof {
                    reveal_strlit("INX");
                }
                "INX"
            },
            Instruction::INY => {
                proof {
                    reveal_strlit("INY");
                }
                "INY"
            },
            Instruction::JMP => {
                proof {
                    reveal_strlit("JMP");
                }
                "JMP"
            },
            Instruction::JSR => {
                proof {
                    reveal_strlit("JSR");
                }
                "JSR"
            },
            Instruction::LDA => {
                proof {
                    reveal_strlit("LDA");
                }
                "LDA"
            },
            Instruction::LDX => {
                proof {
                    reveal_strlit("LDX");
                }
                "LDX"
            },
            Instruction::LDY => {
                proof {
                    reveal_strlit("LDY");
                }
                "LDY"
            },
            Instruction::LSR => {
                proof {
                    reveal_strlit("LSR");
                }
                "LSR"
            },
            Instruction::NOP => {
                proof {
                    reveal_strlit("NOP");
                }
                "NOP"
            },
            Instruction::ORA => {
                proof {
                    reveal_strlit("ORA");
                }
                "ORA"
            },
            Instruction::PHA => {
                proof {
                    reveal_strlit("PHA");
                }
                "PHA"
            },
            Instruction::PHP => {
                proof {
                    reveal_strlit("PHP");
                }
                "PHP"
            },
            Instruction::PHX => {
                proof {
                    reveal_strlit("PHX");
                }
                "PHX"
            },
            Instruction::PHY => {
                proof {
                    reveal_strlit("PHY");
                }
                "PHY"
            },
            Instruction::PLA => {
                proof {
                    reveal_strlit("PLA");
                }
                "PLA"
            },
            Instruction::PLP => {
                proof {
                    reveal_strlit("PLP");
                }
                "PLP"
            },
            Instruction::PLX => {
                proof {
                    reveal_strlit("PLX");
                }
                "PLX"
            },
            Instruction::PLY => {
                proof {
                    reveal_strlit("PLY");
                }
                "PLY"
            },
            Instruction::RMB0 => {
                proof {
                    reveal_strlit("RMB0");
                }
                "RMB0"
            },
            Instruction::RMB1 => {
                proof {
                    reveal_strlit("RMB1");
                }
                "RMB1"
            },
            Instruction::RMB2 => {
                proof {
                    reveal_strlit("RMB2");
                }
                "RMB2"
            },
            Instruction::RMB3 => {
                proof {
                    reveal_strlit("RMB3");
                }
                "RMB3"
            },
            Instruction::RMB4 => {
                proof {
                    reveal_strlit("RMB4");
                }
                "RMB4"
            },
            Instruction::RMB5 => {
                proof {
                    reveal_strlit("RMB5");
                }
                "RMB5"
            },
            Instruction::RMB6 => {
                proof {
                    reveal_strlit("RMB6");
                }
                "RMB6"
            },
            Instruction::RMB7 => {
                proof {
                    reveal_strlit("RMB7");
                }
                "RMB7"
            },
            Instruction::ROL => {
                proof {
                    reveal_strlit("ROL");
                }
                "ROL"
            },
            Instruction::ROR => {
                proof {
                    reveal_strlit("ROR");
                }
                "ROR"
            },
            Instruction::RTI => {
                proof {
                    reveal_strlit("RTI");
                }
                "RTI"
            },
            Instruction::RTS => {
                proof {
                    reveal_strlit("RTS");
                }
                "RTS"
            },
            Instruction::SBC => {
                proof {
                    reveal_strlit("SBC");
                }
                "SBC"
            },
            Instruction::SEC => {
                proof {
                    reveal_strlit("SEC");
                }
                "SEC"
            },
            Instruction::SED => {
                proof {
                    reveal_strlit("SED");
                }
                "SED"
            },
            Instruction::SEI => {
                proof {
                    reveal_strlit("SEI");
                }
                "SEI"
            },
            Instruction::SMB0 => {
                proof {
                    reveal_strlit("SMB0");
                }
                "SMB0"
            },
            Instruction::SMB1 => {
                proof {
                    reveal_strlit("SMB1");
                }
                "SMB1"
            },
            Instruction::SMB2 => {
                proof {
                    reveal_strlit("SMB2");
                }
                "SMB2"
            },
            Instruction::SMB3 => {
                proof {
                    reveal_strlit("SMB3");
                }
                "SMB3"
            },
            Instruction::SMB4 => {
                proof {
                    reveal_strlit("SMB4");
                }
                "SMB4"
            },
            Instruction::SMB5 => {
                proof {
                    reveal_strlit("SMB5");
                }
                "SMB5"
            },
            Instruction::SMB6 => {
                proof {
                    reveal_strlit("SMB6");
                }
                "SMB6"
            },
            Instruction::SMB7 => {
                proof {
                    reveal_strlit("SMB7");
                }
                "SMB7"
            },
            Instruction::STA => {
                proof {
                    reveal_strlit("STA");
                }
                "STA"
            },
            Instruction::STP => {
                proof {
                    reveal_strlit("STP");
                }
                "STP"
            },
            Instruction::STX => {
                proof {
                    reveal_strlit("STX");
                }
                "STX"
            },
            Instruction::STY => {
                proof {
                    reveal_strlit("STY");
                }
                "STY"
            },
            Instruction::STZ => {
                proof {
                    reveal_strlit("STZ");
                }
                "STZ"
            },
            Instruction::TAX => {
                proof {
                    reveal_strlit("TAX");
                }
                "TAX"
            },
            Instruction::TAY => {
                proof {
                    reveal_strlit("TAY");
                }
                "TAY"
            },
            Instruction::TRB => {
                proof {
                    reveal_strlit("TRB");
                }
                "TRB"
            },
            Instruction::TSB => {
                proof {
                    reveal_strlit("TSB");
                }
                "TSB"
            },
            Instruction::TSX => {
                proof {
                    reveal_strlit("TSX");
                }
                "TSX"
            },
            Instruction::TXA => {
                proof {
                    reveal_strlit("TXA");
                }
                "TXA"
            },
            Instruction::TXS => {
                proof {
                    reveal_strlit("TXS");
                }
                "TXS"
            },
            Instruction::TYA => {
                proof {
                    reveal_strlit("TYA");
                }
                "TYA"
            },
            Instruction::WAI => {
                proof {
                    reveal_strlit("WAI");
                }
                "WAI"
            },
        }
    }
}

} // verus!
