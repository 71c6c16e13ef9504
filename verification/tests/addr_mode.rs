use emu6502::cpu6502::model::addr_mode::{AddrMode, AddrModeWithAddr, ParseAddrModeError};
use emu6502::cpu6502::model::disasm;

#[test]
fn test_addr_mode_with_addr_from_str() {
    let res = AddrModeWithAddr::from_str("$AAAA");
    assert_eq!(Ok(AddrModeWithAddr { mode: AddrMode::Absolute, arg: 0xaaaa, arg_size: 2 }), res);
    let res = AddrModeWithAddr::from_str("($AAAA,X)");
    assert_eq!(Ok(AddrModeWithAddr { mode: AddrMode::AbsoluteIndexedIndirect, arg: 0xaaaa, arg_size: 2 }), res);
    let res = AddrModeWithAddr::from_str("$AAAA,X");
    assert_eq!(Ok(AddrModeWithAddr { mode: AddrMode::AbsoluteIndexedWithX, arg: 0xaaaa, arg_size: 2 }), res);
    let res = AddrModeWithAddr::from_str("$AAAA,Y");
    assert_eq!(Ok(AddrModeWithAddr { mode: AddrMode::AbsoluteIndexedWithY, arg: 0xaaaa, arg_size: 2 }), res);
    let res = AddrModeWithAddr::from_str("($AAAA)");
    assert_eq!(Ok(AddrModeWithAddr { mode: AddrMode::AbsoluteIndirect, arg: 0xaaaa, arg_size: 2 }), res);
    let res = AddrModeWithAddr::from_str("#$AA");
    assert_eq!(Ok(AddrModeWithAddr { mode: AddrMode::Immediate, arg: 0xaa, arg_size: 1 }), res);
    let res = AddrModeWithAddr::from_str("#$AA");
    assert_eq!(Ok(AddrModeWithAddr { mode: AddrMode::Immediate, arg: 0xaa, arg_size: 1 }), res);
    let res = AddrModeWithAddr::from_str("$AA");
    assert_eq!(Ok(AddrModeWithAddr { mode: AddrMode::ZeroPage, arg: 0xaa, arg_size: 1 }), res);
    let res = AddrModeWithAddr::from_str("($AA,X)");
    assert_eq!(Ok(AddrModeWithAddr { mode: AddrMode::ZeroPageIndexedIndirect, arg: 0xaa, arg_size: 1 }), res);
    let res = AddrModeWithAddr::from_str("$AA,X");
    assert_eq!(Ok(AddrModeWithAddr { mode: AddrMode::ZeroPageIndexedWithX, arg: 0xaa, arg_size: 1 }), res);
    let res = AddrModeWithAddr::from_str("$AA,Y");
    assert_eq!(Ok(AddrModeWithAddr { mode: AddrMode::ZeroPageIndexedWithY, arg: 0xaa, arg_size: 1 }), res);
    let res = AddrModeWithAddr::from_str("($AA)");
    assert_eq!(Ok(AddrModeWithAddr { mode: AddrMode::ZeroPageIndirect, arg: 0xaa, arg_size: 1 }), res);
    let res = AddrModeWithAddr::from_str("($AA),Y");
    assert_eq!(Ok(AddrModeWithAddr { mode: AddrMode::ZeroPageIndirectIndexedWithY, arg: 0xaa, arg_size: 1 }), res);
}

#[test]
fn addr_mode_with_addr_rejects_bad_digits() {
    let res = AddrModeWithAddr::from_str("$GGGG");
    assert_eq!(
        Err(ParseAddrModeError { s: "ParseIntError occurred: invalid digit found in string".to_string() }),
        res
    );
    let res = AddrModeWithAddr::from_str("#$+A");
    assert_eq!(Ok(AddrModeWithAddr { mode: AddrMode::Immediate, arg: 0x0a, arg_size: 1 }), res);
}

#[test]
fn addr_mode_with_addr_rejects_unknown_shapes() {
    let res = AddrModeWithAddr::from_str("hello");
    assert_eq!(Err(ParseAddrModeError { s: "hello".to_string() }), res);
    let err = res.unwrap_err();
    assert_eq!("ParseAddrModeError: Unable to parse hello", err.message());
}

#[test]
fn addr_mode_from_str_shapes() {
    assert_eq!(Ok(AddrMode::Absolute), AddrMode::from_str("$1234"));
    assert_eq!(Ok(AddrMode::AbsoluteIndexedIndirect), AddrMode::from_str("($1234,X)"));
    assert_eq!(Ok(AddrMode::AbsoluteIndexedWithX), AddrMode::from_str("$1234,X"));
    assert_eq!(Ok(AddrMode::AbsoluteIndexedWithY), AddrMode::from_str("$1234,Y"));
    assert_eq!(Ok(AddrMode::AbsoluteIndirect), AddrMode::from_str("($1234)"));
    assert_eq!(Ok(AddrMode::Immediate), AddrMode::from_str("#$12"));
    assert_eq!(Ok(AddrMode::ZeroPage), AddrMode::from_str("$12"));
    assert_eq!(Ok(AddrMode::ZeroPageIndexedIndirect), AddrMode::from_str("($12,X)"));
    assert_eq!(Ok(AddrMode::ZeroPageIndexedWithX), AddrMode::from_str("$12,X"));
    assert_eq!(Ok(AddrMode::ZeroPageIndexedWithY), AddrMode::from_str("$12,Y"));
    assert_eq!(Ok(AddrMode::ZeroPageIndirect), AddrMode::from_str("($12)"));
    assert_eq!(Ok(AddrMode::ZeroPageIndirectIndexedWithY), AddrMode::from_str("($12),Y"));
    // a bare mnemonic has an implied operand
    assert_eq!(Ok(AddrMode::Implied), AddrMode::from_str("NOP"));
    assert_eq!(Err(ParseAddrModeError { s: "$123456,X".to_string() }), AddrMode::from_str("$123456,X"));
    assert_eq!(Err(ParseAddrModeError { s: "nonsense".to_string() }), AddrMode::from_str("nonsense"));
}

#[test]
fn addr_mode_agrees_with_the_argument_parser() {
    for s in ["$AAAA", "($AAAA,X)", "$AAAA,X", "$AAAA,Y", "($AAAA)", "#$AA", "$AA", "($AA,X)", "$AA,X", "$AA,Y", "($AA)", "($AA),Y"] {
        assert_eq!(Ok(AddrModeWithAddr::from_str(s).unwrap().mode), AddrMode::from_str(s));
    }
}

#[test]
fn addr_mode_cycles() {
    assert_eq!(4, AddrMode::Absolute.get_cycles());
    assert_eq!(2, AddrMode::Immediate.get_cycles());
}

#[test]
fn disassembled_operands_parse_back() {
    let cases: [(&[u8], AddrMode, u16, u8); 6] = [
        (&[0x6c, 0x34, 0x12], AddrMode::AbsoluteIndirect, 0x1234, 2),
        (&[0x7c, 0xcd, 0xab], AddrMode::AbsoluteIndexedIndirect, 0xabcd, 2),
        (&[0xbd, 0x00, 0xc0], AddrMode::AbsoluteIndexedWithX, 0xc000, 2),
        (&[0xa9, 0x5a, 0x00], AddrMode::Immediate, 0x5a, 1),
        (&[0xc1, 0x4f, 0x00], AddrMode::ZeroPageIndexedIndirect, 0x4f, 1),
        (&[0xb6, 0x0e, 0x00], AddrMode::ZeroPageIndexedWithY, 0x0e, 1),
    ];
    for (code, mode, arg, arg_size) in cases {
        let text = disasm(0x0200, code);
        let operand = &text[text.find(' ').unwrap() + 1..];
        assert_eq!(Ok(AddrModeWithAddr { mode, arg, arg_size }), AddrModeWithAddr::from_str(operand));
    }
}
