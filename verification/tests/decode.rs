use chip8::instr::{parse, Instruction};

#[test]
fn decodes_flow_control() {
    assert_eq!(parse(0x00e0), Some(Instruction::Cls));
    assert_eq!(parse(0x00ee), Some(Instruction::Ret));
    assert_eq!(parse(0x1abc), Some(Instruction::Jp { addr: 0xabc }));
    assert_eq!(parse(0x2345), Some(Instruction::Call { addr: 0x345 }));
    assert_eq!(parse(0xb123), Some(Instruction::JpV0 { addr: 0x123 }));
}

#[test]
fn decodes_skips() {
    assert_eq!(parse(0x3a7f), Some(Instruction::SeByte { x: 0xa, byte: 0x7f }));
    assert_eq!(parse(0x4a7f), Some(Instruction::SneByte { x: 0xa, byte: 0x7f }));
    assert_eq!(parse(0x5ab0), Some(Instruction::SeReg { x: 0xa, y: 0xb }));
    assert_eq!(parse(0x9ab0), Some(Instruction::SneReg { x: 0xa, y: 0xb }));
    assert_eq!(parse(0xe19e), Some(Instruction::Skp { x: 1 }));
    assert_eq!(parse(0xe1a1), Some(Instruction::Sknp { x: 1 }));
}

#[test]
fn decodes_loads_and_arithmetic() {
    assert_eq!(parse(0x6c22), Some(Instruction::LdByte { x: 0xc, byte: 0x22 }));
    assert_eq!(parse(0x7c22), Some(Instruction::AddByte { x: 0xc, byte: 0x22 }));
    assert_eq!(parse(0x8120), Some(Instruction::LdReg { x: 1, y: 2 }));
    assert_eq!(parse(0x8121), Some(Instruction::Or { x: 1, y: 2 }));
    assert_eq!(parse(0x8122), Some(Instruction::And { x: 1, y: 2 }));
    assert_eq!(parse(0x8123), Some(Instruction::Xor { x: 1, y: 2 }));
    assert_eq!(parse(0x8124), Some(Instruction::AddReg { x: 1, y: 2 }));
    assert_eq!(parse(0x8125), Some(Instruction::Sub { x: 1, y: 2 }));
    assert_eq!(parse(0x8126), Some(Instruction::Shr { x: 1 }));
    assert_eq!(parse(0x8127), Some(Instruction::Subn { x: 1, y: 2 }));
    assert_eq!(parse(0x812e), Some(Instruction::Shl { x: 1 }));
}

#[test]
fn decodes_memory_and_misc() {
    assert_eq!(parse(0xa321), Some(Instruction::LdI { addr: 0x321 }));
    assert_eq!(parse(0xc4ff), Some(Instruction::Rnd { x: 4, byte: 0xff }));
    assert_eq!(parse(0xd125), Some(Instruction::Drw { x: 1, y: 2, n: 5 }));
    assert_eq!(parse(0xf107), Some(Instruction::LdVxDt { x: 1 }));
    assert_eq!(parse(0xf10a), Some(Instruction::LdVxK { x: 1 }));
    assert_eq!(parse(0xf115), Some(Instruction::LdDt { x: 1 }));
    assert_eq!(parse(0xf118), Some(Instruction::LdSt { x: 1 }));
    assert_eq!(parse(0xf11e), Some(Instruction::AddI { x: 1 }));
    assert_eq!(parse(0xf129), Some(Instruction::LdFont { x: 1 }));
    assert_eq!(parse(0xf133), Some(Instruction::LdBcd { x: 1 }));
    assert_eq!(parse(0xf155), Some(Instruction::SaveRegs { x: 1 }));
    assert_eq!(parse(0xf165), Some(Instruction::RestoreRegs { x: 1 }));
}

#[test]
fn rejects_undocumented_patterns() {
    assert_eq!(parse(0x0000), None);
    assert_eq!(parse(0x00e1), None);
    assert_eq!(parse(0x0123), None);
    assert_eq!(parse(0x5231), None);
    assert_eq!(parse(0x8128), None);
    assert_eq!(parse(0x812f), None);
    assert_eq!(parse(0x9231), None);
    assert_eq!(parse(0xe000), None);
    assert_eq!(parse(0xe19f), None);
    assert_eq!(parse(0xf100), None);
    assert_eq!(parse(0xf166), None);
    assert_eq!(parse(0xffff), None);
}
