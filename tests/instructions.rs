use chip8::decode::nibbles;
use chip8::{instruction_parser, u8_to_8_bools, Chip8Error, Instruction};

#[test]
fn u8_to_bool_checks() {
    let t1 = 1;
    let res = u8_to_8_bools(t1);
    assert_eq!(res, [false, false, false, false, false, false, false, true]);

    let t2 = 3;
    let res = u8_to_8_bools(t2);
    assert_eq!(res, [false, false, false, false, false, false, true, true]);
    let t3 = 255;
    let res = u8_to_8_bools(t3);
    assert_eq!(res, [true, true, true, true, true, true, true, true]);
}

#[test]
fn bit_expansion_most_significant_first() {
    assert_eq!(u8_to_8_bools(0b1000_0000), [true, false, false, false, false, false, false, false]);
    assert_eq!(u8_to_8_bools(0b1010_0101), [true, false, true, false, false, true, false, true]);
    assert_eq!(u8_to_8_bools(0), [false; 8]);
}

#[test]
fn parser_decodes_each_family() {
    assert_eq!(instruction_parser((0x00, 0xE0)), Ok(Instruction::ClearScreen));
    assert_eq!(instruction_parser((0x00, 0xEE)), Ok(Instruction::Return));
    assert_eq!(instruction_parser((0x1A, 0xBC)), Ok(Instruction::Jump { addr: 0xABC }));
    assert_eq!(instruction_parser((0x23, 0x45)), Ok(Instruction::Call { addr: 0x345 }));
    assert_eq!(instruction_parser((0x3A, 0x12)), Ok(Instruction::SkipIfEqualImm { x: 0xA, kk: 0x12 }));
    assert_eq!(instruction_parser((0x4B, 0x34)), Ok(Instruction::SkipIfNotEqualImm { x: 0xB, kk: 0x34 }));
    assert_eq!(instruction_parser((0x51, 0x20)), Ok(Instruction::SkipIfEqualReg { x: 1, y: 2 }));
    assert_eq!(instruction_parser((0x6C, 0xFF)), Ok(Instruction::LoadImm { x: 0xC, kk: 0xFF }));
    assert_eq!(instruction_parser((0x7D, 0x01)), Ok(Instruction::AddImm { x: 0xD, kk: 0x01 }));
    assert_eq!(instruction_parser((0x81, 0x20)), Ok(Instruction::Move { x: 1, y: 2 }));
    assert_eq!(instruction_parser((0x81, 0x21)), Ok(Instruction::Or { x: 1, y: 2 }));
    assert_eq!(instruction_parser((0x81, 0x22)), Ok(Instruction::And { x: 1, y: 2 }));
    assert_eq!(instruction_parser((0x81, 0x23)), Ok(Instruction::Xor { x: 1, y: 2 }));
    assert_eq!(instruction_parser((0x81, 0x24)), Ok(Instruction::AddReg { x: 1, y: 2 }));
    assert_eq!(instruction_parser((0x81, 0x25)), Ok(Instruction::SubReg { x: 1, y: 2 }));
    assert_eq!(instruction_parser((0x81, 0x26)), Ok(Instruction::ShiftRight { x: 1 }));
    assert_eq!(instruction_parser((0x81, 0x2E)), Ok(Instruction::ShiftLeft { x: 1 }));
    assert_eq!(instruction_parser((0x91, 0x20)), Ok(Instruction::SkipIfNotEqualReg { x: 1, y: 2 }));
    assert_eq!(instruction_parser((0xA1, 0x23)), Ok(Instruction::SetAddress { addr: 0x123 }));
    assert_eq!(instruction_parser((0xC5, 0x0F)), Ok(Instruction::Random { x: 5, kk: 0x0F }));
    assert_eq!(instruction_parser((0xD1, 0x2F)), Ok(Instruction::Draw { x: 1, y: 2, n: 0xF }));
    assert_eq!(instruction_parser((0xF3, 0x15)), Ok(Instruction::SetDelayTimer { x: 3 }));
    assert_eq!(instruction_parser((0xF3, 0x1E)), Ok(Instruction::AddAddress { x: 3 }));
    assert_eq!(instruction_parser((0xF3, 0x33)), Ok(Instruction::StoreBcd { x: 3 }));
    assert_eq!(instruction_parser((0xF3, 0x55)), Ok(Instruction::StoreRegisters { x: 3 }));
    assert_eq!(instruction_parser((0xF3, 0x65)), Ok(Instruction::LoadRegisters { x: 3 }));
}

#[test]
fn parser_rejects_unlisted_patterns() {
    assert_eq!(
        instruction_parser((0x00, 0x01)),
        Err(Chip8Error::UnknownOpcode { n1: 0, n2: 0, n3: 0, n4: 1 })
    );
    assert_eq!(
        instruction_parser((0x51, 0x21)),
        Err(Chip8Error::UnknownOpcode { n1: 5, n2: 1, n3: 2, n4: 1 })
    );
    assert_eq!(
        instruction_parser((0xB1, 0x23)),
        Err(Chip8Error::UnknownOpcode { n1: 0xB, n2: 1, n3: 2, n4: 3 })
    );
    assert_eq!(
        instruction_parser((0xF1, 0x07)),
        Err(Chip8Error::UnknownOpcode { n1: 0xF, n2: 1, n3: 0, n4: 7 })
    );
}

#[test]
fn nibbles_split_high_byte_first() {
    assert_eq!(nibbles(0xD1, 0x2F), (0xD, 0x1, 0x2, 0xF));
    assert_eq!(nibbles(0x00, 0x00), (0, 0, 0, 0));
    assert_eq!(nibbles(0xFF, 0xFF), (0xF, 0xF, 0xF, 0xF));
}
