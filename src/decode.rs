use vstd::prelude::*;

use crate::error::Chip8Error;

verus! {

/// One decoded instruction. Register operands are in `0..16`, addresses in
/// `0..4096` and sprite heights in `0..16` (see `Instruction::wf`).
#[derive(Debug, Clone, Copy, PartialEq, Eq, Structural)]
pub enum Instruction {
    /// `00E0`
    ClearScreen,
    /// `00EE`
    Return,
    /// `1nnn`
    Jump { addr: u16 },
    /// `2nnn`
    Call { addr: u16 },
    /// `3xkk`
    SkipIfEqualImm { x: u8, kk: u8 },
    /// `4xkk`
    SkipIfNotEqualImm { x: u8, kk: u8 },
    /// `5xy0`
    SkipIfEqualReg { x: u8, y: u8 },
    /// `6xkk`
    LoadImm { x: u8, kk: u8 },
    /// `7xkk`
    AddImm { x: u8, kk: u8 },
    /// `8xy0`
    Move { x: u8, y: u8 },
    /// `8xy1`
    Or { x: u8, y: u8 },
    /// `8xy2`
    And { x: u8, y: u8 },
    /// `8xy3`
    Xor { x: u8, y: u8 },
    /// `8xy4`
    AddReg { x: u8, y: u8 },
    /// `8xy5`
    SubReg { x: u8, y: u8 },
    /// `8xy6`
    ShiftRight { x: u8 },
    /// `8xyE`
    ShiftLeft { x: u8 },
    /// `9xy0`
    SkipIfNotEqualReg { x: u8, y: u8 },
    /// `Annn`
    SetAddress { addr: u16 },
    /// `Cxkk`
    Random { x: u8, kk: u8 },
    /// `Dxyn`
    Draw { x: u8, y: u8, n: u8 },
    /// `Fx15`
    SetDelayTimer { x: u8 },
    /// `Fx1E`
    AddAddress { x: u8 },
    /// `Fx33`
    StoreBcd { x: u8 },
    /// `Fx55`
    StoreRegisters { x: u8 },
    /// `Fx65`
    LoadRegisters { x: u8 },
}

pub open spec fn high_nibble(b: u8) -> u8 {
    (b / 16) as u8
}

pub open spec fn low_nibble(b: u8) -> u8 {
    (b % 16) as u8
}

/// The twelve-bit address `nnn` held by the low nibble of the first byte and the second byte.
pub open spec fn address_of(b1: u8, b2: u8) -> u16 {
    (low_nibble(b1) * 256 + b2) as u16
}

impl Instruction {
    /// Operands are in range: registers below 16, addresses below 4096, heights below 16.
    pub open spec fn wf(self) -> bool {
        match self {
            Instruction::ClearScreen | Instruction::Return => true,
            Instruction::Jump { addr } | Instruction::Call { addr } | Instruction::SetAddress {
                addr,
            } => addr < 4096,
            Instruction::SkipIfEqualImm { x, kk } | Instruction::SkipIfNotEqualImm { x, kk }
            | Instruction::LoadImm { x, kk } | Instruction::AddImm { x, kk }
            | Instruction::Random { x, kk } => x < 16,
            Instruction::SkipIfEqualReg { x, y } | Instruction::Move { x, y } | Instruction::Or {
                x,
                y,
            } | Instruction::And { x, y } | Instruction::Xor { x, y } | Instruction::AddReg { x, y }
            | Instruction::SubReg { x, y } | Instruction::SkipIfNotEqualReg { x, y } => x < 16 && y
                < 16,
            Instruction::Draw { x, y, n } => x < 16 && y < 16 && n < 16,
            Instruction::ShiftRight { x } | Instruction::ShiftLeft { x }
            | Instruction::SetDelayTimer { x } | Instruction::AddAddress { x }
            | Instruction::StoreBcd { x } | Instruction::StoreRegisters { x }
            | Instruction::LoadRegisters { x } => x < 16,
        }
    }
}

/// The instruction named by the nibbles `(n1, n2, n3, n4)` of an instruction word whose
/// second byte is `kk`, or the unknown-opcode error.
pub open spec fn decode_nibbles(n1: u8, n2: u8, n3: u8, n4: u8, kk: u8, addr: u16) -> Result<
    Instruction,
    Chip8Error,
> {
    if n1 == 0 && n2 == 0 && n3 == 0xE && n4 == 0 {
        Ok(Instruction::ClearScreen)
    } else if n1 == 0 && n2 == 0 && n3 == 0xE && n4 == 0xE {
        Ok(Instruction::Return)
    } else if n1 == 1 {
        Ok(Instruction::Jump { addr })
    } else if n1 == 2 {
        Ok(Instruction::Call { addr })
    } else if n1 == 3 {
        Ok(Instruction::SkipIfEqualImm { x: n2, kk })
    } else if n1 == 4 {
        Ok(Instruction::SkipIfNotEqualImm { x: n2, kk })
    } else if n1 == 5 && n4 == 0 {
        Ok(Instruction::SkipIfEqualReg { x: n2, y: n3 })
    } else if n1 == 6 {
        Ok(Instruction::LoadImm { x: n2, kk })
    } else if n1 == 7 {
        Ok(Instruction::AddImm { x: n2, kk })
    } else if n1 == 8 && n4 == 0 {
        Ok(Instruction::Move { x: n2, y: n3 })
    } else if n1 == 8 && n4 == 1 {
        Ok(Instruction::Or { x: n2, y: n3 })
    } else if n1 == 8 && n4 == 2 {
        Ok(Instruction::And { x: n2, y: n3 })
    } else if n1 == 8 && n4 == 3 {
        Ok(Instruction::Xor { x: n2, y: n3 })
    } else if n1 == 8 && n4 == 4 {
        Ok(Instruction::AddReg { x: n2, y: n3 })
    } else if n1 == 8 && n4 == 5 {
        Ok(Instruction::SubReg { x: n2, y: n3 })
    } else if n1 == 8 && n4 == 6 {
        Ok(Instruction::ShiftRight { x: n2 })
    } else if n1 == 8 && n4 == 0xE {
        Ok(Instruction::ShiftLeft { x: n2 })
    } else if n1 == 9 && n4 == 0 {
        Ok(Instruction::SkipIfNotEqualReg { x: n2, y: n3 })
    } else if n1 == 0xA {
        Ok(Instruction::SetAddress { addr })
    } else if n1 == 0xC {
        Ok(Instruction::Random { x: n2, kk })
    } else if n1 == 0xD {
        Ok(Instruction::Draw { x: n2, y: n3, n: n4 })
    } else if n1 == 0xF && n3 == 1 && n4 == 5 {
        Ok(Instruction::SetDelayTimer { x: n2 })
    } else if n1 == 0xF && n3 == 1 && n4 == 0xE {
        Ok(Instruction::AddAddress { x: n2 })
    } else if n1 == 0xF && n3 == 3 && n4 == 3 {
        Ok(Instruction::StoreBcd { x: n2 })
    } else if n1 == 0xF && n3 == 5 && n4 == 5 {
        Ok(Instruction::StoreRegisters { x: n2 })
    } else if n1 == 0xF && n3 == 6 && n4 == 5 {
        Ok(Instruction::LoadRegisters { x: n2 })
    } else {
        Err(Chip8Error::UnknownOpcode { n1, n2, n3, n4 })
    }
}

/// The instruction that the word `b1 b2` (high byte first) encodes.
pub open spec fn decode(b1: u8, b2: u8) -> Result<Instruction, Chip8Error> {
    decode_nibbles(
        high_nibble(b1),
        low_nibble(b1),
        high_nibble(b2),
        low_nibble(b2),
        b2,
        address_of(b1, b2),
    )
}

/// Splits an instruction word into its four nibbles, high byte first.
pub fn nibbles(b1: u8, b2: u8) -> (r: (u8, u8, u8, u8))
    ensures
        r == (high_nibble(b1), low_nibble(b1), high_nibble(b2), low_nibble(b2)),
{
    (b1 / 16, b1 % 16, b2 / 16, b2 % 16)
}

/// Decodes the instruction word `raw_data.0 raw_data.1`; a word that names no
/// instruction gives `UnknownOpcode` with its four nibbles.
pub fn instruction_parser(raw_data: (u8, u8)) -> (r: Result<Instruction, Chip8Error>)
    ensures
        r == decode(raw_data.0, raw_data.1),
        r matches Ok(ins) ==> ins.wf(),
{
    let (b1, b2) = raw_data;
    let (n1, n2, n3, n4) = nibbles(b1, b2);
    let kk = b2;
    let addr: u16 = (n2 as u16) * 256 + b2 as u16;
    match (n1, n2, n3, n4) {
        (0, 0, 0xE, 0) => Ok(Instruction::ClearScreen),
        (0, 0, 0xE, 0xE) => Ok(Instruction::Return),
        (1, _, _, _) => Ok(Instruction::Jump { addr }),
        (2, _, _, _) => Ok(Instruction::Call { addr }),
        (3, _, _, _) => Ok(Instruction::SkipIfEqualImm { x: n2, kk }),
        (4, _, _, _) => Ok(Instruction::SkipIfNotEqualImm { x: n2, kk }),
        (5, _, _, 0) => Ok(Instruction::SkipIfEqualReg { x: n2, y: n3 }),
        (6, _, _, _) => Ok(Instruction::LoadImm { x: n2, kk }),
        (7, _, _, _) => Ok(Instruction::AddImm { x: n2, kk }),
        (8, _, _, 0) => Ok(Instruction::Move { x: n2, y: n3 }),
        (8, _, _, 1) => Ok(Instruction::Or { x: n2, y: n3 }),
        (8, _, _, 2) => Ok(Instruction::And { x: n2, y: n3 }),
        (8, _, _, 3) => Ok(Instruction::Xor { x: n2, y: n3 }),
        (8, _, _, 4) => Ok(Instruction::AddReg { x: n2, y: n3 }),
        (8, _, _, 5) => Ok(Instruction::SubReg { x: n2, y: n3 }),
        (8, _, _, 6) => Ok(Instruction::ShiftRight { x: n2 }),
        (8, _, _, 0xE) => Ok(Instruction::ShiftLeft { x: n2 }),
        (9, _, _, 0) => Ok(Instruction::SkipIfNotEqualReg { x: n2, y: n3 }),
        (0xA, _, _, _) => Ok(Instruction::SetAddress { addr }),
        (0xC, _, _, _) => Ok(Instruction::Random { x: n2, kk }),
        (0xD, _, _, _) => Ok(Instruction::Draw { x: n2, y: n3, n: n4 }),
        (0xF, _, 1, 5) => Ok(Instruction::SetDelayTimer { x: n2 }),
        (0xF, _, 1, 0xE) => Ok(Instruction::AddAddress { x: n2 }),
        (0xF, _, 3, 3) => Ok(Instruction::StoreBcd { x: n2 }),
        (0xF, _, 5, 5) => Ok(Instruction::StoreRegisters { x: n2 }),
        (0xF, _, 6, 5) => Ok(Instruction::LoadRegisters { x: n2 }),
        _ => Err(Chip8Error::UnknownOpcode { n1, n2, n3, n4 }),
    }
}

} // verus!
