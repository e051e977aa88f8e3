//! An interpreter for a CHIP-8 style virtual machine: a decoder from two-byte
//! instruction words to instructions, and an executor whose every step is proved
//! against the opcode table stated as spec functions.
pub mod decode;
pub mod error;
pub mod laws;
pub mod machine;
pub mod sprite;

pub use decode::{instruction_parser, Instruction};
pub use error::Chip8Error;
pub use machine::Chip8;
pub use sprite::u8_to_8_bools;
