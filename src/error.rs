use vstd::prelude::*;

verus! {

/// Every way in which loading a program or executing one instruction can fail.
///
/// A failure never changes the machine: the state is the one from before the call.
#[derive(Debug, Clone, Copy, PartialEq, Eq, Structural)]
pub enum Chip8Error {
    /// No instruction pattern matches the four nibbles of the instruction word.
    UnknownOpcode { n1: u8, n2: u8, n3: u8, n4: u8 },
    /// A subroutine call found the call stack full.
    StackOverflow,
    /// A return found the call stack empty.
    StackUnderflow,
    /// A memory access would reach past the end of the address space.
    AddressOutOfRange,
    /// A program image does not fit between the load offset and the end of memory.
    RomTooLarge,
}

} // verus!
