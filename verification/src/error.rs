//! Conditions under which the machine refuses to go on.

use vstd::prelude::*;

verus! {

/// Why an operation was refused. A refused operation leaves the machine as it was.
#[derive(Debug, Clone, Copy, PartialEq, Eq, Structural)]
pub enum Chip8Error {
    /// The instruction word is not part of the implemented instruction set.
    /// `address` is the program counter of the machine the instruction was
    /// refused on: for a full cycle, the address the word was fetched from.
    UnsupportedInstruction { opcode: u16, address: u16 },
    /// A call was made while the call stack was full.
    StackOverflow,
    /// A return was made while the call stack was empty.
    StackUnderflow,
    /// An access starting at `address` would reach past the end of memory,
    /// or the program counter, standing at `address`, would be carried past
    /// the largest address it can hold.
    MemoryOutOfBounds { address: u16 },
    /// A program of `len` bytes does not fit between the start address and
    /// the end of memory.
    ProgramTooLarge { len: usize },
}

} // verus!
