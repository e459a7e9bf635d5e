//! Failures that the interpreter reports.

use vstd::prelude::*;

verus! {

/// What can go wrong while loading or running a program.
///
/// `RomTooLarge` is raised at load time and leaves the interpreter as it
/// was. The others are fatal: they halt the interpreter for good.
#[derive(Clone, Copy, Debug, PartialEq, Eq, Structural)]
pub enum Chip8Error {
    /// The program image does not fit between address `0x200` and the end of
    /// memory.
    RomTooLarge,
    /// The word `opcode`, fetched at address `pc`, stands for no operation.
    UnknownOpcode { opcode: u16, pc: u16 },
    /// A call was made with sixteen return addresses already on the stack.
    StackOverflow,
    /// A return was made with no return address on the stack.
    StackUnderflow,
    /// An instruction fetch or an access through `I` would leave the 4096
    /// bytes of memory.
    MemoryOutOfRange,
}

} // verus!
