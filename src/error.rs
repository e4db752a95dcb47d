use vstd::prelude::*;

verus! {

/// The failures that loading a program or executing a step can report.
#[derive(Debug, Clone, Copy, PartialEq, Eq, Structural)]
pub enum Chip8Error {
    /// A memory access outside 0..4096, or a program larger than the loadable region.
    OutOfBounds,
    /// The two bytes at the program counter encode no opcode.
    InvalidOpcode,
    /// A subroutine call beyond the maximum stack depth.
    StackOverflow,
    /// A return with an empty call stack.
    StackUnderflow,
}

} // verus!
