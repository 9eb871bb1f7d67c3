//! The ways in which a program can bring the machine to a halt.

use vstd::prelude::*;

verus! {

/// A fatal condition met while decoding or executing an instruction.
///
/// None of them has a continuation: the program that raised it is malformed
/// or relies on something this machine does not offer.
#[derive(Debug, Clone, Copy, PartialEq, Eq, Structural)]
pub enum Chip8Error {
    /// The instruction word matches no instruction.
    UnknownOpcode,
    /// A return was executed with no call outstanding.
    StackUnderflow,
    /// A glyph was asked for that the font table does not hold.
    InvalidFontIndex,
    /// An address left the memory, or a call left the call stack's depth.
    MemoryOutOfRange,
}

} // verus!
