//! What can go wrong while a program is loaded or run.

use vstd::prelude::*;
use crate::instruction::DecodeError;

verus! {

/// A call or a return that the sixteen-entry call stack cannot serve.
#[derive(Debug, Clone, Copy, PartialEq, Eq, Structural)]
pub enum StackFault {
    /// A call while sixteen return addresses are on the stack.
    Overflow,
    /// A return while the stack is empty.
    Underflow,
}

/// What stops a cycle.
#[derive(Debug, Clone, Copy, PartialEq, Eq, Structural)]
pub enum Fault {
    /// The opcode at the program counter matches no instruction.
    Decode(DecodeError),
    /// The instruction needs more of the call stack than there is.
    Stack(StackFault),
}

/// A program image that does not fit between the program's start and the end of
/// memory.
#[derive(Debug, Clone, Copy, PartialEq, Eq, Structural)]
pub struct LoadError {
    /// The size of the image that was refused, in bytes.
    pub size: usize,
}

} // verus!
