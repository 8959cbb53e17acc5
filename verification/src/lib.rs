//! A CHIP-8 virtual machine core: opcode decoding, machine state, instruction
//! semantics, sprite drawing and the 60 Hz timers, each with a proved contract.

pub mod display;
pub mod fault;
pub mod font;
pub mod instruction;
pub mod laws;
pub mod machine;
pub mod model;
pub mod timer;

pub use fault::{Fault, LoadError, StackFault};
pub use instruction::{DecodeError, Instruction};
pub use machine::{ChipState, Keys};
