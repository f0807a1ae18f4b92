//! Error taxonomy of the core: decode failures, call-stack discipline
//! violations, and out-of-range memory access.

use vstd::prelude::*;

verus! {

/// A raw opcode word that matches no documented CHIP-8 bit pattern.
#[derive(Clone, Copy, Debug, PartialEq, Eq, Structural)]
pub enum DecodeError {
    UnknownOpcode(u16),
}

/// A violation of subroutine call/return discipline.
#[derive(Clone, Copy, Debug, PartialEq, Eq, Structural)]
pub enum ControlError {
    /// A return was executed with an empty call stack.
    StackUnderflow,
    /// A call was executed with the stack already at capacity.
    StackOverflow,
}

/// An access outside the 4096-byte address space; carries the base address
/// that the failing instruction used.
#[derive(Clone, Copy, Debug, PartialEq, Eq, Structural)]
pub enum MemoryError {
    OutOfBounds(u16),
}

/// Any error a single fetch-decode-execute step can surface to the driver.
#[derive(Clone, Copy, Debug, PartialEq, Eq, Structural)]
pub enum StepError {
    Decode(DecodeError),
    Control(ControlError),
    Memory(MemoryError),
}

} // verus!
