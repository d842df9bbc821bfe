//! The fatal error taxonomy of the virtual machine.
//!
//! Every error stops the machine immediately; none is recovered from.

use vstd::prelude::*;

verus! {

/// A fatal condition raised by the operand stack or the execution engine.
#[derive(Clone, Copy, Debug, PartialEq, Eq, Structural)]
pub enum VmError {
    /// A push was attempted on a stack that is already at capacity.
    StackOverflow,
    /// A pop or peek was attempted on an empty stack.
    StackUnderflow,
    /// An instruction word carried an opcode outside the primitive table.
    UndefinedInstruction,
    /// A division was attempted with a zero divisor.
    DivisionByZero,
    /// The program counter ran past the end of program memory before a halt
    /// instruction was decoded.
    UnterminatedProgram,
}

} // verus!
