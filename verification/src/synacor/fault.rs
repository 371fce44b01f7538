//! The ways in which a running program can fail.

use vstd::prelude::*;

verus! {

/// The kind of failure that put the CPU into its error state, with the offending word
/// where there is one.
#[derive(Clone, Copy, Debug, PartialEq, Eq, Structural)]
pub enum Fault {
    /// A word that is neither a literal nor a register reference stood where a value
    /// was needed.
    InvalidOperand(u16),
    /// A word that is not a register reference stood where a register was needed.
    ExpectedRegister(u16),
    /// A jump target, call target, return address or memory operand was not below
    /// `0x8000`, or an instruction did not fit into memory.
    InvalidAddress(u16),
    /// `pop` found the stack empty.
    EmptyStack,
    /// The word at the program counter is not the code of an opcode.
    UnknownOpcode(u16),
    /// `mod` was asked to divide by zero.
    DivisionByZero,
    /// `in` found the input at its end.
    Io,
}

} // verus!
