//! The virtual machine: value model, memory, stack, bus, opcodes, CPU and the machine itself.

use vstd::prelude::*;

pub mod addr;
pub mod bus;
pub mod console;
pub mod cpu;
pub mod fault;
pub mod instruction;
pub mod laws;
pub mod memory;
pub mod op_res;
pub mod opcode;
pub mod rules;
pub mod semantics;
pub mod stack;
pub mod vm;

pub use self::cpu::{MAX_MEM_ADDR, MODULO, NUM_REGISTERS};
pub use self::vm::Vm;

verus! {

/// A machine word: every memory cell, register, stack entry and operand slot is one.
pub type WORD = u16;

} // verus!
