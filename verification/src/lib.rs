//! A virtual machine and assembler for the 16-bit, word-addressed Synacor architecture.

pub mod assembler;
pub mod laws;
pub mod synacor;
pub mod text;
