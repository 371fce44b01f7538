//! Decoded instructions: an opcode together with its raw operand words.

use vstd::prelude::*;
use super::opcode::Opcode;

verus! {

/// A decoded instruction: the opcode with its operand words as found in memory,
/// not yet evaluated.
#[derive(Clone, Copy, Debug, PartialEq, Eq, Structural)]
pub enum Instruction {
    /// halts execution
    Halt,
    /// sets register `a` to the value of `b`
    SetReg(u16, u16),
    /// pushes `a` onto the stack
    Push(u16),
    /// removes the top element from the stack and writes it to `a`
    Pop(u16),
    /// sets `a` to 1 if `b` is equal to `c`, to 0 otherwise
    Eq(u16, u16, u16),
    /// sets `a` to 1 if `b` is greater than `c`, to 0 otherwise
    Gt(u16, u16, u16),
    /// jumps to `a`
    Jmp(u16),
    /// jumps to `b` if `a` is nonzero
    Jt(u16, u16),
    /// jumps to `b` if `a` is zero
    Jf(u16, u16),
    /// stores into `a` the sum of `b` and `c`, modulo `0x8000`
    Add(u16, u16, u16),
    /// stores into `a` the product of `b` and `c`, modulo `0x8000`
    Mult(u16, u16, u16),
    /// stores into `a` the remainder of `b` divided by `c`
    Mod(u16, u16, u16),
    /// stores into `a` the bitwise and of `b` and `c`
    And(u16, u16, u16),
    /// stores into `a` the bitwise or of `b` and `c`
    Or(u16, u16, u16),
    /// stores into `a` the 15-bit bitwise inverse of `b`
    Not(u16, u16),
    /// reads memory at address `b` and writes it to `a`
    Rmem(u16, u16),
    /// writes the value of `b` into memory at address `a`
    Wmem(u16, u16),
    /// pushes the address of the next instruction and jumps to `a`
    Call(u16),
    /// pops the return address and jumps to it; halts on an empty stack
    Ret,
    /// writes the character with the code `a` to the output
    Out(u16),
    /// reads a character from the input and writes its code to `a`
    In(u16),
    /// does nothing
    Noop,
}

impl Instruction {
    /// The instruction with opcode `op` and the operand words `a`, `b`, `c`, of
    /// which only the first `op.spec_argc()` count.
    pub open spec fn spec_new(op: Opcode, a: u16, b: u16, c: u16) -> Instruction {
        match op {
            Opcode::Halt => Instruction::Halt,
            Opcode::SetReg => Instruction::SetReg(a, b),
            Opcode::Push => Instruction::Push(a),
            Opcode::Pop => Instruction::Pop(a),
            Opcode::Eq => Instruction::Eq(a, b, c),
            Opcode::Gt => Instruction::Gt(a, b, c),
            Opcode::Jmp => Instruction::Jmp(a),
            Opcode::Jt => Instruction::Jt(a, b),
            Opcode::Jf => Instruction::Jf(a, b),
            Opcode::Add => Instruction::Add(a, b, c),
            Opcode::Mult => Instruction::Mult(a, b, c),
            Opcode::Mod => Instruction::Mod(a, b, c),
            Opcode::And => Instruction::And(a, b, c),
            Opcode::Or => Instruction::Or(a, b, c),
            Opcode::Not => Instruction::Not(a, b),
            Opcode::Rmem => Instruction::Rmem(a, b),
            Opcode::Wmem => Instruction::Wmem(a, b),
            Opcode::Call => Instruction::Call(a),
            Opcode::Ret => Instruction::Ret,
            Opcode::Out => Instruction::Out(a),
            Opcode::In => Instruction::In(a),
            Opcode::Noop => Instruction::Noop,
        }
    }

    /// The opcode of the instruction.
    pub open spec fn spec_opcode(self) -> Opcode {
        match self {
            Instruction::Halt => Opcode::Halt,
            Instruction::SetReg(_, _) => Opcode::SetReg,
            Instruction::Push(_) => Opcode::Push,
            Instruction::Pop(_) => Opcode::Pop,
            Instruction::Eq(_, _, _) => Opcode::Eq,
            Instruction::Gt(_, _, _) => Opcode::Gt,
            Instruction::Jmp(_) => Opcode::Jmp,
            Instruction::Jt(_, _) => Opcode::Jt,
            Instruction::Jf(_, _) => Opcode::Jf,
            Instruction::Add(_, _, _) => Opcode::Add,
            Instruction::Mult(_, _, _) => Opcode::Mult,
            Instruction::Mod(_, _, _) => Opcode::Mod,
            Instruction::And(_, _, _) => Opcode::And,
            Instruction::Or(_, _, _) => Opcode::Or,
            Instruction::Not(_, _) => Opcode::Not,
            Instruction::Rmem(_, _) => Opcode::Rmem,
            Instruction::Wmem(_, _) => Opcode::Wmem,
            Instruction::Call(_) => Opcode::Call,
            Instruction::Ret => Opcode::Ret,
            Instruction::Out(_) => Opcode::Out,
            Instruction::In(_) => Opcode::In,
            Instruction::Noop => Opcode::Noop,
        }
    }

    /// The operand words of the instruction, in order.
    pub open spec fn spec_operands(self) -> Seq<u16> {
        match self {
            Instruction::Halt | Instruction::Ret | Instruction::Noop => seq![],
            Instruction::Push(a)
            | Instruction::Pop(a)
            | Instruction::Jmp(a)
            | Instruction::Call(a)
            | Instruction::Out(a)
            | Instruction::In(a) => seq![a],
            Instruction::SetReg(a, b)
            | Instruction::Jt(a, b)
            | Instruction::Jf(a, b)
            | Instruction::Not(a, b)
            | Instruction::Rmem(a, b)
            | Instruction::Wmem(a, b) => seq![a, b],
            Instruction::Eq(a, b, c)
            | Instruction::Gt(a, b, c)
            | Instruction::Add(a, b, c)
            | Instruction::Mult(a, b, c)
            | Instruction::Mod(a, b, c)
            | Instruction::And(a, b, c)
            | Instruction::Or(a, b, c) => seq![a, b, c],
        }
    }

    /// By how much decoding the instruction advances the program counter: past the
    /// opcode and its operands, except that `halt` stays where it is.
    pub open spec fn spec_advance(self) -> nat {
        if self is Halt {
            0
        } else {
            1 + self.spec_opcode().spec_argc()
        }
    }

    /// Builds the instruction with opcode `op` from the operand words `a`, `b`, `c`;
    /// those beyond the opcode's argument count are ignored.
    pub fn new(op: Opcode, a: u16, b: u16, c: u16) -> (i: Instruction)
        ensures
            i == Instruction::spec_new(op, a, b, c),
            i.spec_opcode() == op,
    {
        match op {
            Opcode::Halt => Instruction::Halt,
            Opcode::SetReg => Instruction::SetReg(a, b),
            Opcode::Push => Instruction::Push(a),
            Opcode::Pop => Instruction::Pop(a),
            Opcode::Eq => Instruction::Eq(a, b, c),
            Opcode::Gt => Instruction::Gt(a, b, c),
            Opcode::Jmp => Instruction::Jmp(a),
            Opcode::Jt => Instruction::Jt(a, b),
            Opcode::Jf => Instruction::Jf(a, b),
            Opcode::Add => Instruction::Add(a, b, c),
            Opcode::Mult => Instruction::Mult(a, b, c),
            Opcode::Mod => Instruction::Mod(a, b, c),
            Opcode::And => Instruction::And(a, b, c),
            Opcode::Or => Instruction::Or(a, b, c),
            Opcode::Not => Instruction::Not(a, b),
            Opcode::Rmem => Instruction::Rmem(a, b),
            Opcode::Wmem => Instruction::Wmem(a, b),
            Opcode::Call => Instruction::Call(a),
            Opcode::Ret => Instruction::Ret,
            Opcode::Out => Instruction::Out(a),
            Opcode::In => Instruction::In(a),
            Opcode::Noop => Instruction::Noop,
        }
    }

    /// The opcode of the instruction.
    pub fn opcode(&self) -> (op: Opcode)
        ensures
            op == self.spec_opcode(),
    {
        match self {
            Instruction::Halt => Opcode::Halt,
            Instruction::SetReg(_, _) => Opcode::SetReg,
            Instruction::Push(_) => Opcode::Push,
            Instruction::Pop(_) => Opcode::Pop,
            Instruction::Eq(_, _, _) => Opcode::Eq,
            Instruction::Gt(_, _, _) => Opcode::Gt,
            Instruction::Jmp(_) => Opcode::Jmp,
            Instruction::Jt(_, _) => Opcode::Jt,
            Instruction::Jf(_, _) => Opcode::Jf,
            Instruction::Add(_, _, _) => Opcode::Add,
            Instruction::Mult(_, _, _) => Opcode::Mult,
            Instruction::Mod(_, _, _) => Opcode::Mod,
            Instruction::And(_, _, _) => Opcode::And,
            Instruction::Or(_, _, _) => Opcode::Or,
            Instruction::Not(_, _) => Opcode::Not,
            Instruction::Rmem(_, _) => Opcode::Rmem,
            Instruction::Wmem(_, _) => Opcode::Wmem,
            Instruction::Call(_) => Opcode::Call,
            Instruction::Ret => Opcode::Ret,
            Instruction::Out(_) => Opcode::Out,
            Instruction::In(_) => Opcode::In,
            Instruction::Noop => Opcode::Noop,
        }
    }

    /// The operand words of the instruction, in order.
    pub fn operands(&self) -> (v: Vec<u16>)
        ensures
            v@ == self.spec_operands(),
            v@.len() == self.spec_opcode().spec_argc(),
    {
        match *self {
            Instruction::Halt | Instruction::Ret | Instruction::Noop => Vec::new(),
            Instruction::Push(a)
            | Instruction::Pop(a)
            | Instruction::Jmp(a)
            | Instruction::Call(a)
            | Instruction::Out(a)
            | Instruction::In(a) => vec![a],
            Instruction::SetReg(a, b)
            | Instruction::Jt(a, b)
            | Instruction::Jf(a, b)
            | Instruction::Not(a, b)
            | Instruction::Rmem(a, b)
            | Instruction::Wmem(a, b) => vec![a, b],
            Instruction::Eq(a, b, c)
            | Instruction::Gt(a, b, c)
            | Instruction::Add(a, b, c)
            | Instruction::Mult(a, b, c)
            | Instruction::Mod(a, b, c)
            | Instruction::And(a, b, c)
            | Instruction::Or(a, b, c) => vec![a, b, c],
        }
    }
}

} // verus!
