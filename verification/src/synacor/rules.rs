//! What single instructions make of a machine: the cases of `spec_step` that proofs
//! about programs use, each stated for itself.

use vstd::prelude::*;
use super::console::{spec_low_byte, spec_read, spec_rest, ConsoleView};
use super::cpu::CpuState;
use super::fault::Fault;
use super::instruction::Instruction;
use super::memory::MEMORY_SIZE;
use super::semantics::{
    spec_decode, spec_fail, spec_map_addr, spec_map_reg, spec_map_val, spec_put, spec_record,
    spec_step, spec_sum, CpuView, Machine,
};

verus! {

/// The CPU after the instruction `i` was decoded and the program counter moved on
/// by `advance`.
pub open spec fn spec_moved(cpu: CpuView, i: Instruction, advance: nat) -> CpuView {
    CpuView { pc: cpu.pc + advance, trace: spec_record(cpu.trace, i), ..cpu }
}

/// `set a b`, where `a` names the register `r` and `b` has the value `v`: the
/// register receives the value, and execution continues behind the instruction.
pub proof fn lemma_rule_set(m: Machine, a: u16, b: u16, r: usize, v: u16)
    requires
        m.cpu.state == CpuState::Running,
        m.cpu.pc + 3 < MEMORY_SIZE,
        spec_decode(m.bus.memory, m.cpu.pc as int) == Ok::<Instruction, Fault>(
            Instruction::SetReg(a, b),
        ),
        spec_map_reg(a) == Ok::<usize, Fault>(r),
        spec_map_val(b, m.cpu.registers) == Ok::<u16, Fault>(v),
    ensures
        spec_step(m) == (Machine {
            cpu: spec_put(spec_moved(m.cpu, Instruction::SetReg(a, b), 3), r, v),
            ..m
        }),
{
    reveal(spec_step);
}

/// `add a b c`, where `a` names the register `r` and `b` and `c` have the values
/// `x` and `y`: the register receives their sum modulo `0x8000`, and execution
/// continues behind the instruction.
pub proof fn lemma_rule_add(m: Machine, a: u16, b: u16, c: u16, r: usize, x: u16, y: u16)
    requires
        m.cpu.state == CpuState::Running,
        m.cpu.pc + 4 < MEMORY_SIZE,
        spec_decode(m.bus.memory, m.cpu.pc as int) == Ok::<Instruction, Fault>(
            Instruction::Add(a, b, c),
        ),
        spec_map_reg(a) == Ok::<usize, Fault>(r),
        spec_map_val(b, m.cpu.registers) == Ok::<u16, Fault>(x),
        spec_map_val(c, m.cpu.registers) == Ok::<u16, Fault>(y),
    ensures
        spec_step(m) == (Machine {
            cpu: spec_put(spec_moved(m.cpu, Instruction::Add(a, b, c), 4), r, spec_sum(x, y)),
            ..m
        }),
{
    reveal(spec_step);
}

/// `out a`, where `a` has the value `v`: the low byte of the value goes to the
/// output, and execution continues behind the instruction.
pub proof fn lemma_rule_out(m: Machine, a: u16, v: u16)
    requires
        m.cpu.state == CpuState::Running,
        m.cpu.pc + 2 < MEMORY_SIZE,
        spec_decode(m.bus.memory, m.cpu.pc as int) == Ok::<Instruction, Fault>(Instruction::Out(a)),
        spec_map_val(a, m.cpu.registers) == Ok::<u16, Fault>(v),
    ensures
        spec_step(m) == (Machine {
            cpu: spec_moved(m.cpu, Instruction::Out(a), 2),
            console: ConsoleView {
                output: m.console.output.push(spec_low_byte(v)),
                ..m.console
            },
            ..m
        }),
{
    reveal(spec_step);
}

/// `in a`, where `a` names the register `r`: the register receives the next byte
/// of the input that is no carriage return, and execution continues behind the
/// instruction; at the end of the input the machine fails with `Io`. Either way
/// the input is used up to behind that byte.
pub proof fn lemma_rule_in(m: Machine, a: u16, r: usize)
    requires
        m.cpu.state == CpuState::Running,
        m.cpu.pc + 2 < MEMORY_SIZE,
        spec_decode(m.bus.memory, m.cpu.pc as int) == Ok::<Instruction, Fault>(Instruction::In(a)),
        spec_map_reg(a) == Ok::<usize, Fault>(r),
    ensures
        spec_step(m) == (Machine {
            cpu: match spec_read(m.console.input) {
                Some(v) => spec_put(spec_moved(m.cpu, Instruction::In(a), 2), r, v),
                None => spec_fail(spec_moved(m.cpu, Instruction::In(a), 2), Fault::Io),
            },
            console: ConsoleView { input: spec_rest(m.console.input), ..m.console },
            ..m
        }),
{
    reveal(spec_step);
}

/// `jt a b`, where `a` has the value `x` and `b` stands for the address `target`:
/// execution continues at `target` if `x` is not zero, and behind the instruction
/// if it is.
pub proof fn lemma_rule_jt(m: Machine, a: u16, b: u16, x: u16, target: u16)
    requires
        m.cpu.state == CpuState::Running,
        m.cpu.pc + 3 < MEMORY_SIZE,
        spec_decode(m.bus.memory, m.cpu.pc as int) == Ok::<Instruction, Fault>(
            Instruction::Jt(a, b),
        ),
        spec_map_val(a, m.cpu.registers) == Ok::<u16, Fault>(x),
        spec_map_addr(b, m.cpu.registers) == Ok::<u16, Fault>(target),
    ensures
        spec_step(m) == (Machine {
            cpu: CpuView {
                pc: if x != 0 {
                    target as nat
                } else {
                    m.cpu.pc + 3
                },
                ..spec_moved(m.cpu, Instruction::Jt(a, b), 3)
            },
            ..m
        }),
{
    reveal(spec_step);
}

/// `halt`: the machine halts where it is.
pub proof fn lemma_rule_halt(m: Machine)
    requires
        m.cpu.state == CpuState::Running,
        spec_decode(m.bus.memory, m.cpu.pc as int) == Ok::<Instruction, Fault>(Instruction::Halt),
    ensures
        spec_step(m) == (Machine {
            cpu: CpuView { state: CpuState::Halted, ..spec_moved(m.cpu, Instruction::Halt, 0) },
            ..m
        }),
{
    reveal(spec_step);
}

} // verus!
