//! What the machine does, stated over plain mathematical values.
//!
//! A machine is the CPU's registers, program counter and state, the memory, the
//! stack, and the console's two byte streams. `spec_step` says what one instruction
//! cycle makes of a machine, and `spec_run` what a bounded run makes of it. The
//! executable CPU is proved to follow these functions exactly.

use vstd::prelude::*;
use super::addr::Addr;
use super::bus::BusView;
use super::console::{spec_low_byte, spec_read, spec_rest, ConsoleView};
use super::cpu::{CpuState, TRACE_LENGTH};
use super::fault::Fault;
use super::instruction::Instruction;
use super::memory::MEMORY_SIZE;
use super::opcode::Opcode;
use super::{MAX_MEM_ADDR, MODULO};

verus! {

/// What a CPU holds.
pub struct CpuView {
    pub state: CpuState,
    /// The eight registers.
    pub registers: Seq<u16>,
    /// The address of the next instruction.
    pub pc: nat,
    /// The instructions decoded last, the newest first.
    pub trace: Seq<Instruction>,
    /// Why the CPU is in its error state, if it is.
    pub fault: Option<Fault>,
}

/// A whole machine.
pub struct Machine {
    pub cpu: CpuView,
    pub bus: BusView,
    pub console: ConsoleView,
}

/// The value that the operand word `v` stands for: itself if it is a literal, the
/// content of the register if it names one.
pub open spec fn spec_map_val(v: u16, registers: Seq<u16>) -> Result<u16, Fault> {
    match Addr::spec_map(v) {
        Addr::Immediate(i) => Ok(i),
        Addr::Register(r) => Ok(registers[r as int]),
        Addr::Invalid(w) => Err(Fault::InvalidOperand(w)),
    }
}

/// The register that the operand word `v` names.
pub open spec fn spec_map_reg(v: u16) -> Result<usize, Fault> {
    match Addr::spec_map(v) {
        Addr::Register(r) => Ok(r),
        _ => Err(Fault::ExpectedRegister(v)),
    }
}

/// The address that the operand word `v` stands for: its value, which must be a
/// valid memory address.
pub open spec fn spec_map_addr(v: u16, registers: Seq<u16>) -> Result<u16, Fault> {
    match Addr::spec_map(v) {
        Addr::Immediate(i) => Ok(i),
        Addr::Register(r) => if registers[r as int] <= MAX_MEM_ADDR {
            Ok(registers[r as int])
        } else {
            Err(Fault::InvalidAddress(registers[r as int]))
        },
        Addr::Invalid(w) => Err(Fault::InvalidAddress(w)),
    }
}

/// The sum of two words modulo `0x8000`.
pub open spec fn spec_sum(x: u16, y: u16) -> u16 {
    ((x + y) % (MODULO as int)) as u16
}

/// The product of two words modulo `0x8000`.
pub open spec fn spec_product(x: u16, y: u16) -> u16 {
    ((x * y) % (MODULO as int)) as u16
}

/// The remainder of `x` divided by `y`, which must not be zero.
pub open spec fn spec_remainder(x: u16, y: u16) -> Result<u16, Fault> {
    if y == 0 {
        Err(Fault::DivisionByZero)
    } else {
        Ok((x % y) as u16)
    }
}

/// The 15-bit bitwise inverse of a word.
pub open spec fn spec_complement(x: u16) -> u16 {
    (!x) & 0x7FFF
}

/// The CPU after `value` was written to its register `r`.
pub open spec fn spec_put(cpu: CpuView, r: usize, value: u16) -> CpuView {
    CpuView { registers: cpu.registers.update(r as int, value), ..cpu }
}

/// Writes `value` to the register that `a` names. Fails, and changes nothing, if
/// `a` names none or if `value` is itself a failure; the first of the two wins.
pub open spec fn spec_store(cpu: CpuView, a: u16, value: Result<u16, Fault>) -> (
    CpuView,
    Result<(), Fault>,
) {
    match spec_map_reg(a) {
        Err(f) => (cpu, Err(f)),
        Ok(r) => match value {
            Err(f) => (cpu, Err(f)),
            Ok(v) => (spec_put(cpu, r, v), Ok(())),
        },
    }
}

/// The result of `f` on the values of `b` and `c`, read in this order.
pub open spec fn spec_apply(
    registers: Seq<u16>,
    b: u16,
    c: u16,
    f: spec_fn(u16, u16) -> Result<u16, Fault>,
) -> Result<u16, Fault> {
    match spec_map_val(b, registers) {
        Err(e) => Err(e),
        Ok(x) => match spec_map_val(c, registers) {
            Err(e) => Err(e),
            Ok(y) => f(x, y),
        },
    }
}

/// `set a b`: register `a` receives the value of `b`.
pub open spec fn spec_set(cpu: CpuView, a: u16, b: u16) -> (CpuView, Result<(), Fault>) {
    spec_store(cpu, a, spec_map_val(b, cpu.registers))
}

/// `eq a b c`: register `a` receives 1 if the values of `b` and `c` are equal, else 0.
pub open spec fn spec_eq(cpu: CpuView, a: u16, b: u16, c: u16) -> (CpuView, Result<(), Fault>) {
    spec_store(
        cpu,
        a,
        spec_apply(
            cpu.registers,
            b,
            c,
            |x: u16, y: u16|
                Ok::<u16, Fault>(
                    if x == y {
                        1u16
                    } else {
                        0u16
                    },
                ),
        ),
    )
}

/// `gt a b c`: register `a` receives 1 if the value of `b` exceeds that of `c`, else 0.
pub open spec fn spec_gt(cpu: CpuView, a: u16, b: u16, c: u16) -> (CpuView, Result<(), Fault>) {
    spec_store(
        cpu,
        a,
        spec_apply(
            cpu.registers,
            b,
            c,
            |x: u16, y: u16|
                Ok::<u16, Fault>(
                    if x > y {
                        1u16
                    } else {
                        0u16
                    },
                ),
        ),
    )
}

/// `add a b c`: register `a` receives the sum of the values of `b` and `c`,
/// modulo `0x8000`.
pub open spec fn spec_add(cpu: CpuView, a: u16, b: u16, c: u16) -> (CpuView, Result<(), Fault>) {
    spec_store(
        cpu,
        a,
        spec_apply(cpu.registers, b, c, |x: u16, y: u16| Ok::<u16, Fault>(spec_sum(x, y))),
    )
}

/// `mult a b c`: register `a` receives the product of the values of `b` and `c`,
/// modulo `0x8000`.
pub open spec fn spec_mult(cpu: CpuView, a: u16, b: u16, c: u16) -> (CpuView, Result<(), Fault>) {
    spec_store(
        cpu,
        a,
        spec_apply(cpu.registers, b, c, |x: u16, y: u16| Ok::<u16, Fault>(spec_product(x, y))),
    )
}

/// `mod a b c`: register `a` receives the remainder of the value of `b` divided by
/// that of `c`, which must not be zero.
pub open spec fn spec_rmdr(cpu: CpuView, a: u16, b: u16, c: u16) -> (CpuView, Result<(), Fault>) {
    spec_store(cpu, a, spec_apply(cpu.registers, b, c, |x: u16, y: u16| spec_remainder(x, y)))
}

/// `and a b c`: register `a` receives the bitwise and of the values of `b` and `c`.
pub open spec fn spec_and(cpu: CpuView, a: u16, b: u16, c: u16) -> (CpuView, Result<(), Fault>) {
    spec_store(cpu, a, spec_apply(cpu.registers, b, c, |x: u16, y: u16| Ok::<u16, Fault>(x & y)))
}

/// `or a b c`: register `a` receives the bitwise or of the values of `b` and `c`.
pub open spec fn spec_or(cpu: CpuView, a: u16, b: u16, c: u16) -> (CpuView, Result<(), Fault>) {
    spec_store(cpu, a, spec_apply(cpu.registers, b, c, |x: u16, y: u16| Ok::<u16, Fault>(x | y)))
}

/// `not a b`: register `a` receives the 15-bit bitwise inverse of the value of `b`.
pub open spec fn spec_not(cpu: CpuView, a: u16, b: u16) -> (CpuView, Result<(), Fault>) {
    spec_store(
        cpu,
        a,
        match spec_map_val(b, cpu.registers) {
            Err(e) => Err(e),
            Ok(x) => Ok(spec_complement(x)),
        },
    )
}

/// `push a`: the value of `a` goes on top of the stack.
pub open spec fn spec_push(cpu: CpuView, bus: BusView, a: u16) -> (BusView, Result<(), Fault>) {
    match spec_map_val(a, cpu.registers) {
        Err(e) => (bus, Err(e)),
        Ok(v) => (BusView { stack: bus.stack.push(v), ..bus }, Ok(())),
    }
}

/// `pop a`: the top of the stack leaves it for register `a`. Fails, and changes
/// nothing, if `a` names no register or the stack is empty.
pub open spec fn spec_pop(cpu: CpuView, bus: BusView, a: u16) -> (
    CpuView,
    BusView,
    Result<(), Fault>,
) {
    match spec_map_reg(a) {
        Err(f) => (cpu, bus, Err(f)),
        Ok(r) => if bus.stack.len() == 0 {
            (cpu, bus, Err(Fault::EmptyStack))
        } else {
            (
                spec_put(cpu, r, bus.stack.last()),
                BusView { stack: bus.stack.drop_last(), ..bus },
                Ok(()),
            )
        },
    }
}

/// `jmp a`: execution continues at the address `a`.
pub open spec fn spec_jmp(cpu: CpuView, a: u16) -> (CpuView, Result<(), Fault>) {
    match spec_map_addr(a, cpu.registers) {
        Err(e) => (cpu, Err(e)),
        Ok(target) => (CpuView { pc: target as nat, ..cpu }, Ok(())),
    }
}

/// `jt a b`: execution continues at the address `b` if the value of `a` is not
/// zero; otherwise `b` is not looked at.
pub open spec fn spec_jt(cpu: CpuView, a: u16, b: u16) -> (CpuView, Result<(), Fault>) {
    match spec_map_val(a, cpu.registers) {
        Err(e) => (cpu, Err(e)),
        Ok(x) => if x != 0 {
            spec_jmp(cpu, b)
        } else {
            (cpu, Ok(()))
        },
    }
}

/// `jf a b`: execution continues at the address `b` if the value of `a` is zero;
/// otherwise `b` is not looked at.
pub open spec fn spec_jf(cpu: CpuView, a: u16, b: u16) -> (CpuView, Result<(), Fault>) {
    match spec_map_val(a, cpu.registers) {
        Err(e) => (cpu, Err(e)),
        Ok(x) => if x == 0 {
            spec_jmp(cpu, b)
        } else {
            (cpu, Ok(()))
        },
    }
}

/// `rmem a b`: register `a` receives the word of memory at the address `b`.
pub open spec fn spec_rmem(cpu: CpuView, bus: BusView, a: u16, b: u16) -> (
    CpuView,
    Result<(), Fault>,
) {
    spec_store(
        cpu,
        a,
        match spec_map_addr(b, cpu.registers) {
            Err(e) => Err(e),
            Ok(address) => Ok(bus.memory[address as int]),
        },
    )
}

/// `wmem a b`: the word of memory at the address `a` receives the value of `b`.
pub open spec fn spec_wmem(cpu: CpuView, bus: BusView, a: u16, b: u16) -> (
    BusView,
    Result<(), Fault>,
) {
    match spec_map_addr(a, cpu.registers) {
        Err(e) => (bus, Err(e)),
        Ok(address) => match spec_map_val(b, cpu.registers) {
            Err(e) => (bus, Err(e)),
            Ok(v) => (BusView { memory: bus.memory.update(address as int, v), ..bus }, Ok(())),
        },
    }
}

/// `call a`: the program counter, which is the address of the next instruction,
/// goes on the stack, and execution continues at the address `a`.
pub open spec fn spec_call(cpu: CpuView, bus: BusView, a: u16) -> (
    CpuView,
    BusView,
    Result<(), Fault>,
) {
    match spec_map_addr(a, cpu.registers) {
        Err(e) => (cpu, bus, Err(e)),
        Ok(target) => (
            CpuView { pc: target as nat, ..cpu },
            BusView { stack: bus.stack.push(cpu.pc as u16), ..bus },
            Ok(()),
        ),
    }
}

/// `ret`: the top of the stack leaves it and execution continues at that address,
/// which must be valid. On an empty stack the CPU halts.
pub open spec fn spec_ret(cpu: CpuView, bus: BusView) -> (CpuView, BusView, Result<(), Fault>) {
    if bus.stack.len() == 0 {
        (CpuView { state: CpuState::Halted, ..cpu }, bus, Ok(()))
    } else {
        let target = bus.stack.last();
        let popped = BusView { stack: bus.stack.drop_last(), ..bus };
        if target <= MAX_MEM_ADDR {
            (CpuView { pc: target as nat, ..cpu }, popped, Ok(()))
        } else {
            (cpu, popped, Err(Fault::InvalidAddress(target)))
        }
    }
}

/// `out a`: the low eight bits of the value of `a` go to the output.
pub open spec fn spec_outc(cpu: CpuView, console: ConsoleView, a: u16) -> (
    ConsoleView,
    Result<(), Fault>,
) {
    match spec_map_val(a, cpu.registers) {
        Err(e) => (console, Err(e)),
        Ok(v) => (ConsoleView { output: console.output.push(spec_low_byte(v)), ..console }, Ok(())),
    }
}

/// `in a`: register `a` receives the next byte of the input that is no carriage
/// return. Fails with `Io` if there is none; the input is then used up. Where `a`
/// names no register the input is not touched.
pub open spec fn spec_inc(cpu: CpuView, console: ConsoleView, a: u16) -> (
    CpuView,
    ConsoleView,
    Result<(), Fault>,
) {
    match spec_map_reg(a) {
        Err(f) => (cpu, console, Err(f)),
        Ok(r) => {
            let rest = ConsoleView { input: spec_rest(console.input), ..console };
            match spec_read(console.input) {
                None => (cpu, rest, Err(Fault::Io)),
                Some(v) => (spec_put(cpu, r, v), rest, Ok(())),
            }
        },
    }
}

/// `halt`: the CPU halts.
pub open spec fn spec_halt(cpu: CpuView) -> CpuView {
    CpuView { state: CpuState::Halted, ..cpu }
}

/// What the instruction `i` makes of the machine `m`, and whether it succeeds.
pub open spec fn spec_op(m: Machine, i: Instruction) -> (Machine, Result<(), Fault>) {
    match i {
        Instruction::Halt => (Machine { cpu: spec_halt(m.cpu), ..m }, Ok(())),
        Instruction::SetReg(a, b) => on_cpu(m, spec_set(m.cpu, a, b)),
        Instruction::Push(a) => on_bus(m, spec_push(m.cpu, m.bus, a)),
        Instruction::Pop(a) => on_cpu_and_bus(m, spec_pop(m.cpu, m.bus, a)),
        Instruction::Eq(a, b, c) => on_cpu(m, spec_eq(m.cpu, a, b, c)),
        Instruction::Gt(a, b, c) => on_cpu(m, spec_gt(m.cpu, a, b, c)),
        Instruction::Jmp(a) => on_cpu(m, spec_jmp(m.cpu, a)),
        Instruction::Jt(a, b) => on_cpu(m, spec_jt(m.cpu, a, b)),
        Instruction::Jf(a, b) => on_cpu(m, spec_jf(m.cpu, a, b)),
        Instruction::Add(a, b, c) => on_cpu(m, spec_add(m.cpu, a, b, c)),
        Instruction::Mult(a, b, c) => on_cpu(m, spec_mult(m.cpu, a, b, c)),
        Instruction::Mod(a, b, c) => on_cpu(m, spec_rmdr(m.cpu, a, b, c)),
        Instruction::And(a, b, c) => on_cpu(m, spec_and(m.cpu, a, b, c)),
        Instruction::Or(a, b, c) => on_cpu(m, spec_or(m.cpu, a, b, c)),
        Instruction::Not(a, b) => on_cpu(m, spec_not(m.cpu, a, b)),
        Instruction::Rmem(a, b) => on_cpu(m, spec_rmem(m.cpu, m.bus, a, b)),
        Instruction::Wmem(a, b) => on_bus(m, spec_wmem(m.cpu, m.bus, a, b)),
        Instruction::Call(a) => on_cpu_and_bus(m, spec_call(m.cpu, m.bus, a)),
        Instruction::Ret => on_cpu_and_bus(m, spec_ret(m.cpu, m.bus)),
        Instruction::Out(a) => {
            let (console, result) = spec_outc(m.cpu, m.console, a);
            (Machine { console, ..m }, result)
        },
        Instruction::In(a) => {
            let (cpu, console, result) = spec_inc(m.cpu, m.console, a);
            (Machine { cpu, console, ..m }, result)
        },
        Instruction::Noop => (m, Ok(())),
    }
}

/// The machine `m` with the CPU of an effect on the CPU alone.
pub open spec fn on_cpu(m: Machine, effect: (CpuView, Result<(), Fault>)) -> (
    Machine,
    Result<(), Fault>,
) {
    (Machine { cpu: effect.0, ..m }, effect.1)
}

/// The machine `m` with the bus of an effect on the bus alone.
pub open spec fn on_bus(m: Machine, effect: (BusView, Result<(), Fault>)) -> (
    Machine,
    Result<(), Fault>,
) {
    (Machine { bus: effect.0, ..m }, effect.1)
}

/// The machine `m` with the CPU and the bus of an effect on both.
pub open spec fn on_cpu_and_bus(m: Machine, effect: (CpuView, BusView, Result<(), Fault>)) -> (
    Machine,
    Result<(), Fault>,
) {
    (Machine { cpu: effect.0, bus: effect.1, ..m }, effect.2)
}

/// The CPU in its error state, for the reason `fault`.
pub open spec fn spec_fail(cpu: CpuView, fault: Fault) -> CpuView {
    CpuView { state: CpuState::Error, fault: Some(fault), ..cpu }
}

/// The machine after the instruction `i` was executed: what `spec_op` makes of it,
/// and in the error state if the instruction failed.
pub open spec fn spec_execute(m: Machine, i: Instruction) -> Machine {
    let (after, result) = spec_op(m, i);
    match result {
        Ok(_) => after,
        Err(fault) => Machine { cpu: spec_fail(after.cpu, fault), ..after },
    }
}

/// The instruction that stands in `memory` at `pc`. Fails with `UnknownOpcode` if
/// the word there is no opcode, and with `InvalidAddress` if the operands would lie
/// beyond the end of memory.
pub open spec fn spec_decode(memory: Seq<u16>, pc: int) -> Result<Instruction, Fault> {
    match Opcode::spec_from_word(memory[pc]) {
        None => Err(Fault::UnknownOpcode(memory[pc])),
        Some(op) => if pc + op.spec_argc() >= MEMORY_SIZE {
            Err(Fault::InvalidAddress(MODULO))
        } else {
            Ok(Instruction::spec_new(op, memory[pc + 1], memory[pc + 2], memory[pc + 3]))
        },
    }
}

/// The trace after `i` was decoded: `i` in front, and no more than `TRACE_LENGTH`
/// entries in all.
pub open spec fn spec_record(trace: Seq<Instruction>, i: Instruction) -> Seq<Instruction> {
    if trace.len() >= TRACE_LENGTH {
        seq![i] + trace.take(TRACE_LENGTH - 1)
    } else {
        seq![i] + trace
    }
}

/// The machine after the instruction `i` was decoded: the program counter has
/// moved past it, and it has entered the trace.
pub open spec fn spec_decoded(m: Machine, i: Instruction) -> Machine {
    Machine {
        cpu: CpuView {
            pc: m.cpu.pc + i.spec_advance(),
            trace: spec_record(m.cpu.trace, i),
            ..m.cpu
        },
        ..m
    }
}

/// The machine at the end of an instruction cycle: one that is still running, with
/// its program counter beyond the end of memory, fails with `InvalidAddress`.
pub open spec fn spec_checked(m: Machine) -> Machine {
    if m.cpu.state == CpuState::Running && m.cpu.pc >= MEMORY_SIZE {
        Machine { cpu: spec_fail(m.cpu, Fault::InvalidAddress(MODULO)), ..m }
    } else {
        m
    }
}

/// The instruction cycle of the machine `m` in which the instruction `i` was
/// fetched: `i` is decoded and executed, and the program counter is checked.
pub open spec fn spec_cycle(m: Machine, i: Instruction) -> Machine {
    spec_checked(spec_execute(spec_decoded(m, i), i))
}

/// One instruction cycle of a running machine whose program counter is a valid
/// address: the instruction at the program counter is decoded, the program counter
/// moves past it, the instruction enters the trace and is executed. A machine that
/// is still running after that, with its program counter beyond the end of memory,
/// fails with `InvalidAddress`. A machine whose next instruction cannot be decoded
/// fails at once.
#[verifier::opaque]
pub open spec fn spec_step(m: Machine) -> Machine {
    match spec_decode(m.bus.memory, m.cpu.pc as int) {
        Err(fault) => Machine { cpu: spec_fail(m.cpu, fault), ..m },
        Ok(i) => spec_cycle(m, i),
    }
}

/// The machine after it ran until it was no longer running, or for `budget`
/// instruction cycles, whichever came first.
pub open spec fn spec_run(m: Machine, budget: nat) -> Machine
    decreases budget,
{
    if budget == 0 || m.cpu.state != CpuState::Running {
        m
    } else {
        spec_run(spec_step(m), (budget - 1) as nat)
    }
}

} // verus!
