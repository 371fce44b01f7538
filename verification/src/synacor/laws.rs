//! What holds of every machine, whatever program it runs.

use vstd::prelude::*;
use super::bus::BusView;
use super::cpu::CpuState;
use super::fault::Fault;
use super::instruction::Instruction;
use super::memory::MEMORY_SIZE;
use super::semantics::{
    spec_call, spec_complement, spec_decode, spec_decoded, spec_execute,
    spec_map_addr, spec_map_reg, spec_map_val, spec_op, spec_product, spec_remainder,
    spec_ret, spec_run, spec_step, spec_sum, CpuView, Machine,
};
use super::{MAX_MEM_ADDR, MODULO, NUM_REGISTERS};

verus! {

/// The machine has eight registers and a full memory, and its program counter is
/// at most one past the end of memory.
pub open spec fn spec_well_formed(m: Machine) -> bool {
    &&& m.cpu.registers.len() == NUM_REGISTERS
    &&& m.bus.memory.len() == MEMORY_SIZE
    &&& m.cpu.pc <= MEMORY_SIZE
}

/// While the machine runs, its program counter is a valid address.
pub open spec fn spec_fetchable(m: Machine) -> bool {
    m.cpu.state == CpuState::Running ==> m.cpu.pc < MEMORY_SIZE
}

/// Every register holds a 15-bit number.
pub open spec fn spec_is_15_bit(registers: Seq<u16>) -> bool {
    forall|r: int| 0 <= r < registers.len() ==> #[trigger] registers[r] < MODULO
}

/// Whether the instruction computes a number and stores it in a register.
pub open spec fn spec_is_arithmetic(i: Instruction) -> bool {
    i is Eq || i is Gt || i is Add || i is Mult || i is Mod || i is And || i is Or || i is Not
}

/// An instruction cycle of a machine whose program counter is a valid address
/// leaves a machine whose program counter is a valid address again, unless it
/// stops the machine.
pub proof fn lemma_step_keeps_pc_valid(m: Machine)
    requires
        spec_well_formed(m),
        m.cpu.state == CpuState::Running,
        m.cpu.pc < MEMORY_SIZE,
    ensures
        spec_well_formed(spec_step(m)),
        spec_fetchable(spec_step(m)),
{
    reveal(spec_step);
    match spec_decode(m.bus.memory, m.cpu.pc as int) {
        Ok(i) => {
            lemma_execute_keeps_well_formed(spec_decoded(m, i), i);
        },
        Err(_) => {},
    }
}

/// Executing an instruction leaves a well-formed machine well formed.
pub proof fn lemma_execute_keeps_well_formed(m: Machine, i: Instruction)
    requires
        spec_well_formed(m),
    ensures
        spec_well_formed(spec_op(m, i).0),
        spec_well_formed(spec_execute(m, i)),
{
    match i {
        Instruction::Halt => {},
        Instruction::SetReg(a, b) => {},
        Instruction::Push(a) => {},
        Instruction::Pop(a) => {},
        Instruction::Eq(a, b, c) => {},
        Instruction::Gt(a, b, c) => {},
        Instruction::Jmp(a) => {},
        Instruction::Jt(a, b) => {},
        Instruction::Jf(a, b) => {},
        Instruction::Add(a, b, c) => {},
        Instruction::Mult(a, b, c) => {},
        Instruction::Mod(a, b, c) => {},
        Instruction::And(a, b, c) => {},
        Instruction::Or(a, b, c) => {},
        Instruction::Not(a, b) => {},
        Instruction::Rmem(a, b) => {},
        Instruction::Wmem(a, b) => {},
        Instruction::Call(a) => {},
        Instruction::Ret => {},
        Instruction::Out(a) => {},
        Instruction::In(a) => {},
        Instruction::Noop => {},
    }
}

/// At the entry of every instruction cycle of a run the program counter is a valid
/// address: a run of any length leaves a well-formed machine that has stopped or
/// has its program counter at a valid address.
pub proof fn lemma_run_keeps_pc_valid(m: Machine, budget: nat)
    requires
        spec_well_formed(m),
        spec_fetchable(m),
    ensures
        spec_well_formed(spec_run(m, budget)),
        spec_fetchable(spec_run(m, budget)),
    decreases budget,
{
    if budget > 0 && m.cpu.state == CpuState::Running {
        lemma_step_keeps_pc_valid(m);
        lemma_run_keeps_pc_valid(spec_step(m), (budget - 1) as nat);
    }
}

/// The value of an operand is a 15-bit number, and so is the address that an
/// operand stands for, as long as the registers hold 15-bit numbers.
pub proof fn lemma_operand_value_is_15_bit(v: u16, registers: Seq<u16>)
    requires
        registers.len() == NUM_REGISTERS,
        spec_is_15_bit(registers),
    ensures
        spec_map_val(v, registers) matches Ok(x) ==> x < MODULO,
        spec_map_addr(v, registers) matches Ok(x) ==> x < MODULO,
{
}

/// An address that an operand stands for is valid, whatever the registers hold.
pub proof fn lemma_operand_address_is_valid(v: u16, registers: Seq<u16>)
    ensures
        spec_map_addr(v, registers) matches Ok(x) ==> x <= MAX_MEM_ADDR,
{
}

/// A register that is written to is one of the eight.
pub proof fn lemma_target_register_exists(v: u16)
    ensures
        spec_map_reg(v) matches Ok(r) ==> r < NUM_REGISTERS,
        spec_map_reg(v) is Ok <==> MODULO <= v < MODULO + NUM_REGISTERS,
{
}

/// Sums and products are reduced modulo `0x8000` and the inverse is cut to 15
/// bits, whatever the operands; the remainder, the bitwise and and the bitwise or
/// of 15-bit numbers are 15-bit numbers.
pub proof fn lemma_modular_closure(x: u16, y: u16)
    ensures
        spec_sum(x, y) < MODULO,
        spec_sum(x, y) == (x + y) % 0x8000,
        spec_product(x, y) < MODULO,
        spec_product(x, y) == (x * y) % 0x8000,
        spec_complement(x) < MODULO,
        spec_complement(x) == !x & 0x7FFF,
        x < MODULO && y < MODULO ==> x & y < MODULO && x | y < MODULO,
        x < MODULO ==> (spec_remainder(x, y) matches Ok(r) ==> r < MODULO),
{
    assert((!x) & 0x7FFF < 0x8000) by (bit_vector);
    assert(x < 0x8000 && y < 0x8000 ==> x & y < 0x8000 && x | y < 0x8000) by (bit_vector);
    if y != 0 {
        assert(x % y <= x) by (nonlinear_arith)
            requires
                y > 0,
        ;
    }
}

/// An arithmetic instruction leaves 15-bit numbers in the registers if it found
/// 15-bit numbers there.
pub proof fn lemma_arithmetic_keeps_15_bit(m: Machine, i: Instruction)
    requires
        spec_is_arithmetic(i),
        m.cpu.registers.len() == NUM_REGISTERS,
        spec_is_15_bit(m.cpu.registers),
    ensures
        spec_is_15_bit(spec_op(m, i).0.cpu.registers),
{
    let after = spec_op(m, i).0.cpu.registers;
    match i {
        Instruction::Eq(a, b, c)
        | Instruction::Gt(a, b, c)
        | Instruction::Add(a, b, c)
        | Instruction::Mult(a, b, c)
        | Instruction::Mod(a, b, c)
        | Instruction::And(a, b, c)
        | Instruction::Or(a, b, c) => {
            lemma_operand_value_is_15_bit(b, m.cpu.registers);
            lemma_operand_value_is_15_bit(c, m.cpu.registers);
            match (spec_map_val(b, m.cpu.registers), spec_map_val(c, m.cpu.registers)) {
                (Ok(x), Ok(y)) => {
                    lemma_modular_closure(x, y);
                },
                _ => {},
            }
        },
        Instruction::Not(a, b) => {
            match spec_map_val(b, m.cpu.registers) {
                Ok(x) => {
                    lemma_modular_closure(x, 0);
                },
                _ => {},
            }
        },
        _ => {},
    }
    assert forall|r: int| 0 <= r < after.len() implies #[trigger] after[r] < MODULO by {
        assert(m.cpu.registers[r] < MODULO);
    }
}

/// The stack never underflows: an instruction takes at most one word off the
/// stack and puts at most one on it, and on an empty stack the instructions that
/// take a word off leave the stack empty.
pub proof fn lemma_stack_length(m: Machine, i: Instruction)
    ensures
        spec_op(m, i).0.bus.stack.len() + 1 >= m.bus.stack.len(),
        spec_op(m, i).0.bus.stack.len() <= m.bus.stack.len() + 1,
        m.bus.stack.len() == 0 && (i is Pop || i is Ret) ==> spec_op(m, i).0.bus.stack.len() == 0,
        m.bus.stack.len() == 0 && i is Pop ==> spec_op(m, i).1 is Err,
{
    match i {
        Instruction::Halt => {},
        Instruction::SetReg(a, b) => {},
        Instruction::Push(a) => {},
        Instruction::Pop(a) => {},
        Instruction::Eq(a, b, c) => {},
        Instruction::Gt(a, b, c) => {},
        Instruction::Jmp(a) => {},
        Instruction::Jt(a, b) => {},
        Instruction::Jf(a, b) => {},
        Instruction::Add(a, b, c) => {},
        Instruction::Mult(a, b, c) => {},
        Instruction::Mod(a, b, c) => {},
        Instruction::And(a, b, c) => {},
        Instruction::Or(a, b, c) => {},
        Instruction::Not(a, b) => {},
        Instruction::Rmem(a, b) => {},
        Instruction::Wmem(a, b) => {},
        Instruction::Call(a) => {},
        Instruction::Ret => {},
        Instruction::Out(a) => {},
        Instruction::In(a) => {},
        Instruction::Noop => {},
    }
}

/// A call and the return that belongs to it: if `call` is executed with the
/// program counter `cpu.pc`, which is the address of the instruction behind it,
/// and `ret` is later executed on the stack that the call left, in whatever state
/// the CPU and the memory then are, execution continues at `cpu.pc`, and the
/// stack is the one from before the call.
pub proof fn lemma_call_ret_parity(
    cpu: CpuView,
    bus: BusView,
    a: u16,
    later_cpu: CpuView,
    later_bus: BusView,
)
    requires
        cpu.pc < MEMORY_SIZE,
        spec_call(cpu, bus, a).2 is Ok,
        later_bus.stack == spec_call(cpu, bus, a).1.stack,
    ensures
        spec_ret(later_cpu, later_bus).2 is Ok,
        spec_ret(later_cpu, later_bus).0.pc == cpu.pc,
        spec_ret(later_cpu, later_bus).0.state == later_cpu.state,
        spec_ret(later_cpu, later_bus).1.stack == bus.stack,
        spec_call(cpu, bus, a).1.stack.len() == bus.stack.len() + 1,
{
    assert(bus.stack.push(cpu.pc as u16).drop_last() =~= bus.stack);
}

/// Decoding finds the instruction that is written in memory: where the words at
/// `pc` are the code of the opcode of `i` followed by the operands of `i`, and all
/// of them lie within memory, the instruction at `pc` is `i`.
pub proof fn lemma_decode_finds(memory: Seq<u16>, pc: int, i: Instruction)
    requires
        0 <= pc,
        pc + i.spec_opcode().spec_argc() < MEMORY_SIZE,
        memory[pc] == i.spec_opcode().spec_code(),
        forall|k: int|
            0 <= k < i.spec_opcode().spec_argc() ==> memory[pc + 1 + k] == #[trigger] i.spec_operands()[k],
    ensures
        spec_decode(memory, pc) == Ok::<Instruction, Fault>(i),
{
    let operands = i.spec_operands();
    match i {
        Instruction::Halt | Instruction::Ret | Instruction::Noop => {},
        Instruction::Push(a)
        | Instruction::Pop(a)
        | Instruction::Jmp(a)
        | Instruction::Call(a)
        | Instruction::Out(a)
        | Instruction::In(a) => {
            assert(operands[0] == a);
        },
        Instruction::SetReg(a, b)
        | Instruction::Jt(a, b)
        | Instruction::Jf(a, b)
        | Instruction::Not(a, b)
        | Instruction::Rmem(a, b)
        | Instruction::Wmem(a, b) => {
            assert(operands[0] == a && operands[1] == b);
        },
        Instruction::Eq(a, b, c)
        | Instruction::Gt(a, b, c)
        | Instruction::Add(a, b, c)
        | Instruction::Mult(a, b, c)
        | Instruction::Mod(a, b, c)
        | Instruction::And(a, b, c)
        | Instruction::Or(a, b, c) => {
            assert(operands[0] == a && operands[1] == b && operands[2] == c);
        },
    }
}

} // verus!
