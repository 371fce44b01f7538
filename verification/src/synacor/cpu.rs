//! The CPU: program counter, registers, and the fetch, decode and execute cycle.

use vstd::prelude::*;
use std::collections::VecDeque;
use super::addr::Addr;
use super::bus::Bus;
use super::console::Console;
use super::fault::Fault;
use super::instruction::Instruction;
use super::memory::MEMORY_SIZE;
use super::opcode::Opcode;
use super::semantics::{
    spec_add, spec_and, spec_call, spec_decode, spec_eq, spec_execute, spec_fail, spec_gt,
    spec_halt, spec_inc, spec_jf, spec_jmp, spec_jt, spec_map_addr, spec_map_reg, spec_map_val,
    spec_mult, spec_not, spec_or, spec_outc, spec_pop, spec_push, spec_put, spec_record,
    spec_ret, spec_rmdr, spec_rmem, spec_set, spec_step, spec_wmem, CpuView, Machine,
};

verus! {

/// The highest valid memory address.
pub const MAX_MEM_ADDR: u16 = 0x7FFF;

/// The arithmetic modulus, and the boundary between literals and register references.
pub const MODULO: u16 = 0x8000;

/// The number of general-purpose registers.
pub const NUM_REGISTERS: usize = 8;

/// The number of decoded instructions that the diagnostic trace retains.
pub const TRACE_LENGTH: usize = 5;

/// The four states of a CPU.
#[derive(Clone, Copy, Debug, PartialEq, Eq, Structural)]
pub enum CpuState {
    NotStarted,
    Running,
    Halted,
    Error,
}

/// The CPU of one machine.
pub struct Cpu {
    state: CpuState,
    registers: [u16; NUM_REGISTERS],
    pc: usize,
    prev_instructions: VecDeque<Instruction>,
    fault: Option<Fault>,
}

impl View for Cpu {
    type V = CpuView;

    closed spec fn view(&self) -> CpuView {
        CpuView {
            state: self.state,
            registers: self.registers@,
            pc: self.pc as nat,
            trace: self.prev_instructions@,
            fault: self.fault,
        }
    }
}

impl Cpu {
    /// There are eight registers, the program counter is at most one past the end
    /// of memory, and the trace holds no more than `TRACE_LENGTH` instructions.
    pub open spec fn wf(&self) -> bool {
        &&& self@.registers.len() == NUM_REGISTERS
        &&& self@.pc <= MEMORY_SIZE
        &&& self@.trace.len() <= TRACE_LENGTH
    }

    /// A CPU that has not started: all registers zero, the program counter at 0,
    /// an empty trace.
    pub fn new() -> (cpu: Cpu)
        ensures
            cpu.wf(),
            cpu@ == (CpuView {
                state: CpuState::NotStarted,
                registers: Seq::new(NUM_REGISTERS as nat, |i: int| 0u16),
                pc: 0,
                trace: Seq::empty(),
                fault: None,
            }),
    {
        let cpu = Cpu {
            state: CpuState::NotStarted,
            registers: [0; NUM_REGISTERS],
            pc: 0,
            prev_instructions: VecDeque::new(),
            fault: None,
        };
        assert(cpu@.registers =~= Seq::new(NUM_REGISTERS as nat, |i: int| 0u16));
        cpu
    }

    /// The content of register `reg`.
    pub fn register_get(&self, reg: usize) -> (value: u16)
        requires
            reg < NUM_REGISTERS,
        ensures
            value == self@.registers[reg as int],
    {
        self.registers[reg]
    }

    /// Writes `value` to register `reg`.
    pub fn register_put(&mut self, reg: usize, value: u16)
        requires
            reg < NUM_REGISTERS,
        ensures
            final(self)@ == spec_put(old(self)@, reg, value),
    {
        self.registers[reg] = value;
    }

    /// Starts a CPU that has not started yet.
    pub fn start(&mut self)
        requires
            old(self)@.state == CpuState::NotStarted,
        ensures
            final(self)@ == (CpuView { state: CpuState::Running, ..old(self)@ }),
    {
        self.state = CpuState::Running;
    }

    /// Whether the CPU is running.
    pub fn is_running(&self) -> (b: bool)
        ensures
            b == (self@.state == CpuState::Running),
    {
        self.state == CpuState::Running
    }

    /// The state of the CPU.
    pub fn state(&self) -> (s: &CpuState)
        ensures
            *s == self@.state,
    {
        &self.state
    }

    /// The program counter.
    pub fn pc(&self) -> (pc: usize)
        ensures
            pc == self@.pc,
    {
        self.pc
    }

    /// Why the CPU is in its error state, if it is.
    pub fn fault(&self) -> (f: Option<Fault>)
        ensures
            f == self@.fault,
    {
        self.fault
    }

    /// The instructions decoded last, the newest first.
    pub fn trace(&self) -> (t: Vec<Instruction>)
        ensures
            t@ == self@.trace,
    {
        let mut t: Vec<Instruction> = Vec::new();
        let n = self.prev_instructions.len();
        let mut i: usize = 0;
        while i < n
            invariant
                i <= n,
                n == self.prev_instructions@.len(),
                t@ == self.prev_instructions@.take(i as int),
            decreases n - i,
        {
            t.push(self.prev_instructions[i]);
            i += 1;
        }
        assert(t@ =~= self.prev_instructions@);
        t
    }

    /// Performs one instruction cycle: fetches the word at the program counter,
    /// decodes it, records the instruction in the trace and executes it. The CPU
    /// goes to its error state if the instruction cannot be decoded, if it fails,
    /// or if it leaves the program counter beyond the end of memory.
    ///
    /// The CPU must be running, with its program counter at a valid address; a
    /// CPU that is still running afterwards has it at a valid address again.
    pub fn step(&mut self, bus: &mut Bus, console: &mut Console)
        requires
            old(self).wf(),
            old(bus).wf(),
            old(console).wf(),
            old(self)@.state == CpuState::Running,
            old(self)@.pc < MEMORY_SIZE,
        ensures
            final(self).wf(),
            final(bus).wf(),
            final(console).wf(),
            (Machine { cpu: final(self)@, bus: final(bus)@, console: final(console)@ })
                == spec_step(Machine { cpu: old(self)@, bus: old(bus)@, console: old(console)@ }),
            final(self)@.state == CpuState::Running ==> final(self)@.pc < MEMORY_SIZE,
            final(self)@.state != CpuState::NotStarted,
    {
        proof {
            reveal(spec_step);
        }
        let instruction_code = self.fetch(self.pc, bus);
        match self.decode(instruction_code, bus) {
            Ok(instruction) => {
                self.record(instruction);
                self.execute(instruction, bus, console);
                if self.is_running() && self.pc >= MEMORY_SIZE {
                    self.fail(Fault::InvalidAddress(MODULO));
                }
            },
            Err(fault) => {
                self.fail(fault);
            },
        }
    }

    /// Puts the CPU into its error state, for the reason `fault`.
    fn fail(&mut self, fault: Fault)
        ensures
            final(self)@ == spec_fail(old(self)@, fault),
    {
        self.state = CpuState::Error;
        self.fault = Some(fault);
    }

    /// The word of memory at `addr`.
    fn fetch(&self, addr: usize, bus: &Bus) -> (w: u16)
        requires
            bus.wf(),
            addr < MEMORY_SIZE,
        ensures
            w == bus@.memory[addr as int],
    {
        bus.read_word(addr)
    }

    /// Decodes the instruction whose first word is `instruction_code`, reads its
    /// operand words from memory, and moves the program counter past it (`halt`
    /// leaves it in place). Fails, and changes nothing, if the word is no opcode
    /// or the operands would lie beyond the end of memory.
    fn decode(&mut self, instruction_code: u16, bus: &Bus) -> (r: Result<Instruction, Fault>)
        requires
            old(self).wf(),
            bus.wf(),
            old(self)@.pc < MEMORY_SIZE,
            instruction_code == bus@.memory[old(self)@.pc as int],
        ensures
            final(self).wf(),
            r == spec_decode(bus@.memory, old(self)@.pc as int),
            match r {
                Ok(i) => final(self)@ == (CpuView {
                    pc: old(self)@.pc + i.spec_advance(),
                    ..old(self)@
                }),
                Err(_) => final(self)@ == old(self)@,
            },
    {
        let pc = self.pc;
        let op = match Opcode::from_word(instruction_code) {
            Some(op) => op,
            None => {
                return Err(Fault::UnknownOpcode(instruction_code));
            },
        };
        let argc = op.argc();
        if pc + argc >= MEMORY_SIZE {
            return Err(Fault::InvalidAddress(MODULO));
        }
        let a = if argc >= 1 {
            bus.read_word(pc + 1)
        } else {
            0
        };
        let b = if argc >= 2 {
            bus.read_word(pc + 2)
        } else {
            0
        };
        let c = if argc >= 3 {
            bus.read_word(pc + 3)
        } else {
            0
        };
        let instruction = Instruction::new(op, a, b, c);
        let pc_advance = match op {
            Opcode::Halt => 0,
            _ => 1 + argc,
        };
        self.pc += pc_advance;
        Ok(instruction)
    }

    /// Puts `instruction` at the front of the trace and drops the oldest entry if
    /// the trace is full.
    fn record(&mut self, instruction: Instruction)
        requires
            old(self).wf(),
        ensures
            final(self).wf(),
            final(self)@ == (CpuView {
                trace: spec_record(old(self)@.trace, instruction),
                ..old(self)@
            }),
    {
        self.prev_instructions.push_front(instruction);
        if self.prev_instructions.len() > TRACE_LENGTH {
            self.prev_instructions.pop_back();
        }
        assert(self.prev_instructions@ =~= spec_record(old(self)@.trace, instruction));
    }

    /// Executes `instruction`, and puts the CPU into its error state if it fails.
    fn execute(&mut self, instruction: Instruction, bus: &mut Bus, console: &mut Console)
        requires
            old(self).wf(),
            old(bus).wf(),
            old(console).wf(),
        ensures
            final(self).wf(),
            final(bus).wf(),
            final(console).wf(),
            (Machine { cpu: final(self)@, bus: final(bus)@, console: final(console)@ })
                == spec_execute(
                Machine { cpu: old(self)@, bus: old(bus)@, console: old(console)@ },
                instruction,
            ),
    {
        let res: Result<(), Fault> = match instruction {
            Instruction::Halt => halt(self, bus),
            Instruction::SetReg(a, b) => set(self, bus, a, b),
            Instruction::Push(a) => push(self, bus, a),
            Instruction::Pop(a) => pop(self, bus, a),
            Instruction::Eq(a, b, c) => eq(self, a, b, c),
            Instruction::Gt(a, b, c) => gt(self, a, b, c),
            Instruction::Jmp(a) => jmp(self, a),
            Instruction::Jt(a, b) => jt(self, a, b),
            Instruction::Jf(a, b) => jf(self, a, b),
            Instruction::Add(a, b, c) => self::add(self, a, b, c),
            Instruction::Mult(a, b, c) => mult(self, a, b, c),
            Instruction::Mod(a, b, c) => rmdr(self, a, b, c),
            Instruction::And(a, b, c) => and(self, a, b, c),
            Instruction::Or(a, b, c) => or(self, a, b, c),
            Instruction::Not(a, b) => not(self, a, b),
            Instruction::Rmem(a, b) => rmem(self, bus, a, b),
            Instruction::Wmem(a, b) => wmem(self, bus, a, b),
            Instruction::Call(a) => call(self, bus, a),
            Instruction::Ret => ret(self, bus),
            Instruction::Out(a) => outc(self, console, a),
            Instruction::In(a) => inc(self, console, a),
            Instruction::Noop => noop(),
        };
        if let Err(fault) = res {
            self.fail(fault);
        }
    }
}

/// The value that the operand word `v` stands for: itself if it is a literal, the
/// content of the register if it names one, and `InvalidOperand` otherwise.
pub fn map_val(v: u16, cpu: &Cpu) -> (r: Result<u16, Fault>)
    requires
        cpu.wf(),
    ensures
        r == spec_map_val(v, cpu@.registers),
{
    match Addr::map(v) {
        Addr::Register(reg) => Ok(cpu.register_get(reg)),
        Addr::Immediate(i) => Ok(i),
        Addr::Invalid(w) => Err(Fault::InvalidOperand(w)),
    }
}

/// The register that the operand word `v` names, and `ExpectedRegister` if it
/// names none.
pub fn map_reg(v: u16) -> (r: Result<usize, Fault>)
    ensures
        r == spec_map_reg(v),
        r matches Ok(reg) ==> reg < NUM_REGISTERS,
{
    match Addr::map(v) {
        Addr::Register(reg) => Ok(reg),
        _ => Err(Fault::ExpectedRegister(v)),
    }
}

/// The memory address that the operand word `v` stands for, and `InvalidAddress`
/// if it stands for none: if the word is neither a literal nor a register
/// reference, or the register holds no valid address.
pub fn map_addr(v: u16, cpu: &Cpu) -> (r: Result<u16, Fault>)
    requires
        cpu.wf(),
    ensures
        r == spec_map_addr(v, cpu@.registers),
        r matches Ok(address) ==> address <= MAX_MEM_ADDR,
{
    match Addr::map(v) {
        Addr::Register(reg) => {
            let address = cpu.register_get(reg);
            if address > MAX_MEM_ADDR {
                Err(Fault::InvalidAddress(address))
            } else {
                Ok(address)
            }
        },
        Addr::Immediate(i) => Ok(i),
        Addr::Invalid(w) => Err(Fault::InvalidAddress(w)),
    }
}

/// `halt`: halts the CPU.
pub fn halt(cpu: &mut Cpu, _bus: &Bus) -> (r: Result<(), Fault>)
    ensures
        r is Ok,
        final(cpu)@ == spec_halt(old(cpu)@),
{
    cpu.state = CpuState::Halted;
    Ok(())
}

/// `set a b`: sets register `a` to the value of `b`.
pub fn set(cpu: &mut Cpu, _bus: &Bus, a: u16, b: u16) -> (r: Result<(), Fault>)
    requires
        old(cpu).wf(),
    ensures
        final(cpu).wf(),
        (final(cpu)@, r) == spec_set(old(cpu)@, a, b),
{
    let reg = map_reg(a)?;
    let value = map_val(b, cpu)?;
    cpu.register_put(reg, value);
    Ok(())
}

/// `push a`: pushes the value of `a` onto the stack.
pub fn push(cpu: &mut Cpu, bus: &mut Bus, a: u16) -> (r: Result<(), Fault>)
    requires
        old(cpu).wf(),
        old(bus).wf(),
    ensures
        final(cpu)@ == old(cpu)@,
        final(bus).wf(),
        (final(bus)@, r) == spec_push(old(cpu)@, old(bus)@, a),
{
    let value = map_val(a, cpu)?;
    bus.push_word(value);
    Ok(())
}

/// `pop a`: removes the top of the stack and writes it to register `a`; fails
/// with `EmptyStack` on an empty stack.
pub fn pop(cpu: &mut Cpu, bus: &mut Bus, a: u16) -> (r: Result<(), Fault>)
    requires
        old(cpu).wf(),
        old(bus).wf(),
    ensures
        final(cpu).wf(),
        final(bus).wf(),
        (final(cpu)@, final(bus)@, r) == spec_pop(old(cpu)@, old(bus)@, a),
{
    let reg = map_reg(a)?;
    let value = bus.pop_word()?;
    cpu.register_put(reg, value);
    Ok(())
}

/// `eq a b c`: sets register `a` to 1 if the values of `b` and `c` are equal, to 0
/// otherwise.
pub fn eq(cpu: &mut Cpu, a: u16, b: u16, c: u16) -> (r: Result<(), Fault>)
    requires
        old(cpu).wf(),
    ensures
        final(cpu).wf(),
        (final(cpu)@, r) == spec_eq(old(cpu)@, a, b, c),
{
    let reg = map_reg(a)?;
    let x = map_val(b, cpu)?;
    let y = map_val(c, cpu)?;
    cpu.register_put(
        reg,
        if x == y {
            1
        } else {
            0
        },
    );
    Ok(())
}

/// `gt a b c`: sets register `a` to 1 if the value of `b` is greater than that of
/// `c`, to 0 otherwise.
pub fn gt(cpu: &mut Cpu, a: u16, b: u16, c: u16) -> (r: Result<(), Fault>)
    requires
        old(cpu).wf(),
    ensures
        final(cpu).wf(),
        (final(cpu)@, r) == spec_gt(old(cpu)@, a, b, c),
{
    let reg = map_reg(a)?;
    let x = map_val(b, cpu)?;
    let y = map_val(c, cpu)?;
    cpu.register_put(
        reg,
        if x > y {
            1
        } else {
            0
        },
    );
    Ok(())
}

/// `jmp a`: continues at the address `a`; fails with `InvalidAddress` if `a` is
/// no valid address.
pub fn jmp(cpu: &mut Cpu, a: u16) -> (r: Result<(), Fault>)
    requires
        old(cpu).wf(),
    ensures
        final(cpu).wf(),
        (final(cpu)@, r) == spec_jmp(old(cpu)@, a),
        r is Ok ==> final(cpu)@.pc < MEMORY_SIZE,
{
    let target = map_addr(a, cpu)?;
    cpu.pc = target as usize;
    Ok(())
}

/// `jt a b`: continues at the address `b` if the value of `a` is not zero.
pub fn jt(cpu: &mut Cpu, a: u16, b: u16) -> (r: Result<(), Fault>)
    requires
        old(cpu).wf(),
    ensures
        final(cpu).wf(),
        (final(cpu)@, r) == spec_jt(old(cpu)@, a, b),
{
    let x = map_val(a, cpu)?;
    if x != 0 {
        jmp(cpu, b)
    } else {
        Ok(())
    }
}

/// `jf a b`: continues at the address `b` if the value of `a` is zero.
pub fn jf(cpu: &mut Cpu, a: u16, b: u16) -> (r: Result<(), Fault>)
    requires
        old(cpu).wf(),
    ensures
        final(cpu).wf(),
        (final(cpu)@, r) == spec_jf(old(cpu)@, a, b),
{
    let x = map_val(a, cpu)?;
    if x == 0 {
        jmp(cpu, b)
    } else {
        Ok(())
    }
}

/// `add a b c`: stores into register `a` the sum of the values of `b` and `c`,
/// modulo `0x8000`.
pub fn add(cpu: &mut Cpu, a: u16, b: u16, c: u16) -> (r: Result<(), Fault>)
    requires
        old(cpu).wf(),
    ensures
        final(cpu).wf(),
        (final(cpu)@, r) == spec_add(old(cpu)@, a, b, c),
{
    let reg = map_reg(a)?;
    let x = map_val(b, cpu)?;
    let y = map_val(c, cpu)?;
    cpu.register_put(reg, ((x as u32 + y as u32) % (MODULO as u32)) as u16);
    Ok(())
}

/// `mult a b c`: stores into register `a` the product of the values of `b` and
/// `c`, modulo `0x8000`.
pub fn mult(cpu: &mut Cpu, a: u16, b: u16, c: u16) -> (r: Result<(), Fault>)
    requires
        old(cpu).wf(),
    ensures
        final(cpu).wf(),
        (final(cpu)@, r) == spec_mult(old(cpu)@, a, b, c),
{
    let reg = map_reg(a)?;
    let x = map_val(b, cpu)?;
    let y = map_val(c, cpu)?;
    assert(x * y <= 0xFFFF * 0xFFFF) by (nonlinear_arith)
        requires
            x <= 0xFFFF,
            y <= 0xFFFF,
    ;
    cpu.register_put(reg, ((x as u32 * y as u32) % (MODULO as u32)) as u16);
    Ok(())
}

/// `mod a b c`: stores into register `a` the remainder of the value of `b`
/// divided by that of `c`; fails with `DivisionByZero` if the latter is zero.
pub fn rmdr(cpu: &mut Cpu, a: u16, b: u16, c: u16) -> (r: Result<(), Fault>)
    requires
        old(cpu).wf(),
    ensures
        final(cpu).wf(),
        (final(cpu)@, r) == spec_rmdr(old(cpu)@, a, b, c),
{
    let reg = map_reg(a)?;
    let x = map_val(b, cpu)?;
    let y = map_val(c, cpu)?;
    if y == 0 {
        return Err(Fault::DivisionByZero);
    }
    cpu.register_put(reg, x % y);
    Ok(())
}

/// `and a b c`: stores into register `a` the bitwise and of the values of `b` and
/// `c`.
pub fn and(cpu: &mut Cpu, a: u16, b: u16, c: u16) -> (r: Result<(), Fault>)
    requires
        old(cpu).wf(),
    ensures
        final(cpu).wf(),
        (final(cpu)@, r) == spec_and(old(cpu)@, a, b, c),
{
    let reg = map_reg(a)?;
    let x = map_val(b, cpu)?;
    let y = map_val(c, cpu)?;
    cpu.register_put(reg, x & y);
    Ok(())
}

/// `or a b c`: stores into register `a` the bitwise or of the values of `b` and
/// `c`.
pub fn or(cpu: &mut Cpu, a: u16, b: u16, c: u16) -> (r: Result<(), Fault>)
    requires
        old(cpu).wf(),
    ensures
        final(cpu).wf(),
        (final(cpu)@, r) == spec_or(old(cpu)@, a, b, c),
{
    let reg = map_reg(a)?;
    let x = map_val(b, cpu)?;
    let y = map_val(c, cpu)?;
    cpu.register_put(reg, x | y);
    Ok(())
}

/// `not a b`: stores into register `a` the 15-bit bitwise inverse of the value of
/// `b`.
pub fn not(cpu: &mut Cpu, a: u16, b: u16) -> (r: Result<(), Fault>)
    requires
        old(cpu).wf(),
    ensures
        final(cpu).wf(),
        (final(cpu)@, r) == spec_not(old(cpu)@, a, b),
{
    let reg = map_reg(a)?;
    let x = map_val(b, cpu)?;
    cpu.register_put(reg, (!x) & 0x7FFF);
    Ok(())
}

/// `rmem a b`: reads memory at the address `b` and writes the word to register
/// `a`.
pub fn rmem(cpu: &mut Cpu, bus: &Bus, a: u16, b: u16) -> (r: Result<(), Fault>)
    requires
        old(cpu).wf(),
        bus.wf(),
    ensures
        final(cpu).wf(),
        (final(cpu)@, r) == spec_rmem(old(cpu)@, bus@, a, b),
{
    let reg = map_reg(a)?;
    let address = map_addr(b, cpu)?;
    cpu.register_put(reg, bus.read_word(address as usize));
    Ok(())
}

/// `wmem a b`: writes the value of `b` into memory at the address `a`.
pub fn wmem(cpu: &mut Cpu, bus: &mut Bus, a: u16, b: u16) -> (r: Result<(), Fault>)
    requires
        old(cpu).wf(),
        old(bus).wf(),
    ensures
        final(cpu)@ == old(cpu)@,
        final(bus).wf(),
        (final(bus)@, r) == spec_wmem(old(cpu)@, old(bus)@, a, b),
{
    let address = map_addr(a, cpu)?;
    let value = map_val(b, cpu)?;
    bus.write_word(address as usize, value);
    Ok(())
}

/// `call a`: pushes the program counter, which is the address of the next
/// instruction, and continues at the address `a`.
pub fn call(cpu: &mut Cpu, bus: &mut Bus, a: u16) -> (r: Result<(), Fault>)
    requires
        old(cpu).wf(),
        old(bus).wf(),
    ensures
        final(cpu).wf(),
        final(bus).wf(),
        (final(cpu)@, final(bus)@, r) == spec_call(old(cpu)@, old(bus)@, a),
{
    let target = map_addr(a, cpu)?;
    bus.push_word(cpu.pc as u16);
    cpu.pc = target as usize;
    Ok(())
}

/// `ret`: pops the return address and continues there; fails with
/// `InvalidAddress` if it is no valid address, and halts the CPU if the stack is
/// empty.
pub fn ret(cpu: &mut Cpu, bus: &mut Bus) -> (r: Result<(), Fault>)
    requires
        old(cpu).wf(),
        old(bus).wf(),
    ensures
        final(cpu).wf(),
        final(bus).wf(),
        (final(cpu)@, final(bus)@, r) == spec_ret(old(cpu)@, old(bus)@),
{
    match bus.pop_word() {
        Ok(target) => {
            if target > MAX_MEM_ADDR {
                return Err(Fault::InvalidAddress(target));
            }
            cpu.pc = target as usize;
        },
        Err(_) => {
            cpu.state = CpuState::Halted;
        },
    }
    Ok(())
}

/// `out a`: writes the low eight bits of the value of `a` to the console.
pub fn outc(cpu: &mut Cpu, console: &mut Console, a: u16) -> (r: Result<(), Fault>)
    requires
        old(cpu).wf(),
        old(console).wf(),
    ensures
        final(cpu)@ == old(cpu)@,
        final(console).wf(),
        (final(console)@, r) == spec_outc(old(cpu)@, old(console)@, a),
{
    let value = map_val(a, cpu)?;
    console.write_byte(value);
    Ok(())
}

/// `in a`: reads the next byte that is no carriage return from the console and
/// writes it to register `a`; fails with `Io` at the end of the input.
pub fn inc(cpu: &mut Cpu, console: &mut Console, a: u16) -> (r: Result<(), Fault>)
    requires
        old(cpu).wf(),
        old(console).wf(),
    ensures
        final(cpu).wf(),
        final(console).wf(),
        (final(cpu)@, final(console)@, r) == spec_inc(old(cpu)@, old(console)@, a),
{
    let reg = map_reg(a)?;
    match console.read_byte() {
        Some(value) => {
            cpu.register_put(reg, value);
            Ok(())
        },
        None => Err(Fault::Io),
    }
}

/// `noop`: does nothing.
pub fn noop() -> (r: Result<(), Fault>)
    ensures
        r is Ok,
{
    Ok(())
}

} // verus!
