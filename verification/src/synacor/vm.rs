//! The machine: a CPU, a bus and a console, with the program loader and the run loop.

use vstd::prelude::*;
use super::bus::{Bus, BusView};
use super::console::{spec_read, Console, ConsoleView};
use super::cpu::{Cpu, CpuState};
use super::memory::MEMORY_SIZE;
use super::opcode::Opcode;
use super::semantics::{spec_run, spec_step, CpuView, Machine};
use super::{NUM_REGISTERS, WORD};

verus! {

/// The memory after `program` was loaded: the program from address 0 on, and what
/// was there before behind it.
pub open spec fn spec_load(memory: Seq<WORD>, program: Seq<WORD>) -> Seq<WORD> {
    Seq::new(
        memory.len(),
        |a: int|
            if a < program.len() {
                program[a]
            } else {
                memory[a]
            },
    )
}

/// The machine as it is made: not started, registers and memory zero, the program
/// counter at 0, stack, trace and console empty.
pub open spec fn spec_initial() -> Machine {
    Machine {
        cpu: CpuView {
            state: CpuState::NotStarted,
            registers: Seq::new(NUM_REGISTERS as nat, |i: int| 0u16),
            pc: 0,
            trace: Seq::empty(),
            fault: None,
        },
        bus: BusView { memory: Seq::new(MEMORY_SIZE as nat, |a: int| 0u16), stack: Seq::empty() },
        console: ConsoleView { input: Seq::empty(), output: Seq::empty() },
    }
}

/// The machine `m` with its CPU running.
pub open spec fn spec_started(m: Machine) -> Machine {
    Machine { cpu: CpuView { state: CpuState::Running, ..m.cpu }, ..m }
}

/// Whether the machine is about to read input that has not arrived: it is running,
/// its next instruction is `in`, and the console has no byte to deliver.
pub open spec fn spec_awaits_input(m: Machine) -> bool {
    &&& m.cpu.state == CpuState::Running
    &&& m.bus.memory[m.cpu.pc as int] == Opcode::In.spec_code()
    &&& spec_read(m.console.input) is None
}

/// A virtual machine.
pub struct Vm {
    cpu: Cpu,
    bus: Bus,
    console: Console,
    debug_mode: bool,
}

impl View for Vm {
    type V = Machine;

    closed spec fn view(&self) -> Machine {
        Machine { cpu: self.cpu@, bus: self.bus@, console: self.console@ }
    }
}

impl Vm {
    /// The parts are well formed, and until the CPU stops, the program counter is
    /// a valid address.
    pub closed spec fn wf(&self) -> bool {
        &&& self.cpu.wf()
        &&& self.bus.wf()
        &&& self.console.wf()
        &&& (self.cpu@.state == CpuState::Running || self.cpu@.state == CpuState::NotStarted
            ==> self.cpu@.pc < MEMORY_SIZE)
    }

    /// Whether tracing was asked for.
    pub closed spec fn spec_debug(&self) -> bool {
        self.debug_mode
    }

    /// What `wf` says of the view: eight registers, a full memory, and a program
    /// counter that is a valid address until the CPU stops.
    pub proof fn lemma_wf(&self)
        requires
            self.wf(),
        ensures
            self@.cpu.registers.len() == NUM_REGISTERS,
            self@.bus.memory.len() == MEMORY_SIZE,
            self@.cpu.pc <= MEMORY_SIZE,
            self@.cpu.state == CpuState::Running || self@.cpu.state == CpuState::NotStarted
                ==> self@.cpu.pc < MEMORY_SIZE,
    {
    }

    /// A new machine, with tracing off.
    pub fn new() -> (vm: Vm)
        ensures
            vm.wf(),
            vm@ == spec_initial(),
            !vm.spec_debug(),
    {
        let vm = Vm { cpu: Cpu::new(), bus: Bus::new(), console: Console::new(), debug_mode: false };
        assert(vm.bus@.memory =~= Seq::new(MEMORY_SIZE as nat, |a: int| 0u16));
        vm
    }

    /// Turns tracing on or off. The machine itself prints nothing: the flag is for
    /// the host, which prints what it asks for.
    pub fn set_debug(&mut self, val: bool)
        ensures
            final(self)@ == old(self)@,
            final(self).wf() == old(self).wf(),
            final(self).spec_debug() == val,
    {
        self.debug_mode = val;
    }

    /// Whether tracing is on.
    pub fn debug(&self) -> (b: bool)
        ensures
            b == self.spec_debug(),
    {
        self.debug_mode
    }

    /// The CPU, to look at.
    pub fn cpu(&self) -> (cpu: &Cpu)
        ensures
            cpu@ == self@.cpu,
            self.wf() ==> cpu.wf(),
    {
        &self.cpu
    }

    /// The word of memory at `addr`.
    pub fn read_word(&self, addr: usize) -> (w: WORD)
        requires
            self.wf(),
            addr < MEMORY_SIZE,
        ensures
            w == self@.bus.memory[addr as int],
    {
        self.bus.read_word(addr)
    }

    /// Writes `program` to memory from address 0 on; the words behind it stay as
    /// they are. The machine must not have started, and the program must fit into
    /// memory.
    pub fn load_memory(&mut self, program: Vec<WORD>)
        requires
            old(self).wf(),
            old(self)@.cpu.state == CpuState::NotStarted,
            program.len() <= MEMORY_SIZE,
        ensures
            final(self).wf(),
            final(self).spec_debug() == old(self).spec_debug(),
            final(self)@ == (Machine {
                bus: BusView {
                    memory: spec_load(old(self)@.bus.memory, program@),
                    ..old(self)@.bus
                },
                ..old(self)@
            }),
    {
        let mut idx: usize = 0;
        while idx < program.len()
            invariant
                idx <= program.len() <= MEMORY_SIZE,
                self.wf(),
                self.cpu == old(self).cpu,
                self.console == old(self).console,
                self.debug_mode == old(self).debug_mode,
                self.bus@.stack == old(self).bus@.stack,
                self.bus@.memory == spec_load(old(self).bus@.memory, program@.take(idx as int)),
            decreases program.len() - idx,
        {
            self.bus.write_word(idx, program[idx]);
            idx += 1;
            assert(self.bus@.memory =~= spec_load(
                old(self).bus@.memory,
                program@.take(idx as int),
            ));
        }
        assert(program@.take(idx as int) =~= program@);
    }

    /// Appends `bytes` to the input that the program reads with `in`.
    pub fn feed_input(&mut self, bytes: &[u8])
        requires
            old(self).wf(),
        ensures
            final(self).wf(),
            final(self).spec_debug() == old(self).spec_debug(),
            final(self)@ == (Machine {
                console: ConsoleView {
                    input: old(self)@.console.input + bytes@,
                    ..old(self)@.console
                },
                ..old(self)@
            }),
    {
        self.console.feed(bytes);
    }

    /// Hands over what the program wrote with `out` since the output was last
    /// taken.
    pub fn take_output(&mut self) -> (out: Vec<u8>)
        requires
            old(self).wf(),
        ensures
            final(self).wf(),
            final(self).spec_debug() == old(self).spec_debug(),
            out@ == old(self)@.console.output,
            final(self)@ == (Machine {
                console: ConsoleView { output: Seq::empty(), ..old(self)@.console },
                ..old(self)@
            }),
    {
        self.console.take_output()
    }

    /// Whether the machine is about to execute `in` with no byte to read. A host
    /// that has more input feeds it now; if it feeds none, the instruction fails.
    pub fn awaits_input(&self) -> (b: bool)
        requires
            self.wf(),
        ensures
            b == spec_awaits_input(self@),
    {
        self.cpu.is_running() && self.bus.read_word(self.cpu.pc()) == 20
            && !self.console.has_input()
    }

    /// Starts the machine.
    pub fn start(&mut self)
        requires
            old(self).wf(),
            old(self)@.cpu.state == CpuState::NotStarted,
        ensures
            final(self).wf(),
            final(self).spec_debug() == old(self).spec_debug(),
            final(self)@ == spec_started(old(self)@),
    {
        self.cpu.start();
    }

    /// Performs one instruction cycle of the running machine.
    pub fn step(&mut self)
        requires
            old(self).wf(),
            old(self)@.cpu.state == CpuState::Running,
        ensures
            final(self).wf(),
            final(self).spec_debug() == old(self).spec_debug(),
            final(self)@ == spec_step(old(self)@),
    {
        self.cpu.step(&mut self.bus, &mut self.console);
    }

    /// Runs the started machine until it is no longer running, but for no more
    /// than `budget` instruction cycles.
    pub fn resume(&mut self, budget: u64) -> (state: &CpuState)
        requires
            old(self).wf(),
        ensures
            final(self).wf(),
            final(self).spec_debug() == old(self).spec_debug(),
            final(self)@ == spec_run(old(self)@, budget as nat),
            *state == final(self)@.cpu.state,
    {
        let mut left = budget;
        while left > 0 && self.cpu.is_running()
            invariant
                self.wf(),
                self.debug_mode == old(self).debug_mode,
                spec_run(self@, left as nat) == spec_run(old(self)@, budget as nat),
            decreases left,
        {
            self.cpu.step(&mut self.bus, &mut self.console);
            left -= 1;
        }
        self.cpu.state()
    }

    /// Starts the machine and runs it until it is no longer running, but for no
    /// more than `budget` instruction cycles. Returns the state it is left in.
    pub fn run(&mut self, budget: u64) -> (state: &CpuState)
        requires
            old(self).wf(),
            old(self)@.cpu.state == CpuState::NotStarted,
        ensures
            final(self).wf(),
            final(self).spec_debug() == old(self).spec_debug(),
            final(self)@ == spec_run(spec_started(old(self)@), budget as nat),
            *state == final(self)@.cpu.state,
    {
        self.start();
        self.resume(budget)
    }
}

} // verus!
