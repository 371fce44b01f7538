//! The bus: the memory and the stack, bundled for the CPU.

use vstd::prelude::*;
use super::fault::Fault;
use super::memory::{Memory, MEMORY_SIZE};
use super::stack::Stack;
use super::WORD;

verus! {

/// What a bus holds: the memory image and the stack, bottom first.
pub struct BusView {
    pub memory: Seq<WORD>,
    pub stack: Seq<WORD>,
}

/// The memory and the stack of one machine.
pub struct Bus {
    memory: Memory,
    stack: Stack,
}

impl View for Bus {
    type V = BusView;

    closed spec fn view(&self) -> BusView {
        BusView { memory: self.memory@, stack: self.stack@ }
    }
}

impl Bus {
    /// The memory has its full size.
    pub open spec fn wf(&self) -> bool {
        self@.memory.len() == MEMORY_SIZE
    }

    /// A bus with zeroed memory and an empty stack.
    pub fn new() -> (b: Bus)
        ensures
            b.wf(),
            forall|a: int| 0 <= a < MEMORY_SIZE ==> b@.memory[a] == 0,
            b@.stack == Seq::<WORD>::empty(),
    {
        Bus { memory: Memory::new(), stack: Stack::new() }
    }

    /// The word of memory at `addr`.
    pub fn read_word(&self, addr: usize) -> (w: WORD)
        requires
            self.wf(),
            addr < MEMORY_SIZE,
        ensures
            w == self@.memory[addr as int],
    {
        self.memory.read(addr)
    }

    /// Stores `value` in memory at `addr`; the stack is untouched.
    pub fn write_word(&mut self, addr: usize, value: WORD)
        requires
            old(self).wf(),
            addr < MEMORY_SIZE,
        ensures
            final(self).wf(),
            final(self)@ == (BusView {
                memory: old(self)@.memory.update(addr as int, value),
                ..old(self)@
            }),
    {
        self.memory.write(addr, value);
    }

    /// Pushes `value` on the stack; memory is untouched.
    pub fn push_word(&mut self, value: WORD)
        requires
            old(self).wf(),
        ensures
            final(self).wf(),
            final(self)@ == (BusView { stack: old(self)@.stack.push(value), ..old(self)@ }),
    {
        self.stack.push(value);
    }

    /// Pops the top of the stack, or fails with `EmptyStack` and changes nothing.
    pub fn pop_word(&mut self) -> (r: Result<WORD, Fault>)
        requires
            old(self).wf(),
        ensures
            final(self).wf(),
            old(self)@.stack.len() == 0 ==> r == Err::<WORD, Fault>(Fault::EmptyStack)
                && final(self)@ == old(self)@,
            old(self)@.stack.len() > 0 ==> r == Ok::<WORD, Fault>(old(self)@.stack.last())
                && final(self)@ == (BusView {
                stack: old(self)@.stack.drop_last(),
                ..old(self)@
            }),
    {
        match self.stack.pop() {
            Some(v) => Ok(v),
            None => Err(Fault::EmptyStack),
        }
    }
}

} // verus!
