//! The memory: a flat store of `0x8000` words.

use vstd::prelude::*;
use super::WORD;

verus! {

/// The number of words of memory; valid addresses are those below it.
pub const MEMORY_SIZE: usize = 0x8000;

/// The memory of one machine. All words are zero until written.
pub struct Memory(Vec<WORD>);

impl View for Memory {
    type V = Seq<WORD>;

    closed spec fn view(&self) -> Seq<WORD> {
        self.0@
    }
}

impl Memory {
    /// The memory holds exactly `MEMORY_SIZE` words.
    pub open spec fn wf(&self) -> bool {
        self@.len() == MEMORY_SIZE
    }

    /// A memory of zeros.
    pub fn new() -> (m: Memory)
        ensures
            m.wf(),
            forall|a: int| 0 <= a < MEMORY_SIZE ==> m@[a] == 0,
    {
        Memory(vec![0u16; MEMORY_SIZE])
    }

    /// The word at `address`.
    pub fn read(&self, address: usize) -> (w: WORD)
        requires
            self.wf(),
            address < MEMORY_SIZE,
        ensures
            w == self@[address as int],
    {
        self.0[address]
    }

    /// Stores `value` at `address` and leaves every other word as it was.
    pub fn write(&mut self, address: usize, value: WORD)
        requires
            old(self).wf(),
            address < MEMORY_SIZE,
        ensures
            final(self)@ == old(self)@.update(address as int, value),
            final(self).wf(),
    {
        self.0.set(address, value);
    }
}

} // verus!
