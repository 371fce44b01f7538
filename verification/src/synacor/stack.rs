//! The stack: an unbounded last-in, first-out sequence of words.

use vstd::prelude::*;
use super::WORD;

verus! {

/// The stack of one machine. Its view lists the words from the bottom to the top.
pub struct Stack(Vec<WORD>);

impl View for Stack {
    type V = Seq<WORD>;

    closed spec fn view(&self) -> Seq<WORD> {
        self.0@
    }
}

impl Stack {
    /// An empty stack.
    pub fn new() -> (s: Stack)
        ensures
            s@ == Seq::<WORD>::empty(),
    {
        Stack(Vec::new())
    }

    /// Puts `value` on top.
    pub fn push(&mut self, value: WORD)
        ensures
            final(self)@ == old(self)@.push(value),
            final(self)@.len() == old(self)@.len() + 1,
    {
        self.0.push(value);
    }

    /// Takes the top word off, or returns `None` and leaves the empty stack as it is.
    pub fn pop(&mut self) -> (r: Option<WORD>)
        ensures
            old(self)@.len() == 0 ==> r is None && final(self)@ == old(self)@,
            old(self)@.len() > 0 ==> r == Some(old(self)@.last()) && final(self)@ == old(
                self,
            )@.drop_last(),
            final(self)@.len() == if old(self)@.len() > 0 {
                old(self)@.len() - 1
            } else {
                0
            },
    {
        self.0.pop()
    }
}

} // verus!
