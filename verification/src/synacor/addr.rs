//! The value model: what a 16-bit word denotes.

use vstd::prelude::*;

verus! {

/// What a word denotes: a 15-bit literal, a reference to one of the eight registers,
/// or nothing at all.
#[derive(Clone, Copy, Debug, PartialEq, Eq, Structural)]
pub enum Addr {
    Register(usize),
    Immediate(u16),
    Invalid(u16),
}

impl Addr {
    /// The class of `value`, as a specification.
    pub open spec fn spec_map(value: u16) -> Addr {
        if value < 0x8000 {
            Addr::Immediate(value)
        } else if value < 0x8008 {
            Addr::Register((value - 0x8000) as usize)
        } else {
            Addr::Invalid(value)
        }
    }

    /// Classifies `value`.
    pub fn map(value: u16) -> (r: Addr)
        ensures
            r == Addr::spec_map(value),
    {
        if value < 0x8000 {
            Addr::Immediate(value)
        } else if value < 0x8008 {
            Addr::Register((value - 0x8000) as usize)
        } else {
            Addr::Invalid(value)
        }
    }
}

} // verus!
