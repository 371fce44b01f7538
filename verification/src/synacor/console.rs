//! The console: the byte streams through which a program talks to its host.
//!
//! The machine never touches the host's streams itself. The host puts the bytes it
//! has read into the console, the `in` instruction takes them from there, the `out`
//! instruction leaves its bytes there, and the host collects them.

use vstd::prelude::*;
use super::WORD;

verus! {

/// The byte that `in` never delivers: a carriage return.
pub const CARRIAGE_RETURN: u8 = 0x0D;

/// What a console holds: the input not yet read, and the output not yet collected.
pub struct ConsoleView {
    pub input: Seq<u8>,
    pub output: Seq<u8>,
}

/// `input` without its leading carriage returns.
pub open spec fn skip_cr(input: Seq<u8>) -> Seq<u8>
    decreases input.len(),
{
    if input.len() > 0 && input[0] == CARRIAGE_RETURN {
        skip_cr(input.drop_first())
    } else {
        input
    }
}

/// The word that reading from `input` delivers: its first byte that is no carriage
/// return, or nothing where there is no such byte.
pub open spec fn spec_read(input: Seq<u8>) -> Option<WORD> {
    let rest = skip_cr(input);
    if rest.len() == 0 {
        None
    } else {
        Some(rest[0] as WORD)
    }
}

/// The input that is left after one read: what follows the byte delivered.
pub open spec fn spec_rest(input: Seq<u8>) -> Seq<u8> {
    let rest = skip_cr(input);
    if rest.len() == 0 {
        rest
    } else {
        rest.drop_first()
    }
}

/// The byte that writing `word` emits: its low eight bits.
pub open spec fn spec_low_byte(word: WORD) -> u8 {
    (word & 0xFF) as u8
}

/// The input and output streams of one machine.
pub struct Console {
    input: Vec<u8>,
    cursor: usize,
    output: Vec<u8>,
}

impl View for Console {
    type V = ConsoleView;

    closed spec fn view(&self) -> ConsoleView {
        ConsoleView { input: self.input@.skip(self.cursor as int), output: self.output@ }
    }
}

impl Console {
    /// The read position lies within the input.
    pub closed spec fn wf(&self) -> bool {
        self.cursor <= self.input.len()
    }

    /// A console with no input and no output.
    pub fn new() -> (c: Console)
        ensures
            c.wf(),
            c@.input == Seq::<u8>::empty(),
            c@.output == Seq::<u8>::empty(),
    {
        Console { input: Vec::new(), cursor: 0, output: Vec::new() }
    }

    /// Appends `bytes` to the input.
    pub fn feed(&mut self, bytes: &[u8])
        requires
            old(self).wf(),
        ensures
            final(self).wf(),
            final(self)@ == (ConsoleView { input: old(self)@.input + bytes@, ..old(self)@ }),
    {
        let mut i: usize = 0;
        while i < bytes.len()
            invariant
                i <= bytes.len(),
                self.wf(),
                self.cursor == old(self).cursor,
                self.output == old(self).output,
                self.input@ == old(self).input@ + bytes@.take(i as int),
            decreases bytes.len() - i,
        {
            self.input.push(bytes[i]);
            i += 1;
        }
        assert(bytes@.take(i as int) =~= bytes@);
        assert(self.input@.skip(self.cursor as int) =~= old(self).input@.skip(self.cursor as int)
            + bytes@);
    }

    /// Whether a read would deliver a byte.
    pub fn has_input(&self) -> (b: bool)
        requires
            self.wf(),
        ensures
            b == (spec_read(self@.input) is Some),
    {
        let mut i = self.cursor;
        while i < self.input.len() && self.input[i] == CARRIAGE_RETURN
            invariant
                self.cursor <= i <= self.input.len(),
                skip_cr(self.input@.skip(i as int)) == skip_cr(self@.input),
            decreases self.input.len() - i,
        {
            proof {
                lemma_skip_step(self.input@, i as int);
            }
            i += 1;
        }
        i < self.input.len()
    }

    /// Reads one byte, passing over carriage returns: the first byte of the input
    /// that is none, or `None` at the end of the input. What was passed over and
    /// what was delivered is gone from the input.
    pub fn read_byte(&mut self) -> (r: Option<WORD>)
        requires
            old(self).wf(),
        ensures
            final(self).wf(),
            r == spec_read(old(self)@.input),
            final(self)@ == (ConsoleView { input: spec_rest(old(self)@.input), ..old(self)@ }),
    {
        while self.cursor < self.input.len() && self.input[self.cursor] == CARRIAGE_RETURN
            invariant
                self.wf(),
                self.input == old(self).input,
                self.output == old(self).output,
                skip_cr(self@.input) == skip_cr(old(self)@.input),
            decreases self.input.len() - self.cursor,
        {
            proof {
                lemma_skip_step(self.input@, self.cursor as int);
            }
            self.cursor += 1;
        }
        let r = if self.cursor < self.input.len() {
            let b = self.input[self.cursor];
            proof {
                lemma_skip_step(self.input@, self.cursor as int);
            }
            self.cursor += 1;
            Some(b as WORD)
        } else {
            None
        };
        if self.cursor == self.input.len() {
            // All that was fed is read: the space can be used again.
            let ghost rest = self@.input;
            self.input.clear();
            self.cursor = 0;
            assert(self@.input =~= rest);
        }
        r
    }

    /// Writes the low eight bits of `word` to the output.
    pub fn write_byte(&mut self, word: WORD)
        requires
            old(self).wf(),
        ensures
            final(self).wf(),
            final(self)@ == (ConsoleView {
                output: old(self)@.output.push(spec_low_byte(word)),
                ..old(self)@
            }),
    {
        self.output.push((word & 0xFF) as u8);
    }

    /// Hands over the output written so far and starts a new, empty one.
    pub fn take_output(&mut self) -> (out: Vec<u8>)
        requires
            old(self).wf(),
        ensures
            final(self).wf(),
            out@ == old(self)@.output,
            final(self)@ == (ConsoleView { output: Seq::<u8>::empty(), ..old(self)@ }),
    {
        let mut out: Vec<u8> = Vec::new();
        std::mem::swap(&mut self.output, &mut out);
        out
    }
}

/// One step of skipping: at position `i` of `s`, a carriage return is passed over,
/// and the rest after any other byte starts right behind it.
proof fn lemma_skip_step(s: Seq<u8>, i: int)
    requires
        0 <= i < s.len(),
    ensures
        s.skip(i).drop_first() == s.skip(i + 1),
        s[i] == CARRIAGE_RETURN ==> skip_cr(s.skip(i)) == skip_cr(s.skip(i + 1)),
        s[i] != CARRIAGE_RETURN ==> skip_cr(s.skip(i)) == s.skip(i),
{
    assert(s.skip(i).drop_first() =~= s.skip(i + 1));
}

} // verus!
