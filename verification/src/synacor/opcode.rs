//! The opcode table: the 22 opcodes, their numeric codes, argument counts and mnemonics.

use vstd::prelude::*;
use crate::text::{chars_of, spells};

verus! {

/// One of the 22 operations of the architecture.
#[derive(Clone, Copy, Debug, PartialEq, Eq, Structural)]
pub enum Opcode {
    Halt,
    SetReg,
    Push,
    Pop,
    Eq,
    Gt,
    Jmp,
    Jt,
    Jf,
    Add,
    Mult,
    Mod,
    And,
    Or,
    Not,
    Rmem,
    Wmem,
    Call,
    Ret,
    Out,
    In,
    Noop,
}

impl Opcode {
    /// The number of operand words that follow the opcode in memory.
    pub open spec fn spec_argc(self) -> nat {
        match self {
            Opcode::Halt | Opcode::Ret | Opcode::Noop => 0,
            Opcode::Push | Opcode::Pop | Opcode::Jmp | Opcode::Call | Opcode::Out | Opcode::In => 1,
            Opcode::SetReg | Opcode::Jt | Opcode::Jf | Opcode::Not | Opcode::Rmem | Opcode::Wmem => 2,
            Opcode::Eq | Opcode::Gt | Opcode::Add | Opcode::Mult | Opcode::Mod | Opcode::And | Opcode::Or => 3,
        }
    }

    /// The numeric code of the opcode, between 0 and 21.
    pub open spec fn spec_code(self) -> u16 {
        match self {
            Opcode::Halt => 0,
            Opcode::SetReg => 1,
            Opcode::Push => 2,
            Opcode::Pop => 3,
            Opcode::Eq => 4,
            Opcode::Gt => 5,
            Opcode::Jmp => 6,
            Opcode::Jt => 7,
            Opcode::Jf => 8,
            Opcode::Add => 9,
            Opcode::Mult => 10,
            Opcode::Mod => 11,
            Opcode::And => 12,
            Opcode::Or => 13,
            Opcode::Not => 14,
            Opcode::Rmem => 15,
            Opcode::Wmem => 16,
            Opcode::Call => 17,
            Opcode::Ret => 18,
            Opcode::Out => 19,
            Opcode::In => 20,
            Opcode::Noop => 21,
        }
    }

    /// The opcode with the numeric code `w`, if `w` is at most 21.
    pub open spec fn spec_from_word(w: u16) -> Option<Opcode> {
        match w {
            0 => Some(Opcode::Halt),
            1 => Some(Opcode::SetReg),
            2 => Some(Opcode::Push),
            3 => Some(Opcode::Pop),
            4 => Some(Opcode::Eq),
            5 => Some(Opcode::Gt),
            6 => Some(Opcode::Jmp),
            7 => Some(Opcode::Jt),
            8 => Some(Opcode::Jf),
            9 => Some(Opcode::Add),
            10 => Some(Opcode::Mult),
            11 => Some(Opcode::Mod),
            12 => Some(Opcode::And),
            13 => Some(Opcode::Or),
            14 => Some(Opcode::Not),
            15 => Some(Opcode::Rmem),
            16 => Some(Opcode::Wmem),
            17 => Some(Opcode::Call),
            18 => Some(Opcode::Ret),
            19 => Some(Opcode::Out),
            20 => Some(Opcode::In),
            21 => Some(Opcode::Noop),
            _ => None,
        }
    }

    /// The opcode that the mnemonic `s` names; `hlt`, `jnz` and `jz` are aliases
    /// of `halt`, `jt` and `jf`.
    pub open spec fn spec_try_from(s: Seq<char>) -> Option<Opcode> {
        if s == "halt"@ || s == "hlt"@ {
            Some(Opcode::Halt)
        } else if s == "set"@ {
            Some(Opcode::SetReg)
        } else if s == "push"@ {
            Some(Opcode::Push)
        } else if s == "pop"@ {
            Some(Opcode::Pop)
        } else if s == "eq"@ {
            Some(Opcode::Eq)
        } else if s == "gt"@ {
            Some(Opcode::Gt)
        } else if s == "jmp"@ {
            Some(Opcode::Jmp)
        } else if s == "jt"@ || s == "jnz"@ {
            Some(Opcode::Jt)
        } else if s == "jf"@ || s == "jz"@ {
            Some(Opcode::Jf)
        } else if s == "add"@ {
            Some(Opcode::Add)
        } else if s == "mult"@ {
            Some(Opcode::Mult)
        } else if s == "mod"@ {
            Some(Opcode::Mod)
        } else if s == "and"@ {
            Some(Opcode::And)
        } else if s == "or"@ {
            Some(Opcode::Or)
        } else if s == "not"@ {
            Some(Opcode::Not)
        } else if s == "rmem"@ {
            Some(Opcode::Rmem)
        } else if s == "wmem"@ {
            Some(Opcode::Wmem)
        } else if s == "call"@ {
            Some(Opcode::Call)
        } else if s == "ret"@ {
            Some(Opcode::Ret)
        } else if s == "out"@ {
            Some(Opcode::Out)
        } else if s == "in"@ {
            Some(Opcode::In)
        } else if s == "noop"@ {
            Some(Opcode::Noop)
        } else {
            None
        }
    }

    /// The number of operand words that follow the opcode in memory.
    pub fn argc(&self) -> (n: usize)
        ensures
            n == self.spec_argc(),
            n <= 3,
    {
        match self {
            Opcode::Halt => 0,
            Opcode::SetReg => 2,
            Opcode::Push => 1,
            Opcode::Pop => 1,
            Opcode::Eq => 3,
            Opcode::Gt => 3,
            Opcode::Jmp => 1,
            Opcode::Jt => 2,
            Opcode::Jf => 2,
            Opcode::Add => 3,
            Opcode::Mult => 3,
            Opcode::Mod => 3,
            Opcode::And => 3,
            Opcode::Or => 3,
            Opcode::Not => 2,
            Opcode::Rmem => 2,
            Opcode::Wmem => 2,
            Opcode::Call => 1,
            Opcode::Ret => 0,
            Opcode::Out => 1,
            Opcode::In => 1,
            Opcode::Noop => 0,
        }
    }

    /// The numeric code of the opcode.
    pub fn code(&self) -> (w: u16)
        ensures
            w == self.spec_code(),
            w <= 21,
    {
        match self {
            Opcode::Halt => 0,
            Opcode::SetReg => 1,
            Opcode::Push => 2,
            Opcode::Pop => 3,
            Opcode::Eq => 4,
            Opcode::Gt => 5,
            Opcode::Jmp => 6,
            Opcode::Jt => 7,
            Opcode::Jf => 8,
            Opcode::Add => 9,
            Opcode::Mult => 10,
            Opcode::Mod => 11,
            Opcode::And => 12,
            Opcode::Or => 13,
            Opcode::Not => 14,
            Opcode::Rmem => 15,
            Opcode::Wmem => 16,
            Opcode::Call => 17,
            Opcode::Ret => 18,
            Opcode::Out => 19,
            Opcode::In => 20,
            Opcode::Noop => 21,
        }
    }

    /// Decodes a numeric code: `Some` exactly for the codes 0 to 21.
    pub fn from_word(w: u16) -> (r: Option<Opcode>)
        ensures
            r == Opcode::spec_from_word(w),
            r is Some <==> w <= 21,
    {
        match w {
            0 => Some(Opcode::Halt),
            1 => Some(Opcode::SetReg),
            2 => Some(Opcode::Push),
            3 => Some(Opcode::Pop),
            4 => Some(Opcode::Eq),
            5 => Some(Opcode::Gt),
            6 => Some(Opcode::Jmp),
            7 => Some(Opcode::Jt),
            8 => Some(Opcode::Jf),
            9 => Some(Opcode::Add),
            10 => Some(Opcode::Mult),
            11 => Some(Opcode::Mod),
            12 => Some(Opcode::And),
            13 => Some(Opcode::Or),
            14 => Some(Opcode::Not),
            15 => Some(Opcode::Rmem),
            16 => Some(Opcode::Wmem),
            17 => Some(Opcode::Call),
            18 => Some(Opcode::Ret),
            19 => Some(Opcode::Out),
            20 => Some(Opcode::In),
            21 => Some(Opcode::Noop),
            _ => None,
        }
    }

    /// Looks a mnemonic up: `Some` exactly for the 22 canonical mnemonics and the
    /// three aliases.
    pub fn try_from(s: &str) -> (r: Option<Opcode>)
        ensures
            r == Opcode::spec_try_from(s@),
    {
        let word = chars_of(s);
        Opcode::from_mnemonic(word.as_slice())
    }

    /// Looks up a mnemonic given as a sequence of characters.
    pub fn from_mnemonic(word: &[char]) -> (r: Option<Opcode>)
        ensures
            r == Opcode::spec_try_from(word@),
    {
        if spells(word, "halt") || spells(word, "hlt") {
            Some(Opcode::Halt)
        } else if spells(word, "set") {
            Some(Opcode::SetReg)
        } else if spells(word, "push") {
            Some(Opcode::Push)
        } else if spells(word, "pop") {
            Some(Opcode::Pop)
        } else if spells(word, "eq") {
            Some(Opcode::Eq)
        } else if spells(word, "gt") {
            Some(Opcode::Gt)
        } else if spells(word, "jmp") {
            Some(Opcode::Jmp)
        } else if spells(word, "jt") || spells(word, "jnz") {
            Some(Opcode::Jt)
        } else if spells(word, "jf") || spells(word, "jz") {
            Some(Opcode::Jf)
        } else if spells(word, "add") {
            Some(Opcode::Add)
        } else if spells(word, "mult") {
            Some(Opcode::Mult)
        } else if spells(word, "mod") {
            Some(Opcode::Mod)
        } else if spells(word, "and") {
            Some(Opcode::And)
        } else if spells(word, "or") {
            Some(Opcode::Or)
        } else if spells(word, "not") {
            Some(Opcode::Not)
        } else if spells(word, "rmem") {
            Some(Opcode::Rmem)
        } else if spells(word, "wmem") {
            Some(Opcode::Wmem)
        } else if spells(word, "call") {
            Some(Opcode::Call)
        } else if spells(word, "ret") {
            Some(Opcode::Ret)
        } else if spells(word, "out") {
            Some(Opcode::Out)
        } else if spells(word, "in") {
            Some(Opcode::In)
        } else if spells(word, "noop") {
            Some(Opcode::Noop)
        } else {
            None
        }
    }

    /// The table of mnemonics: each of the 22 canonical mnemonics and the three
    /// aliases names its opcode.
    pub proof fn lemma_mnemonics()
        ensures
            Opcode::spec_try_from("halt"@) == Some(Opcode::Halt),
            Opcode::spec_try_from("hlt"@) == Some(Opcode::Halt),
            Opcode::spec_try_from("set"@) == Some(Opcode::SetReg),
            Opcode::spec_try_from("push"@) == Some(Opcode::Push),
            Opcode::spec_try_from("pop"@) == Some(Opcode::Pop),
            Opcode::spec_try_from("eq"@) == Some(Opcode::Eq),
            Opcode::spec_try_from("gt"@) == Some(Opcode::Gt),
            Opcode::spec_try_from("jmp"@) == Some(Opcode::Jmp),
            Opcode::spec_try_from("jt"@) == Some(Opcode::Jt),
            Opcode::spec_try_from("jnz"@) == Some(Opcode::Jt),
            Opcode::spec_try_from("jf"@) == Some(Opcode::Jf),
            Opcode::spec_try_from("jz"@) == Some(Opcode::Jf),
            Opcode::spec_try_from("add"@) == Some(Opcode::Add),
            Opcode::spec_try_from("mult"@) == Some(Opcode::Mult),
            Opcode::spec_try_from("mod"@) == Some(Opcode::Mod),
            Opcode::spec_try_from("and"@) == Some(Opcode::And),
            Opcode::spec_try_from("or"@) == Some(Opcode::Or),
            Opcode::spec_try_from("not"@) == Some(Opcode::Not),
            Opcode::spec_try_from("rmem"@) == Some(Opcode::Rmem),
            Opcode::spec_try_from("wmem"@) == Some(Opcode::Wmem),
            Opcode::spec_try_from("call"@) == Some(Opcode::Call),
            Opcode::spec_try_from("ret"@) == Some(Opcode::Ret),
            Opcode::spec_try_from("out"@) == Some(Opcode::Out),
            Opcode::spec_try_from("in"@) == Some(Opcode::In),
            Opcode::spec_try_from("noop"@) == Some(Opcode::Noop),
    {
        reveal_strlit("halt");
        reveal_strlit("hlt");
        reveal_strlit("set");
        reveal_strlit("push");
        reveal_strlit("pop");
        reveal_strlit("eq");
        reveal_strlit("gt");
        reveal_strlit("jmp");
        reveal_strlit("jt");
        reveal_strlit("jnz");
        reveal_strlit("jf");
        reveal_strlit("jz");
        reveal_strlit("add");
        reveal_strlit("mult");
        reveal_strlit("mod");
        reveal_strlit("and");
        reveal_strlit("or");
        reveal_strlit("not");
        reveal_strlit("rmem");
        reveal_strlit("wmem");
        reveal_strlit("call");
        reveal_strlit("ret");
        reveal_strlit("out");
        reveal_strlit("in");
        reveal_strlit("noop");
        assert("halt"@.len() == 4 && "halt"@[0] == 'h' && "halt"@[1] == 'a' && "halt"@[2] == 'l' && "halt"@[3] == 't');
        assert("hlt"@.len() == 3 && "hlt"@[0] == 'h' && "hlt"@[1] == 'l' && "hlt"@[2] == 't');
        assert("set"@.len() == 3 && "set"@[0] == 's' && "set"@[1] == 'e' && "set"@[2] == 't');
        assert("push"@.len() == 4 && "push"@[0] == 'p' && "push"@[1] == 'u' && "push"@[2] == 's' && "push"@[3] == 'h');
        assert("pop"@.len() == 3 && "pop"@[0] == 'p' && "pop"@[1] == 'o' && "pop"@[2] == 'p');
        assert("eq"@.len() == 2 && "eq"@[0] == 'e' && "eq"@[1] == 'q');
        assert("gt"@.len() == 2 && "gt"@[0] == 'g' && "gt"@[1] == 't');
        assert("jmp"@.len() == 3 && "jmp"@[0] == 'j' && "jmp"@[1] == 'm' && "jmp"@[2] == 'p');
        assert("jt"@.len() == 2 && "jt"@[0] == 'j' && "jt"@[1] == 't');
        assert("jnz"@.len() == 3 && "jnz"@[0] == 'j' && "jnz"@[1] == 'n' && "jnz"@[2] == 'z');
        assert("jf"@.len() == 2 && "jf"@[0] == 'j' && "jf"@[1] == 'f');
        assert("jz"@.len() == 2 && "jz"@[0] == 'j' && "jz"@[1] == 'z');
        assert("add"@.len() == 3 && "add"@[0] == 'a' && "add"@[1] == 'd' && "add"@[2] == 'd');
        assert("mult"@.len() == 4 && "mult"@[0] == 'm' && "mult"@[1] == 'u' && "mult"@[2] == 'l' && "mult"@[3] == 't');
        assert("mod"@.len() == 3 && "mod"@[0] == 'm' && "mod"@[1] == 'o' && "mod"@[2] == 'd');
        assert("and"@.len() == 3 && "and"@[0] == 'a' && "and"@[1] == 'n' && "and"@[2] == 'd');
        assert("or"@.len() == 2 && "or"@[0] == 'o' && "or"@[1] == 'r');
        assert("not"@.len() == 3 && "not"@[0] == 'n' && "not"@[1] == 'o' && "not"@[2] == 't');
        assert("rmem"@.len() == 4 && "rmem"@[0] == 'r' && "rmem"@[1] == 'm' && "rmem"@[2] == 'e' && "rmem"@[3] == 'm');
        assert("wmem"@.len() == 4 && "wmem"@[0] == 'w' && "wmem"@[1] == 'm' && "wmem"@[2] == 'e' && "wmem"@[3] == 'm');
        assert("call"@.len() == 4 && "call"@[0] == 'c' && "call"@[1] == 'a' && "call"@[2] == 'l' && "call"@[3] == 'l');
        assert("ret"@.len() == 3 && "ret"@[0] == 'r' && "ret"@[1] == 'e' && "ret"@[2] == 't');
        assert("out"@.len() == 3 && "out"@[0] == 'o' && "out"@[1] == 'u' && "out"@[2] == 't');
        assert("in"@.len() == 2 && "in"@[0] == 'i' && "in"@[1] == 'n');
        assert("noop"@.len() == 4 && "noop"@[0] == 'n' && "noop"@[1] == 'o' && "noop"@[2] == 'o' && "noop"@[3] == 'p');
    }

    /// The codes and the opcodes correspond one to one: decoding the code of an
    /// opcode gives the opcode back, and a word that decodes is the code of what
    /// it decodes to.
    pub proof fn lemma_code_bijective(o: Opcode, w: u16)
        ensures
            Opcode::spec_from_word(o.spec_code()) == Some(o),
            o.spec_code() <= 21,
            Opcode::spec_from_word(w) is Some <==> w <= 21,
            Opcode::spec_from_word(w) == Some(o) <==> o.spec_code() == w,
    {
    }
}

impl From<Opcode> for u16 {
    /// The numeric code of the opcode.
    fn from(o: Opcode) -> (w: u16) {
        o.code()
    }
}

impl vstd::std_specs::convert::FromSpecImpl<Opcode> for u16 {
    open spec fn obeys_from_spec() -> bool {
        true
    }

    open spec fn from_spec(o: Opcode) -> u16 {
        o.spec_code()
    }
}

} // verus!
