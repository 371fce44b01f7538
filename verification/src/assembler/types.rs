//! The data of the assembler: operand terms, tokens and errors.

use vstd::prelude::*;
use crate::synacor::memory::MEMORY_SIZE;
use crate::synacor::opcode::Opcode;
use crate::synacor::{MODULO, NUM_REGISTERS, WORD};
use crate::text::chars_of;
use super::grammar::{parse_argument, spec_argument};

verus! {

/// An operand as written in the source.
#[derive(Debug, PartialEq, Eq)]
pub enum Argument {
    /// `r0` to `r7`: a register.
    Register(usize),
    /// `[r0]` to `[r7]`: a register in brackets. The notation is reserved; it is
    /// encoded as the register itself.
    RPointer(usize),
    /// `[n]`: an absolute memory address.
    MPointer(usize),
    /// A symbol that stands for the offset of the token that carries it.
    Label(String),
    /// `#n`: a 15-bit literal.
    Number(u16),
}

/// An operand as a mathematical value: as `Argument`, with the label's name as a
/// sequence of characters.
pub enum ArgumentView {
    Register(usize),
    RPointer(usize),
    MPointer(usize),
    Label(Seq<char>),
    Number(u16),
}

impl ArgumentView {
    /// A register is one of the eight, and an address or a literal is below
    /// `0x8000`.
    pub open spec fn wf(self) -> bool {
        match self {
            ArgumentView::Register(r) => r < NUM_REGISTERS,
            ArgumentView::RPointer(r) => r < NUM_REGISTERS,
            ArgumentView::MPointer(m) => m < MEMORY_SIZE,
            ArgumentView::Label(_) => true,
            ArgumentView::Number(n) => n < MODULO,
        }
    }

    /// The word that encodes the operand: `0x8000 + r` for a register, plain or in
    /// brackets, and the number itself for an address or a literal. A label has no
    /// encoding.
    pub open spec fn spec_as_word(self) -> WORD
        recommends
            self.wf(),
            !(self is Label),
    {
        match self {
            ArgumentView::Register(r) => (MODULO + r) as WORD,
            ArgumentView::RPointer(r) => (MODULO + r) as WORD,
            ArgumentView::MPointer(m) => m as WORD,
            ArgumentView::Label(_) => 0,
            ArgumentView::Number(n) => n,
        }
    }
}

impl View for Argument {
    type V = ArgumentView;

    open spec fn view(&self) -> ArgumentView {
        match self {
            Argument::Register(r) => ArgumentView::Register(*r),
            Argument::RPointer(r) => ArgumentView::RPointer(*r),
            Argument::MPointer(m) => ArgumentView::MPointer(*m),
            Argument::Label(l) => ArgumentView::Label(l@),
            Argument::Number(n) => ArgumentView::Number(*n),
        }
    }
}

impl Clone for Argument {
    fn clone(&self) -> (r: Argument)
        ensures
            r == *self,
    {
        match self {
            Argument::Register(r) => Argument::Register(*r),
            Argument::RPointer(r) => Argument::RPointer(*r),
            Argument::MPointer(m) => Argument::MPointer(*m),
            Argument::Label(l) => Argument::Label(l.clone()),
            Argument::Number(n) => Argument::Number(*n),
        }
    }
}

impl Argument {
    /// The operand that the word `s` denotes, if it denotes one: `#n` is a
    /// literal, `rd` a register, `[rd]` a register in brackets, `[n]` a memory
    /// address, and an identifier is a label.
    pub fn parse(s: &str) -> (r: Option<Argument>)
        ensures
            spec_slot(r) == spec_argument(s@),
            r matches Some(a) ==> a@.wf(),
    {
        let chars = chars_of(s);
        parse_argument(chars.as_slice())
    }

    /// The word that encodes the operand, which must be well formed and no label.
    pub fn as_word(&self) -> (w: WORD)
        requires
            self@.wf(),
            !(self@ is Label),
        ensures
            w == self@.spec_as_word(),
    {
        match self {
            Argument::Register(r) => (*r + 0x8000) as WORD,
            Argument::RPointer(p) => (*p + 0x8000) as WORD,
            Argument::MPointer(m) => *m as WORD,
            Argument::Label(_) => 0,
            Argument::Number(n) => *n,
        }
    }
}

/// The view of an operand slot.
pub open spec fn spec_slot(slot: Option<Argument>) -> Option<ArgumentView> {
    match slot {
        Some(a) => Some(a@),
        None => None,
    }
}

/// The two kinds of token.
#[derive(Copy, Clone, Debug, PartialEq, Eq, Structural)]
pub enum TokenType {
    Instruction,
    DataDeclaration,
}

/// A parsed unit of source: an instruction or a data declaration, with the word
/// address at which it starts in the image.
#[derive(Debug, PartialEq, Eq)]
pub struct Token {
    pub tok_type: TokenType,
    /// The label of the token; a data declaration always has one.
    pub label: Option<String>,
    /// The word address at which the token starts.
    pub offset: usize,
    /// The opcode of an instruction.
    pub opcode: Option<Opcode>,
    /// The operands of an instruction: as many as the opcode takes, from the
    /// first slot on.
    pub args: [Option<Argument>; 3],
    /// The words of a data declaration.
    pub data: Vec<WORD>,
}

/// A token as a mathematical value.
pub struct TokenView {
    pub tok_type: TokenType,
    pub label: Option<Seq<char>>,
    pub offset: nat,
    pub opcode: Option<Opcode>,
    pub args: Seq<Option<ArgumentView>>,
    pub data: Seq<WORD>,
}

impl TokenView {
    /// The token has the shape of its kind. An instruction has an opcode, a well
    /// formed operand in each of the slots that the opcode takes, the other slots
    /// empty, and no data. A data declaration has a label, no opcode and no
    /// operands. Either lies within the address space.
    pub open spec fn wf(self) -> bool {
        &&& self.args.len() == 3
        &&& self.offset < MEMORY_SIZE
        &&& self.offset + self.spec_size() <= MEMORY_SIZE
        &&& match self.tok_type {
            TokenType::Instruction => {
                &&& self.opcode is Some
                &&& self.data.len() == 0
                &&& forall|k: int|
                    0 <= k < 3 ==> if k < self.opcode->0.spec_argc() {
                        (#[trigger] self.args[k]) is Some && self.args[k]->0.wf()
                    } else {
                        self.args[k] is None
                    }
            },
            TokenType::DataDeclaration => {
                &&& self.label is Some
                &&& self.opcode is None
                &&& forall|k: int| 0 <= k < 3 ==> (#[trigger] self.args[k]) is None
            },
        }
    }

    /// No operand is a label.
    pub open spec fn spec_is_resolved(self) -> bool {
        forall|k: int| 0 <= k < self.args.len() ==> !((#[trigger] self.args[k]) matches Some(a) && a is Label)
    }

    /// The number of words that the token takes in the image: the opcode and its
    /// operands, or the data.
    pub open spec fn spec_size(self) -> nat {
        match self.tok_type {
            TokenType::DataDeclaration => self.data.len(),
            TokenType::Instruction => 1 + self.opcode->0.spec_argc(),
        }
    }

    /// The words of the token in the image: the code of the opcode followed by the
    /// words of its operands, or the data.
    pub open spec fn spec_as_words(self) -> Seq<WORD> {
        match self.tok_type {
            TokenType::DataDeclaration => self.data,
            TokenType::Instruction => seq![self.opcode->0.spec_code()] + Seq::new(
                self.opcode->0.spec_argc(),
                |k: int| self.args[k]->0.spec_as_word(),
            ),
        }
    }
}

impl View for Token {
    type V = TokenView;

    open spec fn view(&self) -> TokenView {
        TokenView {
            tok_type: self.tok_type,
            label: match self.label {
                Some(l) => Some(l@),
                None => None,
            },
            offset: self.offset as nat,
            opcode: self.opcode,
            args: Seq::new(3, |k: int| spec_slot(self.args[k])),
            data: self.data@,
        }
    }
}

impl Token {
    /// A data declaration with the label `label`, at offset 0 and without data.
    pub fn new_data(label: String) -> (t: Token)
        ensures
            t@ == (TokenView {
                tok_type: TokenType::DataDeclaration,
                label: Some(label@),
                offset: 0,
                opcode: None,
                args: seq![None, None, None],
                data: Seq::empty(),
            }),
            t@.wf(),
    {
        let t = Token {
            tok_type: TokenType::DataDeclaration,
            label: Some(label),
            offset: 0,
            opcode: None,
            args: [None, None, None],
            data: Vec::new(),
        };
        assert(t@.args =~= seq![None, None, None]);
        t
    }

    /// An instruction at offset 0, without label, with no opcode and no operands
    /// yet.
    pub fn new_instr() -> (t: Token)
        ensures
            t@ == (TokenView {
                tok_type: TokenType::Instruction,
                label: None,
                offset: 0,
                opcode: None,
                args: seq![None, None, None],
                data: Seq::empty(),
            }),
    {
        let t = Token {
            tok_type: TokenType::Instruction,
            label: None,
            offset: 0,
            opcode: None,
            args: [None, None, None],
            data: Vec::new(),
        };
        assert(t@.args =~= seq![None, None, None]);
        t
    }

    /// The number of words that the token takes in the image.
    pub fn size(&self) -> (n: usize)
        requires
            self@.wf(),
        ensures
            n == self@.spec_size(),
    {
        match self.tok_type {
            TokenType::DataDeclaration => self.data.len(),
            TokenType::Instruction => 1 + self.opcode.unwrap().argc(),
        }
    }

    /// The words of the token in the image. No operand may be a label.
    pub fn as_words(&self) -> (words: Vec<WORD>)
        requires
            self@.wf(),
            self@.spec_is_resolved(),
        ensures
            words@ == self@.spec_as_words(),
            words@.len() == self@.spec_size(),
    {
        match self.tok_type {
            TokenType::DataDeclaration => self.data.clone(),
            TokenType::Instruction => {
                let mut words = Vec::new();
                let op = self.opcode.unwrap();
                words.push(op.code());
                let argc = op.argc();
                let mut k: usize = 0;
                while k < argc
                    invariant
                        k <= argc <= 3,
                        argc == op.spec_argc(),
                        self@.wf(),
                        self@.spec_is_resolved(),
                        self.opcode == Some(op),
                        self.tok_type == TokenType::Instruction,
                        words@ == seq![op.spec_code()] + Seq::new(
                            k as nat,
                            |j: int| self@.args[j]->0.spec_as_word(),
                        ),
                    decreases argc - k,
                {
                    assert(self@.args[k as int] is Some);
                    match &self.args[k] {
                        Some(a) => {
                            words.push(a.as_word());
                        },
                        None => {},
                    }
                    k += 1;
                    assert(words@ =~= seq![op.spec_code()] + Seq::new(
                        k as nat,
                        |j: int| self@.args[j]->0.spec_as_word(),
                    ));
                }
                words
            },
        }
    }
}

impl Clone for Token {
    fn clone(&self) -> (r: Token)
        ensures
            r@ == self@,
    {
        let t = Token {
            tok_type: self.tok_type,
            label: match &self.label {
                Some(l) => Some(l.clone()),
                None => None,
            },
            offset: self.offset,
            opcode: self.opcode,
            args: [self.args[0].clone(), self.args[1].clone(), self.args[2].clone()],
            data: self.data.clone(),
        };
        assert(t@.args =~= self@.args);
        t
    }
}

/// Why a source could not be assembled.
#[derive(Debug, PartialEq, Eq)]
pub enum AssemblyError {
    /// The line with this number, counted from 1, cannot be parsed.
    SyntaxError(usize),
    /// The token of the line with this number, counted from 1, does not fit into
    /// the address space of `0x8000` words.
    InvalidAddress(usize),
    /// Two tokens carry this label.
    DuplicateLabel(String),
    /// An operand names this label, which no token carries.
    UnresolvedLabel(String),
}

/// An assembly error as a mathematical value.
pub enum AssemblyErrorView {
    SyntaxError(nat),
    InvalidAddress(nat),
    DuplicateLabel(Seq<char>),
    UnresolvedLabel(Seq<char>),
}

impl View for AssemblyError {
    type V = AssemblyErrorView;

    open spec fn view(&self) -> AssemblyErrorView {
        match self {
            AssemblyError::SyntaxError(line) => AssemblyErrorView::SyntaxError(*line as nat),
            AssemblyError::InvalidAddress(line) => AssemblyErrorView::InvalidAddress(*line as nat),
            AssemblyError::DuplicateLabel(l) => AssemblyErrorView::DuplicateLabel(l@),
            AssemblyError::UnresolvedLabel(l) => AssemblyErrorView::UnresolvedLabel(l@),
        }
    }
}

} // verus!
