//! The three forms of a source line: a label on its own, an instruction, and a
//! data declaration.

use vstd::prelude::*;
use vstd::slice::slice_subrange;
use crate::synacor::opcode::Opcode;
use crate::synacor::WORD;
use crate::text::{spells, string_of};
use super::grammar::{
    char_word, digits_end, is_identifier, lemma_rfind, lemma_skip_spaces,
    lemma_trim_end, lemma_word_end, parse_argument, parse_number, rfind, skip_spaces,
    spec_argument, spec_char_word, spec_digits_end, spec_is_identifier, spec_number, spec_rfind,
    spec_skip_spaces, spec_trim_end, spec_word_end, spec_words, split_words, trim_end, word_end,
};
use super::types::{spec_slot, Argument, ArgumentView};

verus! {

/// What a source line says.
#[derive(Debug, PartialEq, Eq)]
pub enum Line {
    /// Nothing but white space.
    Blank,
    /// `<label>:` on its own.
    LabelOnly(String),
    /// `[<label>:] <mnemonic> <operand>...`, with as many operands as the opcode
    /// takes, from the first slot on.
    Instruction { label: Option<String>, opcode: Opcode, args: [Option<Argument>; 3] },
    /// `<label> dw "<text>"[,<number>...]`, with the words of the text followed by
    /// the numbers.
    Declaration { name: String, data: Vec<WORD> },
    /// None of these.
    Unparseable,
}

/// What a source line says, as a mathematical value.
pub enum LineView {
    Blank,
    LabelOnly(Seq<char>),
    Instruction { label: Option<Seq<char>>, opcode: Opcode, args: Seq<Option<ArgumentView>> },
    Declaration { name: Seq<char>, data: Seq<WORD> },
    Unparseable,
}

impl View for Line {
    type V = LineView;

    open spec fn view(&self) -> LineView {
        match self {
            Line::Blank => LineView::Blank,
            Line::LabelOnly(l) => LineView::LabelOnly(l@),
            Line::Instruction { label, opcode, args } => LineView::Instruction {
                label: match label {
                    Some(l) => Some(l@),
                    None => None,
                },
                opcode: *opcode,
                args: Seq::new(3, |k: int| spec_slot(args[k])),
            },
            Line::Declaration { name, data } => LineView::Declaration { name: name@, data: data@ },
            Line::Unparseable => LineView::Unparseable,
        }
    }
}

/// The label that the word `w` defines, if it has the form `<identifier>:`.
pub open spec fn spec_label_definition(w: Seq<char>) -> Option<Seq<char>> {
    if w.len() >= 2 && w[w.len() - 1] == ':' && spec_is_identifier(w.drop_last()) {
        Some(w.drop_last())
    } else {
        None
    }
}

/// The operand slots that the words after the mnemonic fill: word `k + 1` of
/// `rest` in slot `k`, for as many slots as `op` takes.
pub open spec fn spec_slots(rest: Seq<Seq<char>>, op: Opcode) -> Seq<Option<ArgumentView>> {
    Seq::new(
        3,
        |k: int|
            if k < op.spec_argc() {
                spec_argument(rest[k + 1])
            } else {
                None
            },
    )
}

/// The instruction that the words of a line spell, if they spell one: an optional
/// label definition, a mnemonic, and exactly as many operands as its opcode
/// takes.
pub open spec fn spec_instruction(words: Seq<Seq<char>>) -> Option<LineView> {
    let label = if words.len() >= 1 {
        spec_label_definition(words[0])
    } else {
        None
    };
    let rest = if label is Some {
        words.skip(1)
    } else {
        words
    };
    if rest.len() == 0 {
        None
    } else {
        match Opcode::spec_try_from(rest[0]) {
            None => None,
            Some(op) => {
                let args = spec_slots(rest, op);
                if rest.len() == 1 + op.spec_argc() && (op.spec_argc() >= 1 ==> args[0] is Some)
                    && (op.spec_argc() >= 2 ==> args[1] is Some) && (op.spec_argc() >= 3
                    ==> args[2] is Some) {
                    Some(LineView::Instruction { label, opcode: op, args })
                } else {
                    None
                }
            },
        }
    }
}

/// `found` in front of what follows, where anything follows.
pub open spec fn spec_prepend(found: Seq<WORD>, rest: Option<Seq<WORD>>) -> Option<Seq<WORD>> {
    match rest {
        Some(r) => Some(found + r),
        None => None,
    }
}

/// The numbers that follow the text of a data declaration, from position `i` of
/// `s` to its end: each a comma and a decimal numeral of at most `0xFFFF`, with
/// nothing in between.
pub open spec fn spec_numerals(s: Seq<char>, i: int) -> Option<Seq<WORD>>
    decreases s.len() - i,
{
    if i < 0 || i >= s.len() {
        Some(Seq::empty())
    } else if s[i] != ',' {
        None
    } else {
        let end = spec_digits_end(s, i + 1);
        if !(i + 1 < end <= s.len()) {
            None
        } else {
            match spec_number(s.subrange(i + 1, end), 0xFFFF) {
                None => None,
                Some(v) => spec_prepend(seq![v as WORD], spec_numerals(s, end)),
            }
        }
    }
}

/// The words of the text of a data declaration: one for each character.
pub open spec fn spec_text_words(text: Seq<char>) -> Seq<WORD> {
    Seq::new(text.len(), |k: int| spec_char_word(text[k]))
}

/// The data declaration that a line spells, if it spells one. White space around
/// the line does not count. The line starts with an identifier, the label; then
/// comes the word `dw`; then, after white space, a quotation mark. The text runs
/// from there to the last quotation mark of the line; it is not empty and does not
/// end in a backslash. Behind it stand the numbers, if any.
pub open spec fn spec_declaration(line: Seq<char>) -> Option<LineView> {
    let n = spec_trim_end(line, line.len() as int);
    let s = line.take(n);
    let label_start = spec_skip_spaces(s, 0);
    let label_end = spec_word_end(s, label_start);
    let dw_start = spec_skip_spaces(s, label_end);
    let dw_end = spec_word_end(s, dw_start);
    let open = spec_skip_spaces(s, dw_end);
    let close = spec_rfind(s, n, '"') - 1;
    if spec_is_identifier(s.subrange(label_start, label_end)) && s.subrange(dw_start, dw_end)
        == "dw"@ && open < n && s[open] == '"' && open + 1 < close && s[close - 1] != '\\' {
        match spec_numerals(s, close + 1) {
            None => None,
            Some(numbers) => Some(
                LineView::Declaration {
                    name: s.subrange(label_start, label_end),
                    data: spec_text_words(s.subrange(open + 1, close)) + numbers,
                },
            ),
        }
    } else {
        None
    }
}

/// What the line `line` says. A line of white space is blank. A line of one word
/// that defines a label is a label on its own. Otherwise the line is an
/// instruction if its words spell one, else a data declaration if it spells one,
/// and else it cannot be parsed.
pub open spec fn spec_parse_line(line: Seq<char>) -> LineView {
    let words = spec_words(line, 0);
    if words.len() == 0 {
        LineView::Blank
    } else if words.len() == 1 && spec_label_definition(words[0]) is Some {
        LineView::LabelOnly(spec_label_definition(words[0])->0)
    } else {
        match spec_instruction(words) {
            Some(instruction) => instruction,
            None => match spec_declaration(line) {
                Some(declaration) => declaration,
                None => LineView::Unparseable,
            },
        }
    }
}

/// The view of an optional name.
pub open spec fn spec_name(name: Option<String>) -> Option<Seq<char>> {
    match name {
        Some(l) => Some(l@),
        None => None,
    }
}

/// The label that the word `w` defines, if it has the form `<identifier>:`.
pub fn parse_label_definition(w: &[char]) -> (r: Option<String>)
    ensures
        spec_name(r) == spec_label_definition(w@),
{
    let n = w.len();
    if n >= 2 && w[n - 1] == ':' {
        let name = slice_subrange(w, 0, n - 1);
        assert(name@ =~= w@.drop_last());
        if is_identifier(name) {
            return Some(string_of(name));
        }
    }
    None
}

/// The operand in slot `k` of an instruction with `argc` operands, whose mnemonic
/// is word `first` of the line: `Ok` with the operand, or with nothing where the
/// slot is not taken, and `Err` where the word of the slot denotes no operand.
fn parse_slot(line: &[char], words: &Vec<(usize, usize)>, first: usize, argc: usize, k: usize) -> (r:
    Result<Option<Argument>, ()>)
    requires
        k < 3,
        argc <= 3,
        first <= 1,
        words@.len() == first + 1 + argc,
        forall|j: int|
            0 <= j < words@.len() ==> (#[trigger] words@[j]).0 < words@[j].1 <= line.len(),
    ensures
        k >= argc ==> r == Ok::<Option<Argument>, ()>(None),
        k < argc ==> match r {
            Ok(slot) => slot is Some && spec_slot(slot) == spec_argument(
                line@.subrange(words@[first + 1 + k].0 as int, words@[first + 1 + k].1 as int),
            ) && slot->0@.wf(),
            Err(_) => spec_argument(
                line@.subrange(words@[first + 1 + k].0 as int, words@[first + 1 + k].1 as int),
            ) is None,
        },
{
    if k >= argc {
        return Ok(None);
    }
    let (start, end) = words[first + 1 + k];
    match parse_argument(slice_subrange(line, start, end)) {
        Some(a) => Ok(Some(a)),
        None => Err(()),
    }
}

/// The instruction that the words of `line` spell, if they spell one. `words`
/// holds where each word of the line starts and ends.
fn parse_instruction(line: &[char], words: &Vec<(usize, usize)>) -> (r: Option<Line>)
    requires
        words@.len() == spec_words(line@, 0).len(),
        forall|k: int|
            0 <= k < words@.len() ==> {
                &&& (#[trigger] words@[k]).0 < words@[k].1 <= line.len()
                &&& line@.subrange(words@[k].0 as int, words@[k].1 as int) == spec_words(
                    line@,
                    0,
                )[k]
            },
    ensures
        match r {
            Some(l) => Some(l@) == spec_instruction(spec_words(line@, 0)),
            None => spec_instruction(spec_words(line@, 0)) is None,
        },
{
    let ghost all = spec_words(line@, 0);
    let n = words.len();
    if n == 0 {
        return None;
    }
    let label = parse_label_definition(slice_subrange(line, words[0].0, words[0].1));
    let first: usize = if label.is_some() {
        1
    } else {
        0
    };
    let ghost rest = if label is Some {
        all.skip(1)
    } else {
        all
    };
    if n - first == 0 {
        return None;
    }
    assert(rest[0] == all[first as int]);
    let op = match Opcode::from_mnemonic(slice_subrange(line, words[first].0, words[first].1)) {
        Some(op) => op,
        None => {
            return None;
        },
    };
    let argc = op.argc();
    if n - first != 1 + argc {
        return None;
    }
    assert forall|k: int| 0 <= k < argc implies #[trigger] rest[k + 1] == all[first + 1 + k] by {}
    let ghost slots = spec_slots(rest, op);
    let a = match parse_slot(line, words, first, argc, 0) {
        Ok(a) => a,
        Err(_) => {
            assert(slots[0] is None);
            return None;
        },
    };
    let b = match parse_slot(line, words, first, argc, 1) {
        Ok(b) => b,
        Err(_) => {
            assert(slots[1] is None);
            return None;
        },
    };
    let c = match parse_slot(line, words, first, argc, 2) {
        Ok(c) => c,
        Err(_) => {
            assert(slots[2] is None);
            return None;
        },
    };
    let instruction = Line::Instruction { label, opcode: op, args: [a, b, c] };
    proof {
        let args = instruction@->Instruction_args;
        assert(args =~= slots);
    }
    Some(instruction)
}

/// The numbers that follow the text of a data declaration, from position `i` of
/// `s` to its end.
fn parse_numerals(s: &[char], i: usize) -> (r: Option<Vec<WORD>>)
    requires
        i <= s.len(),
    ensures
        match r {
            Some(v) => spec_numerals(s@, i as int) == Some(v@),
            None => spec_numerals(s@, i as int) is None,
        },
{
    let mut numbers: Vec<WORD> = Vec::new();
    let mut at = i;
    while at < s.len()
        invariant
            i <= at <= s.len(),
            spec_numerals(s@, i as int) == spec_prepend(numbers@, spec_numerals(s@, at as int)),
        decreases s.len() - at,
    {
        if s[at] != ',' {
            return None;
        }
        let end = digits_end(s, at + 1);
        if end == at + 1 {
            return None;
        }
        match parse_number(slice_subrange(s, at + 1, end), 0xFFFF) {
            None => {
                return None;
            },
            Some(v) => {
                proof {
                    let rest = spec_numerals(s@, end as int);
                    assert(spec_numerals(s@, at as int) == spec_prepend(seq![v as WORD], rest));
                    if rest is Some {
                        assert(numbers@ + (seq![v as WORD] + rest->0) =~= numbers@.push(v as WORD)
                            + rest->0);
                    }
                }
                numbers.push(v as WORD);
            },
        }
        at = end;
    }
    assert(numbers@ + Seq::<WORD>::empty() =~= numbers@);
    Some(numbers)
}

/// The data declaration that `line` spells, if it spells one.
fn parse_declaration(line: &[char]) -> (r: Option<Line>)
    ensures
        match r {
            Some(l) => Some(l@) == spec_declaration(line@),
            None => spec_declaration(line@) is None,
        },
{
    let n = trim_end(line, line.len());
    let s = slice_subrange(line, 0, n);
    assert(s@ =~= line@.take(n as int));
    let label_start = skip_spaces(s, 0);
    let label_end = word_end(s, label_start);
    let dw_start = skip_spaces(s, label_end);
    let dw_end = word_end(s, dw_start);
    let open = skip_spaces(s, dw_end);
    let after = rfind(s, n, '"');
    if !is_identifier(slice_subrange(s, label_start, label_end)) {
        return None;
    }
    if !spells(slice_subrange(s, dw_start, dw_end), "dw") {
        return None;
    }
    if !(open < n && s[open] == '"') {
        return None;
    }
    proof {
        lemma_rfind(s@, n as int, '"');
    }
    assert(after > open);
    let close = after - 1;
    if !(open + 1 < close && s[close - 1] != '\\') {
        return None;
    }
    let numbers = match parse_numerals(s, close + 1) {
        Some(numbers) => numbers,
        None => {
            return None;
        },
    };
    let ghost text = s@.subrange(open + 1, close as int);
    let mut data: Vec<WORD> = Vec::new();
    let mut k = open + 1;
    while k < close
        invariant
            open + 1 <= k <= close < s.len(),
            text == s@.subrange(open + 1, close as int),
            data@ == spec_text_words(text).take(k - (open + 1)),
        decreases close - k,
    {
        data.push(char_word(s[k]));
        k += 1;
        assert(data@ =~= spec_text_words(text).take(k - (open + 1)));
    }
    assert(data@ =~= spec_text_words(text));
    let mut numbers = numbers;
    data.append(&mut numbers);
    Some(Line::Declaration { name: string_of(slice_subrange(s, label_start, label_end)), data })
}

/// Parses one source line.
pub fn parse_line(line: &[char]) -> (r: Line)
    ensures
        r@ == spec_parse_line(line@),
{
    let words = split_words(line);
    if words.len() == 0 {
        return Line::Blank;
    }
    if words.len() == 1 {
        match parse_label_definition(slice_subrange(line, words[0].0, words[0].1)) {
            Some(label) => {
                return Line::LabelOnly(label);
            },
            None => {},
        }
    }
    match parse_instruction(line, &words) {
        Some(instruction) => instruction,
        None => match parse_declaration(line) {
            Some(declaration) => declaration,
            None => Line::Unparseable,
        },
    }
}

/// What holds of every line that parses. An instruction has three operand slots:
/// those that its opcode takes hold well-formed operands, the others are empty. A
/// data declaration has at least one word.
pub proof fn lemma_parsed_line(line: Seq<char>)
    ensures
        match spec_parse_line(line) {
            LineView::Instruction { label, opcode, args } => {
                &&& args.len() == 3
                &&& forall|k: int|
                    0 <= k < 3 ==> if k < opcode.spec_argc() {
                        (#[trigger] args[k]) is Some && args[k]->0.wf()
                    } else {
                        args[k] is None
                    }
            },
            LineView::Declaration { name, data } => data.len() >= 1,
            _ => true,
        },
{
    let words = spec_words(line, 0);
    match spec_parse_line(line) {
        LineView::Instruction { label, opcode, args } => {
            assert(spec_instruction(words) == Some(spec_parse_line(line)));
            let first = spec_label_definition(words[0]);
            let rest = if first is Some {
                words.skip(1)
            } else {
                words
            };
            assert(args == spec_slots(rest, opcode));
            assert forall|k: int| 0 <= k < 3 implies if k < opcode.spec_argc() {
                (#[trigger] args[k]) is Some && args[k]->0.wf()
            } else {
                args[k] is None
            } by {
                if k < opcode.spec_argc() {
                    lemma_argument_wf(rest[k + 1]);
                }
            }
        },
        LineView::Declaration { name, data } => {
            assert(spec_instruction(words) is None);
            assert(spec_declaration(line) == Some(spec_parse_line(line)));
            lemma_trim_end(line, line.len() as int);
            let n = spec_trim_end(line, line.len() as int);
            let s = line.take(n);
            lemma_skip_spaces(s, 0);
            let label_end = spec_word_end(s, spec_skip_spaces(s, 0));
            lemma_word_end(s, spec_skip_spaces(s, 0));
            lemma_skip_spaces(s, label_end);
            let dw_end = spec_word_end(s, spec_skip_spaces(s, label_end));
            lemma_word_end(s, spec_skip_spaces(s, label_end));
            lemma_skip_spaces(s, dw_end);
            lemma_rfind(s, n, '"');
            let open = spec_skip_spaces(s, dw_end);
            let close = spec_rfind(s, n, '"') - 1;
            assert(s.subrange(open + 1, close).len() >= 1);
        },
        _ => {},
    }
}

/// An operand that parses is well formed.
pub proof fn lemma_argument_wf(s: Seq<char>)
    ensures
        spec_argument(s) matches Some(a) ==> a.wf(),
{
}

} // verus!
