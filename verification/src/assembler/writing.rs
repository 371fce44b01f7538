//! Source text as it is written: numbers as decimal numerals, and words set apart
//! by blanks. What is written this way is read back as what it was.

use vstd::prelude::*;
use crate::synacor::opcode::Opcode;
use super::assembly_steps::spec_strip;
use super::grammar::{
    lemma_find, lemma_skip_spaces, lemma_trim_end, lemma_word_end, spec_argument,
    spec_decimal_value, spec_digit_value, spec_find, spec_is_decimal, spec_is_digit,
    spec_is_identifier, spec_is_space, spec_number, spec_skip_spaces, spec_word_end, spec_words,
};
use super::laws::spec_is_clean;
use super::line::{spec_instruction, spec_label_definition, spec_parse_line, spec_slots, LineView};
use super::types::ArgumentView;

verus! {

/// The digit that writes `d`, a number below ten.
pub open spec fn spec_digit(d: nat) -> char {
    ('0' as u32 + d) as char
}

/// The decimal numeral of `n`, without leading zeros.
pub open spec fn spec_numeral(n: nat) -> Seq<char>
    decreases n,
{
    if n < 10 {
        seq![spec_digit(n)]
    } else {
        spec_numeral(n / 10).push(spec_digit(n % 10))
    }
}

/// The words `words` in one line, with one blank between each two.
pub open spec fn spec_spaced(words: Seq<Seq<char>>) -> Seq<char>
    decreases words.len(),
{
    if words.len() == 0 {
        Seq::empty()
    } else if words.len() == 1 {
        words[0]
    } else {
        spec_spaced(words.drop_last()) + seq![' '] + words.last()
    }
}

/// Whether `w` can stand as a word: it is not empty and holds no white space.
pub open spec fn spec_is_word(w: Seq<char>) -> bool {
    &&& w.len() >= 1
    &&& forall|k: int| 0 <= k < w.len() ==> !spec_is_space(#[trigger] w[k])
}

/// A digit is written as a digit, and has the value that it writes.
pub proof fn lemma_digit(d: nat)
    requires
        d < 10,
    ensures
        spec_is_digit(spec_digit(d)),
        spec_digit_value(spec_digit(d)) == d,
{
}

/// A numeral is a decimal numeral of the number that it writes.
pub proof fn lemma_numeral(n: nat)
    ensures
        spec_is_decimal(spec_numeral(n)),
        spec_decimal_value(spec_numeral(n)) == n,
    decreases n,
{
    if n < 10 {
        lemma_digit(n);
        let s = spec_numeral(n);
        assert(s.drop_last() =~= Seq::empty());
        assert(spec_decimal_value(s.drop_last()) == 0);
    } else {
        lemma_numeral(n / 10);
        lemma_digit(n % 10);
        let front = spec_numeral(n / 10);
        let s = spec_numeral(n);
        assert(s.drop_last() =~= front);
        assert forall|k: int| 0 <= k < s.len() implies spec_is_digit(#[trigger] s[k]) by {
            if k < front.len() {
                assert(s[k] == front[k]);
            }
        }
    }
}

/// A numeral is read back as the number that it writes, if the number is within
/// the bound.
pub proof fn lemma_numeral_is_read(n: nat, max: nat)
    requires
        n <= max,
    ensures
        spec_number(spec_numeral(n), max) == Some(n),
        spec_is_word(spec_numeral(n)),
{
    lemma_numeral(n);
}

/// Skipping white space behind a prefix is skipping it in what follows.
pub proof fn lemma_skip_spaces_shift(p: Seq<char>, w: Seq<char>, i: int)
    requires
        0 <= i <= w.len(),
    ensures
        spec_skip_spaces(p + w, p.len() + i) == p.len() + spec_skip_spaces(w, i),
    decreases w.len() - i,
{
    if i < w.len() {
        assert((p + w)[p.len() + i] == w[i]);
        if spec_is_space(w[i]) {
            lemma_skip_spaces_shift(p, w, i + 1);
        }
    }
}

/// A word behind a prefix ends where it ends in what follows.
pub proof fn lemma_word_end_shift(p: Seq<char>, w: Seq<char>, i: int)
    requires
        0 <= i <= w.len(),
    ensures
        spec_word_end(p + w, p.len() + i) == p.len() + spec_word_end(w, i),
    decreases w.len() - i,
{
    if i < w.len() {
        assert((p + w)[p.len() + i] == w[i]);
        if !spec_is_space(w[i]) {
            lemma_word_end_shift(p, w, i + 1);
        }
    }
}

/// The words behind a prefix are the words of what follows it.
pub proof fn lemma_words_shift(p: Seq<char>, w: Seq<char>, i: int)
    requires
        0 <= i <= w.len(),
    ensures
        spec_words(p + w, p.len() + i) == spec_words(w, i),
    decreases w.len() - i,
{
    let s = p + w;
    lemma_skip_spaces_shift(p, w, i);
    lemma_skip_spaces(w, i);
    let start = spec_skip_spaces(w, i);
    lemma_word_end_shift(p, w, start);
    lemma_word_end(w, start);
    let end = spec_word_end(w, start);
    if start < end {
        assert(s.subrange(p.len() + start, p.len() + end) =~= w.subrange(start, end));
        lemma_words_shift(p, w, end);
    }
}

/// A word alone is the one word of its line.
pub proof fn lemma_only_word(w: Seq<char>)
    requires
        spec_is_word(w),
    ensures
        spec_words(w, 0) == seq![w],
{
    lemma_skip_spaces(w, 0);
    lemma_word_end(w, 0);
    assert(spec_skip_spaces(w, 0) == 0);
    let end = spec_word_end(w, 0);
    if end < w.len() {
        assert(!spec_is_space(w[end]));
    }
    assert(end == w.len());
    assert(w.subrange(0, end) =~= w);
    assert(spec_words(w, end) =~= Seq::empty()) by {
        lemma_skip_spaces(w, end);
    }
}

/// The first word of a line that starts with a word and a blank is that word, and
/// the words behind it are those of the rest.
pub proof fn lemma_first_word(w: Seq<char>, rest: Seq<char>)
    requires
        spec_is_word(w),
    ensures
        spec_words(w + seq![' '] + rest, 0) == seq![w] + spec_words(rest, 0),
{
    let tail = seq![' '] + rest;
    let s = w + tail;
    assert(s =~= w + seq![' '] + rest);
    lemma_skip_spaces(s, 0);
    lemma_word_end(s, 0);
    assert(s[0] == w[0]);
    assert(spec_skip_spaces(s, 0) == 0);
    let end = spec_word_end(s, 0);
    assert(s[w.len() as int] == ' ');
    if end < w.len() {
        assert(s[end] == w[end]);
    }
    if end > w.len() {
        assert(!spec_is_space(s[w.len() as int]));
    }
    assert(end == w.len());
    assert(s.subrange(0, end) =~= w);
    // Behind the word: the blank is skipped, and the rest follows.
    lemma_words_shift(w, tail, 0);
    assert(spec_skip_spaces(tail, 0) == spec_skip_spaces(tail, 1));
    assert(spec_words(tail, 0) == spec_words(tail, 1));
    lemma_words_shift(seq![' '], rest, 0);
}

/// The words of words that are set apart by blanks, and followed by a blank and a
/// rest, are those words and the words of the rest.
pub proof fn lemma_words_of_spaced(ys: Seq<Seq<char>>, rest: Seq<char>)
    requires
        ys.len() >= 1,
        forall|k: int| 0 <= k < ys.len() ==> spec_is_word(#[trigger] ys[k]),
    ensures
        spec_words(spec_spaced(ys) + seq![' '] + rest, 0) == ys + spec_words(rest, 0),
    decreases ys.len(),
{
    if ys.len() == 1 {
        lemma_first_word(ys[0], rest);
        assert(seq![ys[0]] =~= ys);
    } else {
        let front = ys.drop_last();
        let last = ys.last();
        let tail = last + seq![' '] + rest;
        assert forall|k: int| 0 <= k < front.len() implies spec_is_word(#[trigger] front[k]) by {
            assert(front[k] == ys[k]);
        }
        lemma_words_of_spaced(front, tail);
        lemma_first_word(last, rest);
        assert(spec_spaced(ys) + seq![' '] + rest =~= spec_spaced(front) + seq![' '] + tail);
        assert(front + (seq![last] + spec_words(rest, 0)) =~= ys + spec_words(rest, 0));
    }
}

/// Words that are set apart by blanks are read back as the same words.
pub proof fn lemma_spaced_words(ws: Seq<Seq<char>>)
    requires
        forall|k: int| 0 <= k < ws.len() ==> spec_is_word(#[trigger] ws[k]),
    ensures
        spec_words(spec_spaced(ws), 0) == ws,
{
    if ws.len() == 0 {
        assert(spec_words(Seq::<char>::empty(), 0) =~= ws);
    } else if ws.len() == 1 {
        lemma_only_word(ws[0]);
        assert(seq![ws[0]] =~= ws);
    } else {
        let front = ws.drop_last();
        let last = ws.last();
        assert forall|k: int| 0 <= k < front.len() implies spec_is_word(#[trigger] front[k]) by {
            assert(front[k] == ws[k]);
        }
        lemma_words_of_spaced(front, last);
        lemma_only_word(last);
        assert(front + seq![last] =~= ws);
    }
}

/// The name of register `r`: `r0` to `r7`.
pub open spec fn spec_register_name(r: nat) -> Seq<char> {
    seq!['r', spec_digit(r)]
}

/// The literal `n` as an operand: `#` and the numeral of `n`.
pub open spec fn spec_literal(n: nat) -> Seq<char> {
    seq!['#'] + spec_numeral(n)
}

/// Whether `w` is a word that holds neither a semicolon nor a line feed.
pub open spec fn spec_is_code_word(w: Seq<char>) -> bool {
    &&& spec_is_word(w)
    &&& forall|k: int| 0 <= k < w.len() ==> #[trigger] w[k] != ';'
}

/// The name of a register is read back as the register.
pub proof fn lemma_register_is_read(r: nat)
    requires
        r < 8,
    ensures
        spec_argument(spec_register_name(r)) == Some(ArgumentView::Register(r as usize)),
        spec_is_code_word(spec_register_name(r)),
{
    lemma_digit(r);
}

/// A literal is read back as the number that it writes.
pub proof fn lemma_literal_is_read(n: nat)
    requires
        n < 0x8000,
    ensures
        spec_argument(spec_literal(n)) == Some(ArgumentView::Number(n as u16)),
        spec_is_code_word(spec_literal(n)),
{
    lemma_numeral(n);
    let s = spec_literal(n);
    let digits = spec_numeral(n);
    assert(s.skip(1) =~= digits);
    assert forall|k: int| 0 <= k < s.len() implies !spec_is_space(#[trigger] s[k]) && s[k]
        != ';' by {
        if k > 0 {
            assert(s[k] == digits[k - 1]);
            assert(spec_is_digit(digits[k - 1]));
        }
    }
}

/// Code words that are set apart by blanks make a line that is not empty, starts
/// and ends with a character that is no white space, and holds neither a semicolon
/// nor a line feed.
pub proof fn lemma_spaced_line(ws: Seq<Seq<char>>)
    requires
        ws.len() >= 1,
        forall|k: int| 0 <= k < ws.len() ==> spec_is_code_word(#[trigger] ws[k]),
    ensures
        spec_spaced(ws).len() >= 1,
        !spec_is_space(spec_spaced(ws)[0]),
        !spec_is_space(spec_spaced(ws)[spec_spaced(ws).len() - 1]),
        forall|k: int|
            0 <= k < spec_spaced(ws).len() ==> #[trigger] spec_spaced(ws)[k] != ';' && spec_spaced(
                ws,
            )[k] != '\n',
    decreases ws.len(),
{
    let line = spec_spaced(ws);
    let last = ws.last();
    if ws.len() == 1 {
        assert forall|k: int| 0 <= k < line.len() implies #[trigger] line[k] != ';' && line[k]
            != '\n' by {
            assert(!spec_is_space(last[k]));
        }
    } else {
        let front = ws.drop_last();
        assert forall|k: int| 0 <= k < front.len() implies spec_is_code_word(#[trigger] front[k]) by {
            assert(front[k] == ws[k]);
        }
        lemma_spaced_line(front);
        let head = spec_spaced(front);
        assert(line == head + seq![' '] + last);
        assert(line[0] == head[0]);
        assert(line[line.len() - 1] == last[last.len() - 1]);
        assert forall|k: int| 0 <= k < line.len() implies #[trigger] line[k] != ';' && line[k]
            != '\n' by {
            if k < head.len() {
                assert(line[k] == head[k]);
            } else if k > head.len() {
                assert(line[k] == last[k - head.len() - 1]);
                assert(!spec_is_space(last[k - head.len() - 1]));
            }
        }
    }
}

/// A line of code that has no comment and no white space around it is the same
/// when it is stripped, and can stand as a line of its own.
pub proof fn lemma_code_is_stripped(line: Seq<char>)
    requires
        line.len() >= 1,
        !spec_is_space(line[0]),
        !spec_is_space(line[line.len() - 1]),
        forall|k: int| 0 <= k < line.len() ==> #[trigger] line[k] != ';' && line[k] != '\n',
    ensures
        spec_strip(line) == line,
        spec_is_clean(line),
{
    lemma_find(line, 0, ';');
    let cut = spec_find(line, 0, ';');
    if cut < line.len() {
        assert(line[cut] != ';');
    }
    assert(line.take(cut) =~= line);
    lemma_skip_spaces(line, 0);
    lemma_trim_end(line, line.len() as int);
    assert(line.subrange(0, line.len() as int) =~= line);
}

/// An instruction that is written as its mnemonic and its operands, set apart by
/// blanks, is read back as that instruction: where the first word names the
/// opcode `op`, and the words behind it are as many operands as `op` takes and
/// denote `args`.
pub proof fn lemma_written_instruction(
    words: Seq<Seq<char>>,
    op: Opcode,
    args: Seq<Option<ArgumentView>>,
)
    requires
        words.len() == 1 + op.spec_argc(),
        forall|k: int| 0 <= k < words.len() ==> spec_is_word(#[trigger] words[k]),
        Opcode::spec_try_from(words[0]) == Some(op),
        spec_label_definition(words[0]) is None,
        args.len() == 3,
        forall|k: int|
            0 <= k < 3 ==> #[trigger] args[k] == if k < op.spec_argc() {
                spec_argument(words[k + 1])
            } else {
                None
            },
        forall|k: int| 0 <= k < op.spec_argc() ==> (#[trigger] args[k]) is Some,
    ensures
        spec_parse_line(spec_spaced(words)) == (LineView::Instruction {
            label: None,
            opcode: op,
            args,
        }),
{
    lemma_spaced_words(words);
    assert(spec_slots(words, op) =~= args);
    if op.spec_argc() >= 1 {
        assert(args[0] is Some);
    }
    if op.spec_argc() >= 2 {
        assert(args[1] is Some);
    }
    if op.spec_argc() >= 3 {
        assert(args[2] is Some);
    }
    assert(spec_instruction(words) == Some(
        LineView::Instruction { label: None, opcode: op, args },
    ));
}

/// An identifier is a code word, and so is the definition of a label, which is an
/// identifier and a colon.
pub proof fn lemma_identifier_is_word(name: Seq<char>)
    requires
        spec_is_identifier(name),
    ensures
        spec_is_code_word(name),
        spec_is_code_word(name.push(':')),
        spec_label_definition(name.push(':')) == Some(name),
        spec_label_definition(name) is None,
{
    let defined = name.push(':');
    assert(defined.drop_last() =~= name);
    assert forall|k: int| 0 <= k < defined.len() implies !spec_is_space(#[trigger] defined[k])
        && defined[k] != ';' by {
        if k < name.len() {
            assert(defined[k] == name[k]);
        }
    }
}

/// An instruction that is written behind the definition of a label is read back as
/// that instruction with that label.
pub proof fn lemma_written_labelled_instruction(
    name: Seq<char>,
    words: Seq<Seq<char>>,
    op: Opcode,
    args: Seq<Option<ArgumentView>>,
)
    requires
        spec_is_identifier(name),
        words.len() == 1 + op.spec_argc(),
        forall|k: int| 0 <= k < words.len() ==> spec_is_word(#[trigger] words[k]),
        Opcode::spec_try_from(words[0]) == Some(op),
        args.len() == 3,
        forall|k: int|
            0 <= k < 3 ==> #[trigger] args[k] == if k < op.spec_argc() {
                spec_argument(words[k + 1])
            } else {
                None
            },
        forall|k: int| 0 <= k < op.spec_argc() ==> (#[trigger] args[k]) is Some,
    ensures
        spec_parse_line(spec_spaced(seq![name.push(':')] + words)) == (LineView::Instruction {
            label: Some(name),
            opcode: op,
            args,
        }),
{
    let all = seq![name.push(':')] + words;
    lemma_identifier_is_word(name);
    assert forall|k: int| 0 <= k < all.len() implies spec_is_word(#[trigger] all[k]) by {
        if k > 0 {
            assert(all[k] == words[k - 1]);
        }
    }
    lemma_spaced_words(all);
    assert(all.skip(1) =~= words);
    assert(spec_slots(words, op) =~= args);
    if op.spec_argc() >= 1 {
        assert(args[0] is Some);
    }
    if op.spec_argc() >= 2 {
        assert(args[1] is Some);
    }
    if op.spec_argc() >= 3 {
        assert(args[2] is Some);
    }
    assert(spec_instruction(all) == Some(
        LineView::Instruction { label: Some(name), opcode: op, args },
    ));
}

} // verus!
