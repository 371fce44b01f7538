//! The grammar of the assembly language, character by character.
//!
//! A line is a sequence of characters. Each scanning function comes twice: as a
//! specification over `Seq<char>` that says where a run of characters ends or what a
//! piece of text denotes, and as executable code that is proved to compute it.

use vstd::prelude::*;
use vstd::slice::slice_subrange;
use crate::text::string_of;
use super::types::{spec_slot, Argument, ArgumentView};

verus! {

/// Whether `c` is white space: a blank, a tab, a line feed, a vertical tab, a form
/// feed or a carriage return.
pub open spec fn spec_is_space(c: char) -> bool {
    c == ' ' || c == '\t' || c == '\n' || c == '\x0b' || c == '\x0c' || c == '\r'
}

/// Whether `c` is a decimal digit.
pub open spec fn spec_is_digit(c: char) -> bool {
    '0' <= c <= '9'
}

/// Whether `c` can start an identifier: a lower-case letter.
pub open spec fn spec_is_ident_start(c: char) -> bool {
    'a' <= c <= 'z'
}

/// Whether `c` can stand inside an identifier: a letter, a digit or an underscore.
pub open spec fn spec_is_ident_char(c: char) -> bool {
    'a' <= c <= 'z' || 'A' <= c <= 'Z' || '0' <= c <= '9' || c == '_'
}

/// The value of the decimal digit `c`.
pub open spec fn spec_digit_value(c: char) -> nat {
    (c as u32 - '0' as u32) as nat
}

/// The machine word that the character `c` becomes in a data declaration: the low
/// sixteen bits of its code point, which for an ASCII character is its code.
pub open spec fn spec_char_word(c: char) -> u16 {
    (c as u32 & 0xFFFF) as u16
}

/// Whether `c` is white space.
#[verifier::when_used_as_spec(spec_is_space)]
pub fn is_space(c: char) -> (b: bool)
    ensures
        b == spec_is_space(c),
{
    c == ' ' || c == '\t' || c == '\n' || c == '\x0b' || c == '\x0c' || c == '\r'
}

/// Whether `c` is a decimal digit.
#[verifier::when_used_as_spec(spec_is_digit)]
pub fn is_digit(c: char) -> (b: bool)
    ensures
        b == spec_is_digit(c),
{
    '0' <= c && c <= '9'
}

/// Whether `c` can start an identifier.
#[verifier::when_used_as_spec(spec_is_ident_start)]
pub fn is_ident_start(c: char) -> (b: bool)
    ensures
        b == spec_is_ident_start(c),
{
    'a' <= c && c <= 'z'
}

/// Whether `c` can stand inside an identifier.
#[verifier::when_used_as_spec(spec_is_ident_char)]
pub fn is_ident_char(c: char) -> (b: bool)
    ensures
        b == spec_is_ident_char(c),
{
    ('a' <= c && c <= 'z') || ('A' <= c && c <= 'Z') || ('0' <= c && c <= '9') || c == '_'
}

/// The value of the decimal digit `c`.
pub fn digit_value(c: char) -> (v: u32)
    requires
        is_digit(c),
    ensures
        v == spec_digit_value(c),
        v <= 9,
{
    c as u32 - '0' as u32
}

/// The machine word that the character `c` becomes in a data declaration.
pub fn char_word(c: char) -> (w: u16)
    ensures
        w == spec_char_word(c),
{
    let code = c as u32;
    assert(code & 0xFFFF <= 0xFFFF) by (bit_vector);
    (code & 0xFFFF) as u16
}

/// Where the white space that starts at position `i` of `s` ends: the position of
/// the first character at or after `i` that is no white space, or the length of `s`.
pub open spec fn spec_skip_spaces(s: Seq<char>, i: int) -> int
    decreases s.len() - i,
{
    if 0 <= i < s.len() && is_space(s[i]) {
        spec_skip_spaces(s, i + 1)
    } else {
        i
    }
}

/// Where the word that starts at position `i` of `s` ends: the position of the
/// first white space at or after `i`, or the length of `s`.
pub open spec fn spec_word_end(s: Seq<char>, i: int) -> int
    decreases s.len() - i,
{
    if 0 <= i < s.len() && !is_space(s[i]) {
        spec_word_end(s, i + 1)
    } else {
        i
    }
}

/// Where the digits that start at position `i` of `s` end.
pub open spec fn spec_digits_end(s: Seq<char>, i: int) -> int
    decreases s.len() - i,
{
    if 0 <= i < s.len() && is_digit(s[i]) {
        spec_digits_end(s, i + 1)
    } else {
        i
    }
}

/// The position of the first `c` at or after position `i` of `s`, or the length of
/// `s` if there is none.
pub open spec fn spec_find(s: Seq<char>, i: int, c: char) -> int
    decreases s.len() - i,
{
    if 0 <= i < s.len() && s[i] != c {
        spec_find(s, i + 1, c)
    } else {
        i
    }
}

/// One more than the position of the last `c` among the first `n` characters of
/// `s`, or 0 if there is none.
pub open spec fn spec_rfind(s: Seq<char>, n: int, c: char) -> int
    decreases n,
{
    if 0 < n <= s.len() && s[n - 1] != c {
        spec_rfind(s, n - 1, c)
    } else {
        n
    }
}

/// Where the first `n` characters of `s` end once the white space at their end is
/// taken off.
pub open spec fn spec_trim_end(s: Seq<char>, n: int) -> int
    decreases n,
{
    if 0 < n <= s.len() && is_space(s[n - 1]) {
        spec_trim_end(s, n - 1)
    } else {
        n
    }
}

/// `s` without the white space at its start and at its end.
pub open spec fn spec_trim(s: Seq<char>) -> Seq<char> {
    let start = spec_skip_spaces(s, 0);
    let end = spec_trim_end(s, s.len() as int);
    if start < end {
        s.subrange(start, end)
    } else {
        Seq::empty()
    }
}

/// The words of `s` from position `i` on: the maximal runs of characters that are
/// no white space, in order.
pub open spec fn spec_words(s: Seq<char>, i: int) -> Seq<Seq<char>>
    decreases s.len() - i,
{
    let start = spec_skip_spaces(s, i);
    let end = spec_word_end(s, start);
    if 0 <= i <= start < end <= s.len() {
        seq![s.subrange(start, end)] + spec_words(s, end)
    } else {
        Seq::empty()
    }
}

/// A scan to the right stays within the text, and skipping white space stops at
/// the end of the text or in front of a character that is none.
pub proof fn lemma_skip_spaces(s: Seq<char>, i: int)
    requires
        0 <= i <= s.len(),
    ensures
        i <= spec_skip_spaces(s, i) <= s.len(),
        spec_skip_spaces(s, i) < s.len() ==> !is_space(s[spec_skip_spaces(s, i)]),
        forall|k: int| i <= k < spec_skip_spaces(s, i) ==> is_space(#[trigger] s[k]),
    decreases s.len() - i,
{
    if i < s.len() && is_space(s[i]) {
        lemma_skip_spaces(s, i + 1);
    }
}

/// A word ends within the text, at the end of the text or in front of white
/// space, and holds none; one that starts at a character that is no white space
/// is not empty.
pub proof fn lemma_word_end(s: Seq<char>, i: int)
    requires
        0 <= i <= s.len(),
    ensures
        i <= spec_word_end(s, i) <= s.len(),
        spec_word_end(s, i) < s.len() ==> is_space(s[spec_word_end(s, i)]),
        forall|k: int| i <= k < spec_word_end(s, i) ==> !is_space(#[trigger] s[k]),
        i < s.len() && !is_space(s[i]) ==> i < spec_word_end(s, i),
    decreases s.len() - i,
{
    if i < s.len() && !is_space(s[i]) {
        lemma_word_end(s, i + 1);
    }
}

/// A run of digits ends within the text, at the end of the text or in front of a
/// character that is no digit, and holds digits only.
pub proof fn lemma_digits_end(s: Seq<char>, i: int)
    requires
        0 <= i <= s.len(),
    ensures
        i <= spec_digits_end(s, i) <= s.len(),
        spec_digits_end(s, i) < s.len() ==> !is_digit(s[spec_digits_end(s, i)]),
        forall|k: int| i <= k < spec_digits_end(s, i) ==> is_digit(#[trigger] s[k]),
    decreases s.len() - i,
{
    if i < s.len() && is_digit(s[i]) {
        lemma_digits_end(s, i + 1);
    }
}

/// The first `c` is found within the text or not at all, and nothing in front of
/// it is a `c`.
pub proof fn lemma_find(s: Seq<char>, i: int, c: char)
    requires
        0 <= i <= s.len(),
    ensures
        i <= spec_find(s, i, c) <= s.len(),
        spec_find(s, i, c) < s.len() ==> s[spec_find(s, i, c)] == c,
        forall|k: int| i <= k < spec_find(s, i, c) ==> #[trigger] s[k] != c,
    decreases s.len() - i,
{
    if i < s.len() && s[i] != c {
        lemma_find(s, i + 1, c);
    }
}

/// The last `c` is found within the text or not at all, and nothing behind it is
/// a `c`.
pub proof fn lemma_rfind(s: Seq<char>, n: int, c: char)
    requires
        0 <= n <= s.len(),
    ensures
        0 <= spec_rfind(s, n, c) <= n,
        spec_rfind(s, n, c) > 0 ==> s[spec_rfind(s, n, c) - 1] == c,
        forall|k: int| spec_rfind(s, n, c) <= k < n ==> #[trigger] s[k] != c,
    decreases n,
{
    if 0 < n && s[n - 1] != c {
        lemma_rfind(s, n - 1, c);
    }
}

/// Taking the white space off the end leaves an end within the text, at its
/// start or behind a character that is no white space.
pub proof fn lemma_trim_end(s: Seq<char>, n: int)
    requires
        0 <= n <= s.len(),
    ensures
        0 <= spec_trim_end(s, n) <= n,
        spec_trim_end(s, n) > 0 ==> !is_space(s[spec_trim_end(s, n) - 1]),
        forall|k: int| spec_trim_end(s, n) <= k < n ==> is_space(#[trigger] s[k]),
    decreases n,
{
    if 0 < n && is_space(s[n - 1]) {
        lemma_trim_end(s, n - 1);
    }
}

/// Where the white space that starts at position `i` of `s` ends.
pub fn skip_spaces(s: &[char], i: usize) -> (j: usize)
    requires
        i <= s.len(),
    ensures
        j == spec_skip_spaces(s@, i as int),
        i <= j <= s.len(),
{
    let mut j = i;
    while j < s.len() && is_space(s[j])
        invariant
            i <= j <= s.len(),
            spec_skip_spaces(s@, j as int) == spec_skip_spaces(s@, i as int),
        decreases s.len() - j,
    {
        j += 1;
    }
    j
}

/// Where the word that starts at position `i` of `s` ends.
pub fn word_end(s: &[char], i: usize) -> (j: usize)
    requires
        i <= s.len(),
    ensures
        j == spec_word_end(s@, i as int),
        i <= j <= s.len(),
{
    let mut j = i;
    while j < s.len() && !is_space(s[j])
        invariant
            i <= j <= s.len(),
            spec_word_end(s@, j as int) == spec_word_end(s@, i as int),
        decreases s.len() - j,
    {
        j += 1;
    }
    j
}

/// Where the digits that start at position `i` of `s` end.
pub fn digits_end(s: &[char], i: usize) -> (j: usize)
    requires
        i <= s.len(),
    ensures
        j == spec_digits_end(s@, i as int),
        i <= j <= s.len(),
{
    let mut j = i;
    while j < s.len() && is_digit(s[j])
        invariant
            i <= j <= s.len(),
            spec_digits_end(s@, j as int) == spec_digits_end(s@, i as int),
        decreases s.len() - j,
    {
        j += 1;
    }
    j
}

/// The position of the first `c` at or after position `i` of `s`, or the length
/// of `s`.
pub fn find(s: &[char], i: usize, c: char) -> (j: usize)
    requires
        i <= s.len(),
    ensures
        j == spec_find(s@, i as int, c),
        i <= j <= s.len(),
{
    let mut j = i;
    while j < s.len() && s[j] != c
        invariant
            i <= j <= s.len(),
            spec_find(s@, j as int, c) == spec_find(s@, i as int, c),
        decreases s.len() - j,
    {
        j += 1;
    }
    j
}

/// One more than the position of the last `c` among the first `n` characters of
/// `s`, or 0.
pub fn rfind(s: &[char], n: usize, c: char) -> (j: usize)
    requires
        n <= s.len(),
    ensures
        j == spec_rfind(s@, n as int, c),
        j <= n,
{
    let mut j = n;
    while j > 0 && s[j - 1] != c
        invariant
            j <= n <= s.len(),
            spec_rfind(s@, j as int, c) == spec_rfind(s@, n as int, c),
        decreases j,
    {
        j -= 1;
    }
    j
}

/// Where the first `n` characters of `s` end once the white space at their end
/// is taken off.
pub fn trim_end(s: &[char], n: usize) -> (j: usize)
    requires
        n <= s.len(),
    ensures
        j == spec_trim_end(s@, n as int),
        j <= n,
{
    let mut j = n;
    while j > 0 && is_space(s[j - 1])
        invariant
            j <= n <= s.len(),
            spec_trim_end(s@, j as int) == spec_trim_end(s@, n as int),
        decreases j,
    {
        j -= 1;
    }
    j
}

/// The words of `s`, each as the positions where it starts and ends.
pub fn split_words(s: &[char]) -> (words: Vec<(usize, usize)>)
    ensures
        words@.len() == spec_words(s@, 0).len(),
        forall|k: int|
            0 <= k < words@.len() ==> {
                &&& (#[trigger] words@[k]).0 < words@[k].1 <= s.len()
                &&& s@.subrange(words@[k].0 as int, words@[k].1 as int) == spec_words(s@, 0)[k]
            },
{
    let mut words: Vec<(usize, usize)> = Vec::new();
    let ghost mut found: Seq<Seq<char>> = Seq::empty();
    let mut i: usize = 0;
    loop
        invariant
            i <= s.len(),
            found + spec_words(s@, i as int) == spec_words(s@, 0),
            words@.len() == found.len(),
            forall|k: int|
                0 <= k < words@.len() ==> {
                    &&& (#[trigger] words@[k]).0 < words@[k].1 <= s.len()
                    &&& s@.subrange(words@[k].0 as int, words@[k].1 as int) == found[k]
                },
        ensures
            found == spec_words(s@, 0),
            words@.len() == found.len(),
            forall|k: int|
                0 <= k < words@.len() ==> {
                    &&& (#[trigger] words@[k]).0 < words@[k].1 <= s.len()
                    &&& s@.subrange(words@[k].0 as int, words@[k].1 as int) == found[k]
                },
        decreases s.len() - i,
    {
        let start = skip_spaces(s, i);
        let end = word_end(s, start);
        proof {
            lemma_skip_spaces(s@, i as int);
            lemma_word_end(s@, start as int);
        }
        if start >= end {
            assert(spec_words(s@, i as int) =~= Seq::<Seq<char>>::empty());
            assert(found + spec_words(s@, i as int) =~= found);
            break ;
        }
        proof {
            let word = s@.subrange(start as int, end as int);
            assert(found + spec_words(s@, i as int) =~= found.push(word) + spec_words(
                s@,
                end as int,
            ));
            found = found.push(word);
        }
        words.push((start, end));
        i = end;
    }
    words
}

/// Whether `s` is an identifier: a lower-case letter followed by letters, digits
/// and underscores.
pub open spec fn spec_is_identifier(s: Seq<char>) -> bool {
    &&& s.len() >= 1
    &&& is_ident_start(s[0])
    &&& forall|k: int| 1 <= k < s.len() ==> is_ident_char(#[trigger] s[k])
}

/// Whether `s` is a decimal numeral: one digit or more, and nothing else.
pub open spec fn spec_is_decimal(s: Seq<char>) -> bool {
    &&& s.len() >= 1
    &&& forall|k: int| 0 <= k < s.len() ==> is_digit(#[trigger] s[k])
}

/// The number that the digits `s` write in base ten.
pub open spec fn spec_decimal_value(s: Seq<char>) -> nat
    decreases s.len(),
{
    if s.len() == 0 {
        0
    } else {
        spec_decimal_value(s.drop_last()) * 10 + spec_digit_value(s.last())
    }
}

/// The number that `s` denotes, if `s` is a decimal numeral of a number that is
/// at most `max`.
pub open spec fn spec_number(s: Seq<char>, max: nat) -> Option<nat> {
    if spec_is_decimal(s) && spec_decimal_value(s) <= max {
        Some(spec_decimal_value(s))
    } else {
        None
    }
}

/// Whether `c` is the digit of a register: `0` to `7`.
pub open spec fn spec_is_register_digit(c: char) -> bool {
    '0' <= c <= '7'
}

/// The operand that the word `s` denotes, if it denotes one. The forms are tried
/// in this order: `#n` is the literal `n`, `rd` the register `d`, `[rd]` the
/// register `d` in brackets, `[n]` the memory address `n`, and an identifier is a
/// label. Literals and addresses are below `0x8000`, and there are eight
/// registers.
pub open spec fn spec_argument(s: Seq<char>) -> Option<ArgumentView> {
    if s.len() >= 2 && s[0] == '#' {
        match spec_number(s.skip(1), 0x7FFF) {
            Some(n) => Some(ArgumentView::Number(n as u16)),
            None => None,
        }
    } else if s.len() == 2 && s[0] == 'r' && spec_is_register_digit(s[1]) {
        Some(ArgumentView::Register(spec_digit_value(s[1]) as usize))
    } else if s.len() == 4 && s[0] == '[' && s[1] == 'r' && spec_is_register_digit(s[2]) && s[3]
        == ']' {
        Some(ArgumentView::RPointer(spec_digit_value(s[2]) as usize))
    } else if s.len() >= 3 && s[0] == '[' && s[s.len() - 1] == ']' {
        match spec_number(s.subrange(1, s.len() - 1), 0x7FFF) {
            Some(m) => Some(ArgumentView::MPointer(m as usize)),
            None => None,
        }
    } else if spec_is_identifier(s) {
        Some(ArgumentView::Label(s))
    } else {
        None
    }
}

/// The digits that a numeral starts with never write more than the whole numeral.
pub proof fn lemma_decimal_prefix(s: Seq<char>, i: int)
    requires
        0 <= i <= s.len(),
    ensures
        spec_decimal_value(s.take(i)) <= spec_decimal_value(s),
    decreases s.len() - i,
{
    if i < s.len() {
        lemma_decimal_prefix(s, i + 1);
        assert(s.take(i + 1).drop_last() =~= s.take(i));
    } else {
        assert(s.take(i) =~= s);
    }
}

/// Whether `s` is an identifier.
pub fn is_identifier(s: &[char]) -> (b: bool)
    ensures
        b == spec_is_identifier(s@),
{
    if s.len() == 0 || !is_ident_start(s[0]) {
        return false;
    }
    let mut k: usize = 1;
    while k < s.len()
        invariant
            1 <= k <= s.len(),
            forall|j: int| 1 <= j < k ==> is_ident_char(#[trigger] s@[j]),
        decreases s.len() - k,
    {
        if !is_ident_char(s[k]) {
            return false;
        }
        k += 1;
    }
    true
}

/// The number that `s` denotes, if `s` is a decimal numeral of a number that is
/// at most `max`.
pub fn parse_number(s: &[char], max: u32) -> (r: Option<u32>)
    requires
        max <= 0xFFFF,
    ensures
        match r {
            Some(v) => spec_number(s@, max as nat) == Some(v as nat),
            None => spec_number(s@, max as nat) is None,
        },
{
    if s.len() == 0 {
        return None;
    }
    let mut value: u32 = 0;
    let mut k: usize = 0;
    while k < s.len()
        invariant
            k <= s.len(),
            max <= 0xFFFF,
            value <= max,
            value == spec_decimal_value(s@.take(k as int)),
            forall|j: int| 0 <= j < k ==> is_digit(#[trigger] s@[j]),
        decreases s.len() - k,
    {
        if !is_digit(s[k]) {
            return None;
        }
        proof {
            assert(s@.take(k + 1).drop_last() =~= s@.take(k as int));
            lemma_decimal_prefix(s@, k + 1);
        }
        value = value * 10 + digit_value(s[k]);
        if value > max {
            return None;
        }
        k += 1;
    }
    assert(s@.take(k as int) =~= s@);
    Some(value)
}

/// The operand that the word `s` denotes, if it denotes one.
pub fn parse_argument(s: &[char]) -> (r: Option<Argument>)
    ensures
        spec_slot(r) == spec_argument(s@),
        r matches Some(a) ==> a@.wf(),
{
    let n = s.len();
    if n >= 2 && s[0] == '#' {
        let digits = slice_subrange(s, 1, n);
        assert(digits@ =~= s@.skip(1));
        match parse_number(digits, 0x7FFF) {
            Some(v) => Some(Argument::Number(v as u16)),
            None => None,
        }
    } else if n == 2 && s[0] == 'r' && '0' <= s[1] && s[1] <= '7' {
        Some(Argument::Register(digit_value(s[1]) as usize))
    } else if n == 4 && s[0] == '[' && s[1] == 'r' && '0' <= s[2] && s[2] <= '7' && s[3] == ']' {
        Some(Argument::RPointer(digit_value(s[2]) as usize))
    } else if n >= 3 && s[0] == '[' && s[n - 1] == ']' {
        let digits = slice_subrange(s, 1, n - 1);
        match parse_number(digits, 0x7FFF) {
            Some(v) => Some(Argument::MPointer(v as usize)),
            None => None,
        }
    } else if is_identifier(s) {
        Some(Argument::Label(string_of(s)))
    } else {
        None
    }
}

} // verus!
