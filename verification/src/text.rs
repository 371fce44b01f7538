//! Character-level helpers shared by the assembler and the opcode table.

use vstd::prelude::*;

verus! {

/// The characters of `s`, in order.
pub fn chars_of(s: &str) -> (v: Vec<char>)
    ensures
        v@ == s@,
{
    let mut v: Vec<char> = Vec::new();
    for c in it: s.chars()
        invariant
            v@ == s@.take(it.index() as int),
            it.seq() == s@,
    {
        v.push(c);
    }
    v
}

/// Taken on trust, as the standard library documents it: `String::push` appends the
/// character `c` to the end of the string and leaves what the string held in front
/// of it.
pub assume_specification[ String::push ](s: &mut String, c: char)
    ensures
        final(s)@ == old(s)@.push(c),
;

/// The string made of `chars`, in order.
pub fn string_of(chars: &[char]) -> (s: String)
    ensures
        s@ == chars@,
{
    let mut s = String::new();
    let mut i: usize = 0;
    while i < chars.len()
        invariant
            i <= chars.len(),
            s@ == chars@.take(i as int),
        decreases chars.len() - i,
    {
        s.push(chars[i]);
        i += 1;
    }
    s
}

/// Whether `word` spells exactly the text `lit`.
pub fn spells(word: &[char], lit: &str) -> (r: bool)
    ensures
        r == (word@ == lit@),
{
    let n = lit.unicode_len();
    if word.len() != n {
        return false;
    }
    let mut i: usize = 0;
    while i < n
        invariant
            i <= n,
            n == word.len(),
            n == lit@.len(),
            word@.take(i as int) == lit@.take(i as int),
        decreases n - i,
    {
        if word[i] != lit.get_char(i) {
            return false;
        }
        i += 1;
    }
    assert(word@ =~= word@.take(n as int) && lit@ =~= lit@.take(n as int));
    true
}

} // verus!
