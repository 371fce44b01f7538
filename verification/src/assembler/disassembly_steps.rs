//! The steps back from a binary image: bytes become words again.

use vstd::prelude::*;
use crate::synacor::WORD;
use super::assembly_steps::{spec_high, spec_low, spec_words_to_bytes};

verus! {

/// The word with the low byte `low` and the high byte `high`.
pub open spec fn spec_word(low: u8, high: u8) -> WORD {
    (((high as WORD) << 8) + (low as WORD)) as WORD
}

/// The words of `bytes`: each two bytes make a word, the low byte first.
pub open spec fn spec_bytes_to_words(bytes: Seq<u8>) -> Seq<WORD> {
    Seq::new((bytes.len() / 2) as nat, |k: int| spec_word(bytes[2 * k], bytes[2 * k + 1]))
}

/// A word is made of its low and its high byte.
pub proof fn lemma_word_of_bytes(w: WORD)
    ensures
        spec_word(spec_low(w), spec_high(w)) == w,
{
    assert((((((w >> 8) as u8) as u16) << 8) + (((w & 0xFF) as u8) as u16)) as u16 == w)
        by (bit_vector);
}

/// The two bytes that make a word are its low and its high byte.
pub proof fn lemma_bytes_of_word(low: u8, high: u8)
    ensures
        spec_low(spec_word(low, high)) == low,
        spec_high(spec_word(low, high)) == high,
{
    assert((((((high as u16) << 8) + (low as u16)) as u16) & 0xFF) as u8 == low) by (bit_vector);
    assert((((((high as u16) << 8) + (low as u16)) as u16) >> 8) as u8 == high) by (bit_vector);
}

/// Words that are written out as bytes and read back are the same words.
pub proof fn lemma_words_round_trip(words: Seq<WORD>)
    ensures
        spec_bytes_to_words(spec_words_to_bytes(words)) == words,
{
    let bytes = spec_words_to_bytes(words);
    let back = spec_bytes_to_words(bytes);
    assert forall|k: int| 0 <= k < words.len() implies back[k] == words[k] by {
        lemma_word_of_bytes(words[k]);
    }
    assert(back =~= words);
}

/// An even number of bytes that are read as words and written out again are the
/// same bytes.
pub proof fn lemma_bytes_round_trip(bytes: Seq<u8>)
    requires
        bytes.len() % 2 == 0,
    ensures
        spec_words_to_bytes(spec_bytes_to_words(bytes)) == bytes,
{
    let words = spec_bytes_to_words(bytes);
    let back = spec_words_to_bytes(words);
    assert forall|i: int| 0 <= i < bytes.len() implies back[i] == bytes[i] by {
        let k = i / 2;
        lemma_bytes_of_word(bytes[2 * k], bytes[2 * k + 1]);
    }
    assert(back =~= bytes);
}

/// Reads the bytes of an image as words, the low byte of each word first. The
/// number of bytes must be even.
pub fn convert_to_words(bytes: Vec<u8>) -> (words: Vec<WORD>)
    requires
        bytes@.len() % 2 == 0,
    ensures
        words@ == spec_bytes_to_words(bytes@),
{
    let mut words: Vec<WORD> = Vec::new();
    let mut k: usize = 0;
    let n = bytes.len() / 2;
    while k < n
        invariant
            k <= n,
            2 * n == bytes.len(),
            words@ == spec_bytes_to_words(bytes@).take(k as int),
        decreases n - k,
    {
        let low = bytes[2 * k];
        let high = bytes[2 * k + 1];
        assert(((high as u16) << 8) <= 0xFF00) by (bit_vector);
        words.push(((high as WORD) << 8) + low as WORD);
        k += 1;
        assert(words@ =~= spec_bytes_to_words(bytes@).take(k as int));
    }
    assert(spec_bytes_to_words(bytes@).take(k as int) =~= spec_bytes_to_words(bytes@));
    words
}

} // verus!
