//! Turning a flat sequence of bytes into program words.
//!
//! A program binary is a sequence of 32-bit words in little-endian byte
//! order, four bytes per word.

use vstd::prelude::*;

verus! {

/// The 32-bit word encoded little-endian by the four bytes `b0..b3`, `b0`
/// being the least significant.
pub open spec fn le_word(b0: u8, b1: u8, b2: u8, b3: u8) -> u32 {
    (b0 + b1 * 0x100 + b2 * 0x1_0000 + b3 * 0x100_0000) as u32
}

/// The words encoded by `bytes`, four bytes per word, little-endian.
pub open spec fn le_words_of(bytes: Seq<u8>) -> Seq<u32>
    recommends
        bytes.len() % 4 == 0,
{
    Seq::new(
        (bytes.len() / 4) as nat,
        |i: int| le_word(bytes[4 * i], bytes[4 * i + 1], bytes[4 * i + 2], bytes[4 * i + 3]),
    )
}

/// Reads `bytes` as little-endian 32-bit words, four bytes at a time.
pub fn words_from_bytes(bytes: &Vec<u8>) -> (words: Vec<u32>)
    requires
        bytes@.len() % 4 == 0,
    ensures
        words@ == le_words_of(bytes@),
        words@.len() * 4 == bytes@.len(),
{
    let n = bytes.len() / 4;
    let mut words: Vec<u32> = Vec::new();
    let mut i: usize = 0;
    while i < n
        invariant
            4 * n == bytes@.len(),
            bytes@.len() <= usize::MAX,
            i <= n,
            words@.len() == i,
            forall|j: int|
                0 <= j < i ==> words@[j] == le_words_of(bytes@)[j],
        decreases n - i,
    {
        proof {
            assert(4 * i + 3 < bytes@.len());
        }
        let b0 = bytes[4 * i];
        let b1 = bytes[4 * i + 1];
        let b2 = bytes[4 * i + 2];
        let b3 = bytes[4 * i + 3];
        let w = b0 as u32 + b1 as u32 * 0x100 + b2 as u32 * 0x1_0000 + b3 as u32 * 0x100_0000;
        words.push(w);
        i = i + 1;
    }
    proof {
        assert(words@ =~= le_words_of(bytes@));
    }
    words
}

} // verus!
