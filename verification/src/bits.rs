//! Sets of small numbers as the bits of a word.

use vstd::prelude::*;
use vstd::std_specs::bits::axiom_u64_trailing_zeros;

verus! {

/// Whether a bit of a word is set.
pub open spec fn bit_set(word: u64, bit: int) -> bool {
    0 <= bit < 64 && (word >> (bit as u64)) & 1u64 == 1u64
}

/// Whether a bit of a row of words is set, where the bits are counted on from word to word.
pub open spec fn row_bit_set(words: Seq<u64>, bit: int) -> bool {
    0 <= bit < words.len() * 64 && bit_set(words[bit / 64], bit % 64)
}

/// Whether a bit is the lowest one that is set.
pub open spec fn is_lowest_bit(word: u64, bit: int) -> bool {
    bit_set(word, bit) && forall|lower: int| 0 <= lower < bit ==> !bit_set(word, lower)
}

/// No bit of zero is set.
pub proof fn zero_has_no_bits(word: u64)
    ensures
        word == 0 ==> forall|bit: int| !bit_set(word, bit),
{
    assert forall|bit: int| word == 0 implies !bit_set(word, bit) by {
        let b = bit as u64;
        assert((0u64 >> b) & 1u64 == 0u64) by (bit_vector);
    }
}

/// The position of the lowest bit that is set.
pub fn lowest_bit(word: u64) -> (bit: usize)
    requires
        word != 0,
    ensures
        bit < 64,
        is_lowest_bit(word, bit as int),
{
    proof {
        axiom_u64_trailing_zeros(word);
    }
    let bit: u32 = word.trailing_zeros();
    assert forall|lower: int| 0 <= lower < bit implies !bit_set(word, lower) by {
        let b = lower as u64;
        assert((word >> b) & 1u64 == 0u64);
    }
    bit as usize
}

/// The word without one of its bits.
pub fn clear_bit(word: u64, bit: usize) -> (rest: u64)
    requires
        bit < 64,
    ensures
        forall|other: int| #[trigger]
            bit_set(rest, other) == (bit_set(word, other) && other != bit),
        rest <= word,
        bit_set(word, bit as int) ==> rest < word,
{
    let b: u64 = bit as u64;
    let rest: u64 = word & !(1u64 << b);
    proof {
        assert forall|other: int| #[trigger]
            bit_set(rest, other) == (bit_set(word, other) && other != bit) by {
            if 0 <= other < 64 {
                let o = other as u64;
                assert((rest >> o) & 1u64 == 1u64 <==> ((word >> o) & 1u64 == 1u64 && o != b))
                    by (bit_vector)
                    requires
                        rest == word & !(1u64 << b),
                        b < 64,
                        o < 64,
                ;
            }
        }
        assert(word & !(1u64 << b) <= word) by (bit_vector);
        if bit_set(word, bit as int) {
            assert(rest < word) by (bit_vector)
                requires
                    rest == word & !(1u64 << b),
                    b < 64,
                    (word >> b) & 1u64 == 1u64,
            ;
        }
    }
    rest
}

/// Where a bit of a row is found: the word that holds it, and that word with this bit set only.
pub fn bit_position(index: usize) -> (position: (usize, u64))
    ensures
        position.0 == index as int / 64,
        forall|bit: int| #[trigger] bit_set(position.1, bit) == (bit == index as int % 64),
{
    // 0 to 63 are in the first word, 64 to 127 in the second, and so on.
    let word: usize = index / 64;
    let bit: u64 = (index % 64) as u64;
    let mask: u64 = 1u64 << bit;
    assert forall|other: int| #[trigger] bit_set(mask, other) == (other == bit) by {
        if 0 <= other < 64 {
            let o = other as u64;
            assert(((1u64 << bit) >> o) & 1u64 == 1u64 <==> o == bit) by (bit_vector)
                requires
                    bit < 64,
                    o < 64,
            ;
        }
    }
    (word, mask)
}

/// The lowest bit of a row is the lowest bit of its first word that is not zero.
pub proof fn row_lowest_bit(words: Seq<u64>, word: int, bit: int)
    requires
        0 <= word < words.len(),
        forall|before: int| 0 <= before < word ==> #[trigger] words[before] == 0,
        is_lowest_bit(words[word], bit),
    ensures
        row_bit_set(words, 64 * word + bit),
        forall|lower: int| lower < 64 * word + bit ==> !row_bit_set(words, lower),
{
    assert((64 * word + bit) / 64 == word && (64 * word + bit) % 64 == bit);
    assert forall|lower: int| lower < 64 * word + bit implies !row_bit_set(words, lower) by {
        if 0 <= lower {
            zero_has_no_bits(words[lower / 64]);
            if lower / 64 == word {
                assert(lower % 64 < bit);
            }
        }
    }
}

/// A row of zeros has no bits.
pub proof fn row_of_zeros(words: Seq<u64>)
    requires
        forall|word: int| 0 <= word < words.len() ==> #[trigger] words[word] == 0,
    ensures
        forall|bit: int| !row_bit_set(words, bit),
{
    assert forall|bit: int| !row_bit_set(words, bit) by {
        if 0 <= bit < words.len() * 64 {
            zero_has_no_bits(words[bit / 64]);
        }
    }
}

/// Clearing a bit of a word clears that bit of the row.
pub proof fn row_clear_bit(words: Seq<u64>, word: int, bit: int, rest: u64)
    requires
        0 <= word < words.len(),
        0 <= bit < 64,
        forall|other: int| #[trigger]
            bit_set(rest, other) == (bit_set(words[word], other) && other != bit),
    ensures
        forall|i: int| #[trigger]
            row_bit_set(words.update(word, rest), i) == (row_bit_set(words, i) && i != 64 * word
                + bit),
{
    assert forall|i: int| #[trigger]
        row_bit_set(words.update(word, rest), i) == (row_bit_set(words, i) && i != 64 * word
            + bit) by {
        if 0 <= i < words.len() * 64 {
            assert(i == 64 * (i / 64) + i % 64);
        }
    }
}

} // verus!
