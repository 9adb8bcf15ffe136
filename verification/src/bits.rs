//! Single bits of machine words, and how the bitwise operators act on them.

use vstd::prelude::*;

verus! {

/// Whether bit `index` of `word` is set.
pub open spec fn bit(word: u32, index: u32) -> bool {
    word & (1u32 << index) != 0
}

/// How each bitwise operator acts on one bit.
pub proof fn lemma_bit_ops(a: u32, b: u32, index: u32)
    by (bit_vector)
    requires
        index < 32,
    ensures
        bit(a | b, index) == (bit(a, index) || bit(b, index)),
        bit(a & b, index) == (bit(a, index) && bit(b, index)),
        bit(!a, index) == !bit(a, index),
        bit(a & !b, index) == (bit(a, index) && !bit(b, index)),
        !bit(0, index),
{
}

/// Setting or clearing one bit leaves every other bit alone.
pub proof fn lemma_bit_update(word: u32, index: u32, other: u32)
    by (bit_vector)
    requires
        index < 32,
        other < 32,
    ensures
        bit(word | (1u32 << index), other) == (bit(word, other) || other == index),
        bit(word & !(1u32 << index), other) == (bit(word, other) && other != index),
        bit(1u32 << index, other) == (other == index),
{
}

/// Clearing a set bit makes a word smaller.
pub proof fn lemma_clear_decreases(word: u32, index: u32)
    by (bit_vector)
    requires
        index < 32,
        bit(word, index),
    ensures
        word & !(1u32 << index) < word,
{
}

/// `index` is the highest set bit of `word`.
pub open spec fn is_highest_bit(word: u32, index: u32) -> bool {
    &&& index < 32
    &&& bit(word, index)
    &&& forall|other: u32| other < 32 && #[trigger] bit(word, other) ==> other <= index
}

proof fn lemma_clear_lowest_at(word: u32, low: u32, other: u32)
    by (bit_vector)
    requires
        low < 32,
        other < 32,
        (word >> low) & 1 == 1,
        low > 0 ==> word << ((32 - low) as u32) == 0,
    ensures
        word != 0,
        bit(word, low),
        bit(word & ((word - 1) as u32), other) == (bit(word, other) && other != low),
        bit(word, other) ==> other >= low,
        (word & ((word - 1) as u32)) < word,
{
}

/// The number of trailing zeros is the index of the lowest set bit, and
/// `word & (word - 1)` clears exactly that bit.
pub proof fn lemma_clear_lowest(word: u32, other: u32)
    requires
        word != 0,
        other < 32,
    ensures
        word.trailing_zeros() < 32,
        bit(word, word.trailing_zeros()),
        bit(word & (word - 1) as u32, other) == (bit(word, other) && other
            != word.trailing_zeros()),
        bit(word, other) ==> other >= word.trailing_zeros(),
        (word & (word - 1) as u32) < word,
{
    vstd::std_specs::bits::axiom_u32_trailing_zeros(word);
    let low: u32 = word.trailing_zeros();
    lemma_clear_lowest_at(word, low, other);
}

proof fn lemma_highest_at(word: u32, high: u32, other: u32)
    by (bit_vector)
    requires
        high < 32,
        other < 32,
        (word >> high) & 1 != 0,
        word >> ((high + 1) as u32) == 0,
    ensures
        bit(word, high),
        bit(word, other) ==> other <= high,
{
}

/// `31 - leading_zeros` is the index of the highest set bit.
pub proof fn lemma_highest(word: u32, other: u32)
    requires
        word != 0,
        other < 32,
    ensures
        word.leading_zeros() < 32,
        bit(word, (31 - word.leading_zeros()) as u32),
        bit(word, other) ==> other <= 31 - word.leading_zeros(),
{
    vstd::std_specs::bits::axiom_u32_leading_zeros(word);
    let high: u32 = (31 - word.leading_zeros()) as u32;
    lemma_highest_at(word, high, other);
}

/// The index of the highest set bit.
pub(crate) fn highest_bit(word: u32) -> (index: u32)
    requires
        word != 0,
    ensures
        is_highest_bit(word, index),
{
    proof {
        lemma_highest(word, 0);
        assert forall|other: u32| other < 32 && #[trigger] bit(word, other) implies other <= 31
            - word.leading_zeros() by {
            lemma_highest(word, other);
        }
    }
    31 - word.leading_zeros()
}

/// A nonzero word has a set bit.
pub proof fn lemma_some_bit(word: u32)
    requires
        word != 0,
    ensures
        exists|i: u32| i < 32 && #[trigger] bit(word, i),
{
    lemma_clear_lowest(word, 0);
    assert(bit(word, word.trailing_zeros()));
}

/// The low five bits of an interrupt ID are its position within a word.
pub proof fn lemma_low_five(intid: u32)
    by (bit_vector)
    ensures
        intid & 31 == intid % 32,
        intid & 3 == intid % 4,
{
}

/// A bit by a shift of the word.
pub proof fn lemma_bit_shifted(word: u32, index: u32)
    by (bit_vector)
    requires
        index < 32,
    ensures
        (word & (1u32 << index) != 0) == ((word >> index) & 1 == 1),
        (word >> index) & 1 == 0 || (word >> index) & 1 == 1,
{
}

} // verus!
