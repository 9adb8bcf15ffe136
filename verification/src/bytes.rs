//! Little-endian integers in byte buffers, the byte order of every platform
//! this library serves.

use vstd::prelude::*;
use vstd::slice::slice_subrange;

verus! {

/// The number of values that fit in `len` bytes.
pub open spec fn pow256(len: nat) -> nat
    decreases len,
{
    if len == 0 {
        1
    } else {
        256 * pow256((len - 1) as nat)
    }
}

/// The unsigned integer stored in `bytes`, least significant byte first.
pub open spec fn le_value(bytes: Seq<u8>) -> nat
    decreases bytes.len(),
{
    if bytes.len() == 0 {
        0
    } else {
        bytes[0] as nat + 256 * le_value(bytes.drop_first())
    }
}

/// The low `len` bytes of `value`, least significant byte first.
pub open spec fn le_bytes(value: nat, len: nat) -> Seq<u8>
    decreases len,
{
    if len == 0 {
        Seq::empty()
    } else {
        seq![(value % 256) as u8] + le_bytes(value / 256, (len - 1) as nat)
    }
}

/// Powers up to the width of a 64-bit word.
pub proof fn lemma_pow256()
    ensures
        pow256(0) == 1,
        pow256(1) == 0x100,
        pow256(2) == 0x1_0000,
        pow256(3) == 0x100_0000,
        pow256(4) == 0x1_0000_0000,
        pow256(5) == 0x100_0000_0000,
        pow256(6) == 0x1_0000_0000_0000,
        pow256(7) == 0x100_0000_0000_0000,
        pow256(8) == 0x1_0000_0000_0000_0000,
{
    reveal_with_fuel(pow256, 9);
}

/// An integer stored in `len` bytes is below `256^len`.
pub proof fn lemma_le_value_bound(bytes: Seq<u8>)
    ensures
        le_value(bytes) < pow256(bytes.len()),
    decreases bytes.len(),
{
    if bytes.len() > 0 {
        lemma_le_value_bound(bytes.drop_first());
    }
}

pub proof fn lemma_le_bytes_len(value: nat, len: nat)
    ensures
        le_bytes(value, len).len() == len,
    decreases len,
{
    if len > 0 {
        lemma_le_bytes_len(value / 256, (len - 1) as nat);
    }
}

/// Reading back what was written gives the same value, as long as it fits.
pub proof fn lemma_le_round_trip(value: nat, len: nat)
    requires
        value < pow256(len),
    ensures
        le_value(le_bytes(value, len)) == value,
    decreases len,
{
    if len > 0 {
        let rest = le_bytes(value / 256, (len - 1) as nat);
        assert(le_bytes(value, len).drop_first() =~= rest);
        lemma_le_round_trip(value / 256, (len - 1) as nat);
    }
}

/// Writing what was read gives the same bytes.
pub proof fn lemma_le_bytes_of_value(bytes: Seq<u8>)
    ensures
        le_bytes(le_value(bytes), bytes.len()) == bytes,
    decreases bytes.len(),
{
    if bytes.len() > 0 {
        lemma_le_bytes_of_value(bytes.drop_first());
        let v = le_value(bytes);
        let t = le_value(bytes.drop_first());
        assert(v / 256 == t && v % 256 == bytes[0]);
        assert(le_bytes(v, bytes.len()) =~= bytes);
    }
}

/// Zero bytes above the top do not change the value.
pub proof fn lemma_le_value_zero_extended(bytes: Seq<u8>, zeros: nat)
    ensures
        le_value(bytes + Seq::new(zeros, |i: int| 0u8)) == le_value(bytes),
    decreases bytes.len(), zeros,
{
    let padding = Seq::new(zeros, |i: int| 0u8);
    if bytes.len() > 0 {
        assert((bytes + padding).drop_first() =~= bytes.drop_first() + padding);
        lemma_le_value_zero_extended(bytes.drop_first(), zeros);
    } else if zeros > 0 {
        assert((bytes + padding).drop_first() =~= bytes + Seq::new(
            (zeros - 1) as nat,
            |i: int| 0u8,
        ));
        lemma_le_value_zero_extended(bytes, (zeros - 1) as nat);
    }
}

/// Reads a little-endian integer of at most eight bytes.
pub fn read_le(data: &[u8]) -> (value: u64)
    requires
        data@.len() <= 8,
    ensures
        value as nat == le_value(data@),
{
    let mut value: u64 = 0;
    let mut i: usize = data.len();
    proof {
        assert(data@.skip(i as int) =~= Seq::empty());
    }
    while i > 0
        invariant
            i <= data@.len() <= 8,
            value as nat == le_value(data@.skip(i as int)),
        decreases i,
    {
        proof {
            lemma_le_value_bound(data@.skip(i as int));
            lemma_pow256();
            assert(data@.skip(i - 1).drop_first() =~= data@.skip(i as int));
        }
        i = i - 1;
        value = value * 256 + data[i] as u64;
    }
    proof {
        assert(data@.skip(0) =~= data@);
    }
    value
}

/// Fills `data` with the low bytes of `value` in little-endian order.
pub fn write_le(data: &mut [u8], value: u64)
    ensures
        final(data)@ == le_bytes(value as nat, old(data)@.len()),
{
    let ghost len = data@.len();
    let mut rest: u64 = value;
    let mut i: usize = 0;
    while i < data.len()
        invariant
            i <= data@.len() == len,
            len == old(data)@.len(),
            data@.take(i as int) + le_bytes(rest as nat, (len - i) as nat) == le_bytes(
                value as nat,
                len,
            ),
        decreases len - i,
    {
        let ghost before = data@;
        data[i] = (rest % 256) as u8;
        proof {
            assert(data@.take(i + 1) =~= before.take(i as int).push((rest % 256) as u8));
            assert(data@.take(i + 1) + le_bytes(rest as nat / 256, (len - i - 1) as nat)
                =~= before.take(i as int) + le_bytes(rest as nat, (len - i) as nat));
        }
        rest = rest / 256;
        i = i + 1;
    }
    proof {
        assert(data@.take(i as int) =~= data@);
        assert(data@ + Seq::<u8>::empty() =~= data@);
    }
}

/// Fills `data` with one byte.
pub fn fill(data: &mut [u8], byte: u8)
    ensures
        final(data)@ == Seq::new(old(data)@.len(), |i: int| byte),
{
    let ghost len = data@.len();
    let mut i: usize = 0;
    while i < data.len()
        invariant
            i <= data@.len() == len,
            forall|j: int| 0 <= j < i ==> data@[j] == byte,
        decreases len - i,
    {
        data[i] = byte;
        i = i + 1;
    }
    proof {
        assert(data@ =~= Seq::new(len, |i: int| byte));
    }
}

/// Words one after the other, each least significant byte first.
pub open spec fn words_le(words: Seq<u64>) -> Seq<u8>
    decreases words.len(),
{
    if words.len() == 0 {
        Seq::empty()
    } else {
        words_le(words.drop_last()) + le_bytes(words.last() as nat, 8)
    }
}

/// Each word takes eight bytes.
pub proof fn lemma_words_len(words: Seq<u64>)
    ensures
        words_le(words).len() == words.len() * 8,
    decreases words.len(),
{
    if words.len() > 0 {
        lemma_words_len(words.drop_last());
        lemma_le_bytes_len(words.last() as nat, 8);
    }
}

/// Words can be told apart by their bytes.
pub proof fn lemma_words_injective(a: Seq<u64>, b: Seq<u64>)
    requires
        words_le(a) == words_le(b),
    ensures
        a == b,
    decreases a.len(),
{
    lemma_words_len(a);
    lemma_words_len(b);
    if a.len() > 0 {
        let (rest, last) = (words_le(a.drop_last()), le_bytes(a.last() as nat, 8));
        let (other, other_last) = (words_le(b.drop_last()), le_bytes(b.last() as nat, 8));
        lemma_words_len(a.drop_last());
        lemma_words_len(b.drop_last());
        lemma_le_bytes_len(a.last() as nat, 8);
        lemma_le_bytes_len(b.last() as nat, 8);
        assert((rest + last).take(rest.len() as int) =~= rest);
        assert((other + other_last).take(rest.len() as int) =~= other);
        assert((rest + last).skip(rest.len() as int) =~= last);
        assert((other + other_last).skip(rest.len() as int) =~= other_last);
        lemma_words_injective(a.drop_last(), b.drop_last());
        lemma_pow256();
        lemma_le_round_trip(a.last() as nat, 8);
        lemma_le_round_trip(b.last() as nat, 8);
        assert(a =~= a.drop_last().push(a.last()));
        assert(b =~= b.drop_last().push(b.last()));
    } else {
        assert(a =~= b);
    }
}

/// Appends a word, least significant byte first.
pub fn push_word(out: &mut Vec<u8>, word: u64)
    ensures
        final(out)@ == old(out)@ + le_bytes(word as nat, 8),
{
    let mut buffer: [u8; 8] = [0; 8];
    write_le(&mut buffer, word);
    push_bytes(out, &buffer);
}

/// Appends words, each least significant byte first.
pub fn push_words(out: &mut Vec<u8>, words: &[u64])
    ensures
        final(out)@ == old(out)@ + words_le(words@),
{
    let mut i: usize = 0;
    proof {
        assert(words@.take(0) =~= Seq::empty());
        assert(out@ + words_le(words@.take(0)) =~= out@);
    }
    while i < words.len()
        invariant
            i <= words@.len(),
            out@ == old(out)@ + words_le(words@.take(i as int)),
        decreases words@.len() - i,
    {
        push_word(out, words[i]);
        proof {
            assert(words@.take(i + 1).drop_last() =~= words@.take(i as int));
            assert(out@ =~= old(out)@ + words_le(words@.take(i + 1)));
        }
        i = i + 1;
    }
    proof {
        assert(words@.take(i as int) =~= words@);
    }
}

/// Appends bytes.
pub fn push_bytes(out: &mut Vec<u8>, bytes: &[u8])
    ensures
        final(out)@ == old(out)@ + bytes@,
{
    let mut i: usize = 0;
    while i < bytes.len()
        invariant
            i <= bytes@.len(),
            out@ == old(out)@ + bytes@.take(i as int),
        decreases bytes@.len() - i,
    {
        out.push(bytes[i]);
        proof {
            assert(bytes@.take(i + 1) =~= bytes@.take(i as int).push(bytes@[i as int]));
        }
        i = i + 1;
    }
    proof {
        assert(bytes@.take(i as int) =~= bytes@);
    }
}

/// The word at an offset.
pub fn word_at(data: &[u8], offset: usize) -> (word: u64)
    requires
        offset + 8 <= data@.len(),
    ensures
        word as nat == le_value(data@.subrange(offset as int, offset + 8)),
        le_bytes(word as nat, 8) == data@.subrange(offset as int, offset + 8),
{
    proof {
        lemma_le_bytes_of_value(data@.subrange(offset as int, offset + 8));
        assert(data@.len() == data.len());
    }
    read_le(slice_subrange(data, offset, offset + 8))
}

/// Reads as many words as `words` has room for.
pub fn read_words(data: &[u8], offset: usize, words: &mut [u64])
    requires
        offset + old(words)@.len() * 8 <= data@.len(),
    ensures
        final(words)@.len() == old(words)@.len(),
        words_le(final(words)@) == data@.subrange(
            offset as int,
            offset + old(words)@.len() * 8,
        ),
{
    let ghost len = words@.len();
    let mut i: usize = 0;
    proof {
        assert(words@.take(0) =~= Seq::empty());
        assert(data@.subrange(offset as int, offset as int) =~= Seq::empty());
    }
    while i < words.len()
        invariant
            i <= words@.len() == len,
            len == old(words)@.len(),
            offset + len * 8 <= data@.len(),
            words_le(words@.take(i as int)) == data@.subrange(offset as int, offset + i * 8),
        decreases len - i,
    {
        let ghost before = words@;
        proof {
            assert(data@.len() == data.len());
        }
        let word: u64 = word_at(data, offset + i * 8);
        words[i] = word;
        proof {
            assert(words@.take(i + 1).drop_last() =~= before.take(i as int));
            assert(words@.take(i + 1).last() == word);
            assert(data@.subrange(offset as int, offset + (i + 1) * 8) =~= data@.subrange(
                offset as int,
                offset + i * 8,
            ) + data@.subrange(offset + i * 8, offset + i * 8 + 8));
        }
        i = i + 1;
    }
    proof {
        assert(words@.take(i as int) =~= words@);
    }
}

/// Reads as many bytes as `bytes` has room for.
pub fn read_bytes(data: &[u8], offset: usize, bytes: &mut [u8])
    requires
        offset + old(bytes)@.len() <= data@.len(),
    ensures
        final(bytes)@ == data@.subrange(offset as int, offset + old(bytes)@.len()),
{
    let ghost len = bytes@.len();
    let mut i: usize = 0;
    while i < bytes.len()
        invariant
            i <= bytes@.len() == len,
            len == old(bytes)@.len(),
            offset + len <= data@.len(),
            forall|j: int| 0 <= j < i ==> bytes@[j] == data@[offset + j],
        decreases len - i,
    {
        proof {
            assert(data@.len() == data.len());
        }
        bytes[i] = data[offset + i];
        i = i + 1;
    }
    proof {
        assert(bytes@ =~= data@.subrange(offset as int, offset + len));
    }
}

/// Byte `k` of a stored integer is its digit of weight 256 to the `k`.
pub proof fn stored_bytes_are_digits(bytes: Seq<u8>, k: nat)
    requires
        k < bytes.len(),
    ensures
        le_value(bytes) as int / vstd::arithmetic::power::pow(256, k) % 256 == bytes[k as int],
    decreases k,
{
    reveal(vstd::arithmetic::power::pow);
    let rest = le_value(bytes.drop_first()) as int;
    assert(le_value(bytes) == bytes[0] + 256 * rest);
    if k > 0 {
        let power = vstd::arithmetic::power::pow(256, (k - 1) as nat);
        vstd::arithmetic::power::lemma_pow_positive(256, (k - 1) as nat);
        stored_bytes_are_digits(bytes.drop_first(), (k - 1) as nat);
        vstd::arithmetic::div_mod::lemma_div_denominator(le_value(bytes) as int, 256, power);
        assert(le_value(bytes) as int / 256 == rest);
    }
}

/// Byte `k` of the bytes of an integer is its digit of weight 256 to the `k`.
pub proof fn digits_are_stored(value: nat, len: nat, k: nat)
    requires
        k < len,
    ensures
        le_bytes(value, len).len() == len,
        le_bytes(value, len)[k as int] == value as int / vstd::arithmetic::power::pow(256, k) % 256,
    decreases k,
{
    reveal(vstd::arithmetic::power::pow);
    lemma_le_bytes_len(value, len);
    lemma_le_bytes_len(value / 256, (len - 1) as nat);
    if k > 0 {
        let power = vstd::arithmetic::power::pow(256, (k - 1) as nat);
        vstd::arithmetic::power::lemma_pow_positive(256, (k - 1) as nat);
        digits_are_stored(value / 256, (len - 1) as nat, (k - 1) as nat);
        vstd::arithmetic::div_mod::lemma_div_denominator(value as int, 256, power);
    }
}

/// The value of eight bytes, written out.
pub proof fn lemma_le_value_of_eight(bytes: Seq<u8>)
    requires
        bytes.len() == 8,
    ensures
        le_value(bytes) == bytes[0] + bytes[1] * 0x100 + bytes[2] * 0x1_0000 + bytes[3]
            * 0x100_0000 + bytes[4] * 0x1_0000_0000 + bytes[5] * 0x100_0000_0000 + bytes[6]
            * 0x1_0000_0000_0000 + bytes[7] * 0x100_0000_0000_0000,
{
    let t1 = bytes.drop_first();
    let t2 = t1.drop_first();
    let t3 = t2.drop_first();
    let t4 = t3.drop_first();
    let t5 = t4.drop_first();
    let t6 = t5.drop_first();
    let t7 = t6.drop_first();
    assert(le_value(bytes) == bytes[0] + 0x100 * le_value(t1));
    assert(le_value(t1) == bytes[1] + 0x100 * le_value(t2));
    assert(le_value(t2) == bytes[2] + 0x100 * le_value(t3));
    assert(le_value(t3) == bytes[3] + 0x100 * le_value(t4));
    assert(le_value(t4) == bytes[4] + 0x100 * le_value(t5));
    assert(le_value(t5) == bytes[5] + 0x100 * le_value(t6));
    assert(le_value(t6) == bytes[6] + 0x100 * le_value(t7));
    assert(le_value(t7) == bytes[7] + 0x100 * le_value(t7.drop_first()));
}

/// The integer of the eight bytes from `at` on, the lowest byte first.
pub open spec fn word_from(data: Seq<u8>, at: int) -> int {
    data[at] + data[at + 1] * 0x100 + data[at + 2] * 0x1_0000 + data[at + 3] * 0x100_0000 + data[at
        + 4] * 0x1_0000_0000 + data[at + 5] * 0x100_0000_0000 + data[at + 6] * 0x1_0000_0000_0000
        + data[at + 7] * 0x100_0000_0000_0000
}

/// A word of two parts is a word of one of them.
pub proof fn lemma_word_of_parts(a: Seq<u8>, b: Seq<u8>, at: int)
    requires
        0 <= at,
        at + 8 <= a.len() || (a.len() <= at && at + 8 <= a.len() + b.len()),
    ensures
        word_from(a + b, at) == (if at + 8 <= a.len() {
            word_from(a, at)
        } else {
            word_from(b, at - a.len())
        }),
{
}

/// Words that are stored one behind the other are found eight bytes apart.
pub proof fn words_are_eight_bytes_apart(words: Seq<u64>, i: int)
    requires
        0 <= i < words.len(),
    ensures
        words_le(words).len() == 8 * words.len(),
        word_from(words_le(words), 8 * i) == words[i],
    decreases words.len(),
{
    lemma_words_len(words);
    lemma_words_len(words.drop_last());
    let before = words_le(words.drop_last());
    let last = le_bytes(words.last() as nat, 8);
    lemma_le_bytes_len(words.last() as nat, 8);
    lemma_word_of_parts(before, last, 8 * i);
    if i < words.len() - 1 {
        words_are_eight_bytes_apart(words.drop_last(), i);
    } else {
        lemma_pow256();
        lemma_le_round_trip(words.last() as nat, 8);
        lemma_le_value_of_eight(last);
    }
}

} // verus!
