//! Bit-level reading and writing of the packed board words.

use vstd::prelude::*;

verus! {

/// The four-bit field of `word` that starts at bit `4 * slot`.
pub open spec fn nibble(word: u64, slot: int) -> int {
    ((word >> ((4 * slot) as u64)) & 0xF) as int
}

/// Whether bit `idx` of `word` is set.
pub open spec fn bit(word: u64, idx: int) -> bool {
    (word >> (idx as u64)) & 1 == 1
}

/// `word` with the four-bit field `slot` replaced by `value`.
pub open spec fn with_nibble(word: u64, slot: int, value: int) -> u64 {
    (word & !(0xFu64 << ((4 * slot) as u64))) | ((value as u64) << ((4 * slot) as u64))
}

/// `word` with bit `idx` set.
pub open spec fn with_bit(word: u64, idx: int) -> u64 {
    word | (1u64 << (idx as u64))
}

/// `word` with bit `idx` cleared.
pub open spec fn without_bit(word: u64, idx: int) -> u64 {
    word & !(1u64 << (idx as u64))
}

/// Reading a field after writing one: the written field holds the new value,
/// every other field keeps its old one.
pub proof fn lemma_nibble_after_write(word: u64, slot: int, value: int, other: int)
    requires
        0 <= slot < 16,
        0 <= other < 16,
        0 <= value <= 15,
    ensures
        nibble(with_nibble(word, slot, value), other) == if other == slot {
            value
        } else {
            nibble(word, other)
        },
        0 <= nibble(word, other) <= 15,
{
    let s = (4 * slot) as u64;
    let t = (4 * other) as u64;
    let v = value as u64;
    assert((((word & !(0xFu64 << s)) | (v << s)) >> t) & 0xF == if t == s {
        v
    } else {
        (word >> t) & 0xF
    }) by (bit_vector)
        requires
            s < 64,
            t < 64,
            s % 4 == 0,
            t % 4 == 0,
            v <= 15,
    ;
    assert((word >> t) & 0xF <= 15) by (bit_vector);
}

/// Writing a field below bit 56 leaves the top byte of the word alone.
pub proof fn lemma_nibble_write_keeps_top(word: u64, slot: int, value: int)
    requires
        0 <= slot < 14,
        0 <= value <= 15,
    ensures
        with_nibble(word, slot, value) >> 56 == word >> 56,
{
    let s = (4 * slot) as u64;
    let v = value as u64;
    assert(((word & !(0xFu64 << s)) | (v << s)) >> 56 == word >> 56) by (bit_vector)
        requires
            s < 56,
            s % 4 == 0,
            v <= 15,
    ;
}

/// Setting or clearing a bit below bit 40 leaves the bits from 40 up alone.
pub proof fn lemma_bit_write_keeps_top(word: u64, idx: int)
    requires
        0 <= idx < 40,
    ensures
        with_bit(word, idx) >> 40 == word >> 40,
        without_bit(word, idx) >> 40 == word >> 40,
{
    let s = idx as u64;
    assert((word | (1u64 << s)) >> 40 == word >> 40 && (word & !(1u64 << s)) >> 40 == word >> 40)
        by (bit_vector)
        requires
            s < 40,
    ;
}

/// Reading a bit after setting or clearing one.
pub proof fn lemma_bit_after_write(word: u64, idx: int, other: int)
    requires
        0 <= idx < 64,
        0 <= other < 64,
    ensures
        bit(with_bit(word, idx), other) == (other == idx || bit(word, other)),
        bit(without_bit(word, idx), other) == (other != idx && bit(word, other)),
{
    let s = idx as u64;
    let t = other as u64;
    assert(((word | (1u64 << s)) >> t) & 1 == 1 <==> (t == s || (word >> t) & 1 == 1))
        by (bit_vector)
        requires
            s < 64,
            t < 64,
    ;
    assert(((word & !(1u64 << s)) >> t) & 1 == 1 <==> (t != s && (word >> t) & 1 == 1))
        by (bit_vector)
        requires
            s < 64,
            t < 64,
    ;
}

/// Two words with the same fourteen low fields and the same top byte are
/// the same word.
pub proof fn lemma_same_nibbles(a: u64, b: u64)
    requires
        forall|slot: int| 0 <= slot < 14 ==> nibble(a, slot) == nibble(b, slot),
        a >> 56 == b >> 56,
    ensures
        a == b,
{
    assert(nibble(a, 0) == nibble(b, 0));
    assert(nibble(a, 1) == nibble(b, 1));
    assert(nibble(a, 2) == nibble(b, 2));
    assert(nibble(a, 3) == nibble(b, 3));
    assert(nibble(a, 4) == nibble(b, 4));
    assert(nibble(a, 5) == nibble(b, 5));
    assert(nibble(a, 6) == nibble(b, 6));
    assert(nibble(a, 7) == nibble(b, 7));
    assert(nibble(a, 8) == nibble(b, 8));
    assert(nibble(a, 9) == nibble(b, 9));
    assert(nibble(a, 10) == nibble(b, 10));
    assert(nibble(a, 11) == nibble(b, 11));
    assert(nibble(a, 12) == nibble(b, 12));
    assert(nibble(a, 13) == nibble(b, 13));
    assert(a == b) by (bit_vector)
        requires
            (a >> 0u64) & 0xF == (b >> 0u64) & 0xF,
            (a >> 4u64) & 0xF == (b >> 4u64) & 0xF,
            (a >> 8u64) & 0xF == (b >> 8u64) & 0xF,
            (a >> 12u64) & 0xF == (b >> 12u64) & 0xF,
            (a >> 16u64) & 0xF == (b >> 16u64) & 0xF,
            (a >> 20u64) & 0xF == (b >> 20u64) & 0xF,
            (a >> 24u64) & 0xF == (b >> 24u64) & 0xF,
            (a >> 28u64) & 0xF == (b >> 28u64) & 0xF,
            (a >> 32u64) & 0xF == (b >> 32u64) & 0xF,
            (a >> 36u64) & 0xF == (b >> 36u64) & 0xF,
            (a >> 40u64) & 0xF == (b >> 40u64) & 0xF,
            (a >> 44u64) & 0xF == (b >> 44u64) & 0xF,
            (a >> 48u64) & 0xF == (b >> 48u64) & 0xF,
            (a >> 52u64) & 0xF == (b >> 52u64) & 0xF,
            a >> 56 == b >> 56,
    ;
}

/// Two words with the same forty low bits and the same bits above them are
/// the same word.
pub proof fn lemma_same_bits(a: u64, b: u64)
    requires
        forall|idx: int| 0 <= idx < 40 ==> bit(a, idx) == bit(b, idx),
        a >> 40 == b >> 40,
    ensures
        a == b,
{
    assert(bit(a, 0) == bit(b, 0));
    assert(bit(a, 1) == bit(b, 1));
    assert(bit(a, 2) == bit(b, 2));
    assert(bit(a, 3) == bit(b, 3));
    assert(bit(a, 4) == bit(b, 4));
    assert(bit(a, 5) == bit(b, 5));
    assert(bit(a, 6) == bit(b, 6));
    assert(bit(a, 7) == bit(b, 7));
    assert(bit(a, 8) == bit(b, 8));
    assert(bit(a, 9) == bit(b, 9));
    assert(bit(a, 10) == bit(b, 10));
    assert(bit(a, 11) == bit(b, 11));
    assert(bit(a, 12) == bit(b, 12));
    assert(bit(a, 13) == bit(b, 13));
    assert(bit(a, 14) == bit(b, 14));
    assert(bit(a, 15) == bit(b, 15));
    assert(bit(a, 16) == bit(b, 16));
    assert(bit(a, 17) == bit(b, 17));
    assert(bit(a, 18) == bit(b, 18));
    assert(bit(a, 19) == bit(b, 19));
    assert(bit(a, 20) == bit(b, 20));
    assert(bit(a, 21) == bit(b, 21));
    assert(bit(a, 22) == bit(b, 22));
    assert(bit(a, 23) == bit(b, 23));
    assert(bit(a, 24) == bit(b, 24));
    assert(bit(a, 25) == bit(b, 25));
    assert(bit(a, 26) == bit(b, 26));
    assert(bit(a, 27) == bit(b, 27));
    assert(bit(a, 28) == bit(b, 28));
    assert(bit(a, 29) == bit(b, 29));
    assert(bit(a, 30) == bit(b, 30));
    assert(bit(a, 31) == bit(b, 31));
    assert(bit(a, 32) == bit(b, 32));
    assert(bit(a, 33) == bit(b, 33));
    assert(bit(a, 34) == bit(b, 34));
    assert(bit(a, 35) == bit(b, 35));
    assert(bit(a, 36) == bit(b, 36));
    assert(bit(a, 37) == bit(b, 37));
    assert(bit(a, 38) == bit(b, 38));
    assert(bit(a, 39) == bit(b, 39));
    assert(a == b) by (bit_vector)
        requires
            ((a >> 0u64) & 1 == 1) == ((b >> 0u64) & 1 == 1),
            ((a >> 1u64) & 1 == 1) == ((b >> 1u64) & 1 == 1),
            ((a >> 2u64) & 1 == 1) == ((b >> 2u64) & 1 == 1),
            ((a >> 3u64) & 1 == 1) == ((b >> 3u64) & 1 == 1),
            ((a >> 4u64) & 1 == 1) == ((b >> 4u64) & 1 == 1),
            ((a >> 5u64) & 1 == 1) == ((b >> 5u64) & 1 == 1),
            ((a >> 6u64) & 1 == 1) == ((b >> 6u64) & 1 == 1),
            ((a >> 7u64) & 1 == 1) == ((b >> 7u64) & 1 == 1),
            ((a >> 8u64) & 1 == 1) == ((b >> 8u64) & 1 == 1),
            ((a >> 9u64) & 1 == 1) == ((b >> 9u64) & 1 == 1),
            ((a >> 10u64) & 1 == 1) == ((b >> 10u64) & 1 == 1),
            ((a >> 11u64) & 1 == 1) == ((b >> 11u64) & 1 == 1),
            ((a >> 12u64) & 1 == 1) == ((b >> 12u64) & 1 == 1),
            ((a >> 13u64) & 1 == 1) == ((b >> 13u64) & 1 == 1),
            ((a >> 14u64) & 1 == 1) == ((b >> 14u64) & 1 == 1),
            ((a >> 15u64) & 1 == 1) == ((b >> 15u64) & 1 == 1),
            ((a >> 16u64) & 1 == 1) == ((b >> 16u64) & 1 == 1),
            ((a >> 17u64) & 1 == 1) == ((b >> 17u64) & 1 == 1),
            ((a >> 18u64) & 1 == 1) == ((b >> 18u64) & 1 == 1),
            ((a >> 19u64) & 1 == 1) == ((b >> 19u64) & 1 == 1),
            ((a >> 20u64) & 1 == 1) == ((b >> 20u64) & 1 == 1),
            ((a >> 21u64) & 1 == 1) == ((b >> 21u64) & 1 == 1),
            ((a >> 22u64) & 1 == 1) == ((b >> 22u64) & 1 == 1),
            ((a >> 23u64) & 1 == 1) == ((b >> 23u64) & 1 == 1),
            ((a >> 24u64) & 1 == 1) == ((b >> 24u64) & 1 == 1),
            ((a >> 25u64) & 1 == 1) == ((b >> 25u64) & 1 == 1),
            ((a >> 26u64) & 1 == 1) == ((b >> 26u64) & 1 == 1),
            ((a >> 27u64) & 1 == 1) == ((b >> 27u64) & 1 == 1),
            ((a >> 28u64) & 1 == 1) == ((b >> 28u64) & 1 == 1),
            ((a >> 29u64) & 1 == 1) == ((b >> 29u64) & 1 == 1),
            ((a >> 30u64) & 1 == 1) == ((b >> 30u64) & 1 == 1),
            ((a >> 31u64) & 1 == 1) == ((b >> 31u64) & 1 == 1),
            ((a >> 32u64) & 1 == 1) == ((b >> 32u64) & 1 == 1),
            ((a >> 33u64) & 1 == 1) == ((b >> 33u64) & 1 == 1),
            ((a >> 34u64) & 1 == 1) == ((b >> 34u64) & 1 == 1),
            ((a >> 35u64) & 1 == 1) == ((b >> 35u64) & 1 == 1),
            ((a >> 36u64) & 1 == 1) == ((b >> 36u64) & 1 == 1),
            ((a >> 37u64) & 1 == 1) == ((b >> 37u64) & 1 == 1),
            ((a >> 38u64) & 1 == 1) == ((b >> 38u64) & 1 == 1),
            ((a >> 39u64) & 1 == 1) == ((b >> 39u64) & 1 == 1),
            a >> 40 == b >> 40,
    ;
}

/// A score byte is known by its two scores, its turn bit and its top bit.
pub proof fn lemma_same_score_byte(a: u8, b: u8)
    requires
        a & 7 == b & 7,
        (a >> 3) & 7 == (b >> 3) & 7,
        ((a >> 6) & 1 == 0) == ((b >> 6) & 1 == 0),
        a >> 7 == b >> 7,
    ensures
        a == b,
{
    assert(a == b) by (bit_vector)
        requires
            a & 7 == b & 7,
            (a >> 3) & 7 == (b >> 3) & 7,
            ((a >> 6) & 1 == 0) == ((b >> 6) & 1 == 0),
            a >> 7 == b >> 7,
    ;
}

} // verus!
