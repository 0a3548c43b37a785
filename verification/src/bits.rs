//! Single bits of register words.

use vstd::prelude::*;

verus! {

/// Bit number `bit` of `word` is one.
pub open spec fn has_bit(word: u32, bit: u32) -> bool {
    word & (1u32 << bit) != 0
}

/// `word` with bit number `bit` set to `val` and every other bit as it was.
pub open spec fn with_bit(word: u32, bit: u32, val: bool) -> u32 {
    if val {
        word | (1u32 << bit)
    } else {
        word & !(1u32 << bit)
    }
}

/// The low 24 bits of `word`, as a number.
pub open spec fn low24(word: u32) -> u32 {
    word % 0x0100_0000
}

/// `word` with its low 24 bits replaced by those of `val`.
pub open spec fn with_low24(word: u32, val: u32) -> u32 {
    (word - low24(word) + low24(val)) as u32
}

/// A bit is one just where the binary digit of its place is: bit `bit` counts `2^bit`.
pub proof fn lemma_bit_is_binary_digit(word: u32, bit: u32)
    requires
        bit < 32,
    ensures
        has_bit(word, bit) <==> (word as nat / vstd::arithmetic::power2::pow2(bit as nat)) % 2
            == 1,
{
    vstd::bits::lemma_u32_shr_is_div(word, bit);
    assert((word & (1u32 << bit) != 0) <==> (word >> bit) % 2 == 1) by (bit_vector)
        requires
            bit < 32,
    ;
}

/// Setting a bit gives that bit its value and leaves the digit of every other place.
pub proof fn lemma_setting_a_bit_changes_its_digit_alone(word: u32, bit: u32, val: bool, at: u32)
    requires
        bit < 32,
        at < 32,
    ensures
        (with_bit(word, bit, val) >> at) & 1 == (if at == bit {
            if val {
                1u32
            } else {
                0u32
            }
        } else {
            (word >> at) & 1
        }),
{
    assert(((word | (1u32 << bit)) >> at) & 1 == (if at == bit {
        1u32
    } else {
        (word >> at) & 1
    })) by (bit_vector)
        requires
            bit < 32,
            at < 32,
    ;
    assert(((word & !(1u32 << bit)) >> at) & 1 == (if at == bit {
        0u32
    } else {
        (word >> at) & 1
    })) by (bit_vector)
        requires
            bit < 32,
            at < 32,
    ;
}

/// The low 24 bits are a number of 24 bits, and what is above them is whole multiples of
/// `2^24`.
pub proof fn lemma_low24_is_what_multiples_leave(word: u32)
    ensures
        low24(word) < 0x0100_0000,
        low24(word) <= word,
        (word - low24(word)) % 0x0100_0000 == 0,
{
}

/// Replacing the low 24 bits takes them from the one word, and keeps the rest of the other.
pub proof fn lemma_replacing_low24(word: u32, val: u32)
    ensures
        with_low24(word, val) % 0x0100_0000 == val % 0x0100_0000,
        with_low24(word, val) / 0x0100_0000 == word / 0x0100_0000,
{
    let q = word / 0x0100_0000;
    let r = val % 0x0100_0000;
    assert(word - word % 0x0100_0000 == q * 0x0100_0000);
    assert(with_low24(word, val) == q * 0x0100_0000 + r);
}

} // verus!
