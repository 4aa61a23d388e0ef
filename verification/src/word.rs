//! Arithmetic on 15-bit machine words.
//!
//! A word is a `u16` whose value lies below [`MOD`]. Every arithmetic
//! instruction of the machine reduces its result modulo [`MOD`] before
//! storing it.

use vstd::prelude::*;

verus! {

/// The modulus of word arithmetic: 2^15.
pub const MOD: u16 = 32768;

/// The largest word: 2^15 - 1, also the mask of the low 15 bits.
pub const MASK: u16 = 32767;

/// Whether a `u16` holds a valid 15-bit word.
pub open spec fn is_word(x: u16) -> bool {
    x < MOD
}

/// The sum of two values, reduced into the word range.
pub open spec fn word_add(x: u16, y: u16) -> u16 {
    (((x as int) + (y as int)) % (MOD as int)) as u16
}

/// The product of two values, reduced into the word range.
pub open spec fn word_mul(x: u16, y: u16) -> u16 {
    (((x as int) * (y as int)) % (MOD as int)) as u16
}

/// The remainder of `x` divided by `y`; meaningful only for `y != 0`.
pub open spec fn word_mod(x: u16, y: u16) -> u16 {
    ((x as int) % (y as int)) as u16
}

/// The 15-bit bitwise inverse.
pub open spec fn word_not(x: u16) -> u16 {
    MASK ^ x
}

/// The sum of two words, computed without overflow.
pub fn add_words(x: u16, y: u16) -> (r: u16)
    ensures
        r == word_add(x, y),
{
    (((x as u32) + (y as u32)) % (MOD as u32)) as u16
}

/// The product of two words, computed in 32 bits so the intermediate
/// never overflows.
pub fn mul_words(x: u16, y: u16) -> (r: u16)
    ensures
        r == word_mul(x, y),
{
    proof {
        assert((x as int) * (y as int) <= 65535 * 65535) by (nonlinear_arith)
            requires
                x <= 65535,
                y <= 65535,
        ;
    }
    (((x as u32) * (y as u32)) % (MOD as u32)) as u16
}

/// Law: the bitwise `or` and `and` of a value with itself leave it unchanged.
pub proof fn lemma_and_or_idempotent(x: u16)
    ensures
        (x | x) == x,
        (x & x) == x,
{
    assert((x | x) == x) by (bit_vector);
    assert((x & x) == x) by (bit_vector);
}

/// Law: adding zero to a word leaves it unchanged.
pub proof fn lemma_add_zero(x: u16)
    requires
        is_word(x),
    ensures
        word_add(x, 0) == x,
{
}

/// Law: multiplying a word by one leaves it unchanged, and multiplying
/// any value by zero yields zero.
pub proof fn lemma_mul_one_zero(x: u16)
    requires
        is_word(x),
    ensures
        word_mul(x, 1) == x,
        word_mul(x, 0) == 0,
{
}

/// Law: the 15-bit inverse flips exactly the low 15 bits, stays within
/// the word range on words, and is an involution.
pub proof fn lemma_not_involution(x: u16)
    requires
        is_word(x),
    ensures
        word_not(x) == (MASK ^ x),
        is_word(word_not(x)),
        word_not(word_not(x)) == x,
{
    assert(x < 32768 ==> (32767u16 ^ x) < 32768) by (bit_vector);
    assert((32767u16 ^ (32767u16 ^ x)) == x) by (bit_vector);
}

} // verus!
