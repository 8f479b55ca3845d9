//! The word mixer: one widening multiply over a word XOR'd with the running
//! state. The low half of the product is the hash, the high half becomes the
//! next state. Everything else in this crate is a wrapper that decides where
//! that state lives.

use vstd::prelude::*;

verus! {

use vstd::arithmetic::div_mod::{
    lemma_mul_mod_noop_left,
    lemma_mul_mod_noop_right,
    lemma_small_mod,
};
use vstd::arithmetic::mul::lemma_mul_is_associative;

/// The multiplier used by every widening multiply: one less than `1 << 62`,
/// the literal value of `(2 << 61) - 1`. The bit pattern is kept as is; it is
/// an odd constant, which is all the mixing argument needs.
pub const MERSENNE_PRIME: u64 = 0x3FFF_FFFF_FFFF_FFFF;

/// The initial state of every stateful hasher, and the fixed pseudo-state of
/// the stateless hash: an alternating-bit pattern.
pub const DEFAULT_STATE: u64 = 0xAAAA_AAAA_AAAA_AAAA;

/// One more than the largest word: the modulus that splits the double-width
/// product into its low and high halves.
pub const WORD_MODULUS: u128 = 0x1_0000_0000_0000_0000;

/// The multiplicative inverse of `MERSENNE_PRIME` modulo `WORD_MODULUS`;
/// it exists because the multiplier is odd, and drives the cancellation
/// argument in `lemma_mix_hash_injective`.
const PRIME_INVERSE: u64 = 0xBFFF_FFFF_FFFF_FFFF;

/// The full double-width product of one mixer step, as a mathematical integer.
pub open spec fn word_product(val: u64, state: u64) -> int {
    (val ^ state) * (MERSENNE_PRIME as int)
}

/// The hash a mixer step returns: the low half of the product.
pub open spec fn mix_hash(val: u64, state: u64) -> u64 {
    (word_product(val, state) % (WORD_MODULUS as int)) as u64
}

/// The state a mixer step carries forward: the high half of the product.
pub open spec fn mix_next_state(val: u64, state: u64) -> u64 {
    (word_product(val, state) / (WORD_MODULUS as int)) as u64
}

/// The stateless hash: one mixer step from the default state, both halves of
/// the product folded together.
pub open spec fn stateless_hash(val: u64) -> u64 {
    mix_hash(val, DEFAULT_STATE) ^ mix_next_state(val, DEFAULT_STATE)
}

/// The carried state never reaches the top two bits: the high half of the
/// product is bounded by the multiplier itself. In particular it is always
/// below `DEFAULT_STATE`, so a freshly constructed hasher never keeps its
/// initial state after a call.
pub proof fn lemma_mix_next_state_bound(val: u64, state: u64)
    ensures
        mix_next_state(val, state) < 0x4000_0000_0000_0000,
{
    let x = (val ^ state) as int;
    let m = WORD_MODULUS as int;
    assert(word_product(val, state) / m < 0x4000_0000_0000_0000) by (nonlinear_arith)
        requires
            0 <= x < 0x1_0000_0000_0000_0000,
            word_product(val, state) == x * (MERSENNE_PRIME as int),
            m == 0x1_0000_0000_0000_0000,
    ;
}

/// Multiplying by the odd mixing constant is injective modulo the word size:
/// two words with the same low product half are the same word. Shown by
/// multiplying with the constant's inverse.
proof fn lemma_mul_prime_cancel(a: u64, b: u64)
    requires
        (a * MERSENNE_PRIME) % (WORD_MODULUS as int) == (b * MERSENNE_PRIME) % (WORD_MODULUS as int),
    ensures
        a == b,
{
    let m = WORD_MODULUS as int;
    let c = MERSENNE_PRIME as int;
    let ci = PRIME_INVERSE as int;
    assert((c * ci) % m == 1);
    lemma_mul_mod_noop_left(a * c, ci, m);
    lemma_mul_is_associative(a as int, c, ci);
    lemma_mul_mod_noop_right(a as int, c * ci, m);
    lemma_small_mod(a as nat, WORD_MODULUS as nat);
    assert((((a * c) % m) * ci) % m == a);
    lemma_mul_mod_noop_left(b * c, ci, m);
    lemma_mul_is_associative(b as int, c, ci);
    lemma_mul_mod_noop_right(b as int, c * ci, m);
    lemma_small_mod(b as nat, WORD_MODULUS as nat);
    assert((((b * c) % m) * ci) % m == b);
}

/// For a fixed input word, the hash determines the state it was mixed with:
/// the mixer loses no state information in its low half.
pub proof fn lemma_mix_hash_injective(val: u64, s1: u64, s2: u64)
    requires
        mix_hash(val, s1) == mix_hash(val, s2),
    ensures
        s1 == s2,
{
    let m = WORD_MODULUS as int;
    let a = val ^ s1;
    let b = val ^ s2;
    assert(0 <= word_product(val, s1) % m < m);
    assert(0 <= word_product(val, s2) % m < m);
    assert((a * MERSENNE_PRIME) % m == (b * MERSENNE_PRIME) % m);
    lemma_mul_prime_cancel(a, b);
    assert(s1 == s2) by (bit_vector)
        requires
            val ^ s1 == val ^ s2,
    ;
}

/// Hashing the same word twice in a row is never the identity on the result
/// unless the state did not move: with the state advanced, the second hash
/// differs from the first.
pub proof fn lemma_repeated_input_differs(val: u64, state: u64)
    requires
        mix_next_state(val, state) != state,
    ensures
        mix_hash(val, mix_next_state(val, state)) != mix_hash(val, state),
{
    if mix_hash(val, mix_next_state(val, state)) == mix_hash(val, state) {
        lemma_mix_hash_injective(val, mix_next_state(val, state), state);
    }
}

/// On a freshly constructed hasher the state always moves, so the first two
/// hashes of one and the same word always differ.
pub proof fn lemma_fresh_repeated_input_differs(val: u64)
    ensures
        mix_hash(val, mix_next_state(val, DEFAULT_STATE)) != mix_hash(val, DEFAULT_STATE),
{
    lemma_mix_next_state_bound(val, DEFAULT_STATE);
    lemma_repeated_input_differs(val, DEFAULT_STATE);
}

/// One mixer step: `(hash, next_state)` for `val` against `state`.
pub fn mix(val: u64, state: u64) -> (r: (u64, u64))
    ensures
        r.0 == mix_hash(val, state),
        r.1 == mix_next_state(val, state),
{
    let input = val ^ state;
    let wide: u128 = (input as u128) * (MERSENNE_PRIME as u128);
    let hash = (wide % WORD_MODULUS) as u64;
    let next = (wide / WORD_MODULUS) as u64;
    (hash, next)
}

} // verus!
