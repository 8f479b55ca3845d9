//! Partitioning byte buffers into words for the digest adapters: consecutive
//! eight-byte chunks read in little-endian order, with a tail shorter than one
//! word zero-padded on its high end, and the folds that run those words
//! through a hasher.

use vstd::prelude::*;

verus! {

use crate::mix::{mix_hash, mix_next_state, stateless_hash};

/// The little-endian value of the `n` bytes of `b` starting at `start`.
pub open spec fn word_bytes_at(b: Seq<u8>, start: int, n: nat) -> nat
    decreases n,
{
    if n == 0 {
        0
    } else {
        (b[start] + 0x100 * word_bytes_at(b, start + 1, (n - 1) as nat)) as nat
    }
}

/// The least value above every word read from `n` bytes: `0x100` to the `n`th.
pub open spec fn word_limit(n: nat) -> nat
    decreases n,
{
    if n == 0 {
        1
    } else {
        0x100 * word_limit((n - 1) as nat)
    }
}

/// A word read from `n` bytes stays below `word_limit(n)`.
pub proof fn lemma_word_bytes_at_bound(b: Seq<u8>, start: int, n: nat)
    ensures
        word_bytes_at(b, start, n) < word_limit(n),
    decreases n,
{
    if n > 0 {
        lemma_word_bytes_at_bound(b, start + 1, (n - 1) as nat);
    }
}

/// `word_limit` grows with the byte count.
pub proof fn lemma_word_limit_le(m: nat, n: nat)
    requires
        m <= n,
    ensures
        word_limit(m) <= word_limit(n),
    decreases n,
{
    if m < n {
        lemma_word_limit_le(m, (n - 1) as nat);
    }
}

/// How many words a buffer of `len` bytes yields: one per full eight-byte
/// chunk, plus one for a non-empty tail. An exact multiple of eight yields no
/// padded tail word.
pub open spec fn word_count(len: nat) -> nat {
    if len % 8 == 0 {
        len / 8
    } else {
        len / 8 + 1
    }
}

/// The `i`th word of a buffer: eight bytes where they remain, otherwise the
/// remaining tail, whose missing high bytes read as zero.
pub open spec fn word_at(b: Seq<u8>, i: int) -> u64 {
    if 8 * i + 8 <= b.len() {
        word_bytes_at(b, 8 * i, 8) as u64
    } else {
        word_bytes_at(b, 8 * i, (b.len() - 8 * i) as nat) as u64
    }
}

/// The whole buffer as the word sequence the digest adapters consume.
pub open spec fn words_of_bytes(b: Seq<u8>) -> Seq<u64> {
    Seq::new(word_count(b.len()), |i: int| word_at(b, i))
}

/// A buffer whose length is an exact multiple of the word width splits into
/// full-width words only: no word is read from fewer than eight bytes.
pub proof fn lemma_exact_chunks_no_padding(b: Seq<u8>)
    requires
        b.len() % 8 == 0,
    ensures
        words_of_bytes(b).len() == b.len() / 8,
        forall|i: int|
            0 <= i < words_of_bytes(b).len() ==> words_of_bytes(b)[i] == word_bytes_at(
                b,
                8 * i,
                8,
            ) as u64,
{
}

/// The register and state after feeding the first `n` of `words` through a
/// stateful hasher that started at `state`: the register is the xor of the
/// hashes, and the state advances through every word.
pub open spec fn fold_mix(words: Seq<u64>, state: u64, n: nat) -> (u64, u64)
    decreases n,
{
    if n == 0 {
        (0u64, state)
    } else {
        let prev = fold_mix(words, state, (n - 1) as nat);
        (prev.0 ^ mix_hash(words[n - 1], prev.1), mix_next_state(words[n - 1], prev.1))
    }
}

/// The register after feeding the first `n` of `words` through the stateless
/// hash: the xor of the individual hashes, with no state carried.
pub open spec fn fold_stateless(words: Seq<u64>, n: nat) -> u64
    decreases n,
{
    if n == 0 {
        0u64
    } else {
        fold_stateless(words, (n - 1) as nat) ^ stateless_hash(words[n - 1])
    }
}

/// The register after feeding the first `n` of `words` through a hasher whose
/// state at step `i` was `states[i]`: what a shared hasher under contention
/// can produce, where each step's state is some previously stored word.
pub open spec fn fold_hashes(words: Seq<u64>, states: Seq<u64>, n: nat) -> u64
    decreases n,
{
    if n == 0 {
        0u64
    } else {
        fold_hashes(words, states, (n - 1) as nat) ^ mix_hash(words[n - 1], states[n - 1])
    }
}

/// Extending the state sequence beyond the fold's reach does not change it.
pub proof fn lemma_fold_hashes_push(words: Seq<u64>, states: Seq<u64>, s: u64, n: nat)
    requires
        n <= states.len(),
    ensures
        fold_hashes(words, states.push(s), n) == fold_hashes(words, states, n),
    decreases n,
{
    if n > 0 {
        lemma_fold_hashes_push(words, states, s, (n - 1) as nat);
    }
}

/// Reads the bytes `start..end` of `bytes` as one little-endian word; with
/// fewer than eight bytes the high end reads as zero.
pub fn load_word_range(bytes: &[u8], start: usize, end: usize) -> (w: u64)
    requires
        start <= end <= bytes@.len(),
        end - start <= 8,
    ensures
        w == word_bytes_at(bytes@, start as int, (end - start) as nat) as u64,
{
    let mut w: u64 = 0;
    let mut i: usize = end;
    while i > start
        invariant
            start <= i <= end <= bytes@.len(),
            end - start <= 8,
            w == word_bytes_at(bytes@, i as int, (end - i) as nat) as u64,
        decreases i,
    {
        i = i - 1;
        proof {
            lemma_word_bytes_at_bound(bytes@, i + 1, (end - i - 1) as nat);
            lemma_word_limit_le((end - i - 1) as nat, 7);
            reveal_with_fuel(word_limit, 8);
            assert(word_limit(7) == 0x100_0000_0000_0000);
        }
        w = w * 0x100 + (bytes[i] as u64);
    }
    w
}

} // verus!
