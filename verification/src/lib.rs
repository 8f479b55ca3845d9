//! cmhash - Core Mersenne Hashing
//!
//! Fast, non-cryptographic hashing of machine words by a single widening
//! multiply and xor, meant for hash tables and sharding. Three access modes
//! share one mixing primitive: a pure stateless hash, a single-owner stateful
//! hasher, and an atomic-backed hasher for concurrent use, plus byte-stream
//! digest adapters over each.

use vstd::prelude::*;

pub mod hasher;
pub mod mix;
pub mod words;

pub use crate::hasher::{CMBuildHasher, CMHasher, StatelessBuildHasher, StatelessHasher};

verus! {

use core::sync::atomic::{AtomicU64, Ordering};
use crate::mix::{mix, mix_hash, mix_next_state, stateless_hash};
use crate::words::{fold_hashes, fold_mix, lemma_fold_hashes_push, load_word_range, words_of_bytes};

/// A thread-local core hasher: one word of state, owned by a single caller
/// and advanced in place by every hash. Cheap to construct; under parallel
/// load, give every thread its own instance instead of sharing one.
#[derive(Debug)]
pub struct TLCoreHasher {
    /// The word carried between successive `hash_word` calls.
    pub state: u64,
}

impl TLCoreHasher {
    /// Creates a new [`TLCoreHasher`] with the default state.
    pub fn new() -> (r: Self)
        ensures
            r.state == mix::DEFAULT_STATE,
    {
        Self::with_state(mix::DEFAULT_STATE)
    }

    /// Creates a new [`TLCoreHasher`] with a specific state.
    pub fn with_state(state: u64) -> (r: Self)
        ensures
            r.state == state,
    {
        Self { state }
    }

    /// Retrieve the current state.
    pub fn get_state(&self) -> (r: u64)
        ensures
            r == self.state,
    {
        self.state
    }

    /// Quickly hash a word sized value: one mixer step. The state advances as
    /// a side effect, so hashing the same word twice in a row yields two
    /// different results (see `mix::lemma_repeated_input_differs`).
    pub fn hash_word(&mut self, val: u64) -> (r: u64)
        ensures
            r == mix_hash(val, old(self).state),
            final(self).state == mix_next_state(val, old(self).state),
    {
        let (hash, next) = mix(val, self.state);
        self.state = next;
        hash
    }

    /// Hashes a slice of bytes: the buffer splits into little-endian words of
    /// eight bytes, a shorter tail zero-padded on its high end, and every word
    /// runs through [`Self::hash_word`]; the result is the xor of the hashes.
    pub fn hash_bytes(&mut self, bytes: &[u8]) -> (r: u64)
        ensures
            r == fold_mix(
                words_of_bytes(bytes@),
                old(self).state,
                words_of_bytes(bytes@).len(),
            ).0,
            final(self).state == fold_mix(
                words_of_bytes(bytes@),
                old(self).state,
                words_of_bytes(bytes@).len(),
            ).1,
    {
        let ghost words = words_of_bytes(bytes@);
        let ghost s0 = self.state;
        let n = bytes.len();
        let mut acc: u64 = 0;
        let mut i: usize = 0;
        let ghost mut k: nat = 0;
        while n - i >= 8
            invariant
                i <= n,
                n == bytes@.len(),
                i == 8 * k,
                k <= words.len(),
                words == words_of_bytes(bytes@),
                acc == fold_mix(words, s0, k).0,
                self.state == fold_mix(words, s0, k).1,
            decreases n - i,
        {
            let w = load_word_range(bytes, i, i + 8);
            proof {
                assert(words[k as int] == w);
            }
            let h = self.hash_word(w);
            acc = acc ^ h;
            i = i + 8;
            proof {
                k = k + 1;
            }
        }
        if i < n {
            let w = load_word_range(bytes, i, n);
            proof {
                assert(words[k as int] == w);
            }
            let h = self.hash_word(w);
            acc = acc ^ h;
            proof {
                k = k + 1;
            }
        }
        proof {
            assert(k == words.len());
        }
        acc
    }
}

impl Default for TLCoreHasher {
    /// The default hasher starts from the default state.
    fn default() -> (r: Self)
        ensures
            r.state == mix::DEFAULT_STATE,
    {
        Self::new()
    }
}

/// Two hashers at the same state hash the next word alike: resetting is
/// constructing anew, and a fresh hasher's first hash of a word equals any
/// other fresh hasher's first hash of it, initial states equal.
pub proof fn lemma_same_state_same_hash(h1: TLCoreHasher, h2: TLCoreHasher, val: u64)
    requires
        h1.state == h2.state,
    ensures
        mix_hash(val, h1.state) == mix_hash(val, h2.state),
        mix_next_state(val, h1.state) == mix_next_state(val, h2.state),
{
}

/// A core hasher with support for concurrent access: the state lives in an
/// atomic word that any number of owners may hash through at once.
///
/// `hash_word` loads the state, mixes, and stores the new state; the sequence
/// is not one atomic read-modify-write, so under contention an update can be
/// lost and two concurrent calls with the same input can return the same
/// hash. What holds of every outcome: each returned word is one the mixer
/// produces from the given input and some previously stored state.
#[derive(Debug)]
pub struct CoreHasher(AtomicU64);

impl CoreHasher {
    /// Creates a new [`CoreHasher`] with the default state.
    pub fn new() -> Self {
        Self::with_state(mix::DEFAULT_STATE)
    }

    /// Creates a new [`CoreHasher`] with a specific state.
    pub fn with_state(state: u64) -> Self {
        Self(AtomicU64::new(state))
    }

    /// Retrieve the current state: whatever word the last store left behind.
    pub fn get_state(&self) -> u64 {
        self.0.load(Ordering::Acquire)
    }

    /// Quickly hash a word sized value: load the state with acquire ordering,
    /// mix, store the new state with release ordering.
    pub fn hash_word(&self, val: u64) -> (r: u64)
        ensures
            exists|s: u64| r == mix_hash(val, s),
    {
        let state = self.0.load(Ordering::Acquire);
        let (hash, next) = mix(val, state);
        self.0.store(next, Ordering::Release);
        proof {
            assert(hash == mix_hash(val, state));
        }
        hash
    }

    /// Hashes a slice of bytes exactly as [`TLCoreHasher::hash_bytes`] does,
    /// each word through [`Self::hash_word`]. Since other owners may store
    /// between the chunks, the promise is over some sequence of states: the
    /// result is the xor of mixer hashes of the buffer's words, one state per
    /// word.
    pub fn hash_bytes(&self, bytes: &[u8]) -> (r: u64)
        ensures
            exists|states: Seq<u64>|
                states.len() == words_of_bytes(bytes@).len() && r == fold_hashes(
                    words_of_bytes(bytes@),
                    states,
                    words_of_bytes(bytes@).len(),
                ),
    {
        let ghost words = words_of_bytes(bytes@);
        let n = bytes.len();
        let mut acc: u64 = 0;
        let mut i: usize = 0;
        let ghost mut k: nat = 0;
        let ghost mut states: Seq<u64> = Seq::empty();
        while n - i >= 8
            invariant
                i <= n,
                n == bytes@.len(),
                i == 8 * k,
                k <= words.len(),
                words == words_of_bytes(bytes@),
                states.len() == k,
                acc == fold_hashes(words, states, k),
            decreases n - i,
        {
            let w = load_word_range(bytes, i, i + 8);
            proof {
                assert(words[k as int] == w);
            }
            let h = self.hash_word(w);
            acc = acc ^ h;
            i = i + 8;
            proof {
                let s = choose|s: u64| h == mix_hash(w, s);
                lemma_fold_hashes_push(words, states, s, k);
                states = states.push(s);
                k = k + 1;
            }
        }
        if i < n {
            let w = load_word_range(bytes, i, n);
            proof {
                assert(words[k as int] == w);
            }
            let h = self.hash_word(w);
            acc = acc ^ h;
            proof {
                let s = choose|s: u64| h == mix_hash(w, s);
                lemma_fold_hashes_push(words, states, s, k);
                states = states.push(s);
                k = k + 1;
            }
        }
        proof {
            assert(k == words.len());
            assert(states.len() == words_of_bytes(bytes@).len() && acc == fold_hashes(
                words_of_bytes(bytes@),
                states,
                words_of_bytes(bytes@).len(),
            ));
        }
        acc
    }
}

impl Default for CoreHasher {
    /// The default hasher starts from the default state.
    fn default() -> Self {
        Self::new()
    }
}

/// Quickly hash a word sized value without carrying state: one mixer step
/// from the default state, with the two product halves xor'd together. A pure
/// function of its argument, so any two calls on the same word return the
/// same hash.
#[inline]
pub fn hash_word_stateless(val: u64) -> (r: u64)
    ensures
        r == stateless_hash(val),
{
    let (hash, state) = mix(val, mix::DEFAULT_STATE);
    hash ^ state
}

} // verus!

