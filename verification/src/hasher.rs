//! Byte-stream digest adapters: incremental hashers that consume arbitrary
//! byte buffers through the word mixer and hold the fold in a one-word digest
//! register, read out destructively by `finish`. A stateful variant carries
//! mixer state across words, a stateless variant hashes every word from the
//! default state; each has a builder that produces fresh, independent
//! instances.

use vstd::prelude::*;

verus! {

use crate::mix::{self, mix, mix_hash, mix_next_state, stateless_hash};
use crate::words::{fold_mix, fold_stateless, load_word_range, words_of_bytes};

/// An incremental digest over fast Mersenne hashing: `write` folds a byte
/// buffer through the stateful word mixer into the digest register, `finish`
/// reads the register out and clears it.
#[derive(Debug)]
pub struct CMHasher {
    /// The mixer state carried between the words written.
    pub state: u64,
    /// The digest register: the fold of the words of the last `write`,
    /// consumed by `finish`.
    pub data: u64,
}

impl CMHasher {
    /// Creates a new [`CMHasher`] with the default state and an empty digest
    /// register.
    pub fn new() -> (r: Self)
        ensures
            r.state == mix::DEFAULT_STATE,
            r.data == 0,
    {
        Self::with_state(mix::DEFAULT_STATE)
    }

    /// Creates a new [`CMHasher`] with the specified state.
    pub fn with_state(state: u64) -> (r: Self)
        ensures
            r.state == state,
            r.data == 0,
    {
        Self { state, data: 0 }
    }

    /// One stateful mixer step, advancing the carried state.
    fn hash(&mut self, val: u64) -> (r: u64)
        ensures
            r == mix_hash(val, old(self).state),
            final(self).state == mix_next_state(val, old(self).state),
            final(self).data == old(self).data,
    {
        let (hash, next) = mix(val, self.state);
        self.state = next;
        hash
    }

    /// Consumes the digest register: returns it and resets it to the empty
    /// value, so a second read without an intervening write yields zero.
    pub fn finish(&mut self) -> (r: u64)
        ensures
            r == old(self).data,
            final(self).data == 0,
            final(self).state == old(self).state,
    {
        let data = self.data;
        self.data = 0;
        data
    }

    /// Splits `bytes` into little-endian words of eight bytes, a shorter tail
    /// zero-padded on its high end, folds every word through the stateful
    /// mixer, and stores the xor of the hashes into the digest register,
    /// replacing any prior contents.
    pub fn write(&mut self, bytes: &[u8])
        ensures
            final(self).data == fold_mix(
                words_of_bytes(bytes@),
                old(self).state,
                words_of_bytes(bytes@).len(),
            ).0,
            final(self).state == fold_mix(
                words_of_bytes(bytes@),
                old(self).state,
                words_of_bytes(bytes@).len(),
            ).1,
    {
        let ghost words = words_of_bytes(bytes@);
        let ghost s0 = self.state;
        let n = bytes.len();
        let mut acc: u64 = 0;
        let mut i: usize = 0;
        let ghost mut k: nat = 0;
        while n - i >= 8
            invariant
                i <= n,
                n == bytes@.len(),
                i == 8 * k,
                k <= words.len(),
                words == words_of_bytes(bytes@),
                acc == fold_mix(words, s0, k).0,
                self.state == fold_mix(words, s0, k).1,
            decreases n - i,
        {
            let w = load_word_range(bytes, i, i + 8);
            proof {
                assert(words[k as int] == w);
            }
            let h = self.hash(w);
            acc = acc ^ h;
            i = i + 8;
            proof {
                k = k + 1;
            }
        }
        if i < n {
            let w = load_word_range(bytes, i, n);
            proof {
                assert(words[k as int] == w);
            }
            let h = self.hash(w);
            acc = acc ^ h;
            proof {
                k = k + 1;
            }
        }
        proof {
            assert(k == words.len());
        }
        self.data = acc;
    }

    /// The word-sized fast path: sets the digest register to the stateful
    /// hash of one word, bypassing the chunking of `write`.
    pub fn write_word(&mut self, val: u64)
        ensures
            final(self).data == mix_hash(val, old(self).state),
            final(self).state == mix_next_state(val, old(self).state),
    {
        let h = self.hash(val);
        self.data = h;
    }
}

impl Default for CMHasher {
    /// The default digest starts at the default state with an empty register.
    fn default() -> (r: Self)
        ensures
            r.state == mix::DEFAULT_STATE,
            r.data == 0,
    {
        Self::new()
    }
}

/// A builder that yields fresh, independent [`CMHasher`] instances.
#[derive(Debug)]
pub struct CMBuildHasher {}

impl CMBuildHasher {
    /// Creates a new [`CMBuildHasher`].
    pub fn new() -> Self {
        CMBuildHasher {}
    }

    /// Produces a fresh [`CMHasher`] with the default state.
    pub fn build_hasher(&self) -> (r: CMHasher)
        ensures
            r.state == mix::DEFAULT_STATE,
            r.data == 0,
    {
        CMHasher::new()
    }
}

/// An incremental digest without persistent mixer state: every word hashes
/// from the default state, so equal buffers always produce equal digests.
#[derive(Debug)]
pub struct StatelessHasher {
    /// The digest register: the fold of the words of the last `write`,
    /// consumed by `finish`.
    pub data: u64,
}

impl StatelessHasher {
    /// Creates a new [`StatelessHasher`] with an empty digest register.
    pub fn new() -> (r: Self)
        ensures
            r.data == 0,
    {
        Self { data: 0 }
    }

    /// The stateless hash of one word.
    fn hash(&self, val: u64) -> (r: u64)
        ensures
            r == stateless_hash(val),
    {
        let (hash, state) = mix(val, mix::DEFAULT_STATE);
        hash ^ state
    }

    /// Consumes the digest register: returns it and resets it to the empty
    /// value, so a second read without an intervening write yields zero.
    pub fn finish(&mut self) -> (r: u64)
        ensures
            r == old(self).data,
            final(self).data == 0,
    {
        let data = self.data;
        self.data = 0;
        data
    }

    /// Splits `bytes` into words exactly as [`CMHasher::write`] does, hashes
    /// every word statelessly, and stores the xor of the hashes into the
    /// digest register, replacing any prior contents.
    pub fn write(&mut self, bytes: &[u8])
        ensures
            final(self).data == fold_stateless(
                words_of_bytes(bytes@),
                words_of_bytes(bytes@).len(),
            ),
    {
        let ghost words = words_of_bytes(bytes@);
        let n = bytes.len();
        let mut acc: u64 = 0;
        let mut i: usize = 0;
        let ghost mut k: nat = 0;
        while n - i >= 8
            invariant
                i <= n,
                n == bytes@.len(),
                i == 8 * k,
                k <= words.len(),
                words == words_of_bytes(bytes@),
                acc == fold_stateless(words, k),
            decreases n - i,
        {
            let w = load_word_range(bytes, i, i + 8);
            proof {
                assert(words[k as int] == w);
            }
            let h = self.hash(w);
            acc = acc ^ h;
            i = i + 8;
            proof {
                k = k + 1;
            }
        }
        if i < n {
            let w = load_word_range(bytes, i, n);
            proof {
                assert(words[k as int] == w);
            }
            let h = self.hash(w);
            acc = acc ^ h;
            proof {
                k = k + 1;
            }
        }
        proof {
            assert(k == words.len());
        }
        self.data = acc;
    }

    /// The word-sized fast path: sets the digest register to the stateless
    /// hash of one word, bypassing the chunking of `write`.
    pub fn write_word(&mut self, val: u64)
        ensures
            final(self).data == stateless_hash(val),
    {
        let h = self.hash(val);
        self.data = h;
    }
}

impl Default for StatelessHasher {
    /// The default digest starts with an empty register.
    fn default() -> (r: Self)
        ensures
            r.data == 0,
    {
        Self::new()
    }
}

/// A builder that yields fresh, independent [`StatelessHasher`] instances.
#[derive(Debug)]
pub struct StatelessBuildHasher;

impl StatelessBuildHasher {
    /// Creates a new [`StatelessBuildHasher`].
    pub fn new() -> Self {
        StatelessBuildHasher
    }

    /// Produces a fresh [`StatelessHasher`] with an empty digest register.
    pub fn build_hasher(&self) -> (r: StatelessHasher)
        ensures
            r.data == 0,
    {
        StatelessHasher::new()
    }
}

} // verus!
