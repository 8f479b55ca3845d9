//! Tests of the byte-stream digest adapters and their builders.

use cmhash::hasher::{CMBuildHasher, CMHasher, StatelessBuildHasher, StatelessHasher};
use cmhash::TLCoreHasher;

#[test]
fn hasherimpl() {
    let mut hasher = CMHasher::new();
    hasher.write(b"Hello, World!");
    let hash1 = hasher.finish();
    hasher.write(b"Hello, World!");
    let hash2 = hasher.finish();
    //Because the hasher state persists, the two hashes cannot be the same
    assert_ne!(hash1, hash2)
}

#[test]
fn statelesshasher() {
    let mut h = StatelessHasher::new();
    let s = b"Hello, World";
    h.write(s);
    let hash1 = h.finish();
    h.write(s);
    let hash2 = h.finish();
    assert_eq!(hash1, hash2);
}

#[test]
fn buildhashers() {
    let builder = CMBuildHasher::new();
    let val = b"Lorem ipsum dolor sit amet";
    let hash1 = {
        let mut h = builder.build_hasher();
        h.write(val);
        h.finish()
    };
    let hash2 = {
        let mut h = builder.build_hasher();
        h.write(val);
        h.finish()
    };
    assert_eq!(hash1, hash2)
}

#[test]
fn stateless_buildhasher() {
    let builder = StatelessBuildHasher::new();
    let val = b"Lorem ipsum dolor sit amet";
    let mut h1 = builder.build_hasher();
    h1.write(val);
    let mut h2 = builder.build_hasher();
    h2.write(val);
    assert_eq!(h1.finish(), h2.finish());
}

#[test]
fn finish_consumes() {
    let mut h = CMHasher::new();
    h.write(b"some bytes");
    let first = h.finish();
    assert_ne!(first, 0);
    // A second read without an intervening write yields the empty value.
    assert_eq!(h.finish(), 0);
    let mut s = StatelessHasher::new();
    s.write(b"some bytes");
    s.finish();
    assert_eq!(s.finish(), 0);
}

#[test]
fn write_overwrites() {
    // Repeated writes replace the register; they do not accumulate across
    // calls. The state, though, has advanced, so replay the fold on a hasher
    // in the matching state.
    let mut h = CMHasher::new();
    h.write(b"first buffer");
    h.write(b"second buffer");
    let digest = h.finish();
    let mut pre = CMHasher::new();
    pre.write(b"first buffer");
    let mut reference = CMHasher::with_state(pre.state);
    reference.write(b"second buffer");
    assert_eq!(digest, reference.finish());
}

#[test]
fn write_word_fast_path() {
    // The word fast path equals one stateful mixer step from the same state.
    let val: u64 = 0x1234_5678_9ABC_DEF0;
    let mut h = CMHasher::new();
    h.write_word(val);
    let mut m = TLCoreHasher::new();
    assert_eq!(h.finish(), m.hash_word(val));
    let mut s = StatelessHasher::new();
    s.write_word(val);
    assert_eq!(s.finish(), cmhash::hash_word_stateless(val));
}

#[test]
fn stateless_write_matches_stateless_words() {
    // Each chunk hashes from the default state: the digest is the xor of the
    // stateless hashes of the words.
    let buf = *b"Hello, World!";
    let w0 = u64::from_le_bytes(*b"Hello, W");
    let w1 = u64::from_le_bytes([b'o', b'r', b'l', b'd', b'!', 0, 0, 0]);
    let mut h = StatelessHasher::new();
    h.write(&buf);
    let expected = cmhash::hash_word_stateless(w0) ^ cmhash::hash_word_stateless(w1);
    assert_eq!(h.finish(), expected);
}

#[test]
fn cm_write_matches_hash_bytes() {
    // The stateful digest adapter folds exactly as the word hasher's
    // hash_bytes does.
    let buf = *b"Lorem ipsum dolor sit amet";
    let mut h = CMHasher::new();
    h.write(&buf);
    let mut m = TLCoreHasher::new();
    assert_eq!(h.finish(), m.hash_bytes(&buf));
    assert_eq!(h.state, m.get_state());
}

#[test]
fn default_adapters_empty() {
    let mut h = CMHasher::default();
    assert_eq!(h.finish(), 0);
    let mut s = StatelessHasher::default();
    assert_eq!(s.finish(), 0);
}
