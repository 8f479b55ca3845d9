//! Model-checked exercise of the concurrent hasher: two threads hashing
//! through one shared instance must complete without crashing, whatever the
//! interleaving.

use cmhash::CoreHasher;

//Mostly to make sure CoreHasher is properly thread-safe, don't know what to assert?
#[test]
fn loomtest() {
    loom::model(|| {
        let hash1 = loom::sync::Arc::new(CoreHasher::new());
        let hash2 = hash1.clone();

        let t1 = loom::thread::spawn(move || {
            let val: u64 = 0xDEADBEEF;
            for _ in 0..3 {
                hash1.hash_word(val);
            }
        });

        let t2 = loom::thread::spawn(move || {
            let val: u64 = 0xDEADBEEF;
            for _ in 0..3 {
                hash2.hash_word(val);
            }
        });

        t1.join().unwrap();
        t2.join().unwrap();
    })
}
