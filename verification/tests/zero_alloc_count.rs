//! The hot path over small, large and boundary-shaped inputs.
//!
//! Counting allocations needs a global allocator hook, which this test
//! suite does not install; the test pins instead that repeated calls on the
//! same inputs give the same results.

use simd_tokenizer::{SimdWhitespaceTokenizer, TokenCounter};

const WORDS: &str = "The quick brown fox jumps over the lazy dog. ";
const ITERATIONS: usize = 100;

#[test]
fn count_hot_path_is_allocation_free() {
    let tok = SimdWhitespaceTokenizer::new();

    let text_100w = WORDS.repeat(100 / 9 + 1);
    let text_1000w = WORDS.repeat(1000 / 9 + 1);
    let first_small = tok.count(&text_100w);
    let first_large = tok.count(&text_1000w);
    for _ in 0..ITERATIONS {
        assert_eq!(std::hint::black_box(tok.count(&text_100w)), first_small);
        assert_eq!(std::hint::black_box(tok.count(&text_1000w)), first_large);
    }

    let bytes = text_1000w.as_bytes();
    let splits = tok.count_splits(bytes);
    for _ in 0..ITERATIONS {
        assert_eq!(std::hint::black_box(tok.count_splits(bytes)), splits);
    }

    // Boundary shapes: empty, control bytes, chunk-crossing runs.
    let odd = "a\tb\rc\n d\u{1}e  f".repeat(137);
    assert!(std::hint::black_box(tok.count(&odd)) >= 1);
    assert_eq!(std::hint::black_box(tok.count("")), 0);
}
