//! The tiktoken-rs backed exact counters.

use simd_tokenizer::{TiktokenCounter, TokenCounter};

#[test]
fn test_tiktoken_empty() {
    let t = TiktokenCounter::new().expect("tiktoken init");
    assert_eq!(t.count(""), 0);
}

#[test]
fn test_tiktoken_hello() {
    let t = TiktokenCounter::new().expect("tiktoken init");
    let c = t.count("hello world");
    assert!(c >= 2, "expected >= 2, got {c}");
}

#[test]
fn test_tiktoken_code() {
    let t = TiktokenCounter::new().expect("tiktoken init");
    let code = r#"fn main() { println!("Hello"); }"#;
    let c = t.count(code);
    assert!(c >= 5, "expected >= 5, got {c}");
}

#[test]
fn tiktoken_backend_test_backend_name() {
    let t = TiktokenCounter::new().expect("tiktoken init");
    assert_eq!(t.backend_name(), "tiktoken(cl100k_base)");
}

#[test]
fn test_deterministic() {
    let t = TiktokenCounter::new().expect("tiktoken init");
    let text = "The quick brown fox jumps over the lazy dog.";
    assert_eq!(t.count(text), t.count(text));
}

#[test]
fn test_o200k_empty() {
    let t = TiktokenCounter::o200k().expect("o200k init");
    assert_eq!(t.count(""), 0);
}

#[test]
fn test_o200k_known_counts() {
    // Exact counts pinned against tiktoken-rs 0.12 o200k_base.
    let t = TiktokenCounter::o200k().expect("o200k init");
    assert_eq!(t.count("hello world"), 2);
    assert_eq!(t.count("Hello, world!"), 4);
    assert_eq!(t.count("The quick brown fox jumps over the lazy dog."), 10);
    assert_eq!(t.count(r#"fn main() { println!("Hello"); }"#), 9);
}

#[test]
fn test_o200k_backend_name() {
    let t = TiktokenCounter::o200k().expect("o200k init");
    assert_eq!(t.backend_name(), "tiktoken(o200k_base)");
}

#[test]
fn test_o200k_monotone_in_length() {
    let t = TiktokenCounter::o200k().expect("o200k init");
    let mut text = String::from("hello world");
    let mut prev = t.count(&text);
    for word in ["and", "the", "rest", "of", "the", "corpus", "follows"] {
        text.push(' ');
        text.push_str(word);
        let now = t.count(&text);
        assert!(now >= prev, "count decreased after append: {prev} -> {now}");
        prev = now;
    }
}

#[test]
fn test_o200k_special_token_string_is_ordinary() {
    // `<|endoftext|>` is counted as plain text (7 tokens), not as the
    // single special token.
    let t = TiktokenCounter::o200k().expect("o200k init");
    assert_eq!(t.count("<|endoftext|>"), 7);
}

#[test]
fn test_o200k_differs_from_cl100k_on_emoji_and_multilingual() {
    let cl = TiktokenCounter::new().expect("cl100k init");
    let o2 = TiktokenCounter::o200k().expect("o200k init");
    for text in ["🌍", "hello 🌍 world", "こんにちは世界", "Привет, мир!"] {
        assert_ne!(
            cl.count(text),
            o2.count(text),
            "cl100k and o200k unexpectedly agree on {text:?}"
        );
    }
}

#[test]
fn test_o200k_deterministic() {
    let t = TiktokenCounter::o200k().expect("o200k init");
    let text = "こんにちは世界 🌍 Привет";
    assert_eq!(t.count(text), t.count(text));
}

#[test]
fn test_o200k_debug_does_not_panic() {
    let t = TiktokenCounter::o200k().expect("o200k init");
    let rendered = t.debug_repr();
    assert!(rendered.contains("o200k"));
}
