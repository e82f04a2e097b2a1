//! Whitespace-run token estimation with a SWAR byte scanner, proved
//! against a byte-level model of "maximal runs of non-whitespace bytes".

use vstd::prelude::*;

pub mod lanes;
pub mod swar;
pub mod tiktoken_backend;

pub use swar::{scalar_count_splits, SimdWhitespaceTokenizer};
pub use tiktoken_backend::{TiktokenCounter, TiktokenEncoding, TiktokenError};
use tiktoken_backend::{lemma_tiktoken_counts_ordinary_tokens, ordinary_encoding};


verus! {

/// Abstraction over token counting backends.
pub trait TokenCounter: Send + Sync {
    /// The count that `count` returns for a text with the given characters.
    spec fn spec_count(&self, text: Seq<char>) -> nat;

    /// The name that `backend_name` returns.
    spec fn spec_backend_name(&self) -> Seq<char>;

    /// The texts that this backend counts without failing.
    spec fn spec_admits(&self, text: Seq<char>) -> bool;

    /// Return an estimated (or exact) token count for `text`.
    fn count(&self, text: &str) -> (n: usize)
        requires
            self.spec_admits(text@),
        ensures
            n == self.spec_count(text@),
    ;

    /// Return a human-readable name for this backend.
    fn backend_name(&self) -> (name: &'static str)
        ensures
            name@ == self.spec_backend_name(),
    ;
}

/// The "one token per ~40 bytes" punctuation overhead, at least 1.
pub open spec fn punct_overhead(byte_len: nat) -> nat {
    if byte_len / 40 >= 1 { byte_len / 40 } else { 1 }
}

/// The "~4 bytes per token" estimate: `byte_len / 4` rounded up.
pub open spec fn char_based(byte_len: nat) -> nat {
    (byte_len + 3) / 4
}

/// Blend of the split count, the punctuation overhead and the character
/// based estimate; zero exactly when there are no splits.
pub open spec fn estimate_tokens(splits: nat, byte_len: nat) -> nat {
    if splits == 0 {
        0
    } else {
        let blended = (splits + punct_overhead(byte_len) + char_based(byte_len)) / 2;
        if blended >= 1 { blended } else { 1 }
    }
}

/// Estimate a BPE-approximate token count from whitespace split statistics.
///
/// Averages the word count, a punctuation overhead of one token per 40
/// bytes (at least one) and a ~4 bytes/token character estimate; no splits
/// means no tokens.
pub fn estimate_from_whitespace_splits(splits: usize, byte_len: usize) -> (est: usize)
    ensures
        est == estimate_tokens(splits as nat, byte_len as nat),
{
    if splits == 0 {
        return 0;
    }
    let word_tokens = splits;
    let punct_overhead = (byte_len / 40).max(1);
    let char_based = if byte_len % 4 == 0 { byte_len / 4 } else { byte_len / 4 + 1 };
    // Weighted blend of both estimates: the halves are added separately so
    // that no intermediate sum exceeds `usize::MAX`.
    let overheads = punct_overhead + char_based;
    let carry = (word_tokens % 2 + overheads % 2) / 2;
    let blended = word_tokens / 2 + overheads / 2 + carry;
    blended.max(1)
}

/// Enum that dispatches to a token counter: exact tiktoken counting or the
/// SWAR whitespace estimate.
pub enum TokenEstimator {
    /// Exact counting via tiktoken-rs.
    Tiktoken(TiktokenCounter),
    /// Fast SWAR-accelerated approximation.
    Simd(SimdWhitespaceTokenizer),
}

impl TokenEstimator {
    /// Create the best estimator available: exact `cl100k_base` counting.
    pub fn new() -> (e: Self)
        ensures
            e matches TokenEstimator::Tiktoken(t) && t.spec_encoding()
                == TiktokenEncoding::Cl100kBase,
    {
        Self::prefer_tiktoken(TiktokenCounter::new())
    }

    /// The backend choice of [`TokenEstimator::new`] for a given outcome of
    /// loading the `cl100k_base` counter. The embedded table always loads,
    /// so from `new` only the `Ok` branch is reached; the whitespace
    /// estimator is the answer to a load error handed in by a caller.
    pub fn prefer_tiktoken(loaded: Result<TiktokenCounter, TiktokenError>) -> (e: Self)
        ensures
            match loaded {
                Ok(t) => e == TokenEstimator::Tiktoken(t),
                Err(_) => e is Simd,
            },
    {
        match loaded {
            Ok(t) => TokenEstimator::Tiktoken(t),
            Err(_) => TokenEstimator::Simd(SimdWhitespaceTokenizer::new()),
        }
    }

    /// Fallibly construct the `cl100k_base`-backed estimator.
    pub fn try_new_tiktoken() -> (r: Result<Self, TiktokenError>)
        ensures
            r matches Ok(e) && (e matches TokenEstimator::Tiktoken(t) && t.spec_encoding()
                == TiktokenEncoding::Cl100kBase),
    {
        match TiktokenCounter::new() {
            Ok(t) => Ok(TokenEstimator::Tiktoken(t)),
            Err(err) => Err(err),
        }
    }

    /// Fallibly construct the `o200k_base`-backed estimator.
    pub fn try_new_tiktoken_o200k() -> (r: Result<Self, TiktokenError>)
        ensures
            r matches Ok(e) && (e matches TokenEstimator::Tiktoken(t) && t.spec_encoding()
                == TiktokenEncoding::O200kBase),
    {
        match TiktokenCounter::o200k() {
            Ok(t) => Ok(TokenEstimator::Tiktoken(t)),
            Err(err) => Err(err),
        }
    }
}

impl TokenEstimator {
    /// Count `text` when the backend admits it, `None` when it does not.
    pub fn try_count(&self, text: &str) -> (r: Option<usize>)
        ensures
            match r {
                Some(n) => self.spec_admits(text@) && n == self.spec_count(text@),
                None => !self.spec_admits(text@),
            },
    {
        match self {
            TokenEstimator::Tiktoken(t) => t.try_count(text),
            TokenEstimator::Simd(s) => Some(s.count(text)),
        }
    }
}

impl Default for TokenEstimator {
    fn default() -> (e: Self)
        ensures
            e matches TokenEstimator::Tiktoken(t) && t.spec_encoding()
                == TiktokenEncoding::Cl100kBase,
    {
        Self::new()
    }
}

impl TokenCounter for TokenEstimator {
    open spec fn spec_count(&self, text: Seq<char>) -> nat {
        match self {
            TokenEstimator::Tiktoken(t) => t.spec_count(text),
            TokenEstimator::Simd(s) => s.spec_count(text),
        }
    }

    open spec fn spec_backend_name(&self) -> Seq<char> {
        match self {
            TokenEstimator::Tiktoken(t) => t.spec_backend_name(),
            TokenEstimator::Simd(s) => s.spec_backend_name(),
        }
    }

    open spec fn spec_admits(&self, text: Seq<char>) -> bool {
        match self {
            TokenEstimator::Tiktoken(t) => t.spec_admits(text),
            TokenEstimator::Simd(s) => s.spec_admits(text),
        }
    }

    fn count(&self, text: &str) -> (n: usize) {
        match self {
            TokenEstimator::Tiktoken(t) => t.count(text),
            TokenEstimator::Simd(s) => s.count(text),
        }
    }

    fn backend_name(&self) -> (name: &'static str) {
        match self {
            TokenEstimator::Tiktoken(t) => t.backend_name(),
            TokenEstimator::Simd(s) => s.backend_name(),
        }
    }
}

/// An estimator answers exactly as the counter it holds: the same count and
/// the same admitted texts, for every text.
pub proof fn lemma_estimator_delegates(e: TokenEstimator, text: Seq<char>)
    ensures
        e matches TokenEstimator::Tiktoken(t) ==> e.spec_count(text) == t.spec_count(text)
            && e.spec_admits(text) == t.spec_admits(text) && e.spec_backend_name()
            == t.spec_backend_name(),
        e matches TokenEstimator::Simd(s) ==> e.spec_count(text) == s.spec_count(text)
            && e.spec_admits(text) == s.spec_admits(text) && e.spec_backend_name()
            == s.spec_backend_name(),
{
}

/// An estimator holding a tiktoken counter counts a text as the length of
/// the whole text's ordinary encoding under that counter's vocabulary, and
/// admits exactly the texts that encode.
pub proof fn lemma_tiktoken_estimator_counts_ordinary_tokens(t: TiktokenCounter, text: Seq<char>)
    ensures
        TokenEstimator::Tiktoken(t).spec_admits(text) == (ordinary_encoding(t.spec_encoding(), text) is Some),
        ordinary_encoding(t.spec_encoding(), text) is Some ==> TokenEstimator::Tiktoken(t).spec_count(
            text,
        ) == ordinary_encoding(t.spec_encoding(), text).unwrap().len(),
{
    lemma_tiktoken_counts_ordinary_tokens(t, text);
}

/// The blended estimate never decreases when the split count or the byte
/// length grows.
pub proof fn lemma_estimate_monotone(splits1: nat, len1: nat, splits2: nat, len2: nat)
    requires
        splits1 <= splits2,
        len1 <= len2,
    ensures
        estimate_tokens(splits1, len1) <= estimate_tokens(splits2, len2),
{
    assert(punct_overhead(len1) <= punct_overhead(len2));
    assert(char_based(len1) <= char_based(len2));
}

/// No splits estimate zero tokens; any split estimates at least one.
pub proof fn lemma_estimate_zero_iff_no_splits(splits: nat, byte_len: nat)
    ensures
        (estimate_tokens(splits, byte_len) == 0) == (splits == 0),
        splits >= 1 ==> estimate_tokens(splits, byte_len) >= 1,
{
}

} // verus!
