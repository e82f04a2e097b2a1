//! Exact token counting with the `cl100k_base` and `o200k_base` BPE
//! encodings of tiktoken-rs, behind the [`TokenCounter`] interface.

use vstd::prelude::*;
use vstd::string::StringExecFns;

use crate::TokenCounter;

verus! {

#[verifier::external_type_specification]
#[verifier::external_body]
pub struct ExCoreBPE(tiktoken_rs::CoreBPE);

/// The BPE vocabularies this crate can load.
#[derive(Clone, Copy, Debug, PartialEq, Eq, Structural)]
pub enum TiktokenEncoding {
    /// `cl100k_base` (GPT-4 / ChatGPT).
    Cl100kBase,
    /// `o200k_base` (GPT-4o / o-series).
    O200kBase,
}

/// What `CoreBPE::encode` with no special token allowed gives for `text`
/// under the given encoding's vocabulary and split pattern: the token ranks
/// of the ordinary encoding (special-token strings encoded as ordinary
/// text), or `None` where the split pattern's regex engine reports an error
/// (its stack or backtrack limit).
pub uninterp spec fn ordinary_encoding(encoding: TiktokenEncoding, text: Seq<char>) -> Option<
    Seq<u32>,
>;

/// The backend name reported for an encoding.
pub open spec fn encoding_backend_name(encoding: TiktokenEncoding) -> Seq<char> {
    match encoding {
        TiktokenEncoding::Cl100kBase => "tiktoken(cl100k_base)"@,
        TiktokenEncoding::O200kBase => "tiktoken(o200k_base)"@,
    }
}

/// Error returned when a tiktoken encoding cannot be initialised; it holds
/// the loader's own error text.
#[derive(Debug)]
pub struct TiktokenError(String);

impl TiktokenError {
    /// Wrap a loader error text.
    pub fn new(message: String) -> (e: Self)
        ensures
            e.spec_message() == message@,
    {
        TiktokenError(message)
    }

    /// The loader error text this error carries.
    pub closed spec fn spec_message(&self) -> Seq<char> {
        self.0@
    }

    /// The loader error text this error carries.
    pub fn message(&self) -> (m: &str)
        ensures
            m@ == self.spec_message(),
    {
        self.0.as_str()
    }

    /// The error's display text:
    /// `failed to initialise tiktoken encoding: <loader error text>`.
    pub fn display_text(&self) -> (s: String)
        ensures
            s@ == "failed to initialise tiktoken encoding: "@ + self.spec_message(),
    {
        let mut s = "failed to initialise tiktoken encoding: ".to_owned();
        s.append(self.0.as_str());
        s
    }
}

/// Exact token counter backed by tiktoken-rs.
///
/// The vocabulary held in `bpe` is always the one `encoding` names: the
/// fields are private and only `new` and `o200k` build a counter, each with
/// the loader of its own encoding.
pub struct TiktokenCounter {
    bpe: tiktoken_rs::CoreBPE,
    encoding: TiktokenEncoding,
}

/// `tiktoken_rs::cl100k_base`: builds the `cl100k_base` BPE from the
/// vocabulary embedded in tiktoken-rs and returns it as a counter tagged
/// `Cl100kBase`, so a counter's tag always names the table it holds. The
/// embedded table is well formed and the split pattern compiles, so the
/// load succeeds; an error would be returned as its display text.
#[verifier::external_body]
fn load_cl100k_base() -> (r: Result<TiktokenCounter, String>)
    ensures
        r is Ok,
        r.unwrap().encoding == TiktokenEncoding::Cl100kBase,
{
    match tiktoken_rs::cl100k_base() {
        Ok(bpe) => Ok(TiktokenCounter { bpe, encoding: TiktokenEncoding::Cl100kBase }),
        Err(e) => Err(e.to_string()),
    }
}

/// `tiktoken_rs::o200k_base`: builds the `o200k_base` BPE from the
/// vocabulary embedded in tiktoken-rs and returns it as a counter tagged
/// `O200kBase`, so a counter's tag always names the table it holds. The
/// embedded table is well formed and the split pattern compiles, so the
/// load succeeds; an error would be returned as its display text.
#[verifier::external_body]
fn load_o200k_base() -> (r: Result<TiktokenCounter, String>)
    ensures
        r is Ok,
        r.unwrap().encoding == TiktokenEncoding::O200kBase,
{
    match tiktoken_rs::o200k_base() {
        Ok(bpe) => Ok(TiktokenCounter { bpe, encoding: TiktokenEncoding::O200kBase }),
        Err(e) => Err(e.to_string()),
    }
}

/// `CoreBPE::encode` with an empty set of allowed special tokens, on the
/// counter's vocabulary: the ordinary encoding of `text`, with a regex
/// engine error reported as `None` instead of a panic. The result is the
/// one that `ordinary_encoding` names for the counter's encoding and text.
/// Every alternative of both split patterns matches at least one
/// character, and every character is matched by one of them, so the empty
/// text gives no token and any other text that encodes gives at least one.
#[verifier::external_body]
fn encode_without_specials(counter: &TiktokenCounter, text: &str) -> (tokens: Option<Vec<u32>>)
    ensures
        ordinary_encoding(counter.encoding, text@) == match tokens {
            Some(t) => Some(t@),
            None => None,
        },
        text@.len() == 0 ==> tokens is Some && tokens.unwrap()@.len() == 0,
        text@.len() > 0 && tokens is Some ==> tokens.unwrap()@.len() >= 1,
{
    match counter.bpe.encode(text, &std::collections::HashSet::new()) {
        Ok((tokens, _)) => Some(tokens),
        Err(_) => None,
    }
}

impl TiktokenCounter {
    /// The encoding whose vocabulary this counter holds.
    pub closed spec fn spec_encoding(&self) -> TiktokenEncoding {
        self.encoding
    }

    /// The encoding whose vocabulary this counter holds.
    pub fn encoding(&self) -> (e: TiktokenEncoding)
        ensures
            e == self.spec_encoding(),
    {
        self.encoding
    }

    /// Initialise with the `cl100k_base` encoding (GPT-4 / ChatGPT).
    pub fn new() -> (r: Result<Self, TiktokenError>)
        ensures
            r matches Ok(c) && c.spec_encoding() == TiktokenEncoding::Cl100kBase,
    {
        Self::from_encoding(load_cl100k_base())
    }

    /// Initialise with the `o200k_base` encoding (GPT-4o / o-series).
    pub fn o200k() -> (r: Result<Self, TiktokenError>)
        ensures
            r matches Ok(c) && c.spec_encoding() == TiktokenEncoding::O200kBase,
    {
        Self::from_encoding(load_o200k_base())
    }

    /// Shared constructor: `init` is the result of an encoding's loader; a
    /// loaded counter is kept, a loader error becomes a `TiktokenError`
    /// carrying its text.
    fn from_encoding(init: Result<TiktokenCounter, String>) -> (r: Result<Self, TiktokenError>)
        ensures
            match (init, r) {
                (Ok(c0), Ok(c)) => c == c0,
                (Err(m), Err(e)) => e.spec_message() == m@,
                _ => false,
            },
    {
        match init {
            Ok(counter) => Ok(counter),
            Err(message) => Err(TiktokenError(message)),
        }
    }

    /// The ordinary-encoding token count of `text`, or `None` where the
    /// split pattern's regex engine gives up on it.
    pub fn try_count(&self, text: &str) -> (r: Option<usize>)
        ensures
            match r {
                Some(n) => self.spec_admits(text@) && n == self.spec_count(text@),
                None => !self.spec_admits(text@),
            },
            text@.len() == 0 ==> r == Some(0usize),
            text@.len() > 0 && r is Some ==> r.unwrap() >= 1,
    {
        match encode_without_specials(self, text) {
            Some(tokens) => Some(tokens.len()),
            None => None,
        }
    }

    /// A debugging rendering: `TiktokenCounter { backend: "<name>", .. }`.
    pub fn debug_repr(&self) -> (s: String)
        ensures
            s@ == "TiktokenCounter { backend: \""@ + encoding_backend_name(self.spec_encoding())
                + "\", .. }"@,
    {
        let mut s = "TiktokenCounter { backend: \"".to_owned();
        s.append(self.backend_name());
        s.append("\", .. }");
        s
    }
}

impl TokenCounter for TiktokenCounter {
    open spec fn spec_count(&self, text: Seq<char>) -> nat {
        ordinary_encoding(self.spec_encoding(), text).unwrap().len()
    }

    open spec fn spec_backend_name(&self) -> Seq<char> {
        encoding_backend_name(self.spec_encoding())
    }

    open spec fn spec_admits(&self, text: Seq<char>) -> bool {
        ordinary_encoding(self.spec_encoding(), text) is Some
    }

    /// Exact token count of the ordinary encoding (special-token strings
    /// count as ordinary text).
    fn count(&self, text: &str) -> (n: usize)
        ensures
            text@.len() == 0 ==> n == 0,
            text@.len() > 0 ==> n >= 1,
    {
        match encode_without_specials(self, text) {
            Some(tokens) => tokens.len(),
            // not reached: `count` admits only texts that encode
            None => 0,
        }
    }

    fn backend_name(&self) -> (name: &'static str) {
        match self.encoding {
            TiktokenEncoding::Cl100kBase => "tiktoken(cl100k_base)",
            TiktokenEncoding::O200kBase => "tiktoken(o200k_base)",
        }
    }
}

/// A tiktoken counter counts the whole text: its count is the number of
/// tokens in the ordinary encoding of all of `text` under its vocabulary,
/// and it admits exactly the texts whose ordinary encoding succeeds.
pub proof fn lemma_tiktoken_counts_ordinary_tokens(t: TiktokenCounter, text: Seq<char>)
    ensures
        t.spec_admits(text) == (ordinary_encoding(t.spec_encoding(), text) is Some),
        ordinary_encoding(t.spec_encoding(), text) is Some ==> t.spec_count(text)
            == ordinary_encoding(t.spec_encoding(), text).unwrap().len(),
{
}

} // verus!
