//! Whitespace-run counting over bytes: the scalar reference scanner and the
//! SWAR scanner that classifies eight bytes per step inside a `u64`.

use vstd::prelude::*;

use crate::lanes::{bit_count, count_ones_u64, lane, lemma_bit_count_flags};
use crate::{estimate_from_whitespace_splits, estimate_tokens, lemma_estimate_monotone, TokenCounter};
use vstd::utf8::{encode_scalar, encode_utf8};

verus! {

/// A byte separates words when it is at most `0x20` (space, tab, newline,
/// carriage return and every other C0 control byte).
pub open spec fn is_ws(b: u8) -> bool {
    b <= 0x20
}

/// Index `i` holds the first byte of a maximal run of non-whitespace bytes.
pub open spec fn is_run_start(s: Seq<u8>, i: int) -> bool {
    &&& 0 <= i < s.len()
    &&& !is_ws(s[i])
    &&& (i == 0 || is_ws(s[i - 1]))
}

/// Index `i` holds the last byte of a maximal run of non-whitespace bytes.
pub open spec fn is_run_end(s: Seq<u8>, i: int) -> bool {
    &&& 0 <= i < s.len()
    &&& !is_ws(s[i])
    &&& (i == s.len() - 1 || is_ws(s[i + 1]))
}

/// Number of run starts among the indices `0 .. n`.
pub open spec fn run_starts_before(s: Seq<u8>, n: int) -> nat
    decreases n,
{
    if n <= 0 {
        0
    } else {
        run_starts_before(s, n - 1) + if is_run_start(s, n - 1) { 1nat } else { 0nat }
    }
}

/// Number of run ends among the indices `0 .. n`.
pub open spec fn run_ends_before(s: Seq<u8>, n: int) -> nat
    decreases n,
{
    if n <= 0 {
        0
    } else {
        run_ends_before(s, n - 1) + if is_run_end(s, n - 1) { 1nat } else { 0nat }
    }
}

/// Number of maximal non-whitespace runs of `s`, counted by their first byte.
pub open spec fn run_starts(s: Seq<u8>) -> nat {
    run_starts_before(s, s.len() as int)
}

/// Number of maximal non-whitespace runs of `s`, counted by their last byte.
pub open spec fn run_ends(s: Seq<u8>) -> nat {
    run_ends_before(s, s.len() as int)
}

/// A run that covers both index `n - 1` and index `n` is still open at `n`.
spec fn run_open_at(s: Seq<u8>, n: int) -> bool {
    0 < n < s.len() && !is_ws(s[n - 1]) && !is_ws(s[n])
}

proof fn lemma_starts_ends_prefix(s: Seq<u8>, n: int)
    requires
        0 <= n <= s.len(),
    ensures
        run_starts_before(s, n) == run_ends_before(s, n) + if run_open_at(s, n) { 1nat } else { 0nat },
    decreases n,
{
    if n > 0 {
        lemma_starts_ends_prefix(s, n - 1);
    }
}

/// Counting the runs of a byte string by their first bytes and by their
/// last bytes gives the same number: the SWAR scanner and the scalar
/// reference agree on every input.
pub proof fn lemma_run_starts_eq_run_ends(s: Seq<u8>)
    ensures
        run_starts(s) == run_ends(s),
{
    lemma_starts_ends_prefix(s, s.len() as int);
}

proof fn lemma_run_starts_before_bound(s: Seq<u8>, n: int)
    requires
        0 <= n <= s.len(),
    ensures
        2 * run_starts_before(s, n) <= n + if n > 0 && !is_ws(s[n - 1]) { 1int } else { 0int },
    decreases n,
{
    if n > 0 {
        lemma_run_starts_before_bound(s, n - 1);
    }
}

/// A byte string of length `n` holds at most `(n + 1) / 2` runs: every run
/// after the first is preceded by a whitespace byte.
pub proof fn lemma_run_starts_bound(s: Seq<u8>)
    ensures
        2 * run_starts(s) <= s.len() + 1,
{
    lemma_run_starts_before_bound(s, s.len() as int);
}


proof fn lemma_run_starts_before_monotone(s: Seq<u8>, m: int, n: int)
    requires
        0 <= m <= n,
    ensures
        run_starts_before(s, m) <= run_starts_before(s, n),
    decreases n - m,
{
    if m < n {
        lemma_run_starts_before_monotone(s, m, n - 1);
    }
}

proof fn lemma_run_starts_before_prefix(a: Seq<u8>, b: Seq<u8>, n: int)
    requires
        0 <= n <= a.len(),
    ensures
        run_starts_before(a + b, n) == run_starts_before(a, n),
    decreases n,
{
    if n > 0 {
        lemma_run_starts_before_prefix(a, b, n - 1);
        assert((a + b)[n - 1] == a[n - 1]);
        if n >= 2 {
            assert((a + b)[n - 2] == a[n - 2]);
        }
    }
}

/// Appending bytes never removes a run: the runs of `a` stay runs of `a + b`.
pub proof fn lemma_run_starts_append(a: Seq<u8>, b: Seq<u8>)
    ensures
        run_starts(a) <= run_starts(a + b),
{
    lemma_run_starts_before_prefix(a, b, a.len() as int);
    lemma_run_starts_before_monotone(a + b, a.len() as int, (a + b).len() as int);
}

/// The last byte of `a` and the first byte of `b` are both non-whitespace,
/// so one run of `a + b` spans the seam.
pub open spec fn joins_runs(a: Seq<u8>, b: Seq<u8>) -> bool {
    a.len() > 0 && b.len() > 0 && !is_ws(a[a.len() - 1]) && !is_ws(b[0])
}

proof fn lemma_run_starts_before_concat(a: Seq<u8>, b: Seq<u8>, n: int)
    requires
        0 <= n <= b.len(),
    ensures
        run_starts_before(a + b, a.len() + n) + (if n >= 1 && joins_runs(a, b) { 1int } else { 0int })
            == run_starts(a) + run_starts_before(b, n),
    decreases n,
{
    if n == 0 {
        lemma_run_starts_before_prefix(a, b, a.len() as int);
    } else {
        lemma_run_starts_before_concat(a, b, n - 1);
        assert((a + b)[a.len() + n - 1] == b[n - 1]);
        if n >= 2 {
            assert((a + b)[a.len() + n - 2] == b[n - 2]);
        } else if a.len() > 0 {
            assert((a + b)[a.len() - 1] == a[a.len() - 1]);
        }
    }
}

/// The runs of `a + b` are those of `a` and those of `b`, less one where a
/// run of `a` and a run of `b` meet at the seam and merge.
pub proof fn lemma_run_starts_concat(a: Seq<u8>, b: Seq<u8>)
    ensures
        run_starts(a + b) + (if joins_runs(a, b) { 1int } else { 0int }) == run_starts(a)
            + run_starts(b),
{
    lemma_run_starts_before_concat(a, b, b.len() as int);
    assert((a + b).len() == a.len() + b.len());
}

/// The scalar count of `a + b` (runs counted by their last byte) is the
/// count of `a` plus the count of `b`, less one where the seam joins two
/// runs.
pub proof fn lemma_run_ends_concat(a: Seq<u8>, b: Seq<u8>)
    ensures
        run_ends(a + b) + (if joins_runs(a, b) { 1int } else { 0int }) == run_ends(a) + run_ends(b),
{
    lemma_run_starts_concat(a, b);
    lemma_run_starts_eq_run_ends(a);
    lemma_run_starts_eq_run_ends(b);
    lemma_run_starts_eq_run_ends(a + b);
}

proof fn lemma_run_starts_before_zero(s: Seq<u8>, n: int)
    requires
        0 <= n <= s.len(),
    ensures
        (run_starts_before(s, n) == 0) == (forall|i: int| 0 <= i < n ==> is_ws(#[trigger] s[i])),
    decreases n,
{
    if n > 0 {
        lemma_run_starts_before_zero(s, n - 1);
        if run_starts_before(s, n - 1) == 0 && !is_ws(s[n - 1]) {
            // the first non-whitespace byte starts a run
            assert(forall|i: int| 0 <= i < n - 1 ==> is_ws(#[trigger] s[i]));
            if n >= 2 {
                assert(is_ws(s[n - 2]));
            }
            assert(is_run_start(s, n - 1));
        }
    }
}

/// A byte string holds no run exactly when every byte is whitespace.
pub proof fn lemma_no_runs_iff_all_ws(s: Seq<u8>)
    ensures
        (run_starts(s) == 0) == (forall|i: int| 0 <= i < s.len() ==> is_ws(#[trigger] s[i])),
{
    lemma_run_starts_before_zero(s, s.len() as int);
}

proof fn lemma_run_starts_before_same_class(s: Seq<u8>, t: Seq<u8>, n: int)
    requires
        s.len() == t.len(),
        0 <= n <= s.len(),
        forall|i: int| 0 <= i < s.len() ==> is_ws(#[trigger] s[i]) == is_ws(t[i]),
    ensures
        run_starts_before(s, n) == run_starts_before(t, n),
    decreases n,
{
    if n > 0 {
        lemma_run_starts_before_same_class(s, t, n - 1);
        assert(is_ws(s[n - 1]) == is_ws(t[n - 1]));
        if n >= 2 {
            assert(is_ws(s[n - 2]) == is_ws(t[n - 2]));
        }
    }
}

/// Only whether each byte is whitespace matters: two byte strings of equal
/// length whose bytes agree on being whitespace hold the same number of
/// runs (a tab, a newline and a space separate words alike).
pub proof fn lemma_run_starts_whitespace_class(s: Seq<u8>, t: Seq<u8>)
    requires
        s.len() == t.len(),
        forall|i: int| 0 <= i < s.len() ==> is_ws(#[trigger] s[i]) == is_ws(t[i]),
    ensures
        run_starts(s) == run_starts(t),
{
    lemma_run_starts_before_same_class(s, t, s.len() as int);
}

/// The whitespace estimate of a text is the blend of the runs of its UTF-8
/// bytes and the number of those bytes (not of its characters).
pub proof fn lemma_whitespace_count_of_utf8_bytes(t: SimdWhitespaceTokenizer, text: Seq<char>)
    ensures
        t.spec_admits(text),
        t.spec_count(text) == estimate_tokens(run_starts(encode_utf8(text)), encode_utf8(text).len()),
{
}

/// Two texts whose UTF-8 encodings have the same length and the same number
/// of runs get the same whitespace estimate, however many characters each
/// holds (a two-byte character weighs as two ASCII bytes).
pub proof fn lemma_whitespace_count_depends_on_bytes(
    t: SimdWhitespaceTokenizer,
    a: Seq<char>,
    b: Seq<char>,
)
    requires
        encode_utf8(a).len() == encode_utf8(b).len(),
        run_starts(encode_utf8(a)) == run_starts(encode_utf8(b)),
    ensures
        t.spec_count(a) == t.spec_count(b),
{
}

proof fn lemma_encode_utf8_append(a: Seq<char>, b: Seq<char>)
    ensures
        encode_utf8(a + b) == encode_utf8(a) + encode_utf8(b),
    decreases a.len(),
{
    if a.len() > 0 {
        assert((a + b).drop_first() == a.drop_first() + b);
        lemma_encode_utf8_append(a.drop_first(), b);
        assert(encode_utf8(a + b) == encode_scalar((a + b)[0] as u32) + encode_utf8((a + b).drop_first()));
    } else {
        assert(a + b == b);
    }
}

/// The whitespace estimate of a text never decreases when more text is
/// appended to it.
pub proof fn lemma_estimate_nondecreasing_under_append(prefix: Seq<char>, suffix: Seq<char>)
    ensures
        whitespace_estimate(prefix) <= whitespace_estimate(prefix + suffix),
{
    let a = encode_utf8(prefix);
    let b = encode_utf8(suffix);
    lemma_encode_utf8_append(prefix, suffix);
    lemma_run_starts_append(a, b);
    lemma_estimate_monotone(run_starts(a), a.len(), run_starts(a + b), (a + b).len());
}

/// `0x80` in every byte lane.
pub const HIGH: u64 = 0x8080_8080_8080_8080;

/// `0x7F` in every byte lane.
pub const SEVENS: u64 = 0x7F7F_7F7F_7F7F_7F7F;

/// `0x5F` in every byte lane: added to a 7-bit lane value it reaches `0x80`
/// exactly when that value is at least `0x21`.
pub const ADD_5F: u64 = 0x5F5F_5F5F_5F5F_5F5F;

/// `0x80` in every lane of `w` whose byte is not whitespace, `0` elsewhere.
pub open spec fn nonws_lanes(w: u64) -> u64 {
    (w | (((w & SEVENS) + ADD_5F) as u64)) & HIGH
}

/// `0x80` in every lane of `w` whose byte is whitespace, `0` elsewhere.
pub open spec fn ws_lanes(w: u64) -> u64 {
    !nonws_lanes(w) & HIGH
}

/// `1` in every lane of `w` that starts a run, given `carry` (`0x80` when
/// the byte before the word was whitespace or the word is at the start).
pub open spec fn start_flags(w: u64, carry: u64) -> u64 {
    (nonws_lanes(w) & ((ws_lanes(w) << 8u64) | carry)) >> 7u64
}

proof fn lemma_nonws_lane(w: u64, k: u64)
    by (bit_vector)
    requires
        k < 8,
    ensures
        lane(nonws_lanes(w), k) == (if lane(w, k) > 0x20 { 0x80u64 } else { 0u64 }),
{
}

proof fn lemma_start_lane(w: u64, carry: u64, k: u64)
    by (bit_vector)
    requires
        1 <= k < 8,
        carry == 0 || carry == 0x80,
    ensures
        lane(start_flags(w, carry), k) == (if lane(w, k) > 0x20 && lane(w, (k - 1) as u64) <= 0x20 {
            1u64
        } else {
            0u64
        }),
{
}

proof fn lemma_start_lane_first(w: u64, carry: u64)
    by (bit_vector)
    requires
        carry == 0 || carry == 0x80,
    ensures
        lane(start_flags(w, carry), 0) == (if lane(w, 0) > 0x20 && carry == 0x80 {
            1u64
        } else {
            0u64
        }),
{
}

proof fn lemma_carry_out(w: u64)
    by (bit_vector)
    ensures
        (ws_lanes(w) & (0x80u64 << 56u64) != 0) == (lane(w, 7) <= 0x20),
{
}

/// Per-byte non-whitespace mask: `0x80` in each byte lane whose byte is
/// not at most `0x20`, `0` in every other lane.
///
/// A byte is non-whitespace when its high bit is set or its low seven bits
/// are at least `0x21`; the seven-bit addition never carries across lanes
/// (`0x7F + 0x5F = 0xDE`), so each lane is classified exactly.
fn nonwhitespace_mask(word: u64) -> (m: u64)
    ensures
        m == nonws_lanes(word),
        forall|k: u64| k < 8 ==> #[trigger] lane(m, k) == (if lane(word, k) > 0x20 { 0x80u64 } else { 0u64 }),
{
    assert(word & SEVENS <= SEVENS) by (bit_vector);
    proof {
        assert forall|k: u64| k < 8 implies #[trigger] lane(nonws_lanes(word), k) == (if lane(word, k) > 0x20 {
            0x80u64
        } else {
            0u64
        }) by {
            lemma_nonws_lane(word, k);
        }
    }
    (word | ((word & SEVENS) + ADD_5F)) & HIGH
}

proof fn lemma_load_lanes(b0: u64, b1: u64, b2: u64, b3: u64, b4: u64, b5: u64, b6: u64, b7: u64)
    by (bit_vector)
    requires
        b0 < 256, b1 < 256, b2 < 256, b3 < 256, b4 < 256, b5 < 256, b6 < 256, b7 < 256,
    ensures
        ({
            let w = b0 | (b1 << 8u64) | (b2 << 16u64) | (b3 << 24u64) | (b4 << 32u64) | (b5 << 40u64)
                | (b6 << 48u64) | (b7 << 56u64);
            &&& lane(w, 0) == b0
            &&& lane(w, 1) == b1
            &&& lane(w, 2) == b2
            &&& lane(w, 3) == b3
            &&& lane(w, 4) == b4
            &&& lane(w, 5) == b5
            &&& lane(w, 6) == b6
            &&& lane(w, 7) == b7
        }),
{
}

/// Little-endian load of the eight bytes `data[i .. i + 8]`.
fn load_le_word(data: &[u8], i: usize) -> (w: u64)
    requires
        i + 8 <= data@.len(),
    ensures
        forall|k: u64| k < 8 ==> #[trigger] lane(w, k) == data@[i + k],
{
    let b0 = data[i] as u64;
    let b1 = data[i + 1] as u64;
    let b2 = data[i + 2] as u64;
    let b3 = data[i + 3] as u64;
    let b4 = data[i + 4] as u64;
    let b5 = data[i + 5] as u64;
    let b6 = data[i + 6] as u64;
    let b7 = data[i + 7] as u64;
    proof {
        lemma_load_lanes(b0, b1, b2, b3, b4, b5, b6, b7);
    }
    b0 | (b1 << 8) | (b2 << 16) | (b3 << 24) | (b4 << 32) | (b5 << 40) | (b6 << 48) | (b7 << 56)
}

/// The run starts of eight consecutive indices, one term per index.
proof fn lemma_run_starts_chunk(s: Seq<u8>, i: int)
    requires
        0 <= i,
    ensures
        run_starts_before(s, i + 8) == run_starts_before(s, i)
            + (if is_run_start(s, i) { 1nat } else { 0nat })
            + (if is_run_start(s, i + 1) { 1nat } else { 0nat })
            + (if is_run_start(s, i + 2) { 1nat } else { 0nat })
            + (if is_run_start(s, i + 3) { 1nat } else { 0nat })
            + (if is_run_start(s, i + 4) { 1nat } else { 0nat })
            + (if is_run_start(s, i + 5) { 1nat } else { 0nat })
            + (if is_run_start(s, i + 6) { 1nat } else { 0nat })
            + (if is_run_start(s, i + 7) { 1nat } else { 0nat }),
{
    reveal_with_fuel(run_starts_before, 9);
}

/// The number of runs that start inside the word loaded at `i`.
proof fn lemma_chunk_count(s: Seq<u8>, i: int, w: u64, prev_ws: bool)
    requires
        0 <= i,
        i + 8 <= s.len(),
        forall|k: u64| k < 8 ==> #[trigger] lane(w, k) == s[i + k],
        prev_ws == (i == 0 || is_ws(s[i - 1])),
    ensures
        ({
            let x = start_flags(w, if prev_ws { 0x80u64 } else { 0u64 });
            run_starts_before(s, i + 8) == run_starts_before(s, i) + bit_count(x)
        }),
{
    let carry = if prev_ws { 0x80u64 } else { 0u64 };
    let x = start_flags(w, carry);
    lemma_start_lane_first(w, carry);
    assert forall|k: u64| 1 <= k < 8 implies #[trigger] lane(x, k) == (if lane(w, k) > 0x20 && lane(
        w,
        (k - 1) as u64,
    ) <= 0x20 {
        1u64
    } else {
        0u64
    }) by {
        lemma_start_lane(w, carry, k);
    }
    assert(lane(w, 0) == s[i + 0]);
    assert(lane(w, 1) == s[i + 1]);
    assert(lane(w, 2) == s[i + 2]);
    assert(lane(w, 3) == s[i + 3]);
    assert(lane(w, 4) == s[i + 4]);
    assert(lane(w, 5) == s[i + 5]);
    assert(lane(w, 6) == s[i + 6]);
    assert(lane(w, 7) == s[i + 7]);
    assert(lane(x, 1) == (if is_run_start(s, i + 1) { 1u64 } else { 0u64 }));
    assert(lane(x, 2) == (if is_run_start(s, i + 2) { 1u64 } else { 0u64 }));
    assert(lane(x, 3) == (if is_run_start(s, i + 3) { 1u64 } else { 0u64 }));
    assert(lane(x, 4) == (if is_run_start(s, i + 4) { 1u64 } else { 0u64 }));
    assert(lane(x, 5) == (if is_run_start(s, i + 5) { 1u64 } else { 0u64 }));
    assert(lane(x, 6) == (if is_run_start(s, i + 6) { 1u64 } else { 0u64 }));
    assert(lane(x, 7) == (if is_run_start(s, i + 7) { 1u64 } else { 0u64 }));
    assert(lane(x, 0) == (if is_run_start(s, i) { 1u64 } else { 0u64 }));
    assert forall|k: u64| k < 8 implies #[trigger] lane(x, k) <= 1 by {
        if k == 0 {
        } else {
            lemma_start_lane(w, carry, k);
        }
    }
    lemma_bit_count_flags(x);
    lemma_run_starts_chunk(s, i);
}

/// SWAR whitespace-split counter: counts the first byte of every
/// non-whitespace run, eight bytes per step, then finishes the tail byte by
/// byte. The start of input counts as a preceding whitespace byte.
fn count_splits_swar(data: &[u8]) -> (count: usize)
    ensures
        count == run_starts(data@),
{
    let n = data.len();
    let mut count: usize = 0;
    let mut prev_ws = true;
    let mut i: usize = 0;
    while n - i >= 8
        invariant
            n == data@.len(),
            i <= n,
            prev_ws == (i == 0 || is_ws(data@[i - 1])),
            count == run_starts_before(data@, i as int),
        decreases n - i,
    {
        let word = load_le_word(data, i);
        let nonws = nonwhitespace_mask(word);
        let ws = !nonws & HIGH;
        let carry: u64 = if prev_ws { 0x80 } else { 0 };
        let starts = nonws & ((ws << 8) | carry);
        proof {
            lemma_chunk_count(data@, i as int, word, prev_ws);
            lemma_run_starts_before_bound(data@, i + 8);
            lemma_carry_out(word);
        }
        let c = count_ones_u64(starts >> 7);
        count += c as usize;
        prev_ws = ws & (0x80 << 56) != 0;
        proof {
            assert(lane(word, 7) == data@[i + 7]);
        }
        i += 8;
    }
    while i < n
        invariant
            n == data@.len(),
            i <= n,
            prev_ws == (i == 0 || is_ws(data@[i - 1])),
            count == run_starts_before(data@, i as int),
        decreases n - i,
    {
        let b = data[i];
        let is_ws_b = b <= 0x20;
        proof {
            lemma_run_starts_before_bound(data@, i + 1);
        }
        if !is_ws_b && prev_ws {
            count += 1;
        }
        prev_ws = is_ws_b;
        i += 1;
    }
    count
}

/// The estimate that `SimdWhitespaceTokenizer::count` gives for a text:
/// the blend of its UTF-8 byte runs and its UTF-8 byte length.
pub open spec fn whitespace_estimate(text: Seq<char>) -> nat {
    estimate_tokens(run_starts(encode_utf8(text)), encode_utf8(text).len())
}

/// SIMD-style (SWAR) whitespace-split token estimator.
///
/// Splits on any byte at most `0x20` using 8-byte SWAR loads, then blends
/// word count and character based heuristics via
/// [`estimate_from_whitespace_splits`] for a BPE-approximate token count.
#[derive(Debug)]
pub struct SimdWhitespaceTokenizer {
    _priv: (),
}

impl SimdWhitespaceTokenizer {
    /// The one value of this type.
    pub closed spec fn spec_new() -> Self {
        SimdWhitespaceTokenizer { _priv: () }
    }

    /// Create a new tokenizer.
    pub fn new() -> (t: Self)
        ensures
            t == Self::spec_new(),
    {
        Self { _priv: () }
    }

    /// Count whitespace-delimited segments (maximal runs of non-whitespace
    /// bytes) with the SWAR scanner; [`scalar_count_splits`] is the
    /// byte-at-a-time reference and gives the same count on every input.
    pub fn count_splits(&self, bytes: &[u8]) -> (splits: usize)
        ensures
            splits == run_starts(bytes@),
            2 * splits <= bytes@.len() + 1,
    {
        proof {
            lemma_run_starts_bound(bytes@);
        }
        count_splits_swar(bytes)
    }
}

/// There is exactly one tokenizer value: every tokenizer behaves alike.
pub proof fn lemma_single_tokenizer(t: SimdWhitespaceTokenizer)
    ensures
        t == SimdWhitespaceTokenizer::spec_new(),
{
}

impl Default for SimdWhitespaceTokenizer {
    fn default() -> (t: Self)
        ensures
            t == Self::spec_new(),
    {
        Self::new()
    }
}

impl Clone for SimdWhitespaceTokenizer {
    fn clone(&self) -> (t: Self)
        ensures
            t == *self,
    {
        Self::new()
    }
}

impl TokenCounter for SimdWhitespaceTokenizer {
    open spec fn spec_count(&self, text: Seq<char>) -> nat {
        whitespace_estimate(text)
    }

    open spec fn spec_backend_name(&self) -> Seq<char> {
        "simd-whitespace"@
    }

    open spec fn spec_admits(&self, text: Seq<char>) -> bool {
        true
    }

    fn count(&self, text: &str) -> (n: usize) {
        let bytes = text.as_bytes();
        let splits = count_splits_swar(bytes);
        estimate_from_whitespace_splits(splits, bytes.len())
    }

    fn backend_name(&self) -> (name: &'static str) {
        "simd-whitespace"
    }
}

/// Portable scalar reference: counts whitespace-delimited segments (maximal
/// runs of non-whitespace bytes), each counted as it closes.
pub fn scalar_count_splits(data: &[u8]) -> (count: usize)
    ensures
        count == run_ends(data@),
{
    let mut in_word = false;
    let mut count: usize = 0;
    let n = data.len();
    let mut i: usize = 0;
    while i < n
        invariant
            n == data@.len(),
            i <= n,
            in_word == (i > 0 && !is_ws(data@[i - 1])),
            count == (if i == 0 { 0 } else { run_ends_before(data@, i - 1) }),
            count <= i,
            i > 0 ==> count < i,
        decreases n - i,
    {
        let b = data[i];
        let is_ws_b = b <= 0x20;
        if is_ws_b {
            if in_word {
                count += 1;
                in_word = false;
            }
        } else {
            in_word = true;
        }
        i += 1;
    }
    if in_word {
        count += 1;
    }
    count
}

} // verus!
