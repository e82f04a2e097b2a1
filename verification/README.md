# simd_tokenizer

A whitespace-run token estimator whose SWAR ("SIMD within a register")
scanner is proved with Verus to count exactly the maximal runs of
non-whitespace bytes (bytes above `0x20`), plus exact `cl100k_base` /
`o200k_base` counting through tiktoken-rs.

- `src/swar.rs` — the byte model (`is_ws`, `run_starts`, `run_ends`), the
  scalar reference scanner, the SWAR scanner, `SimdWhitespaceTokenizer`,
  and the laws about runs (starts = ends, at most `(len + 1) / 2` runs,
  whitespace class alone decides, appending never lowers the estimate).
- `src/lanes.rs` — byte lanes of a `u64` and the population count over them.
- `src/lib.rs` — the `TokenCounter` interface, the blended estimate and its
  laws, and the `TokenEstimator` dispatch.
- `src/tiktoken_backend.rs` — `TiktokenCounter`, its loaders and the
  trusted calls into tiktoken-rs.
- `app/lib.rs` — the error type with its `Display`/`Error` impls.
