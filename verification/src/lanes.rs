//! Byte lanes of a `u64` word and the bit population count over them.

use vstd::prelude::*;

verus! {

/// Byte `k` (`0 <= k < 8`, least significant first) of `x`.
pub open spec fn lane(x: u64, k: u64) -> u64 {
    (x >> ((k * 8) as u64)) & 0xff
}

/// Number of one bits in the binary representation of `x`.
pub open spec fn bit_count(x: u64) -> nat
    decreases x,
{
    if x == 0 {
        0
    } else {
        proof {
            assert(x != 0 ==> (x >> 1u64) < x) by (bit_vector);
        }
        (x & 1) as nat + bit_count(x >> 1u64)
    }
}

/// `u64::count_ones`: the number of ones in the binary representation.
#[verifier::external_body]
pub(crate) fn count_ones_u64(x: u64) -> (r: u32)
    ensures
        r as nat == bit_count(x),
{
    x.count_ones()
}

proof fn lemma_bit_count_step(y: u64)
    ensures
        bit_count(y) == (y & 1) as nat + bit_count(y >> 1u64),
{
    if y == 0 {
        assert(0u64 & 1 == 0 && (0u64 >> 1u64) == 0) by (bit_vector);
    }
}

/// Peels the low byte off `y`: its eight bits plus the count of `y >> 8`.
proof fn lemma_bit_count_byte(y: u64)
    ensures
        bit_count(y) == (y & 1) as nat + ((y >> 1u64) & 1) as nat + ((y >> 2u64) & 1) as nat
            + ((y >> 3u64) & 1) as nat + ((y >> 4u64) & 1) as nat + ((y >> 5u64) & 1) as nat
            + ((y >> 6u64) & 1) as nat + ((y >> 7u64) & 1) as nat + bit_count(y >> 8u64),
{
    lemma_bit_count_step(y);
    lemma_bit_count_step(y >> 1u64);
    lemma_bit_count_step(y >> 2u64);
    lemma_bit_count_step(y >> 3u64);
    lemma_bit_count_step(y >> 4u64);
    lemma_bit_count_step(y >> 5u64);
    lemma_bit_count_step(y >> 6u64);
    lemma_bit_count_step(y >> 7u64);
    assert(((y >> 1u64) >> 1u64) == (y >> 2u64) && ((y >> 2u64) >> 1u64) == (y >> 3u64) && ((y
        >> 3u64) >> 1u64) == (y >> 4u64) && ((y >> 4u64) >> 1u64) == (y >> 5u64) && ((y >> 5u64)
        >> 1u64) == (y >> 6u64) && ((y >> 6u64) >> 1u64) == (y >> 7u64) && ((y >> 7u64) >> 1u64)
        == (y >> 8u64)) by (bit_vector);
}

/// When the low byte of `y` is 0 or 1, the count is that byte plus the count
/// of the remaining bytes.
proof fn lemma_bit_count_flag_byte(y: u64)
    requires
        y & 0xff <= 1,
    ensures
        bit_count(y) == (y & 0xff) as nat + bit_count(y >> 8u64),
{
    lemma_bit_count_byte(y);
    assert(y & 0xff <= 1 ==> ((y >> 1u64) & 1) == 0 && ((y >> 2u64) & 1) == 0 && ((y >> 3u64) & 1)
        == 0 && ((y >> 4u64) & 1) == 0 && ((y >> 5u64) & 1) == 0 && ((y >> 6u64) & 1) == 0 && ((y
        >> 7u64) & 1) == 0 && (y & 1) == (y & 0xff)) by (bit_vector);
}

/// A word whose eight byte lanes each hold 0 or 1 has as many one bits as
/// the sum of its lanes.
pub proof fn lemma_bit_count_flags(x: u64)
    requires
        forall|k: u64| k < 8 ==> #[trigger] lane(x, k) <= 1,
    ensures
        bit_count(x) == lane(x, 0) + lane(x, 1) + lane(x, 2) + lane(x, 3) + lane(x, 4) + lane(x, 5)
            + lane(x, 6) + lane(x, 7),
{
    assert(lane(x, 0) <= 1 && lane(x, 1) <= 1 && lane(x, 2) <= 1 && lane(x, 3) <= 1 && lane(x, 4)
        <= 1 && lane(x, 5) <= 1 && lane(x, 6) <= 1 && lane(x, 7) <= 1);
    assert(lane(x, 0) == x & 0xff && lane(x, 1) == (x >> 8u64) & 0xff && lane(x, 2) == (x >> 16u64)
        & 0xff && lane(x, 3) == (x >> 24u64) & 0xff && lane(x, 4) == (x >> 32u64) & 0xff && lane(
        x,
        5,
    ) == (x >> 40u64) & 0xff && lane(x, 6) == (x >> 48u64) & 0xff && lane(x, 7) == (x >> 56u64)
        & 0xff) by (bit_vector);
    assert(((x >> 8u64) >> 8u64) == (x >> 16u64) && ((x >> 16u64) >> 8u64) == (x >> 24u64) && ((x
        >> 24u64) >> 8u64) == (x >> 32u64) && ((x >> 32u64) >> 8u64) == (x >> 40u64) && ((x
        >> 40u64) >> 8u64) == (x >> 48u64) && ((x >> 48u64) >> 8u64) == (x >> 56u64) && ((x
        >> 56u64) >> 8u64) == 0) by (bit_vector);
    lemma_bit_count_flag_byte(x);
    lemma_bit_count_flag_byte(x >> 8u64);
    lemma_bit_count_flag_byte(x >> 16u64);
    lemma_bit_count_flag_byte(x >> 24u64);
    lemma_bit_count_flag_byte(x >> 32u64);
    lemma_bit_count_flag_byte(x >> 40u64);
    lemma_bit_count_flag_byte(x >> 48u64);
    lemma_bit_count_flag_byte(x >> 56u64);
    assert(bit_count(0) == 0);
}

} // verus!
