//! A UUID as a 128-bit big-endian value, and its two meaningful bit
//! fields: the 4-bit version (the high nibble of byte 6) and the 2-bit
//! variant (the top two bits of byte 8). A version 7 value additionally
//! carries its Unix millisecond timestamp in the first 48 bits.

use vstd::arithmetic::div_mod::{lemma_div_is_ordered, lemma_div_pos_is_pos};
use vstd::prelude::*;

verus! {

/// The 4-bit version field: bits 48..52 from the most significant end.
pub open spec fn spec_version(u: u128) -> int {
    (u as int / 0x10000000000000000000) % 16
}

/// The 2-bit variant field: the top two bits of byte 8.
pub open spec fn spec_variant(u: u128) -> int {
    (u as int / 0x4000000000000000) % 4
}

/// The first 48 bits: the Unix millisecond timestamp of a version 7 value.
pub open spec fn spec_millis(u: u128) -> int {
    u as int / 0x100000000000000000000
}

/// The version field of a UUID, as an integer in `0..16`.
pub fn version_of(u: u128) -> (v: u8)
    ensures
        v as int == spec_version(u),
        v < 16,
{
    ((u / 0x10000000000000000000) % 16) as u8
}

/// The variant field of a UUID, as an integer in `0..4`. Versioned UUIDs
/// carry the RFC 4122 variant, `10` in binary, that is 2.
pub fn variant_of(u: u128) -> (v: u8)
    ensures
        v as int == spec_variant(u),
        v < 4,
{
    ((u / 0x4000000000000000) % 4) as u8
}

/// The first 48 bits of a UUID: for version 7, its millisecond timestamp.
pub fn millis_of(u: u128) -> (m: u64)
    ensures
        m as int == spec_millis(u),
{
    proof {
        lemma_div_is_ordered(u as int, u128::MAX as int, 0x100000000000000000000);
        lemma_div_pos_is_pos(u as int, 0x100000000000000000000);
    }
    (u / 0x100000000000000000000) as u64
}

/// Of two version 7 values, the one with the smaller timestamp is the
/// smaller value: the big-endian order of suffixes follows time.
pub proof fn lemma_millis_order(a: u128, b: u128)
    requires
        spec_millis(a) < spec_millis(b),
    ensures
        a < b,
{
    if a >= b {
        lemma_div_is_ordered(b as int, a as int, 0x100000000000000000000);
    }
}

} // verus!
