//! The hash family of the filter: murmur3 (32 bit), seeded by the round index.

use murmur3::murmur3_32;
use vstd::prelude::*;

verus! {

/// The longest item, in bytes, that can be hashed: the hash counts the bytes
/// it has consumed in 32 bits.
pub const MAX_ITEM_LEN: usize = 0xFFFF_FFFF;

/// What `murmur3::murmur3_32` returns for a reader that yields exactly `bytes`
/// and for `seed`: the digest, or `None` where the hash reports an error.
pub uninterp spec fn murmur3_32_digest(bytes: Seq<u8>, seed: u32) -> Option<u32>;

/// The hash of one round: the digest, or zero where hashing failed. A failed
/// hash is deliberately not an error of the filter; every item whose hash
/// fails shares bit zero of each round, which can only raise the rate of
/// false positives.
pub open spec fn digest_or_zero(digest: Option<u32>) -> u32 {
    match digest {
        Some(hash) => hash,
        None => 0,
    }
}

/// The position in a bit array of `size` bits that a digest selects.
pub open spec fn spec_bit_index(digest: Option<u32>, size: nat) -> int {
    digest_or_zero(digest) as int % size as int
}

/// The position that round `round` selects for `bytes` in an array of `size` bits.
pub open spec fn round_index(bytes: Seq<u8>, round: int, size: nat) -> int {
    spec_bit_index(murmur3_32_digest(bytes, round as u32), size)
}

/// Trusted: calls `murmur3::murmur3_32` on a reader of its own over `value`,
/// so that the caller's slice stays whole. The contract claims only that the
/// outcome is a function of the bytes read and of the seed. Items longer
/// than `MAX_ITEM_LEN` are left out, because the hash would overflow its
/// 32-bit byte counter on them.
#[verifier::external_body]
fn murmur3_digest(value: &[u8], seed: u32) -> (digest: Option<u32>)
    requires
        value@.len() <= MAX_ITEM_LEN,
    ensures
        digest == murmur3_32_digest(value@, seed),
{
    let mut source: &[u8] = value;
    murmur3_32(&mut source, seed).ok()
}

/// Reduces a digest to a position in a bit array of `size` bits; a failed
/// hash counts as zero.
pub fn bit_index(digest: Option<u32>, size: usize) -> (index: usize)
    requires
        size > 0,
    ensures
        index == spec_bit_index(digest, size as nat),
        index < size,
{
    let hash: u32 = match digest {
        Some(hash) => hash,
        None => 0,
    };
    (hash as usize) % size
}

/// The position that round `round` selects for `value` in an array of `size` bits.
pub fn index_of_round(value: &[u8], round: u8, size: usize) -> (index: usize)
    requires
        size > 0,
        value@.len() <= MAX_ITEM_LEN,
    ensures
        index == round_index(value@, round as int, size as nat),
        index < size,
{
    bit_index(murmur3_digest(value, round as u32), size)
}

} // verus!
