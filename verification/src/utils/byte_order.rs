//! Big-endian encodings of the fixed-width integers of the stored format.

use vstd::prelude::*;

verus! {

/// The two bytes of `value`, most significant first.
pub open spec fn spec_u16_to_be_bytes(value: u16) -> Seq<u8> {
    seq![(value / 0x100) as u8, (value % 0x100) as u8]
}

/// The four bytes of `value`, most significant first.
pub open spec fn spec_u32_to_be_bytes(value: u32) -> Seq<u8> {
    seq![
        (value / 0x100_0000) as u8,
        (value / 0x1_0000 % 0x100) as u8,
        (value / 0x100 % 0x100) as u8,
        (value % 0x100) as u8,
    ]
}

/// The number whose big-endian encoding is the first two bytes of `bytes`.
pub open spec fn spec_u16_from_be_bytes(bytes: Seq<u8>) -> u16
    recommends
        bytes.len() >= 2,
{
    (bytes[0] * 0x100 + bytes[1]) as u16
}

/// The number whose big-endian encoding is the first four bytes of `bytes`.
pub open spec fn spec_u32_from_be_bytes(bytes: Seq<u8>) -> u32
    recommends
        bytes.len() >= 4,
{
    (bytes[0] * 0x100_0000 + bytes[1] * 0x1_0000 + bytes[2] * 0x100 + bytes[3]) as u32
}

/// The two bytes of `value`, most significant first.
pub fn u16_to_be_bytes(value: u16) -> (bytes: [u8; 2])
    ensures
        bytes@ == spec_u16_to_be_bytes(value),
{
    let bytes: [u8; 2] = [(value / 0x100) as u8, (value % 0x100) as u8];
    bytes
}

/// The four bytes of `value`, most significant first.
pub fn u32_to_be_bytes(value: u32) -> (bytes: [u8; 4])
    ensures
        bytes@ == spec_u32_to_be_bytes(value),
{
    let bytes: [u8; 4] = [
        (value / 0x100_0000) as u8,
        (value / 0x1_0000 % 0x100) as u8,
        (value / 0x100 % 0x100) as u8,
        (value % 0x100) as u8,
    ];
    bytes
}

/// The number that two bytes encode, most significant first.
pub fn u16_from_be_bytes(bytes: [u8; 2]) -> (value: u16)
    ensures
        value == spec_u16_from_be_bytes(bytes@),
{
    bytes[0] as u16 * 0x100 + bytes[1] as u16
}

/// The number that four bytes encode, most significant first.
pub fn u32_from_be_bytes(bytes: [u8; 4]) -> (value: u32)
    ensures
        value == spec_u32_from_be_bytes(bytes@),
{
    bytes[0] as u32 * 0x100_0000 + bytes[1] as u32 * 0x1_0000 + bytes[2] as u32 * 0x100
        + bytes[3] as u32
}

/// Decoding undoes encoding.
pub proof fn lemma_u16_be_round_trip(value: u16)
    ensures
        spec_u16_from_be_bytes(spec_u16_to_be_bytes(value)) == value,
{
}

/// Decoding undoes encoding.
pub proof fn lemma_u32_be_round_trip(value: u32)
    ensures
        spec_u32_from_be_bytes(spec_u32_to_be_bytes(value)) == value,
{
}

} // verus!
