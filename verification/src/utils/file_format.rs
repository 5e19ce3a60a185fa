//! The stored form of a filter.
//!
//! | field              | bytes | content                                        |
//! |--------------------|-------|------------------------------------------------|
//! | identifier         | 4     | `CCBF`                                         |
//! | version            | 2     | 1                                              |
//! | hash rounds        | 2     | the number of hash rounds                      |
//! | length             | 4     | the length of the bit array                    |
//! | probability        | 4     | IEEE-754 single precision                      |
//! | bit array          | rest  | one byte per bit, 0 or 1, in index order       |
//!
//! Every number is stored with its most significant byte first.
//!
//! Reading is strict about the header: bytes that do not open with the
//! identifier and the version, or that end inside the header, are rejected.
//! It is lenient behind it. Of the two bytes of the hash rounds only the low
//! one is read. The recorded length is read as it stands, and the bit array
//! is made of the bytes that follow the header, however many they are. In
//! the bit array the byte 1 is a set bit and every other byte is a clear bit.

use crate::filters::bloom_filter::{bits_to_bytes, FilterResults, Probability, StoredState};
use crate::utils::byte_order::{
    lemma_u16_be_round_trip, lemma_u32_be_round_trip, spec_u16_from_be_bytes,
    spec_u16_to_be_bytes, spec_u32_from_be_bytes, spec_u32_to_be_bytes, u16_from_be_bytes,
    u16_to_be_bytes, u32_from_be_bytes,
};
use vstd::prelude::*;

verus! {

/// The four bytes that open a stored filter: `CCBF`.
pub const IDENTIFIER: [u8; 4] = [0x43, 0x43, 0x42, 0x46];

/// The version of the stored form.
pub const VERSION: u16 = 1;

/// The number of bytes before the bit array.
pub const HEADER_LEN: usize = 16;

/// Why a sequence of bytes is not a stored filter.
#[derive(Clone, Copy, Debug, PartialEq, Eq)]
pub enum FormatError {
    /// The bytes do not open with the identifier.
    UnrecognizedFileType,
    /// The version is not the one this library reads.
    UnsupportedVersion,
    /// The bytes end inside the header.
    UnexpectedEnd,
}

impl FormatError {
    /// A description of the error for a user.
    pub fn message(&self) -> (text: &'static str)
        ensures
            text@ == match *self {
                FormatError::UnrecognizedFileType => "unrecognized file type"@,
                FormatError::UnsupportedVersion => "unsupported version"@,
                FormatError::UnexpectedEnd => "unexpected end of stream"@,
            },
    {
        match self {
            FormatError::UnrecognizedFileType => "unrecognized file type",
            FormatError::UnsupportedVersion => "unsupported version",
            FormatError::UnexpectedEnd => "unexpected end of stream",
        }
    }
}

/// The bits that a stored bit array holds: the byte 1 is a set bit, every
/// other byte a clear one.
pub open spec fn bytes_to_bits(bytes: Seq<u8>) -> Seq<bool> {
    Seq::new(bytes.len(), |position: int| bytes[position] == 1)
}

/// The stored form of a state.
pub open spec fn spec_encode(state: StoredState) -> Seq<u8> {
    IDENTIFIER@ + spec_u16_to_be_bytes(VERSION) + spec_u16_to_be_bytes(state.hash_count as u16)
        + spec_u32_to_be_bytes((state.bit_array_size % 0x1_0000_0000) as u32)
        + spec_u32_to_be_bytes(state.probability.bits) + bits_to_bytes(state.bits)
}

/// The state that a sequence of bytes stores, or the reason why it stores
/// none. The identifier is judged first, then the version, each as soon as
/// its bytes are there.
pub open spec fn spec_decode(bytes: Seq<u8>) -> Result<StoredState, FormatError> {
    if bytes.len() < 4 {
        Err(FormatError::UnexpectedEnd)
    } else if bytes.subrange(0, 4) != IDENTIFIER@ {
        Err(FormatError::UnrecognizedFileType)
    } else if bytes.len() < 6 {
        Err(FormatError::UnexpectedEnd)
    } else if spec_u16_from_be_bytes(bytes.subrange(4, 6)) != VERSION {
        Err(FormatError::UnsupportedVersion)
    } else if bytes.len() < HEADER_LEN {
        Err(FormatError::UnexpectedEnd)
    } else {
        Ok(
            StoredState {
                bits: bytes_to_bits(bytes.skip(HEADER_LEN as int)),
                hash_count: (spec_u16_from_be_bytes(bytes.subrange(6, 8)) % 0x100) as u8,
                bit_array_size: spec_u32_from_be_bytes(bytes.subrange(8, 12)) as nat,
                probability: Probability { bits: spec_u32_from_be_bytes(bytes.subrange(12, 16)) },
            },
        )
    }
}

/// Writes the state of a filter in its stored form.
pub fn encode(filter_results: &FilterResults) -> (bytes: Vec<u8>)
    ensures
        bytes@ == spec_encode(filter_results@),
{
    let identifier: [u8; 4] = IDENTIFIER;
    let version: [u8; 2] = u16_to_be_bytes(VERSION);
    let number_of_hash_functions: [u8; 2] = filter_results.get_number_of_hash_functions();
    let bit_array_size: [u8; 4] = filter_results.get_array_size();
    let probability: [u8; 4] = filter_results.get_probability();
    let mut bitset: Vec<u8> = filter_results.get_bitset();

    let mut bytes: Vec<u8> = Vec::new();
    bytes.extend_from_slice(identifier.as_slice());
    bytes.extend_from_slice(version.as_slice());
    bytes.extend_from_slice(number_of_hash_functions.as_slice());
    bytes.extend_from_slice(bit_array_size.as_slice());
    bytes.extend_from_slice(probability.as_slice());
    bytes.append(&mut bitset);
    bytes
}

/// Reads the state of a filter from its stored form.
///
/// Fails when the bytes do not open with the identifier, when the version is
/// not the one this library writes, and when the bytes end before the
/// sixteen bytes of the header are complete. The identifier is judged before
/// anything behind it is read, then the version.
pub fn decode(bytes: &[u8]) -> (decoded: Result<FilterResults, FormatError>)
    ensures
        match decoded {
            Ok(results) => spec_decode(bytes@) == Ok::<StoredState, FormatError>(results@),
            Err(error) => spec_decode(bytes@) == Err::<StoredState, FormatError>(error),
        },
{
    if bytes.len() < 4 {
        return Err(FormatError::UnexpectedEnd);
    }
    if bytes[0] != IDENTIFIER[0] || bytes[1] != IDENTIFIER[1] || bytes[2] != IDENTIFIER[2]
        || bytes[3] != IDENTIFIER[3] {
        return Err(FormatError::UnrecognizedFileType);
    }
    assert(bytes@.subrange(0, 4) =~= IDENTIFIER@);
    if bytes.len() < 6 {
        return Err(FormatError::UnexpectedEnd);
    }
    let version: u16 = u16_from_be_bytes([bytes[4], bytes[5]]);
    if version != VERSION {
        return Err(FormatError::UnsupportedVersion);
    }
    if bytes.len() < HEADER_LEN {
        return Err(FormatError::UnexpectedEnd);
    }
    let number_of_hash_functions: u16 = u16_from_be_bytes([bytes[6], bytes[7]]);
    let bit_array_size: u32 = u32_from_be_bytes([bytes[8], bytes[9], bytes[10], bytes[11]]);
    let probability: u32 = u32_from_be_bytes([bytes[12], bytes[13], bytes[14], bytes[15]]);

    let mut bitset: Vec<bool> = Vec::new();
    let mut position: usize = HEADER_LEN;
    while position < bytes.len()
        invariant
            HEADER_LEN <= position <= bytes@.len(),
            bitset@ == bytes_to_bits(bytes@.subrange(HEADER_LEN as int, position as int)),
        decreases bytes@.len() - position,
    {
        bitset.push(bytes[position] == 1);
        position += 1;
    }
    Ok(
        FilterResults::new(
            bitset,
            (number_of_hash_functions % 0x100) as u8,
            bit_array_size as usize,
            Probability::from_bits(probability),
        ),
    )
}

/// Reading what was written gives back the bit array, the number of hash
/// rounds and the probability, and of the recorded length what fits in four
/// bytes.
pub proof fn lemma_decode_inverts_encode(state: StoredState)
    ensures
        spec_decode(spec_encode(state)) == Ok::<StoredState, FormatError>(
            StoredState {
                bit_array_size: state.bit_array_size % 0x1_0000_0000,
                ..state
            },
        ),
{
    let bytes = spec_encode(state);
    let size = (state.bit_array_size % 0x1_0000_0000) as u32;
    assert(bytes.subrange(0, 4) =~= IDENTIFIER@);
    assert(bytes.skip(HEADER_LEN as int) =~= bits_to_bytes(state.bits));
    lemma_u16_be_round_trip(VERSION);
    lemma_u16_be_round_trip(state.hash_count as u16);
    lemma_u32_be_round_trip(size);
    lemma_u32_be_round_trip(state.probability.bits);
    assert(bytes_to_bits(bits_to_bytes(state.bits)) =~= state.bits);
}

/// Bytes are read as a stored filter exactly when they hold a whole header
/// that opens with the identifier, followed by the version.
pub proof fn lemma_decode_accepts_exactly(bytes: Seq<u8>)
    ensures
        spec_decode(bytes) is Ok <==> {
            &&& bytes.len() >= HEADER_LEN
            &&& bytes.subrange(0, 4) == IDENTIFIER@
            &&& bytes.subrange(4, 6) == spec_u16_to_be_bytes(VERSION)
        },
{
    if bytes.len() >= 6 {
        lemma_version_bytes(bytes.subrange(4, 6));
    }
}

/// Bytes that open with anything but the identifier are an unrecognized
/// file type, whatever follows.
pub proof fn lemma_wrong_identifier_is_rejected(bytes: Seq<u8>)
    requires
        bytes.len() >= 4,
        bytes.subrange(0, 4) != IDENTIFIER@,
    ensures
        spec_decode(bytes) == Err::<StoredState, FormatError>(FormatError::UnrecognizedFileType),
{
}

/// Bytes that open with the identifier and go on with anything but the
/// version are an unsupported version, whatever follows.
pub proof fn lemma_wrong_version_is_rejected(bytes: Seq<u8>)
    requires
        bytes.len() >= 6,
        bytes.subrange(0, 4) == IDENTIFIER@,
        bytes.subrange(4, 6) != spec_u16_to_be_bytes(VERSION),
    ensures
        spec_decode(bytes) == Err::<StoredState, FormatError>(FormatError::UnsupportedVersion),
{
    lemma_version_bytes(bytes.subrange(4, 6));
}

/// Two bytes encode the version exactly when they are its two bytes.
proof fn lemma_version_bytes(field: Seq<u8>)
    requires
        field.len() == 2,
    ensures
        spec_u16_from_be_bytes(field) == VERSION <==> field == spec_u16_to_be_bytes(VERSION),
{
    if spec_u16_from_be_bytes(field) == VERSION {
        assert(field =~= spec_u16_to_be_bytes(VERSION));
    }
}

} // verus!
