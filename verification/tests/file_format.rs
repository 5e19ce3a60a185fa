use spell_checker::filters::bloom_filter::{BloomFilter, FilterResults, Probability};
use spell_checker::utils::byte_order::{
    u16_from_be_bytes, u16_to_be_bytes, u32_from_be_bytes, u32_to_be_bytes,
};
use spell_checker::utils::file_format::{
    decode, encode, FormatError, HEADER_LEN, IDENTIFIER, VERSION,
};

fn stored(bits: &[u8]) -> Vec<u8> {
    let mut bytes =
        vec![b'C', b'C', b'B', b'F', 0, 1, 0, 3, 0, 0, 0, 7, 0x3E, 0x4C, 0xCC, 0xCD];
    bytes.extend_from_slice(bits);
    bytes
}

#[test]
fn constants_of_the_format() {
    assert_eq!(&IDENTIFIER, b"CCBF");
    assert_eq!(VERSION, 1);
    assert_eq!(HEADER_LEN, 16);
}

#[test]
fn encode_writes_the_fields_in_order() {
    let results = FilterResults::new(
        vec![true, false, false, false, false, true, true],
        3,
        7,
        Probability::default(),
    );
    assert_eq!(encode(&results), stored(&[1, 0, 0, 0, 0, 1, 1]));
}

#[test]
fn encode_of_a_built_filter() {
    let mut filter = BloomFilter::new(2, Probability::default(), 7, 3);
    filter.insert(b"hello");
    filter.insert(b"world");
    assert_eq!(encode(&filter.get_result()), stored(&[1, 1, 0, 0, 0, 1, 1]));
}

#[test]
fn encode_widens_the_rounds_and_keeps_the_probability_bits() {
    let results =
        FilterResults::new(vec![], 200, 0x00AB_CDEF, Probability::from_bits(0x7FC0_0001));
    assert_eq!(
        encode(&results),
        vec![0x43, 0x43, 0x42, 0x46, 0, 1, 0, 200, 0, 0xAB, 0xCD, 0xEF, 0x7F, 0xC0, 0, 1]
    );
}

#[test]
fn decode_reads_the_fields() {
    let decoded = decode(&stored(&[1, 0, 0, 0, 0, 1, 1]));
    assert_eq!(
        decoded,
        Ok(FilterResults::new(
            vec![true, false, false, false, false, true, true],
            3,
            7,
            Probability::default()
        ))
    );
}

#[test]
fn decode_undoes_encode() {
    let mut filter = BloomFilter::new(5, Probability::from_bits(0.01f32.to_bits()), 48, 7);
    for word in ["a", "b", "c", "d", "e"] {
        filter.insert(word.as_bytes());
    }
    let results = filter.get_result();
    let decoded = decode(&encode(&results)).unwrap();
    assert_eq!(decoded, results);
    assert_eq!(decoded.get_bitset(), results.get_bitset());
    assert_eq!(decoded.get_number_of_hash_functions(), [0, 7]);
    assert_eq!(decoded.get_probability(), 0.01f32.to_be_bytes());
    assert_eq!(encode(&decoded), encode(&results));
}

#[test]
fn decode_of_a_header_alone_is_an_empty_bit_array() {
    let decoded = decode(&stored(&[])).unwrap();
    assert_eq!(decoded, FilterResults::new(vec![], 3, 7, Probability::default()));
}

#[test]
fn recorded_length_round_trips_in_four_bytes() {
    let results = FilterResults::new(vec![true], 1, (1usize << 32) + 5, Probability::default());
    let decoded = decode(&encode(&results)).unwrap();
    assert_eq!(decoded, FilterResults::new(vec![true], 1, 5, Probability::default()));
}

#[test]
fn wrong_identifier_is_an_unrecognized_file_type() {
    let mut bytes = stored(&[1, 0, 1]);
    bytes[0] = b'X';
    assert_eq!(decode(&bytes), Err(FormatError::UnrecognizedFileType));
    let mut bytes = stored(&[1, 0, 1]);
    bytes[3] = b'f';
    assert_eq!(decode(&bytes), Err(FormatError::UnrecognizedFileType));
    assert_eq!(decode(b"PNG\x00 and more"), Err(FormatError::UnrecognizedFileType));
}

#[test]
fn wrong_identifier_is_judged_before_the_rest_is_read() {
    assert_eq!(decode(b"CCBX"), Err(FormatError::UnrecognizedFileType));
    assert_eq!(decode(b"XCBF\x00\x02"), Err(FormatError::UnrecognizedFileType));
}

#[test]
fn wrong_version_is_unsupported() {
    let mut bytes = stored(&[1, 0, 1]);
    bytes[5] = 2;
    assert_eq!(decode(&bytes), Err(FormatError::UnsupportedVersion));
    let mut bytes = stored(&[1, 0, 1]);
    bytes[4] = 1;
    assert_eq!(decode(&bytes), Err(FormatError::UnsupportedVersion));
    assert_eq!(decode(b"CCBF\x00\x00"), Err(FormatError::UnsupportedVersion));
}

#[test]
fn short_input_is_an_unexpected_end() {
    assert_eq!(decode(b""), Err(FormatError::UnexpectedEnd));
    assert_eq!(decode(b"CCB"), Err(FormatError::UnexpectedEnd));
    assert_eq!(decode(b"CCBF"), Err(FormatError::UnexpectedEnd));
    assert_eq!(decode(b"CCBF\x00"), Err(FormatError::UnexpectedEnd));
    assert_eq!(decode(b"CCBF\x00\x01"), Err(FormatError::UnexpectedEnd));
    assert_eq!(decode(&stored(&[])[..15]), Err(FormatError::UnexpectedEnd));
}

#[test]
fn only_the_byte_one_is_a_set_bit() {
    let decoded = decode(&stored(&[0, 1, 2, 255, 1])).unwrap();
    assert_eq!(decoded.get_bitset(), vec![0, 1, 0, 0, 1]);
}

#[test]
fn only_the_low_byte_of_the_rounds_is_read() {
    let mut bytes = stored(&[1]);
    bytes[6] = 1;
    bytes[7] = 4;
    let decoded = decode(&bytes).unwrap();
    assert_eq!(decoded.get_number_of_hash_functions(), [0, 4]);
}

#[test]
fn format_errors_describe_themselves() {
    assert_eq!(FormatError::UnrecognizedFileType.message(), "unrecognized file type");
    assert_eq!(FormatError::UnsupportedVersion.message(), "unsupported version");
    assert_eq!(FormatError::UnexpectedEnd.message(), "unexpected end of stream");
}

#[test]
fn big_endian_bytes_agree_with_std() {
    for value in [0u16, 1, 255, 256, 0x1234, u16::MAX] {
        assert_eq!(u16_to_be_bytes(value), value.to_be_bytes());
        assert_eq!(u16_from_be_bytes(value.to_be_bytes()), value);
    }
    for value in [0u32, 1, 255, 256, 0x1234_5678, 0x3E4C_CCCD, u32::MAX] {
        assert_eq!(u32_to_be_bytes(value), value.to_be_bytes());
        assert_eq!(u32_from_be_bytes(value.to_be_bytes()), value);
    }
    assert_eq!(u16_to_be_bytes(0x0102), [1, 2]);
    assert_eq!(u32_to_be_bytes(0x0102_0304), [1, 2, 3, 4]);
    assert_eq!(u32_from_be_bytes([0xDE, 0xAD, 0xBE, 0xEF]), 0xDEAD_BEEF);
}
