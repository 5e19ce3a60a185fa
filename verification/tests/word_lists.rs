use spell_checker::filters::bloom_filter::{BloomFilter, FilterResults, Probability};
use spell_checker::utils::ascii::to_ascii_lowercase;
use spell_checker::utils::file_format::{encode, FormatError};
use spell_checker::{build_filter, load_filter, missing_words, FilterError};

fn strings(words: &[&str]) -> Vec<String> {
    words.iter().map(|word| word.to_string()).collect()
}

#[test]
fn build_filter_holds_every_line() {
    let lines = strings(&["hello", "world"]);
    let results = build_filter(&lines, Probability::default(), 7, 3).unwrap();
    assert_eq!(
        results,
        FilterResults::new(
            vec![true, true, false, false, false, true, true],
            3,
            7,
            Probability::default()
        )
    );
    let filter = BloomFilter::from(results);
    assert!(filter.lookup(b"hello"));
    assert!(filter.lookup(b"world"));
    assert!(!filter.lookup(b"goodbye"));
}

#[test]
fn build_filter_rejects_an_empty_word_list() {
    assert_eq!(build_filter(&vec![], Probability::default(), 7, 3), Err(FilterError::NoItems));
    assert_eq!(build_filter(&vec![], Probability::default(), 0, 0), Err(FilterError::NoItems));
}

#[test]
fn build_filter_rejects_no_bits_and_no_rounds() {
    let lines = strings(&["hello"]);
    assert_eq!(build_filter(&lines, Probability::default(), 0, 3), Err(FilterError::NoBits));
    assert_eq!(build_filter(&lines, Probability::default(), 0, 0), Err(FilterError::NoBits));
    assert_eq!(build_filter(&lines, Probability::default(), 7, 0), Err(FilterError::NoHashRounds));
}

#[test]
fn stored_filter_answers_as_the_built_one() {
    let lines = strings(&["hello", "world"]);
    let results = build_filter(&lines, Probability::default(), 7, 3).unwrap();
    let filter = load_filter(&encode(&results)).unwrap();
    assert_eq!(filter.count(), 7);
    assert_eq!(filter.get_probability(), Probability::default());
    assert!(filter.lookup(b"hello"));
    assert!(filter.lookup(b"world"));
    assert!(!filter.lookup(b"goodbye"));
}

#[test]
fn load_filter_passes_format_errors_on() {
    assert_eq!(load_filter(b"ABCD").err(), Some(FormatError::UnrecognizedFileType));
    assert_eq!(load_filter(b"CCBF\x00\x07").err(), Some(FormatError::UnsupportedVersion));
    assert_eq!(load_filter(b"CC").err(), Some(FormatError::UnexpectedEnd));
}

#[test]
fn missing_words_are_the_words_not_found() {
    let lines = strings(&["hello", "world"]);
    let results = build_filter(&lines, Probability::default(), 7, 3).unwrap();
    let filter = BloomFilter::from(results);
    let words = strings(&["hello", "goodbye", "world", "goodbye"]);
    assert_eq!(missing_words(&filter, &words), Ok(strings(&["goodbye", "goodbye"])));
    assert_eq!(missing_words(&filter, &vec![]), Ok(vec![]));
}

#[test]
fn words_are_looked_up_in_lower_case_and_reported_as_given() {
    let lines = strings(&["hello", "world"]);
    let results = build_filter(&lines, Probability::default(), 7, 3).unwrap();
    let filter = BloomFilter::from(results);
    let words = strings(&["Hello", "WORLD", "GoodBye"]);
    assert_eq!(missing_words(&filter, &words), Ok(strings(&["GoodBye"])));
}

#[test]
fn lines_are_inserted_as_they_are() {
    let lines = strings(&["GOODBYE"]);
    let results = build_filter(&lines, Probability::default(), 1000, 3).unwrap();
    let filter = BloomFilter::from(results);
    assert!(filter.lookup(b"GOODBYE"));
    assert_eq!(missing_words(&filter, &strings(&["GOODBYE"])), Ok(strings(&["GOODBYE"])));
}

#[test]
fn missing_words_rejects_a_filter_without_bits_or_rounds() {
    let words = strings(&["hello"]);
    let no_bits = BloomFilter::from(FilterResults::new(vec![], 3, 0, Probability::default()));
    assert_eq!(missing_words(&no_bits, &words), Err(FilterError::NoBits));
    let neither = BloomFilter::from(FilterResults::new(vec![], 0, 0, Probability::default()));
    assert_eq!(missing_words(&neither, &words), Err(FilterError::NoBits));
    let no_rounds =
        BloomFilter::from(FilterResults::new(vec![true; 8], 0, 8, Probability::default()));
    assert_eq!(missing_words(&no_rounds, &words), Err(FilterError::NoHashRounds));
}

#[test]
fn ascii_capitals_become_lower_case() {
    assert_eq!(to_ascii_lowercase(b"Hello, WORLD!"), b"hello, world!".to_vec());
    assert_eq!(to_ascii_lowercase(b"@AZ[`az{"), b"@az[`az{".to_vec());
    assert_eq!(to_ascii_lowercase(b""), Vec::<u8>::new());
}

#[test]
fn lower_case_agrees_with_std_on_text() {
    for text in ["Grüße", "ÀÉÎ straße", "ΑΒΓ abc XYZ", "日本語 Text", "MiXeD 123"] {
        assert_eq!(to_ascii_lowercase(text.as_bytes()), text.to_ascii_lowercase().into_bytes());
    }
    let every_byte: Vec<u8> = (0..=255).collect();
    assert_eq!(to_ascii_lowercase(&every_byte), every_byte.to_ascii_lowercase());
}

#[test]
fn filter_errors_describe_themselves() {
    assert_eq!(FilterError::NoItems.message(), "no items to build a filter from");
    assert_eq!(FilterError::NoBits.message(), "the bit array has no bits");
    assert_eq!(FilterError::NoHashRounds.message(), "the filter has no hash rounds");
    assert_eq!(FilterError::ItemTooLong.message(), "an item is too long to be hashed");
}
