//! A spell checker on a Bloom filter.
//!
//! A filter is built from the lines of a word list and stored in a compact
//! binary form. A filter that was loaded from that form answers which of a
//! number of words it does not find. Words are looked up in lower case: a
//! word whose lower-case form is a line of the list is never reported as
//! missing, and a word that is not in the list may pass as present.

pub mod filters;
pub mod utils;

use crate::filters::bloom_filter::{
    lemma_insert_all_of_nothing, lemma_insert_all_then_one, lemma_no_false_negatives, BloomFilter,
    FilterResults, FilterState, Probability, StoredState,
};
use crate::filters::hashing::MAX_ITEM_LEN;
use crate::utils::ascii::{spec_to_ascii_lowercase, to_ascii_lowercase};
use crate::utils::file_format::{
    decode, lemma_decode_inverts_encode, spec_decode, spec_encode, FormatError,
};
use vstd::prelude::*;
use vstd::utf8::encode_utf8;

verus! {

/// Why a filter cannot be built or asked.
#[derive(Clone, Copy, Debug, PartialEq, Eq)]
pub enum FilterError {
    /// There is no item to build a filter from.
    NoItems,
    /// The bit array would have no bit.
    NoBits,
    /// Items would be hashed in no round.
    NoHashRounds,
    /// An item is longer than the hash can take.
    ItemTooLong,
}

impl FilterError {
    /// A description of the error for a user.
    pub fn message(&self) -> (text: &'static str)
        ensures
            text@ == match *self {
                FilterError::NoItems => "no items to build a filter from"@,
                FilterError::NoBits => "the bit array has no bits"@,
                FilterError::NoHashRounds => "the filter has no hash rounds"@,
                FilterError::ItemTooLong => "an item is too long to be hashed"@,
            },
    {
        match self {
            FilterError::NoItems => "no items to build a filter from",
            FilterError::NoBits => "the bit array has no bits",
            FilterError::NoHashRounds => "the filter has no hash rounds",
            FilterError::ItemTooLong => "an item is too long to be hashed",
        }
    }
}

/// The items that the lines of a word list stand for: their UTF-8 bytes.
pub open spec fn items_of(lines: Seq<String>) -> Seq<Seq<u8>> {
    Seq::new(lines.len(), |n: int| encode_utf8(lines[n]@))
}

/// Whether one of `words` is longer, in bytes, than the hash can take.
pub open spec fn some_too_long(words: Seq<String>) -> bool {
    exists|n: int| 0 <= n < words.len() && (#[trigger] items_of(words)[n]).len() > MAX_ITEM_LEN
}

/// The reason, if there is one, why no filter is built: the first of no
/// lines, no bits, no hash rounds, a line that is too long.
pub open spec fn build_error(lines: Seq<String>, size: nat, hash_count: u8) -> Option<
    FilterError,
> {
    if lines.len() == 0 {
        Some(FilterError::NoItems)
    } else if size == 0 {
        Some(FilterError::NoBits)
    } else if hash_count == 0 {
        Some(FilterError::NoHashRounds)
    } else if some_too_long(lines) {
        Some(FilterError::ItemTooLong)
    } else {
        None
    }
}

/// The filter of `size` bits and `hash_count` rounds that holds the lines.
pub open spec fn filter_of(
    lines: Seq<String>,
    probability: Probability,
    size: nat,
    hash_count: u8,
) -> FilterState {
    FilterState::fresh(lines.len(), probability, size, hash_count).insert_all(items_of(lines))
}

/// The state, ready to be stored, of the filter that holds the lines.
pub open spec fn stored_filter_of(
    lines: Seq<String>,
    probability: Probability,
    size: nat,
    hash_count: u8,
) -> StoredState {
    StoredState {
        bits: filter_of(lines, probability, size, hash_count).bits,
        hash_count,
        bit_array_size: size,
        probability,
    }
}

/// Builds the filter of a word list, one item per line, and returns its
/// state, ready to be stored. The filter is sized for as many items as there
/// are lines.
///
/// An empty word list is rejected: no filter can be sized for it. So are a
/// bit array without bits, a filter without hash rounds and a line of more
/// than `MAX_ITEM_LEN` bytes.
pub fn build_filter(
    lines: &Vec<String>,
    probability: Probability,
    size: usize,
    number_of_hashes: u8,
) -> (built: Result<FilterResults, FilterError>)
    ensures
        match built {
            Ok(results) => {
                &&& build_error(lines@, size as nat, number_of_hashes) is None
                &&& results@ == stored_filter_of(
                    lines@,
                    probability,
                    size as nat,
                    number_of_hashes,
                )
                &&& forall|n: int|
                    0 <= n < lines@.len() ==> results@.to_filter().lookup(
                        #[trigger] items_of(lines@)[n],
                    )
            },
            Err(error) => build_error(lines@, size as nat, number_of_hashes) == Some(error),
        },
{
    if lines.len() == 0 {
        return Err(FilterError::NoItems);
    }
    if size == 0 {
        return Err(FilterError::NoBits);
    }
    if number_of_hashes == 0 {
        return Err(FilterError::NoHashRounds);
    }
    let ghost items = items_of(lines@);
    let ghost fresh = FilterState::fresh(lines@.len(), probability, size as nat, number_of_hashes);
    let mut bloom_filter = BloomFilter::new(lines.len(), probability, size, number_of_hashes);
    proof {
        lemma_insert_all_of_nothing(fresh);
        assert(items.take(0) =~= Seq::<Seq<u8>>::empty());
    }
    let mut n: usize = 0;
    while n < lines.len()
        invariant
            n <= lines@.len(),
            size >= 1,
            number_of_hashes >= 1,
            items == items_of(lines@),
            bloom_filter@ == fresh.insert_all(items.take(n as int)),
            bloom_filter@.wf(),
            forall|earlier: int| 0 <= earlier < n ==> (#[trigger] items[earlier]).len() <= MAX_ITEM_LEN,
        decreases lines@.len() - n,
    {
        let word: &[u8] = lines[n].as_str().as_bytes();
        assert(word@ == items_of(lines@)[n as int]);
        if word.len() > MAX_ITEM_LEN {
            return Err(FilterError::ItemTooLong);
        }
        bloom_filter.insert(word);
        proof {
            lemma_insert_all_then_one(fresh, items.take(n as int), items[n as int]);
            assert(items.take(n as int).push(items[n as int]) =~= items.take(n + 1));
        }
        n += 1;
    }
    proof {
        assert(items.take(n as int) =~= items);
        assert forall|n: int| 0 <= n < lines@.len() implies bloom_filter@.lookup(
            #[trigger] items[n],
        ) by {
            lemma_no_false_negatives(fresh, items, n);
        }
    }
    Ok(bloom_filter.get_result())
}

/// Rebuilds a filter from its stored form. The filter counts as sized for
/// as many items as the stored form records bits.
pub fn load_filter(bytes: &[u8]) -> (loaded: Result<BloomFilter, FormatError>)
    ensures
        match loaded {
            Ok(filter) => spec_decode(bytes@) matches Ok(state) && filter@ == state.to_filter(),
            Err(error) => spec_decode(bytes@) == Err::<StoredState, FormatError>(error),
        },
{
    match decode(bytes) {
        Ok(results) => Ok(BloomFilter::from(results)),
        Err(error) => Err(error),
    }
}

/// Whether a filter reports a word as missing: it does not find the bytes of
/// the word, its ASCII capitals in lower case.
pub open spec fn is_missing(filter: FilterState, word: String) -> bool {
    !filter.lookup(spec_to_ascii_lowercase(encode_utf8(word@)))
}

/// The reason, if there is one, why a filter cannot be asked for words: the
/// first of no bits, no hash rounds, a word that is too long.
pub open spec fn query_error(filter: FilterState, words: Seq<String>) -> Option<FilterError> {
    if filter.bits.len() == 0 {
        Some(FilterError::NoBits)
    } else if filter.hash_count == 0 {
        Some(FilterError::NoHashRounds)
    } else if some_too_long(words) {
        Some(FilterError::ItemTooLong)
    } else {
        None
    }
}

/// The words that the filter does not find, in the order in which they were
/// given. Each word is looked up with its ASCII capitals in lower case and
/// reported as it was given. The lower-case form of a word that is reported
/// is certainly not among the items of the filter.
pub fn missing_words(filter: &BloomFilter, words: &Vec<String>) -> (answer: Result<
    Vec<String>,
    FilterError,
>)
    ensures
        match answer {
            Ok(missing) => {
                &&& query_error(filter@, words@) is None
                &&& missing@ == words@.filter(|word: String| is_missing(filter@, word))
            },
            Err(error) => query_error(filter@, words@) == Some(error),
        },
{
    if !filter.is_well_formed() {
        return Err(
            if filter.size() == 0 {
                FilterError::NoBits
            } else {
                FilterError::NoHashRounds
            },
        );
    }
    let ghost absent = |word: String| is_missing(filter@, word);
    let mut missing_words: Vec<String> = Vec::new();
    let mut n: usize = 0;
    while n < words.len()
        invariant
            n <= words@.len(),
            filter@.wf(),
            absent == |word: String| is_missing(filter@, word),
            missing_words@ == words@.take(n as int).filter(absent),
            forall|earlier: int|
                0 <= earlier < n ==> (#[trigger] items_of(words@)[earlier]).len() <= MAX_ITEM_LEN,
        decreases words@.len() - n,
    {
        let word: &[u8] = words[n].as_str().as_bytes();
        assert(word@ == items_of(words@)[n as int]);
        if word.len() > MAX_ITEM_LEN {
            return Err(FilterError::ItemTooLong);
        }
        let word_lower_case: Vec<u8> = to_ascii_lowercase(word);
        proof {
            words@.take(n as int).lemma_filter_push(words@[n as int], absent);
            assert(words@.take(n as int).push(words@[n as int]) =~= words@.take(n + 1));
        }
        if !filter.lookup(word_lower_case.as_slice()) {
            missing_words.push(words[n].clone());
        }
        n += 1;
    }
    assert(words@.take(n as int) =~= words@);
    Ok(missing_words)
}

/// A filter that was built from a word list, stored and loaded again finds
/// every line of the list.
pub proof fn lemma_stored_filter_finds_every_line(
    lines: Seq<String>,
    probability: Probability,
    size: nat,
    hash_count: u8,
    n: int,
)
    requires
        size >= 1,
        0 <= n < lines.len(),
    ensures
        spec_decode(spec_encode(stored_filter_of(lines, probability, size, hash_count))) matches Ok(
            state,
        ) && state.to_filter().lookup(items_of(lines)[n]),
{
    lemma_decode_inverts_encode(stored_filter_of(lines, probability, size, hash_count));
    lemma_no_false_negatives(
        FilterState::fresh(lines.len(), probability, size, hash_count),
        items_of(lines),
        n,
    );
}

/// A word whose lower-case form is a line of the word list is not reported
/// as missing by the filter of the list.
pub proof fn lemma_listed_word_is_not_missing(
    lines: Seq<String>,
    probability: Probability,
    size: nat,
    hash_count: u8,
    word: String,
    n: int,
)
    requires
        size >= 1,
        0 <= n < lines.len(),
        spec_to_ascii_lowercase(encode_utf8(word@)) == items_of(lines)[n],
    ensures
        !is_missing(stored_filter_of(lines, probability, size, hash_count).to_filter(), word),
{
    lemma_no_false_negatives(
        FilterState::fresh(lines.len(), probability, size, hash_count),
        items_of(lines),
        n,
    );
}

} // verus!
