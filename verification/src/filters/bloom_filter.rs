//! The Bloom filter: a bit array and a number of hash rounds.
//!
//! An item sets one bit per round; it is reported as present when all of its
//! bits are set. Items that were inserted are always reported as present;
//! others may be.

use crate::filters::hashing::{index_of_round, round_index, MAX_ITEM_LEN};
use crate::utils::byte_order::{
    spec_u16_to_be_bytes, spec_u32_to_be_bytes, u16_to_be_bytes, u32_to_be_bytes,
};
use vstd::prelude::*;

verus! {

/// The bit pattern of 0.2 in IEEE-754 single precision.
pub const DEFAULT_PROBABILITY_BITS: u32 = 0x3E4C_CCCD;

/// A target rate of false positives, held as the bit pattern of an IEEE-754
/// single-precision number. The filter never computes with it: it keeps the
/// rate for its users and stores it with the bit array.
#[derive(Clone, Copy, Debug, PartialEq, Eq)]
pub struct Probability {
    pub bits: u32,
}

impl Probability {
    /// The probability with the given IEEE-754 single-precision bit pattern.
    pub fn from_bits(bits: u32) -> (probability: Probability)
        ensures
            probability.bits == bits,
    {
        Probability { bits }
    }

    /// The IEEE-754 single-precision bit pattern of the probability.
    pub fn to_bits(self) -> (bits: u32)
        ensures
            bits == self.bits,
    {
        self.bits
    }
}

impl Default for Probability {
    /// The default rate, 0.2.
    fn default() -> (probability: Probability)
        ensures
            probability.bits == DEFAULT_PROBABILITY_BITS,
    {
        Probability { bits: DEFAULT_PROBABILITY_BITS }
    }
}

/// Whether some round below `rounds` selects `position` for `value` in an
/// array of `size` bits.
pub open spec fn selects(value: Seq<u8>, rounds: nat, size: nat, position: int) -> bool {
    exists|round: int| 0 <= round < rounds && #[trigger] round_index(value, round, size) == position
}

/// The model of a filter.
pub struct FilterState {
    /// The bit array.
    pub bits: Seq<bool>,
    /// The number of hash rounds per item.
    pub hash_count: u8,
    /// The number of items the filter was sized for; not a count of inserts.
    pub item_count: nat,
    /// The rate of false positives the filter was sized for.
    pub probability: Probability,
}

impl FilterState {
    /// A filter has at least one bit and at least one hash round.
    pub open spec fn wf(self) -> bool {
        self.bits.len() >= 1 && self.hash_count >= 1
    }

    /// The filter of `size` bits in which no bit is set.
    pub open spec fn fresh(
        item_count: nat,
        probability: Probability,
        size: nat,
        hash_count: u8,
    ) -> FilterState {
        FilterState { bits: Seq::new(size, |position: int| false), hash_count, item_count, probability }
    }

    /// The filter after `value` was inserted: the bits that were set stay
    /// set, and so is each bit that a round selects for `value`.
    pub open spec fn insert(self, value: Seq<u8>) -> FilterState {
        FilterState {
            bits: Seq::new(
                self.bits.len(),
                |position: int|
                    self.bits[position] || selects(
                        value,
                        self.hash_count as nat,
                        self.bits.len(),
                        position,
                    ),
            ),
            ..self
        }
    }

    /// The filter after each of `items` was inserted.
    pub open spec fn insert_all(self, items: Seq<Seq<u8>>) -> FilterState {
        FilterState {
            bits: Seq::new(
                self.bits.len(),
                |position: int|
                    self.bits[position] || exists|n: int|
                        0 <= n < items.len() && selects(
                            #[trigger] items[n],
                            self.hash_count as nat,
                            self.bits.len(),
                            position,
                        ),
            ),
            ..self
        }
    }

    /// Whether the filter reports `value` as present: every bit that a round
    /// selects for `value` is set.
    pub open spec fn lookup(self, value: Seq<u8>) -> bool {
        forall|round: int|
            0 <= round < self.hash_count ==> self.bits[#[trigger] round_index(
                value,
                round,
                self.bits.len(),
            )]
    }
}

/// Inserting no items leaves a filter as it is.
pub proof fn lemma_insert_all_of_nothing(state: FilterState)
    ensures
        state.insert_all(Seq::empty()) == state,
{
    assert(state.insert_all(Seq::empty()).bits =~= state.bits);
}

/// Inserting a sequence of items and then one more item is inserting the
/// longer sequence: `insert_all` is what repeated `insert` gives.
pub proof fn lemma_insert_all_then_one(state: FilterState, items: Seq<Seq<u8>>, value: Seq<u8>)
    ensures
        state.insert_all(items.push(value)) == state.insert_all(items).insert(value),
{
    let size = state.bits.len();
    let rounds = state.hash_count as nat;
    let longer = items.push(value);
    let left = state.insert_all(longer).bits;
    let right = state.insert_all(items).insert(value).bits;
    assert forall|position: int| 0 <= position < size implies left[position] == right[position] by {
        if right[position] && !state.bits[position] {
            if selects(value, rounds, size, position) {
                assert(longer[items.len() as int] == value);
            } else {
                let n = choose|n: int|
                    0 <= n < items.len() && selects(#[trigger] items[n], rounds, size, position);
                assert(longer[n] == items[n]);
            }
        }
    }
    assert(left =~= right);
}

/// No false negatives: after the items of a sequence were inserted into a
/// filter, whatever it held before, each of them is found.
pub proof fn lemma_no_false_negatives(state: FilterState, items: Seq<Seq<u8>>, n: int)
    requires
        state.bits.len() >= 1,
        0 <= n < items.len(),
    ensures
        state.insert_all(items).lookup(items[n]),
{
}

/// An item is found as soon as it was inserted.
pub proof fn lemma_inserted_is_found(state: FilterState, value: Seq<u8>)
    requires
        state.bits.len() >= 1,
    ensures
        state.insert(value).lookup(value),
{
}

/// Inserting only sets bits: the array keeps its length, a bit that was set
/// stays set, and the number of rounds, the item count and the probability
/// stay as they were.
pub proof fn lemma_insert_only_sets_bits(state: FilterState, value: Seq<u8>)
    ensures
        state.insert(value).bits.len() == state.bits.len(),
        forall|position: int|
            0 <= position < state.bits.len() && state.bits[position] ==> #[trigger] state.insert(
                value,
            ).bits[position],
        state.insert(value).hash_count == state.hash_count,
        state.insert(value).item_count == state.item_count,
        state.insert(value).probability == state.probability,
{
}

/// Across any sequence of inserts bits only go from clear to set.
pub proof fn lemma_insert_all_only_sets_bits(state: FilterState, items: Seq<Seq<u8>>)
    ensures
        state.insert_all(items).bits.len() == state.bits.len(),
        forall|position: int|
            0 <= position < state.bits.len() && state.bits[position]
                ==> #[trigger] state.insert_all(items).bits[position],
        state.insert_all(items).hash_count == state.hash_count,
        state.insert_all(items).item_count == state.item_count,
        state.insert_all(items).probability == state.probability,
{
}

/// An item that is found stays found, whatever is inserted afterwards.
pub proof fn lemma_found_stays_found(state: FilterState, value: Seq<u8>, later: Seq<u8>)
    requires
        state.bits.len() >= 1,
        state.lookup(value),
    ensures
        state.insert(later).lookup(value),
{
}

/// Inserting an item a second time changes nothing.
pub proof fn lemma_insert_is_idempotent(state: FilterState, value: Seq<u8>)
    ensures
        state.insert(value).insert(value) == state.insert(value),
{
    assert(state.insert(value).insert(value).bits =~= state.insert(value).bits);
}

/// Inserting an item that was inserted at any time before changes nothing.
pub proof fn lemma_reinsert_changes_nothing(state: FilterState, items: Seq<Seq<u8>>, n: int)
    requires
        0 <= n < items.len(),
    ensures
        state.insert_all(items).insert(items[n]) == state.insert_all(items),
{
    assert(state.insert_all(items).insert(items[n]).bits =~= state.insert_all(items).bits);
}

/// The model of the state of a filter as it is stored.
pub struct StoredState {
    /// The bit array.
    pub bits: Seq<bool>,
    /// The number of hash rounds per item.
    pub hash_count: u8,
    /// The length recorded for the bit array.
    pub bit_array_size: nat,
    /// The rate of false positives the filter was sized for.
    pub probability: Probability,
}

impl StoredState {
    /// The filter that is rebuilt from a stored state. The stored form has no
    /// field for the number of expected items: the recorded length of the bit
    /// array takes its place.
    pub open spec fn to_filter(self) -> FilterState {
        FilterState {
            bits: self.bits,
            hash_count: self.hash_count,
            item_count: self.bit_array_size,
            probability: self.probability,
        }
    }
}

/// One byte per bit: 1 for a set bit, 0 for a clear one.
pub open spec fn bits_to_bytes(bits: Seq<bool>) -> Seq<u8> {
    Seq::new(bits.len(), |position: int| if bits[position] { 1u8 } else { 0u8 })
}

/// The state of a filter, ready to be stored.
#[derive(Debug, PartialEq, Eq)]
pub struct FilterResults {
    bitset: Vec<bool>,
    number_of_hash_functions: u8,
    bit_array_size: usize,
    probability: Probability,
}

impl View for FilterResults {
    type V = StoredState;

    closed spec fn view(&self) -> StoredState {
        StoredState {
            bits: self.bitset@,
            hash_count: self.number_of_hash_functions,
            bit_array_size: self.bit_array_size as nat,
            probability: self.probability,
        }
    }
}

impl FilterResults {
    /// The state with the given bit array, number of hash rounds, recorded
    /// length of the bit array and probability. The recorded length is taken
    /// as it is given, whatever the length of the bit array.
    pub fn new(
        bitset: Vec<bool>,
        number_of_hash_functions: u8,
        bit_array_size: usize,
        probability: Probability,
    ) -> (results: FilterResults)
        ensures
            results@ == (StoredState {
                bits: bitset@,
                hash_count: number_of_hash_functions,
                bit_array_size: bit_array_size as nat,
                probability,
            }),
    {
        FilterResults { bitset, number_of_hash_functions, bit_array_size, probability }
    }

    /// The number of hash rounds, widened to two bytes, most significant first.
    pub fn get_number_of_hash_functions(&self) -> (bytes: [u8; 2])
        ensures
            bytes@ == spec_u16_to_be_bytes(self@.hash_count as u16),
    {
        u16_to_be_bytes(self.number_of_hash_functions as u16)
    }

    /// The low 32 bits of the recorded length of the bit array, most
    /// significant byte first.
    pub fn get_array_size(&self) -> (bytes: [u8; 4])
        ensures
            bytes@ == spec_u32_to_be_bytes((self@.bit_array_size % 0x1_0000_0000) as u32),
    {
        let low: u64 = self.bit_array_size as u64 % 0x1_0000_0000;
        u32_to_be_bytes(low as u32)
    }

    /// The bit pattern of the probability, most significant byte first.
    pub fn get_probability(&self) -> (bytes: [u8; 4])
        ensures
            bytes@ == spec_u32_to_be_bytes(self@.probability.bits),
    {
        u32_to_be_bytes(self.probability.bits)
    }

    /// The bit array with one byte per bit, 0 or 1, in index order.
    pub fn get_bitset(&self) -> (bytes: Vec<u8>)
        ensures
            bytes@ == bits_to_bytes(self@.bits),
    {
        let mut bytes: Vec<u8> = Vec::new();
        let mut position: usize = 0;
        while position < self.bitset.len()
            invariant
                position <= self.bitset@.len(),
                bytes@ == bits_to_bytes(self.bitset@.take(position as int)),
            decreases self.bitset@.len() - position,
        {
            bytes.push(if self.bitset[position] { 1 } else { 0 });
            position += 1;
        }
        bytes
    }
}

/// A Bloom filter that hashes with murmur3, seeded by the round index.
///
/// For example, a filter of 2^24 bits and 10 hash rounds that holds 380 000
/// items reports an item that was never inserted as present with a
/// probability of about 1.2 in ten million.
#[derive(Debug)]
pub struct BloomFilter {
    bitset: Vec<bool>,
    number_of_hashes: u8,
    item_count: usize,
    probability_of_false_positives: Probability,
}

impl View for BloomFilter {
    type V = FilterState;

    closed spec fn view(&self) -> FilterState {
        FilterState {
            bits: self.bitset@,
            hash_count: self.number_of_hashes,
            item_count: self.item_count as nat,
            probability: self.probability_of_false_positives,
        }
    }
}

impl BloomFilter {
    /// Creates a filter of `size` bits, none of them set, with
    /// `number_of_hashes` hash rounds per item. `item_count` and
    /// `probability` are what the filter was sized for; they are kept for
    /// its users and take no part in inserting or looking up. How many bits
    /// and rounds suit them is for the caller to work out.
    pub fn new(
        item_count: usize,
        probability: Probability,
        size: usize,
        number_of_hashes: u8,
    ) -> (filter: BloomFilter)
        requires
            size >= 1,
            number_of_hashes >= 1,
        ensures
            filter@ == FilterState::fresh(
                item_count as nat,
                probability,
                size as nat,
                number_of_hashes,
            ),
            filter@.wf(),
    {
        let bitset: Vec<bool> = vec![false; size];
        assert(bitset@ =~= Seq::new(size as nat, |position: int| false));
        BloomFilter {
            bitset,
            number_of_hashes,
            item_count,
            probability_of_false_positives: probability,
        }
    }

    /// Whether the filter has at least one bit and at least one hash round.
    pub fn is_well_formed(&self) -> (well_formed: bool)
        ensures
            well_formed == self@.wf(),
    {
        self.bitset.len() >= 1 && self.number_of_hashes >= 1
    }

    /// The number of bits of the filter.
    pub fn size(&self) -> (size: usize)
        ensures
            size == self@.bits.len(),
    {
        self.bitset.len()
    }

    /// The number of hash rounds per item.
    pub fn number_of_hashes(&self) -> (number_of_hashes: u8)
        ensures
            number_of_hashes == self@.hash_count,
    {
        self.number_of_hashes
    }

    /// Inserts a value: sets, for each round, the bit that the round selects.
    /// No bit is cleared, and nothing but the bit array changes. A round
    /// whose hash fails selects bit zero.
    pub fn insert(&mut self, value: &[u8])
        requires
            old(self)@.wf(),
            value@.len() <= MAX_ITEM_LEN,
        ensures
            final(self)@ == old(self)@.insert(value@),
            final(self)@.wf(),
    {
        let size: usize = self.bitset.len();
        let mut round: u8 = 0;
        while round < self.number_of_hashes
            invariant
                size >= 1,
                value@.len() <= MAX_ITEM_LEN,
                round <= self.number_of_hashes,
                self.number_of_hashes == old(self).number_of_hashes,
                self.item_count == old(self).item_count,
                self.probability_of_false_positives == old(self).probability_of_false_positives,
                self.bitset@.len() == size == old(self).bitset@.len(),
                forall|position: int|
                    0 <= position < size ==> self.bitset@[position] == (old(self).bitset@[position]
                        || selects(value@, round as nat, size as nat, position)),
            decreases self.number_of_hashes - round,
        {
            let index: usize = index_of_round(value, round, size);
            self.bitset.set(index, true);
            round += 1;
        }
        assert(self@.bits =~= old(self)@.insert(value@).bits);
    }

    /// Checks whether a value may have been inserted: `true` when every bit
    /// that a round selects for it is set. A value that was inserted is
    /// always found; one that was not may be found too.
    pub fn lookup(&self, value: &[u8]) -> (found: bool)
        requires
            self@.wf(),
            value@.len() <= MAX_ITEM_LEN,
        ensures
            found == self@.lookup(value@),
    {
        let size: usize = self.bitset.len();
        let mut round: u8 = 0;
        while round < self.number_of_hashes
            invariant
                size >= 1,
                value@.len() <= MAX_ITEM_LEN,
                round <= self.number_of_hashes,
                self.bitset@.len() == size,
                forall|earlier: int|
                    0 <= earlier < round ==> self.bitset@[#[trigger] round_index(
                        value@,
                        earlier,
                        size as nat,
                    )],
            decreases self.number_of_hashes - round,
        {
            let index: usize = index_of_round(value, round, size);
            if !self.bitset[index] {
                assert(!self@.bits[round_index(value@, round as int, self@.bits.len())]);
                return false;
            }
            round += 1;
        }
        true
    }

    /// The number of items the filter was sized for. A filter rebuilt from
    /// its stored form gives the recorded length of its bit array instead.
    pub fn count(&self) -> (item_count: usize)
        ensures
            item_count == self@.item_count,
    {
        self.item_count
    }

    /// The rate of false positives the filter was sized for.
    pub fn get_probability(&self) -> (probability: Probability)
        ensures
            probability == self@.probability,
    {
        self.probability_of_false_positives
    }

    /// The state of the filter, ready to be stored: a copy of the bit array,
    /// its length, the number of hash rounds and the probability.
    pub fn get_result(&self) -> (results: FilterResults)
        ensures
            results@ == (StoredState {
                bits: self@.bits,
                hash_count: self@.hash_count,
                bit_array_size: self@.bits.len(),
                probability: self@.probability,
            }),
    {
        let bitset: Vec<bool> = self.bitset.clone();
        FilterResults {
            bitset,
            number_of_hash_functions: self.number_of_hashes,
            bit_array_size: self.bitset.len(),
            probability: self.probability_of_false_positives,
        }
    }
}

impl From<FilterResults> for BloomFilter {
    /// Rebuilds a filter from its stored state. The recorded length of the
    /// bit array stands in for the number of expected items, which the
    /// stored form does not hold.
    fn from(results: FilterResults) -> (filter: BloomFilter)
        ensures
            filter@ == results@.to_filter(),
    {
        BloomFilter {
            bitset: results.bitset,
            number_of_hashes: results.number_of_hash_functions,
            item_count: results.bit_array_size,
            probability_of_false_positives: results.probability,
        }
    }
}

impl vstd::std_specs::convert::FromSpecImpl<FilterResults> for BloomFilter {
    open spec fn obeys_from_spec() -> bool {
        true
    }

    closed spec fn from_spec(results: FilterResults) -> BloomFilter {
        BloomFilter {
            bitset: results.bitset,
            number_of_hashes: results.number_of_hash_functions,
            item_count: results.bit_array_size,
            probability_of_false_positives: results.probability,
        }
    }
}

} // verus!
