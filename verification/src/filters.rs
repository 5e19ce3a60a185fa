//! The Bloom filter and the hash family behind it.

pub mod bloom_filter;
pub mod hashing;
