//! Byte-level helpers and the stored form of a filter.

pub mod ascii;
pub mod byte_order;
pub mod file_format;
