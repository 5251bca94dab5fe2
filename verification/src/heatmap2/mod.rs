//! A concurrent histogram with 32 bit atomic counters, whose buckets are
//! linear of width `2^a` below `2^(a + b + 1)` and split each power of two
//! above it into `2^b` equal parts.

pub mod histogram;

pub use histogram::{Bucket, Histogram};
