//! Histograms that are conceptually similar to HdrHistogram, with a simpler
//! bucket construction: values below a cutoff are counted exactly (or in
//! linear bins of width `2^a`), and each power of two above the cutoff is
//! split into `2^grouping_power` equal buckets.

pub mod atomic;
pub mod bucket;
pub mod compact;
pub mod config;
pub mod errors;
pub mod parameters;
pub mod rank;
pub mod sliding_window;
pub mod snapshot;
pub mod sparse;
pub mod standard;
pub mod windowed;

pub use atomic::AtomicHistogram;
pub use bucket::Bucket;
pub use config::Config;
pub use errors::Error;
pub use parameters::Parameters;
pub use snapshot::Snapshot;
pub use sparse::{SparseHistogram, SparseHistogramRO};
pub use standard::Histogram;
