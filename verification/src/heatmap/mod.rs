//! A heatmap stores counts for timestamped values over a configured span of
//! time, as a ring buffer of histograms with one more histogram that sums
//! them.

pub mod error;
pub mod heatmap;
pub mod window;

pub use error::Error;
pub use heatmap::{Builder, Heatmap, Iter};
pub use window::Window;
