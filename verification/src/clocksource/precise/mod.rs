//! Precise time representations represent times and durations as a whole
//! number of nanoseconds and use 64bit primitives as the internal
//! representation.

pub mod atomic_duration;
pub mod atomic_instant;
pub mod atomic_unix_instant;
pub mod duration;
pub mod instant;
pub mod unix_instant;

pub use atomic_duration::AtomicDuration;
pub use atomic_instant::AtomicInstant;
pub use atomic_unix_instant::AtomicUnixInstant;
pub use duration::Duration;
pub use instant::Instant;
pub use unix_instant::UnixInstant;
