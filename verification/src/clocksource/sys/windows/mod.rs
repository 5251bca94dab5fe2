//! Conversions of Windows clock readings: performance counter ticks and
//! `FILETIME` intervals of 100 nanoseconds.

pub mod monotonic;
pub mod realtime;
