use vstd::prelude::*;

verus! {

/// Errors returned for histogram construction and operations.
#[derive(Debug, Clone, Copy, PartialEq, Eq, Structural)]
pub enum Error {
    /// The max value power is too high, `n` must be at most 64.
    MaxPowerTooHigh,
    /// The max value power is too low, the powers below it must be smaller.
    MaxPowerTooLow,
    /// The histogram contains no observations.
    Empty,
    /// A percentile outside of `0.0..=100.0` was requested.
    InvalidPercentile,
    /// The value is outside of the storable range.
    OutOfRange,
    /// The histograms do not share the same parameters.
    IncompatibleParameters,
    /// The snapshot time ranges do not allow this operation.
    IncompatibleTimeRange,
    /// An overflow occurred.
    Overflow,
    /// An underflow occurred.
    Underflow,
    /// The subtracted histogram is not a subset of this histogram.
    InvalidSubset,
    /// The index and count vectors have different lengths.
    LengthMismatch,
    /// The instant lies outside of the sliding window.
    OutOfSlidingWindow,
    /// The sliding window interval is too long.
    IntervalTooLong,
    /// The sliding window interval is too short.
    IntervalTooShort,
    /// Unreachable code was encountered.
    Unreachable,
}

/// The human readable description of an error.
pub open spec fn error_text(e: Error) -> Seq<char> {
    match e {
        Error::MaxPowerTooHigh => "max power is too high, check that n <= 64"@,
        Error::MaxPowerTooLow => "max power is too low, check that a + b < n"@,
        Error::Empty => "histogram contains no observations"@,
        Error::InvalidPercentile => "invalid percentile, must be in range 0.0..=100.0"@,
        Error::OutOfRange => "the value is outside of the storable range"@,
        Error::IncompatibleParameters => "the histogram parameters are incompatible"@,
        Error::IncompatibleTimeRange => "the snapshot time ranges do not allow this operation"@,
        Error::Overflow => "an overflow occurred"@,
        Error::Underflow => "an underflow occurred"@,
        Error::InvalidSubset => "the other histogram is not a subset of this histogram"@,
        Error::LengthMismatch => "index and count vectors have mismatched lengths"@,
        Error::OutOfSlidingWindow => "the instant is outside of the sliding window"@,
        Error::IntervalTooLong => "the interval is too long"@,
        Error::IntervalTooShort => "the interval is too short"@,
        Error::Unreachable => "unreachable code encountered"@,
    }
}

impl Error {
    /// A human readable description of the error.
    pub fn description(&self) -> (s: &'static str)
        ensures
            s@ == error_text(*self),
    {
        match self {
            Error::MaxPowerTooHigh => "max power is too high, check that n <= 64",
            Error::MaxPowerTooLow => "max power is too low, check that a + b < n",
            Error::Empty => "histogram contains no observations",
            Error::InvalidPercentile => "invalid percentile, must be in range 0.0..=100.0",
            Error::OutOfRange => "the value is outside of the storable range",
            Error::IncompatibleParameters => "the histogram parameters are incompatible",
            Error::IncompatibleTimeRange => "the snapshot time ranges do not allow this operation",
            Error::Overflow => "an overflow occurred",
            Error::Underflow => "an underflow occurred",
            Error::InvalidSubset => "the other histogram is not a subset of this histogram",
            Error::LengthMismatch => "index and count vectors have mismatched lengths",
            Error::OutOfSlidingWindow => "the instant is outside of the sliding window",
            Error::IntervalTooLong => "the interval is too long",
            Error::IntervalTooShort => "the interval is too short",
            Error::Unreachable => "unreachable code encountered",
        }
    }
}

} // verus!
