use vstd::prelude::*;
use vstd::std_specs::convert::FromSpecImpl;

verus! {

/// Errors returned by heatmap operations.
#[derive(Debug, Clone, Copy, PartialEq, Eq, Structural)]
pub enum Error {
    /// The heatmap contains no observations.
    Empty,
    /// A percentile outside of `0.0..=100.0` was requested.
    InvalidPercentile,
    /// The value is outside of the storable range.
    OutOfRange,
    /// The time lies before the span covered by the heatmap.
    OutOfSpan,
    /// The clock moved forward by more than one slice since the last update.
    StaleClock,
    /// Another histogram error.
    Histogram(crate::histogram::Error),
}

/// The human readable description of a heatmap error.
pub open spec fn heatmap_error_text(e: Error) -> Seq<char> {
    match e {
        Error::Empty => "heatmap contains no observations"@,
        Error::InvalidPercentile => "invalid percentile, must be in range 0.0..=100.0"@,
        Error::OutOfRange => "the value is outside of the storable range"@,
        Error::OutOfSpan => "the time is before the span covered by the heatmap"@,
        Error::StaleClock => "the heatmap clock moved forward by more than one slice"@,
        Error::Histogram(h) => crate::histogram::errors::error_text(h),
    }
}

impl Error {
    /// A human readable description of the error.
    pub fn description(&self) -> (s: &'static str)
        ensures
            s@ == heatmap_error_text(*self),
    {
        match self {
            Error::Empty => "heatmap contains no observations",
            Error::InvalidPercentile => "invalid percentile, must be in range 0.0..=100.0",
            Error::OutOfRange => "the value is outside of the storable range",
            Error::OutOfSpan => "the time is before the span covered by the heatmap",
            Error::StaleClock => "the heatmap clock moved forward by more than one slice",
            Error::Histogram(e) => e.description(),
        }
    }

    /// The heatmap error for a histogram error: the ones that a heatmap
    /// reports itself are mapped to their own variants.
    pub fn from_histogram(e: crate::histogram::Error) -> (r: Error)
        ensures
            r == from_histogram_spec(e),
    {
        match e {
            crate::histogram::Error::Empty => Error::Empty,
            crate::histogram::Error::InvalidPercentile => Error::InvalidPercentile,
            crate::histogram::Error::OutOfRange => Error::OutOfRange,
            _ => Error::Histogram(e),
        }
    }
}

/// The heatmap error for a histogram error.
pub open spec fn from_histogram_spec(e: crate::histogram::Error) -> Error {
    match e {
        crate::histogram::Error::Empty => Error::Empty,
        crate::histogram::Error::InvalidPercentile => Error::InvalidPercentile,
        crate::histogram::Error::OutOfRange => Error::OutOfRange,
        _ => Error::Histogram(e),
    }
}

impl From<crate::histogram::Error> for Error {
    fn from(e: crate::histogram::Error) -> (r: Error) {
        Error::from_histogram(e)
    }
}

impl FromSpecImpl<crate::histogram::Error> for Error {
    open spec fn obeys_from_spec() -> bool {
        true
    }

    open spec fn from_spec(v: crate::histogram::Error) -> Error {
        from_histogram_spec(v)
    }
}

} // verus!
