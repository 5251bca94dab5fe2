use vstd::prelude::*;
use crate::clocksource::precise::Instant;
use crate::histogram::AtomicHistogram;

verus! {

/// A slice of time of a heatmap and the histogram of the values recorded
/// in it.
pub struct Window<'a> {
    pub(crate) start: Instant,
    pub(crate) stop: Instant,
    pub(crate) histogram: &'a AtomicHistogram,
}

impl<'a> Window<'a> {
    /// The start of the slice of time.
    pub closed spec fn spec_start(&self) -> Instant {
        self.start
    }

    /// The end of the slice of time.
    pub closed spec fn spec_stop(&self) -> Instant {
        self.stop
    }

    /// The histogram of the slice.
    pub closed spec fn spec_histogram(&self) -> &'a AtomicHistogram {
        self.histogram
    }

    /// Returns the start of the slice of time.
    pub fn start(&self) -> (r: Instant)
        ensures
            r == self.spec_start(),
    {
        self.start
    }

    /// Returns the end of the slice of time.
    pub fn stop(&self) -> (r: Instant)
        ensures
            r == self.spec_stop(),
    {
        self.stop
    }

    /// Returns the histogram of the slice.
    pub fn histogram(&self) -> (r: &'a AtomicHistogram)
        ensures
            r == self.spec_histogram(),
    {
        self.histogram
    }
}

} // verus!
