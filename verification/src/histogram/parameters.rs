use vstd::prelude::*;

verus! {

/// The parameters that determine the histogram bucketing.
/// * `grouping_power` - controls the number of buckets that are used to span
///   consecutive powers of two. Lower values result in less memory usage since
///   fewer buckets will be created. However, this will result in larger
///   relative error as each bucket represents a wider range of values.
/// * `max_value_power` - controls the largest value which can be stored in the
///   histogram. `2^(max_value_power) - 1` is the inclusive upper bound for the
///   representable range of values.
///
/// Constraints:
/// * `max_value_power` must be in the range `0..=64`
/// * `max_value_power` must be greater than `grouping_power`
#[derive(PartialEq, Eq, Structural, Debug, Copy, Clone)]
pub struct Parameters {
    pub grouping_power: u8,
    pub max_value_power: u8,
}

} // verus!
