use vstd::prelude::*;
use crate::clocksource::NANOS_PER_SEC;

verus! {

broadcast use crate::clocksource::group_time_views;

/// The precise reading of `count` performance counter ticks at `frequency`
/// ticks per second: whole seconds and the scaled remainder, in nanoseconds.
pub open spec fn counter_nanos(count: nat, frequency: nat) -> nat {
    (count / frequency) * 1_000_000_000 + ((count % frequency) * 1_000_000_000) / frequency
}

/// The coarse monotonic instant of a performance counter reading: its whole
/// seconds, truncated to 32 bits.
pub fn coarse(count: u64, frequency: u64) -> (r: crate::clocksource::coarse::Instant)
    requires
        frequency > 0,
    ensures
        r@ == (count / frequency) as u32,
{
    crate::clocksource::coarse::Instant { secs: (count / frequency) as u32 }
}

/// The precise monotonic instant of a performance counter reading.
pub fn precise(count: u64, frequency: u64) -> (r: crate::clocksource::precise::Instant)
    requires
        frequency > 0,
        counter_nanos(count as nat, frequency as nat) <= u64::MAX,
        (count % frequency) * 1_000_000_000 <= u64::MAX,
    ensures
        r@ == counter_nanos(count as nat, frequency as nat),
{
    let secs = count / frequency;
    let ns = count % frequency;
    proof {
        vstd::arithmetic::div_mod::lemma_div_pos_is_pos(
            ((count % frequency) * 1_000_000_000) as int,
            frequency as int,
        );
    }
    crate::clocksource::precise::Instant { ns: secs * NANOS_PER_SEC + ns * NANOS_PER_SEC / frequency }
}

} // verus!
