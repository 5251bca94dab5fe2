//! Conversions of `clock_gettime` readings (seconds and nanoseconds).

pub mod monotonic;
pub mod realtime;

use vstd::prelude::*;

verus! {

/// The nanosecond reading of a timespec, wrapping as a `u64`.
pub open spec fn timespec_nanos(tv_sec: i64, tv_nsec: i64) -> nat {
    (((tv_sec as u64) as nat) * 1_000_000_000 + ((tv_nsec as u64) as nat)) % 0x1_0000_0000_0000_0000
}

/// The nanosecond reading of a timespec: `tv_sec * 10^9 + tv_nsec`, wrapping
/// on overflow.
pub fn timespec_to_nanos(tv_sec: i64, tv_nsec: i64) -> (r: u64)
    ensures
        r == timespec_nanos(tv_sec, tv_nsec),
{
    let secs = tv_sec as u64;
    let nanos = tv_nsec as u64;
    let m = secs.wrapping_mul(1_000_000_000);
    let r = m.wrapping_add(nanos);
    proof {
        let big: int = 0x1_0000_0000_0000_0000;
        let x: int = secs as int * 1_000_000_000;
        vstd::arithmetic::div_mod::lemma_add_mod_noop(x, nanos as int, big);
        vstd::arithmetic::div_mod::lemma_small_mod(nanos as nat, big as nat);
        assert(m == x % big);
        if m + nanos >= big {
            vstd::arithmetic::div_mod::lemma_fundamental_div_mod_converse(
                m + nanos,
                big,
                1,
                m + nanos - big,
            );
        } else {
            vstd::arithmetic::div_mod::lemma_small_mod((m + nanos) as nat, big as nat);
        }
    }
    r
}

} // verus!
