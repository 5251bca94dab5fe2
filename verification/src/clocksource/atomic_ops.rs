//! Compare-and-exchange on the standard atomic integers, with what their
//! documentation says of the returned previous value.

use vstd::prelude::*;
use core::sync::atomic::{AtomicU32, AtomicU64, Ordering};

verus! {

/// `load` and a failure ordering of a compare-and-exchange panic for
/// `Release` and `AcqRel`.
pub open spec fn load_ordering_ok(ordering: Ordering) -> bool {
    ordering != Ordering::Release && ordering != Ordering::AcqRel
}

/// `store` panics for `Acquire` and `AcqRel`.
pub open spec fn store_ordering_ok(ordering: Ordering) -> bool {
    ordering != Ordering::Acquire && ordering != Ordering::AcqRel
}

/// Calls `AtomicU32::compare_exchange`. Its documentation says that the
/// result holds the previous value and is `Ok` exactly when that value was
/// `current` (and `new` was written). The failure orderings that make it
/// panic are left out.
#[verifier::external_body]
pub(crate) fn compare_exchange_u32(
    atomic: &AtomicU32,
    current: u32,
    new: u32,
    success: Ordering,
    failure: Ordering,
) -> (r: Result<u32, u32>)
    requires
        load_ordering_ok(failure),
    ensures
        match r {
            Ok(v) => v == current,
            Err(v) => v != current,
        },
{
    atomic.compare_exchange(current, new, success, failure)
}

/// Calls `AtomicU32::compare_exchange_weak`. Its documentation says that an
/// `Ok` result holds the previous value, which was `current`; unlike the
/// strong form it may fail spuriously, so nothing is said of an `Err`.
#[verifier::external_body]
pub(crate) fn compare_exchange_weak_u32(
    atomic: &AtomicU32,
    current: u32,
    new: u32,
    success: Ordering,
    failure: Ordering,
) -> (r: Result<u32, u32>)
    requires
        load_ordering_ok(failure),
    ensures
        r matches Ok(v) ==> v == current,
{
    atomic.compare_exchange_weak(current, new, success, failure)
}

/// Calls `AtomicU64::compare_exchange`. Its documentation says that the
/// result holds the previous value and is `Ok` exactly when that value was
/// `current` (and `new` was written). The failure orderings that make it
/// panic are left out.
#[verifier::external_body]
pub(crate) fn compare_exchange_u64(
    atomic: &AtomicU64,
    current: u64,
    new: u64,
    success: Ordering,
    failure: Ordering,
) -> (r: Result<u64, u64>)
    requires
        load_ordering_ok(failure),
    ensures
        match r {
            Ok(v) => v == current,
            Err(v) => v != current,
        },
{
    atomic.compare_exchange(current, new, success, failure)
}

/// Calls `AtomicU64::compare_exchange_weak`. Its documentation says that an
/// `Ok` result holds the previous value, which was `current`; unlike the
/// strong form it may fail spuriously, so nothing is said of an `Err`.
#[verifier::external_body]
pub(crate) fn compare_exchange_weak_u64(
    atomic: &AtomicU64,
    current: u64,
    new: u64,
    success: Ordering,
    failure: Ordering,
) -> (r: Result<u64, u64>)
    requires
        load_ordering_ok(failure),
    ensures
        r matches Ok(v) ==> v == current,
{
    atomic.compare_exchange_weak(current, new, success, failure)
}

} // verus!
