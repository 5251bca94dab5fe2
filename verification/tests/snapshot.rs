use rustcommon::histogram::{Error, Histogram};

fn counts(h: &rustcommon::histogram::Snapshot) -> Vec<u64> {
    let mut v = Vec::new();
    let mut iter = h.iter();
    while let Some(b) = iter.next() {
        v.push(b.count());
    }
    v
}

#[test]
// Snapshots of the same range merge by adding their counts; a later
// snapshot minus an earlier one covers the time between their ends.
fn snapshot_merge_and_subtract() {
    let mut h = Histogram::new(2, 8).unwrap();
    let _ = h.increment(3);
    let s1 = h.snapshot();
    let _ = h.increment(3);
    let _ = h.increment(200);
    let s2 = h.snapshot();

    let doubled = s1.checked_merge(&s1).unwrap();
    assert_eq!(counts(&doubled)[3], 2);
    assert_eq!(doubled.range(), s1.range());

    let diff = s2.checked_sub(&s1).unwrap();
    assert_eq!(diff.range().start, s1.range().end);
    assert_eq!(diff.range().end, s2.range().end);
    assert_eq!(diff.total_count(), 2);
    assert_eq!(counts(&diff)[3], 1);

    if s1.range().end < s2.range().end {
        assert_eq!(s1.wrapping_sub(&s2).err(), Some(Error::IncompatibleTimeRange));
        assert_eq!(s1.checked_sub(&s2).err(), Some(Error::IncompatibleTimeRange));
    }

    // the later part appended to the earlier one gives the whole range back
    let whole = s1.checked_add(&diff).unwrap();
    assert_eq!(whole.range(), s2.range());
    assert_eq!(counts(&whole), counts(&s2));
    let whole = s1.wrapping_add(&diff).unwrap();
    assert_eq!(counts(&whole), counts(&s2));
}
