use rustcommon::histogram::compact::Histogram as Compact;
use rustcommon::histogram::{Error, Histogram};

#[test]
// The parameters and vectors are checked as a serialized form is read.
fn compact_from_parts() {
    assert!(Compact::from_parts(0, 7, 64, vec![], vec![]).is_ok());
    assert!(matches!(
        Compact::from_parts(0, 7, 0, vec![], vec![]),
        Err(Error::MaxPowerTooLow)
    ));
    assert!(matches!(
        Compact::from_parts(0, 7, 7, vec![], vec![]),
        Err(Error::MaxPowerTooLow)
    ));
    assert!(matches!(
        Compact::from_parts(0, 7, 65, vec![], vec![]),
        Err(Error::MaxPowerTooHigh)
    ));
    assert!(matches!(
        Compact::from_parts(0, 7, 64, vec![1], vec![]),
        Err(Error::LengthMismatch)
    ));
}

#[test]
// Only the nonzero buckets of a histogram are kept.
fn compact_from_histogram() {
    let mut h = Histogram::new(7, 64).unwrap();
    let c = Compact::from(&h);
    assert_eq!(c.params(), (0, 7, 64));
    assert!(c.index().is_empty());
    assert!(c.count().is_empty());

    let _ = h.increment(0);
    let _ = h.increment(1000);
    let _ = h.increment(1001);
    let c = Compact::from(&h);
    assert_eq!(c.index(), &[0, 506]);
    assert_eq!(c.count(), &[1, 2]);
    assert_eq!(c.total_count(), 3);
    assert_eq!(c.get_count(506), 2);
    assert_eq!(c.get_count(4), 0);
    assert_eq!(c.config(), h.config());
}
