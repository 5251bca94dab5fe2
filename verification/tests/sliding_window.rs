use rustcommon::clocksource::precise::{Duration, Instant, UnixInstant};
use rustcommon::histogram::sliding_window::atomic::Histogram as AtomicWindow;
use rustcommon::histogram::sliding_window::{Builder, Common};
use rustcommon::histogram::windowed::{Builder as WindowedBuilder, Histogram as Windowed};
use rustcommon::histogram::Error;

/// A monotonic clock reading well past the start of the clock.
fn clock() -> Instant {
    Instant::default() + Duration::from_secs(100_000)
}

#[test]
fn mod_size() {
    assert_eq!(std::mem::size_of::<Common>(), 40);
}

#[test]
fn atomic_size() {
    assert_eq!(std::mem::size_of::<AtomicWindow>(), 128);
}

#[test]
fn mod_indexing() {
    let h = AtomicWindow::new(0, 7, 64, Duration::from_secs(1), 60, clock()).unwrap();
    let now = h.common().tick_origin();

    assert_eq!(h.index(now), Ok(0));
    assert_eq!(h.index(now + Duration::from_secs(1)), Ok(1));
    assert_eq!(h.index(now + Duration::from_secs(59)), Ok(59));
    assert_eq!(h.index(now + Duration::from_secs(60)), Ok(60));

    assert_eq!(
        h.index(now - Duration::from_secs(1)),
        Err(Error::OutOfSlidingWindow)
    );
    assert_eq!(
        h.index(now + Duration::from_secs(61)),
        Err(Error::OutOfSlidingWindow)
    );

    assert_eq!(h.index(h.tick_at()), Ok(60));
}

#[test]
fn sliding_window_indexing() {
    let h = Windowed::new(0, 7, 64, Duration::from_secs(1), 60, clock()).unwrap();
    let now = h.tick_origin();
    let tick_at = h.tick_at();

    assert_eq!(h.snapshot_info(now, tick_at).map(|v| v.index), Ok(0));
    assert_eq!(
        h.snapshot_info(now + Duration::from_secs(1), tick_at)
            .map(|v| v.index),
        Ok(1)
    );
    assert_eq!(
        h.snapshot_info(now + Duration::from_secs(59), tick_at)
            .map(|v| v.index),
        Ok(59)
    );
    assert_eq!(
        h.snapshot_info(now + Duration::from_secs(60), tick_at),
        Err(Error::OutOfSlidingWindow)
    );

    assert_eq!(
        h.snapshot_info(now - Duration::from_secs(1), tick_at),
        Err(Error::OutOfSlidingWindow)
    );
    assert_eq!(
        h.snapshot_info(now + Duration::from_secs(61), tick_at),
        Err(Error::OutOfSlidingWindow)
    );

    assert_eq!(
        h.snapshot_info(h.tick_at(), tick_at),
        Err(Error::OutOfSlidingWindow)
    );
}

#[test]
// Increments land in the live histogram and a later distribution subtracts
// the snapshot taken when the window moved.
fn standard_window_distribution() {
    let start = clock();
    let mut h = Builder::new(0, 7, 64, Duration::from_millis(1), 11, start)
        .unwrap()
        .standard()
        .unwrap();
    assert_eq!(h.tick_at(), start);
    let d = h.distribution_last(Duration::from_millis(10), start).unwrap();
    assert_eq!(d.total_count(), 0);
    // the window moved past the reading
    assert_eq!(h.tick_at(), start + Duration::from_millis(1));

    h.increment_at(start, 100).unwrap();
    let d = h.distribution_last(Duration::from_millis(10), start).unwrap();
    assert_eq!(d.total_count(), 1);

    // move the window forward past the increment, one interval at a time
    let mut now = start;
    for _ in 0..12 {
        now = now + Duration::from_millis(1);
        h.snapshot(now);
    }
    assert_eq!(h.tick_at(), start + Duration::from_millis(13));
    let d = h.distribution_last(Duration::from_millis(5), now).unwrap();
    assert_eq!(d.total_count(), 0);

    assert_eq!(
        h.distribution_last(Duration::from_secs(1), now).map(|d| d.total_count()),
        Err(Error::OutOfSlidingWindow)
    );
    assert_eq!(h.increment_at(now, u64::MAX), Ok(()));
    let mut small = Builder::new(0, 2, 8, Duration::from_millis(1), 10, start)
        .unwrap()
        .standard()
        .unwrap();
    assert_eq!(small.increment_at(start, 256), Err(Error::OutOfRange));
}

#[test]
// An instant before the window is refused and changes no counter; one far
// past the window moves it forward in a single step to include the instant.
fn standard_add_at_window() {
    let start = clock();
    let mut h = Builder::new(0, 7, 64, Duration::from_millis(1), 10, start)
        .unwrap()
        .standard()
        .unwrap();
    h.increment_at(start, 1).unwrap();
    let before = h.as_slice().to_vec();
    assert_eq!(
        h.add_at(start - Duration::from_millis(20), 1, 1),
        Err(Error::OutOfSlidingWindow)
    );
    assert_eq!(h.as_slice(), &before[..]);

    let later = start + Duration::from_millis(100) + Duration::from_micros(500);
    assert_eq!(h.add_at(later, 1, 1), Ok(()));
    assert_eq!(h.tick_at(), start + Duration::from_millis(101));
    assert!(later < h.tick_at());
    assert_eq!(h.as_slice()[1], 2);
}

#[test]
// The atomic window refuses instants before its start too.
fn atomic_add_at_window() {
    let start = clock();
    let h = AtomicWindow::new(0, 7, 64, Duration::from_millis(1), 10, start).unwrap();
    assert_eq!(h.tick_at(), start);
    assert_eq!(
        h.add_at(start - Duration::from_millis(20), 1, 1),
        Err(Error::OutOfSlidingWindow)
    );
    assert_eq!(h.add_at(start, 1, 1), Ok(()));
    assert_eq!(h.tick_at(), start + Duration::from_millis(1));
    assert_eq!(h.index(start), Ok(10));
    assert_eq!(h.index(start - Duration::from_millis(10)), Err(Error::OutOfSlidingWindow));
}

#[test]
// A window of no slices has one snapshot and no span.
fn common_without_slices() {
    let c = Common::new(0, 7, 64, Duration::from_secs(1), 0, clock()).unwrap();
    assert_eq!(c.num_slices(), 1);
    assert_eq!(c.span(), Duration::from_nanos(0));
    assert_eq!(c.tick_origin(), clock());
    let c = Common::new(0, 7, 64, Duration::from_secs(1), 60, clock()).unwrap();
    assert_eq!(c.num_slices(), 61);
    assert_eq!(c.span(), Duration::from_secs(60));
}

#[test]
// The snapshot of a wall clock range starts at the slice boundary at or
// before the start, and ends at the one at or before the end.
fn windowed_snapshot_between_at() {
    let started = UnixInstant::default() + Duration::from_secs(1_000_000);
    // a reading far enough past the start of the clock that the origin
    // stays representable once it moves with the start
    let now = Instant::default() + Duration::from_secs(4_000_000_000);
    let h = WindowedBuilder::new(0, 7, 64, Duration::from_secs(1), 60)
        .unwrap()
        .start(started)
        .build(now)
        .unwrap();
    let tick_at = h.tick_at();
    let range = (started + Duration::from_millis(2500))..(started + Duration::from_millis(10500));
    let s = h.snapshot_between_at(range.clone(), tick_at).unwrap();
    assert_eq!(
        s.range(),
        (started + Duration::from_secs(2))..(started + Duration::from_secs(10))
    );
    assert_eq!(s.total_count(), 0);
    let s = h
        .snapshot_between(range, tick_at - Duration::from_nanos(1))
        .unwrap();
    assert_eq!(
        s.range(),
        (started + Duration::from_secs(2))..(started + Duration::from_secs(10))
    );
    let early = (started - Duration::from_millis(500))..(started + Duration::from_secs(10));
    assert!(matches!(
        h.snapshot_between_at(early, tick_at),
        Err(Error::OutOfSlidingWindow)
    ));
}

#[test]
fn windowed_errors() {
    assert!(matches!(
        Windowed::new(0, 7, 64, Duration::from_secs(3600), 2, clock()),
        Err(Error::IntervalTooLong)
    ));
    assert!(matches!(
        Windowed::new(0, 7, 64, Duration::from_micros(999), 2, clock()),
        Err(Error::IntervalTooShort)
    ));
    assert!(matches!(
        Windowed::new(0, 7, 65, Duration::from_secs(1), 2, clock()),
        Err(Error::MaxPowerTooHigh)
    ));
    assert!(matches!(
        Windowed::new(4, 4, 8, Duration::from_secs(1), 2, clock()),
        Err(Error::MaxPowerTooLow)
    ));
}

#[test]
// The start is one span before the system clock reading, which must be at
// least the span.
fn windowed_with_clocks() {
    let wall = |secs: u32| UnixInstant::default() + Duration::from_secs(secs);
    assert!(matches!(
        Windowed::with_clocks(0, 7, 64, Duration::from_secs(1), 60, clock(), wall(30)),
        Err(Error::Underflow)
    ));
    let h = Windowed::with_clocks(0, 7, 64, Duration::from_secs(1), 60, clock(), wall(100)).unwrap();
    assert_eq!(h.range(), wall(39)..wall(99));
    assert!(matches!(
        Windowed::with_clocks(0, 7, 64, Duration::from_micros(999), 60, clock(), wall(100)),
        Err(Error::IntervalTooShort)
    ));
}
