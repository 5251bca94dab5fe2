use rustcommon::clocksource::precise::{Duration, Instant};
use rustcommon::heatmap::{Error, Heatmap};

fn clock() -> Instant {
    Instant::default() + Duration::from_secs(100_000)
}

fn total(heatmap: &Heatmap) -> u128 {
    heatmap.summary().load().total_count()
}

#[test]
fn heatmap_builder_defaults() {
    let heatmap = Heatmap::builder().build(clock()).unwrap();
    assert_eq!(heatmap.slices(), 61);
    assert_eq!(heatmap.buckets(), 11264);
    assert_eq!(heatmap.span(), Duration::from_secs(60));
    assert_eq!(heatmap.resolution(), Duration::from_secs(1));
    assert_eq!(heatmap.summary().config().max(), 1_073_741_823);
}

#[test]
fn heatmap_min_resolution() {
    // the width is the largest power of two not above the value
    let heatmap = Heatmap::builder().min_resolution(10).build(clock()).unwrap();
    assert_eq!(heatmap.summary().config().linear_power_value(), 3);
    let heatmap = Heatmap::builder()
        .min_resolution_range(1000)
        .maximum_value(1 << 20)
        .build(clock())
        .unwrap();
    // r = 11 and n = 21: buckets of width one up to 2047
    assert_eq!(heatmap.summary().config().grouping_power(), 10);
    assert_eq!(heatmap.summary().config().max(), (1 << 21) - 1);
}

#[test]
// Counts age out once their slice is reused.
fn heatmap_age_out() {
    let start = clock();
    let heatmap = Heatmap::new(
        0,
        4,
        20,
        Duration::from_secs(1),
        Duration::from_millis(1),
        None,
        None,
        start,
    )
    .unwrap();
    assert_eq!(heatmap.slices(), 1001);
    assert_eq!(total(&heatmap), 0);
    heatmap.increment(start, 1, 1).unwrap();
    assert_eq!(total(&heatmap), 1);
    assert_eq!(heatmap.active_slices(), 1);

    // one resolution later the count is still in the span
    heatmap
        .increment(start + Duration::from_millis(1), 2, 1)
        .unwrap();
    assert_eq!(total(&heatmap), 2);
    assert_eq!(heatmap.active_slices(), 2);

    // a value too large for the histograms
    assert_eq!(
        heatmap.increment(start + Duration::from_millis(1), 1 << 20, 1),
        Err(Error::OutOfRange)
    );

    // much later, both counts have aged out; the clock moved by many slices
    let later = start + Duration::from_millis(2500);
    assert_eq!(heatmap.increment(later, 3, 1), Err(Error::StaleClock));
    assert_eq!(total(&heatmap), 1);
    assert_eq!(heatmap.active_slices(), 1000);

    // a time older than the span is refused
    assert_eq!(
        heatmap.increment(start, 3, 1),
        Err(Error::OutOfSpan)
    );
    let mut slices = 0;
    let mut iter = heatmap.iter();
    while iter.next().is_some() {
        slices += 1;
    }
    assert_eq!(slices, 1000);
}

fn small(start: Instant) -> Heatmap {
    Heatmap::new(
        0,
        4,
        20,
        Duration::from_secs(10),
        Duration::from_secs(1),
        None,
        None,
        start,
    )
    .unwrap()
}

#[test]
// The true span is a whole number of resolutions, with one more slice.
fn heatmap_true_span() {
    let heatmap = small(clock());
    assert_eq!(heatmap.slices(), 11);
    assert_eq!(heatmap.span(), Duration::from_secs(10));
    let heatmap = Heatmap::new(
        0,
        4,
        20,
        Duration::from_millis(2500),
        Duration::from_secs(1),
        None,
        None,
        clock(),
    )
    .unwrap();
    assert_eq!(heatmap.slices(), 4);
    assert_eq!(heatmap.span(), Duration::from_secs(3));
}

#[test]
// The next tick moves to the first tick past the clock reading.
fn heatmap_tick_outcome() {
    let start = clock();
    let heatmap = small(start);
    let first = start + Duration::from_secs(1);
    assert_eq!(heatmap.tick_outcome(first, start), None);
    assert_eq!(
        heatmap.tick_outcome(first, first),
        Some((start + Duration::from_secs(2), 1))
    );
    assert_eq!(
        heatmap.tick_outcome(first, start + Duration::from_millis(4500)),
        Some((start + Duration::from_secs(5), 4))
    );
    let r = heatmap.tick(start + Duration::from_millis(4500));
    assert_eq!(r, (start + Duration::from_secs(5), 4, 4, false));
    let r = heatmap.tick(start + Duration::from_millis(4600));
    assert_eq!(r, (start + Duration::from_secs(5), 4, 0, false));
}

#[test]
// What an increment returns once the clock has been handled.
fn heatmap_increment_after_tick() {
    let start = clock();
    let heatmap = small(start);
    let tick_at = start + Duration::from_secs(5);
    // five slices are active; a time three resolutions back is in the span
    assert_eq!(
        heatmap.increment_after_tick(tick_at, 3, 0, start + Duration::from_millis(1500), 1, 1),
        Ok(())
    );
    assert_eq!(
        heatmap.increment_after_tick(tick_at, 3, 0, start, 1, 1),
        Err(Error::OutOfSpan)
    );
    assert_eq!(
        heatmap.increment_after_tick(tick_at, 3, 0, start + Duration::from_secs(4), 1 << 20, 1),
        Err(Error::OutOfRange)
    );
    assert_eq!(
        heatmap.increment_after_tick(tick_at, 3, 2, start + Duration::from_secs(4), 1, 1),
        Err(Error::StaleClock)
    );
    assert_eq!(total(&heatmap), 2);
}
