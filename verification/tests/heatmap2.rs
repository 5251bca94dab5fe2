use rustcommon::heatmap2::Histogram;

#[test]
// Test that the number of buckets matches the expected count
fn bucket_counts() {
    let histogram = Histogram::new(0, 2, 64);
    assert_eq!(histogram.as_raw().len(), 252);

    let histogram = Histogram::new(0, 7, 64);
    assert_eq!(histogram.as_raw().len(), 7424);

    let histogram = Histogram::new(0, 14, 64);
    assert_eq!(histogram.as_raw().len(), 835_584);

    let histogram = Histogram::new(1, 2, 64);
    assert_eq!(histogram.as_raw().len(), 248);

    let histogram = Histogram::new(8, 2, 64);
    assert_eq!(histogram.as_raw().len(), 220);

    let histogram = Histogram::new(0, 2, 4);
    assert_eq!(histogram.as_raw().len(), 12);
}

#[test]
// Test value to index conversions
fn histogram_value_to_idx() {
    let histogram = Histogram::new(0, 7, 64);
    assert_eq!(histogram.value_to_index(0), 0);
    assert_eq!(histogram.value_to_index(1), 1);
    assert_eq!(histogram.value_to_index(256), 256);
    assert_eq!(histogram.value_to_index(257), 256);
    assert_eq!(histogram.value_to_index(258), 257);
    assert_eq!(histogram.value_to_index(512), 384);
    assert_eq!(histogram.value_to_index(515), 384);
    assert_eq!(histogram.value_to_index(516), 385);
    assert_eq!(histogram.value_to_index(1024), 512);
    assert_eq!(histogram.value_to_index(1031), 512);
    assert_eq!(histogram.value_to_index(1032), 513);
    assert_eq!(histogram.value_to_index(u64::MAX - 1), 7423);
    assert_eq!(histogram.value_to_index(u64::MAX), 7423);
}

#[test]
// Test index to lower bound conversion
fn histogram_idx_to_lower_bound() {
    let histogram = Histogram::new(0, 7, 64);
    assert_eq!(histogram.index_to_lower_bound(0), 0);
    assert_eq!(histogram.index_to_lower_bound(1), 1);
    assert_eq!(histogram.index_to_lower_bound(256), 256);
    assert_eq!(histogram.index_to_lower_bound(384), 512);
    assert_eq!(histogram.index_to_lower_bound(512), 1024);
    assert_eq!(
        histogram.index_to_lower_bound(7423),
        18_374_686_479_671_623_680
    );
}

#[test]
// Test index to upper bound conversion
fn histogram_idx_to_upper_bound() {
    let histogram = Histogram::new(0, 7, 64);
    assert_eq!(histogram.index_to_upper_bound(0), 0);
    assert_eq!(histogram.index_to_upper_bound(1), 1);
    assert_eq!(histogram.index_to_upper_bound(256), 257);
    assert_eq!(histogram.index_to_upper_bound(384), 515);
    assert_eq!(histogram.index_to_upper_bound(512), 1031);
    assert_eq!(histogram.index_to_upper_bound(7423), u64::MAX);
}

#[test]
// Linear buckets of width 2^a below the cutoff
fn histogram_linear_width() {
    let histogram = Histogram::new(3, 2, 16);
    assert_eq!(histogram.value_to_index(7), 0);
    assert_eq!(histogram.value_to_index(8), 1);
    assert_eq!(histogram.index_to_lower_bound(1), 8);
    assert_eq!(histogram.index_to_upper_bound(1), 15);
    // the last bucket ends at 2^16 - 1
    let last = histogram.as_raw().len() - 1;
    assert_eq!(histogram.index_to_upper_bound(last), 65_535);
    assert_eq!(histogram.value_to_index(65_535), last);
}

#[test]
// The bucket of a rank is found from the counters, and the largest nonzero
// bucket stands in when the counters hold less than the rank.
fn histogram_bucket_for_rank() {
    let histogram = Histogram::new(0, 7, 64);
    for i in 0..=100 {
        histogram.increment(i);
    }
    let counts = histogram.counts();
    assert_eq!(histogram.bucket_for_rank(&counts, 0).upper(), 0);
    assert_eq!(histogram.bucket_for_rank(&counts, 51).upper(), 50);
    assert_eq!(histogram.bucket_for_rank(&counts, 101).upper(), 100);
    assert_eq!(histogram.bucket_for_rank(&counts, 500).upper(), 100);

    histogram.increment(1024);
    let counts = histogram.counts();
    let bucket = histogram.bucket_for_rank(&counts, 102);
    assert_eq!((bucket.lower(), bucket.upper()), (1024, 1031));
}
