use rustcommon::histogram::{Config, Error, Histogram, SparseHistogram, SparseHistogramRO};
use std::collections::HashMap;

#[test]
fn wrapping_add() {
    let config = Config::new(7, 32).unwrap();

    let h1 = SparseHistogram {
        config,
        index: vec![1, 3, 5],
        count: vec![6, 12, 7],
    };

    let h2 = SparseHistogram::with_config(&config);

    let h3 = SparseHistogram {
        config,
        index: vec![2, 3, 6, 11, 13],
        count: vec![5, 7, 3, 15, 6],
    };

    let hdiff = SparseHistogram::new(6, 16).unwrap();
    let h = h1.wrapping_add(&hdiff);
    assert_eq!(h, Err(Error::IncompatibleParameters));

    let h = h1.wrapping_add(&h2).unwrap();
    assert_eq!(h.index, vec![1, 3, 5]);
    assert_eq!(h.count, vec![6, 12, 7]);

    let h = h2.wrapping_add(&h3).unwrap();
    assert_eq!(h.index, vec![2, 3, 6, 11, 13]);
    assert_eq!(h.count, vec![5, 7, 3, 15, 6]);

    let h = h1.wrapping_add(&h3).unwrap();
    assert_eq!(h.index, vec![1, 2, 3, 5, 6, 11, 13]);
    assert_eq!(h.count, vec![6, 5, 19, 7, 3, 15, 6]);
}

#[test]
fn checked_sub() {
    let config = Config::new(7, 32).unwrap();

    let h1 = SparseHistogram {
        config,
        index: vec![1, 3, 5],
        count: vec![6, 12, 7],
    };

    let hparams = SparseHistogram::new(6, 16).unwrap();
    let h = h1.checked_sub(&hparams);
    assert_eq!(h, Err(Error::IncompatibleParameters));

    let hempty = SparseHistogram::with_config(&config);
    let h = h1.checked_sub(&hempty).unwrap();
    assert_eq!(h.index, vec![1, 3, 5]);
    assert_eq!(h.count, vec![6, 12, 7]);

    let hclone = h1.clone();
    let h = h1.checked_sub(&hclone).unwrap();
    assert!(h.index.is_empty());
    assert!(h.count.is_empty());

    let hlarger = SparseHistogram {
        config,
        index: vec![1, 3, 5],
        count: vec![4, 13, 7],
    };
    let h = h1.checked_sub(&hlarger);
    assert_eq!(h, Err(Error::Underflow));

    let hmore = SparseHistogram {
        config,
        index: vec![1, 5, 7],
        count: vec![4, 7, 1],
    };
    let h = h1.checked_sub(&hmore);
    assert_eq!(h, Err(Error::InvalidSubset));

    let hdiff = SparseHistogram {
        config,
        index: vec![1, 2, 5],
        count: vec![4, 1, 7],
    };
    let h = h1.checked_sub(&hdiff);
    assert_eq!(h, Err(Error::InvalidSubset));

    let hsubset = SparseHistogram {
        config,
        index: vec![1, 3],
        count: vec![5, 9],
    };
    let h = h1.checked_sub(&hsubset).unwrap();
    assert_eq!(h.index, vec![1, 3, 5]);
    assert_eq!(h.count, vec![1, 3, 7]);
}

fn compare_histograms(hstandard: &Histogram, hsparse: &SparseHistogram) {
    assert_eq!(hstandard.config(), hsparse.config);

    let mut buckets: HashMap<usize, u64> = HashMap::new();
    for (idx, count) in hsparse.index.iter().zip(hsparse.count.iter()) {
        let _ = buckets.insert(*idx, *count);
    }

    for (idx, count) in hstandard.as_slice().iter().enumerate() {
        if *count > 0 {
            let v = buckets.get(&idx).unwrap();
            assert_eq!(*v, *count);
        }
    }
}

#[test]
fn snapshot() {
    let mut hstandard = Histogram::new(5, 10).unwrap();

    for v in 1..1024 {
        let _ = hstandard.increment(v);
    }

    // Convert to sparse and store buckets in a hash for random lookup
    let hsparse = SparseHistogram::from(&hstandard);
    compare_histograms(&hstandard, &hsparse);
}

#[test]
// Buckets that share a bucket of the coarser configuration are summed.
fn sparse_downsample() {
    let mut hstandard = Histogram::new(8, 32).unwrap();
    for v in [1u64, 300, 301, 5_000, 1_000_000, 4_000_000_000] {
        let _ = hstandard.increment(v);
    }
    let hsparse = SparseHistogram::from(&hstandard);
    for reduced in 1..8 {
        let h = hsparse.downsample(reduced).unwrap();
        let mut expected = Histogram::new(reduced, 32).unwrap();
        for v in [1u64, 300, 301, 5_000, 1_000_000, 4_000_000_000] {
            let _ = expected.increment(v);
        }
        compare_histograms(&expected, &h);
        assert_eq!(h.count.iter().sum::<u64>(), 6);
    }
    assert_eq!(hsparse.downsample(8), Err(Error::MaxPowerTooLow));
}

#[test]
// Bucket counts of zero are dropped when adding, and the sum wraps.
fn sparse_wrapping_add_wraps() {
    let config = Config::new(7, 32).unwrap();
    let h1 = SparseHistogram {
        config,
        index: vec![1],
        count: vec![u64::MAX],
    };
    let h2 = SparseHistogram {
        config,
        index: vec![1, 2],
        count: vec![1, 4],
    };
    let h = h1.wrapping_add(&h2).unwrap();
    assert_eq!(h.index, vec![2]);
    assert_eq!(h.count, vec![4]);
}

#[test]
// Running sums and back give the counts; an overflow is reported.
fn read_only_round_trip() {
    let config = Config::new(7, 32).unwrap();
    let h = SparseHistogram {
        config,
        index: vec![1, 3, 5],
        count: vec![6, 12, 7],
    };
    let ro = SparseHistogramRO::from(&h);
    let back = SparseHistogram::from(&ro);
    assert_eq!(back, h);

    let ro = SparseHistogramRO::from_index_count(7, 32, vec![1, 3, 5], vec![6, 12, 7]).unwrap();
    assert_eq!(SparseHistogram::from(&ro), h);
    assert_eq!(ro.bucket_for_rank(7).map(|b| b.count()), Some(12));
    assert_eq!(ro.bucket_for_rank(26), None);

    assert_eq!(
        SparseHistogramRO::from_index_count(7, 32, vec![1, 3], vec![6]),
        Err(Error::LengthMismatch)
    );
    assert_eq!(
        SparseHistogramRO::from_index_count(7, 32, vec![1, 3], vec![u64::MAX, 1]),
        Err(Error::Overflow)
    );
    assert_eq!(
        SparseHistogramRO::from_index_count(7, 65, vec![], vec![]),
        Err(Error::MaxPowerTooHigh)
    );
}

#[test]
// The bucket at a rank is the first whose running total reaches it.
fn sparse_bucket_for_rank() {
    let config = Config::new(7, 32).unwrap();
    let h = SparseHistogram {
        config,
        index: vec![1, 3, 5],
        count: vec![6, 12, 7],
    };
    assert_eq!(h.bucket_for_rank(0).map(|b| b.count()), Some(6));
    assert_eq!(h.bucket_for_rank(6).map(|b| b.count()), Some(6));
    assert_eq!(h.bucket_for_rank(7).map(|b| (b.count(), b.lower())), Some((12, 3)));
    assert_eq!(h.bucket_for_rank(25).map(|b| b.upper()), Some(5));
    assert_eq!(h.bucket_for_rank(26), None);
}

#[test]
// The sparse sum of two sparse forms is the sparse form of the dense sum,
// and subtracting one part back gives the sparse form of the other.
fn sparse_add_matches_dense() {
    let mut h1 = Histogram::new(3, 16).unwrap();
    let mut h2 = Histogram::new(3, 16).unwrap();
    let mut both = Histogram::new(3, 16).unwrap();
    for v in [1u64, 5, 5, 900, 40_000] {
        let _ = h1.increment(v);
        let _ = both.increment(v);
    }
    for v in [5u64, 17, 900, 65_535] {
        let _ = h2.increment(v);
        let _ = both.increment(v);
    }
    let s1 = SparseHistogram::from(&h1);
    let s2 = SparseHistogram::from(&h2);
    let sum = s1.wrapping_add(&s2).unwrap();
    assert_eq!(sum, SparseHistogram::from(&both));
    assert_eq!(sum.checked_sub(&s2).unwrap(), s1);
}

#[test]
// Larger values land in the same or a later bucket.
fn config_index_monotone() {
    let config = Config::new(4, 40).unwrap();
    let mut last = 0;
    for v in (0..2_000_000u64).step_by(997) {
        let i = config.value_to_index(v).unwrap();
        assert!(last <= i);
        last = i;
    }
}

#[test]
// Adding sparse histograms and subtracting one back gives the other.
fn sparse_sub_undoes_add() {
    let config = Config::new(7, 32).unwrap();
    let h1 = SparseHistogram {
        config,
        index: vec![1, 3, 5],
        count: vec![6, 12, 7],
    };
    let h3 = SparseHistogram {
        config,
        index: vec![2, 3, 6, 11, 13],
        count: vec![5, 7, 3, 15, 6],
    };
    let back = h1.wrapping_add(&h3).unwrap().checked_sub(&h3).unwrap();
    assert_eq!(back, h1);
    let back = h3.wrapping_add(&h1).unwrap().checked_sub(&h1).unwrap();
    assert_eq!(back, h3);
}

#[test]
// The sparse form finds the same bucket as the dense one for every rank of
// at least one.
fn sparse_rank_matches_dense() {
    let mut h = Histogram::new(3, 16).unwrap();
    for v in [1u64, 5, 5, 900, 40_000, 40_001, 65_535] {
        let _ = h.increment(v);
    }
    let s = SparseHistogram::from(&h);
    for needed in 1..=8u128 {
        assert_eq!(s.bucket_for_rank(needed), h.bucket_for_rank(needed));
    }
    assert_eq!(s.bucket_for_rank(8), None);
}
