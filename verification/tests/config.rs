use rustcommon::histogram::Config;

#[test]
fn sizes() {
    assert_eq!(std::mem::size_of::<Config>(), 32);
}

#[test]
// Test that the number of bins matches the expected count
fn total_bins() {
    let config = Config::new(2, 64).unwrap();
    assert_eq!(config.total_bins(), 252);

    let config = Config::new(7, 64).unwrap();
    assert_eq!(config.total_bins(), 7424);

    let config = Config::new(14, 64).unwrap();
    assert_eq!(config.total_bins(), 835_584);

    let config = Config::new(2, 4).unwrap();
    assert_eq!(config.total_bins(), 12);
}

#[test]
// Test value to index conversions
fn config_value_to_idx() {
    let config = Config::new(7, 64).unwrap();
    assert_eq!(config.value_to_index(0), Ok(0));
    assert_eq!(config.value_to_index(1), Ok(1));
    assert_eq!(config.value_to_index(256), Ok(256));
    assert_eq!(config.value_to_index(257), Ok(256));
    assert_eq!(config.value_to_index(258), Ok(257));
    assert_eq!(config.value_to_index(512), Ok(384));
    assert_eq!(config.value_to_index(515), Ok(384));
    assert_eq!(config.value_to_index(516), Ok(385));
    assert_eq!(config.value_to_index(1024), Ok(512));
    assert_eq!(config.value_to_index(1031), Ok(512));
    assert_eq!(config.value_to_index(1032), Ok(513));
    assert_eq!(config.value_to_index(u64::MAX - 1), Ok(7423));
    assert_eq!(config.value_to_index(u64::MAX), Ok(7423));
}

#[test]
// Test index to lower bound conversion
fn config_idx_to_lower_bound() {
    let config = Config::new(7, 64).unwrap();
    assert_eq!(config.index_to_lower_bound(0), 0);
    assert_eq!(config.index_to_lower_bound(1), 1);
    assert_eq!(config.index_to_lower_bound(256), 256);
    assert_eq!(config.index_to_lower_bound(384), 512);
    assert_eq!(config.index_to_lower_bound(512), 1024);
    assert_eq!(
        config.index_to_lower_bound(7423),
        18_374_686_479_671_623_680
    );
}

#[test]
// Test index to upper bound conversion
fn config_idx_to_upper_bound() {
    let config = Config::new(7, 64).unwrap();
    assert_eq!(config.index_to_upper_bound(0), 0);
    assert_eq!(config.index_to_upper_bound(1), 1);
    assert_eq!(config.index_to_upper_bound(256), 257);
    assert_eq!(config.index_to_upper_bound(384), 515);
    assert_eq!(config.index_to_upper_bound(512), 1031);
    assert_eq!(config.index_to_upper_bound(7423), u64::MAX);
}

#[test]
// Test index to range conversion
fn idx_to_range() {
    let config = Config::new(7, 64).unwrap();
    assert_eq!(config.index_to_range(0), 0..=0);
    assert_eq!(config.index_to_range(1), 1..=1);
    assert_eq!(config.index_to_range(256), 256..=257);
    assert_eq!(config.index_to_range(384), 512..=515);
    assert_eq!(config.index_to_range(512), 1024..=1031);
    assert_eq!(
        config.index_to_range(7423),
        18_374_686_479_671_623_680..=u64::MAX
    );
}

#[test]
fn standard_size() {
    assert_eq!(std::mem::size_of::<rustcommon::histogram::Histogram>(), 64);
}

#[test]
// Above the cutoff a bucket is at most a 2^-grouping_power part of its lower
// bound wide.
fn config_relative_error() {
    let config = Config::new(7, 64).unwrap();
    for v in [300u64, 1_000, 123_456, 1 << 40, u64::MAX] {
        let i = config.value_to_index(v).unwrap();
        let range = config.index_to_range(i);
        let width = range.end() - range.start() + 1;
        assert!(width.saturating_mul(128) <= *range.start());
        assert!(range.contains(&v));
    }
}

#[test]
// A coarser configuration puts every value of a bucket where it puts the
// bucket's lower bound.
fn config_downsample_bucket() {
    let fine = Config::new(7, 32).unwrap();
    let coarse = Config::new(3, 32).unwrap();
    for v in [0u64, 15, 16, 17, 255, 256, 1_000, 70_000, 4_000_000_000] {
        let lower = fine.index_to_lower_bound(fine.value_to_index(v).unwrap());
        assert_eq!(coarse.value_to_index(lower), coarse.value_to_index(v));
    }
}

#[test]
// The bucket ranges start at zero, follow one another without gaps, end at
// the largest value, and both bounds of each land in it.
fn config_ranges_chain() {
    for (p, n) in [(2u8, 8u8), (3, 16), (2, 64)] {
        let c = Config::new(p, n).unwrap();
        let total = c.total_bins();
        assert_eq!(*c.index_to_range(0).start(), 0);
        for i in 0..total {
            let r = c.index_to_range(i);
            assert!(r.start() <= r.end());
            assert_eq!(c.value_to_index(*r.start()), Ok(i));
            assert_eq!(c.value_to_index(*r.end()), Ok(i));
            if i + 1 < total {
                assert_eq!(r.end() + 1, *c.index_to_range(i + 1).start());
            }
        }
        assert_eq!(*c.index_to_range(total - 1).end(), c.max());
    }
    assert_eq!(*Config::new(2, 64).unwrap().index_to_range(251).end(), u64::MAX);
}
