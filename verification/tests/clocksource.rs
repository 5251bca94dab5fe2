use rustcommon::clocksource::precise;
use rustcommon::clocksource::coarse;
use std::time::{SystemTime, UNIX_EPOCH};

fn to_unix_ns(t: SystemTime) -> u64 {
    t.duration_since(SystemTime::UNIX_EPOCH).unwrap().as_nanos() as u64
}

#[test]
fn realtime_coarse() {
    // the realtime clock may jump backward, so we may need to try a few times
    let epoch = coarse::UnixInstant::default();
    for _ in 0..5 {
        let t0 = SystemTime::now();
        let t1 = coarse::UnixInstant::now();
        let t2 = SystemTime::now();
        let t3 = coarse::UnixInstant::now();
        let t4 = SystemTime::now();

        // convert our times into durations since the unix epoch
        let ut0 = to_unix_ns(t0);
        let ut1 = t1.duration_since(epoch).as_secs();
        let ut2 = to_unix_ns(t2);
        let ut3 = t3.duration_since(epoch).as_secs();
        let ut4 = to_unix_ns(t4);

        // check that the clock has moved forward and not backward
        if t0 < t2 && t2 < t4 {
            let ut0 = (ut0 / 1_000_000_000) as u32;
            let ut2 = (ut2 / 1_000_000_000) as u32;
            let ut4 = (ut4 / 1_000_000_000) as u32;

            assert!(ut0 <= ut1, "ut0: {ut0} ut1: {ut1}");
            assert!(ut1 <= ut2, "ut1: {ut1} ut2: {ut2}");
            assert!(ut2 <= ut3, "ut2: {ut2} ut3: {ut3}");
            assert!(ut3 <= ut4, "ut3: {ut3} ut4: {ut4}");
        }
    }
}

#[test]
// The precise reading lies between two readings of the system clock.
fn realtime_precise() {
    for _ in 0..5 {
        let t0 = SystemTime::now();
        let t1 = precise::UnixInstant::now();
        let t2 = SystemTime::now();
        if t0 < t2 {
            let ut1 = t1.duration_since(precise::UnixInstant::default()).as_nanos();
            assert!(to_unix_ns(t0) <= ut1);
            assert!(ut1 <= to_unix_ns(t2));
        }
    }
}

#[test]
// Conversions from the standard types overflow when the value does not fit.
fn conversions_from_std() {
    match coarse::Duration::try_from(core::time::Duration::from_secs(5)) {
        Ok(d) => assert_eq!(d.as_secs(), 5),
        Err(_) => panic!("five seconds fit"),
    }
    assert!(coarse::Duration::try_from(core::time::Duration::from_secs(1 << 40)).is_err());
    match precise::Duration::try_from(core::time::Duration::from_nanos(7)) {
        Ok(d) => assert_eq!(d.as_nanos(), 7),
        Err(_) => panic!("seven nanoseconds fit"),
    }
    match precise::Duration::try_from(core::time::Duration::from_secs(u64::MAX)) {
        Ok(_) => panic!("the nanoseconds do not fit"),
        Err(e) => assert_eq!(e.description(), "can not convert to Duration: value is too big"),
    }
    assert!(coarse::AtomicDuration::try_from(core::time::Duration::from_secs(1 << 40)).is_err());
    assert!(precise::AtomicDuration::try_from(core::time::Duration::from_secs(3)).is_ok());

    assert!(precise::AtomicUnixInstant::try_from(SystemTime::now()).is_ok());
    match precise::AtomicUnixInstant::try_from(UNIX_EPOCH - core::time::Duration::from_secs(1)) {
        Ok(_) => panic!("the time is before the epoch"),
        Err(e) => assert_eq!(
            e.description(),
            "can not convert to UnixInstant: value is before unix epoch"
        ),
    }

    let later = precise::Instant::default() + precise::Duration::from_secs(7);
    assert!(coarse::AtomicInstant::try_from(later).is_ok());
}

#[test]
// A coarse reading in whole seconds becomes the same moment in nanoseconds.
fn coarse_to_precise_instant() {
    let c = coarse::Instant::default() + coarse::Duration::from_secs(5);
    let p = precise::Instant::from(c);
    assert_eq!(
        p.duration_since(precise::Instant::default()).as_nanos(),
        5_000_000_000
    );
    let cu = coarse::UnixInstant::default() + coarse::Duration::from_secs(7);
    let pu = precise::UnixInstant::from(cu);
    assert_eq!(
        pu.duration_since(precise::UnixInstant::default()).as_nanos(),
        7_000_000_000
    );
}
