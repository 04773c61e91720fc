use lact_daemon::rate::{busy_percent, find_first_nonzero, power_usage, RateSample, RateTracker};

#[test]
fn first_sample_yields_none() {
    let mut t = RateTracker::new();
    assert_eq!(t.observe(10, 500, 1), None);
    assert_eq!(t.last, Some(RateSample { timestamp: 10, counter: 500 }));
}

#[test]
fn second_sample_yields_delta_over_elapsed() {
    let mut t = RateTracker::new();
    t.observe(100, 1000, 1);
    assert_eq!(t.observe(110, 1500, 1), Some(50));
}

#[test]
fn decreasing_counter_yields_none_and_reseeds() {
    let mut t = RateTracker::new();
    t.observe(100, 1000, 1);
    assert_eq!(t.observe(110, 900, 1), None);
    assert_eq!(t.observe(120, 1100, 1), Some(20));
}

#[test]
fn no_elapsed_time_yields_none() {
    let mut t = RateTracker::new();
    t.observe(100, 1000, 1);
    assert_eq!(t.observe(100, 2000, 1), None);
}

#[test]
fn huge_rate_saturates() {
    let mut t = RateTracker::new();
    t.observe(0, 0, u64::MAX);
    assert_eq!(t.observe(1, u64::MAX, u64::MAX), Some(u64::MAX));
}

#[test]
fn busy_percent_from_milliseconds() {
    let mut t = RateTracker::new();
    assert_eq!(busy_percent(&mut t, 1000, 5000), None);
    assert_eq!(busy_percent(&mut t, 2000, 5250), Some(25));
    assert_eq!(busy_percent(&mut t, 2100, 5500), Some(100));
}

#[test]
fn power_prefers_direct_sensor() {
    let mut t = RateTracker::new();
    assert_eq!(power_usage(&mut t, Some(15_000_000), &vec![10, 20], 5), Some(15_000_000));
    assert_eq!(t.last, None);
}

#[test]
fn power_from_first_nonzero_energy_counter() {
    let mut t = RateTracker::new();
    assert_eq!(power_usage(&mut t, None, &vec![0, 1_000_000, 7], 1000), None);
    assert_eq!(power_usage(&mut t, None, &vec![0, 1_030_000, 7], 1010), Some(3_000_000));
}

#[test]
fn power_without_any_reading() {
    let mut t = RateTracker::new();
    assert_eq!(power_usage(&mut t, None, &vec![0, 0], 1000), None);
    assert_eq!(t.last, None);
    assert_eq!(find_first_nonzero(&vec![0, 0, 3, 4]), Some(3));
}
