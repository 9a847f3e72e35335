use influxdb_dispatcher::util::SampleCount;

#[test]
fn sample_count_starts_at_zero() {
    assert_eq!(SampleCount::new().count(), 0);
}

#[test]
fn sample_count_follows_the_number_of_samples() {
    let mut counter = SampleCount::new();
    for seen in 0..5u32 {
        assert_eq!(counter.accept(), seen);
        assert_eq!(counter.count(), seen + 1);
    }
    assert_eq!(counter.count(), 5);
}

#[test]
fn sample_count_resumes_from_a_given_count() {
    let mut counter = SampleCount::from_count(41);
    assert_eq!(counter.count(), 41);
    assert_eq!(counter.accept(), 41);
    assert_eq!(counter.count(), 42);
}

#[test]
fn sample_count_reaches_the_maximum() {
    let mut counter = SampleCount::from_count(u32::MAX - 1);
    assert_eq!(counter.accept(), u32::MAX - 1);
    assert_eq!(counter.count(), u32::MAX);
}

#[test]
fn sample_count_saturates_instead_of_wrapping() {
    let mut counter = SampleCount::from_count(u32::MAX);
    assert_eq!(counter.accept(), u32::MAX);
    assert_eq!(counter.count(), u32::MAX);
    assert_eq!(counter.accept(), u32::MAX);
    assert_eq!(counter.count(), u32::MAX);
}
