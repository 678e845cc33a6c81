use running_average::{AggregateError, RunningAverageAggregator};

#[test]
fn no_samples_is_an_error() {
    let agg = RunningAverageAggregator::new();
    assert_eq!(agg.average(), Err(AggregateError::NoSamples));
}

#[test]
fn fresh_aggregator_holds_nothing() {
    let agg = RunningAverageAggregator::new();
    assert_eq!(agg.sum(), 0);
    assert_eq!(agg.count(), 0);
}

#[test]
fn three_records_average_four() {
    let mut agg = RunningAverageAggregator::new();
    agg.record(3);
    agg.record(5);
    agg.record(4);
    assert_eq!(agg.sum(), 12);
    assert_eq!(agg.count(), 3);
    assert_eq!(agg.average(), Ok(4));
}

#[test]
fn opposite_values_cancel() {
    let mut agg = RunningAverageAggregator::new();
    agg.record(7);
    agg.record(-7);
    assert_eq!(agg.average(), Ok(0));
}

#[test]
fn division_truncates() {
    let mut agg = RunningAverageAggregator::new();
    agg.record(1);
    agg.record(2);
    assert_eq!(agg.average(), Ok(1));
}

#[test]
fn division_truncates_toward_zero_for_negative_sums() {
    let mut agg = RunningAverageAggregator::new();
    agg.record(-1);
    agg.record(-2);
    assert_eq!(agg.average(), Ok(-1));
}

#[test]
fn sum_and_count_track_every_sample() {
    let mut agg = RunningAverageAggregator::new();
    let samples: [i64; 6] = [10, -3, 0, 42, -19, 7];
    let mut expected_sum: i64 = 0;
    for (i, &v) in samples.iter().enumerate() {
        agg.record(v);
        expected_sum += v;
        assert_eq!(agg.sum(), expected_sum);
        assert_eq!(agg.count(), (i + 1) as u64);
    }
    assert_eq!(agg.average(), Ok(expected_sum / samples.len() as i64));
}

#[test]
fn order_of_recording_is_irrelevant() {
    let mut forward = RunningAverageAggregator::new();
    let mut backward = RunningAverageAggregator::new();
    let samples: [i64; 5] = [12, -5, 99, 0, -45];
    for &v in samples.iter() {
        forward.record(v);
    }
    for &v in samples.iter().rev() {
        backward.record(v);
    }
    assert_eq!(forward.sum(), backward.sum());
    assert_eq!(forward.count(), backward.count());
    assert_eq!(forward.average(), backward.average());
}

#[test]
fn one_extreme_sample_is_its_own_average() {
    let mut high = RunningAverageAggregator::new();
    high.record(i64::MAX);
    assert_eq!(high.average(), Ok(i64::MAX));

    let mut low = RunningAverageAggregator::new();
    low.record(i64::MIN);
    assert_eq!(low.average(), Ok(i64::MIN));
}

#[test]
fn average_follows_new_samples() {
    let mut agg = RunningAverageAggregator::new();
    agg.record(100);
    assert_eq!(agg.average(), Ok(100));
    agg.record(0);
    assert_eq!(agg.average(), Ok(50));
    agg.record(-100);
    assert_eq!(agg.average(), Ok(0));
    agg.record(1);
    assert_eq!(agg.average(), Ok(0));
}
