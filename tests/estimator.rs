use forge_studio::estimator::{default_estimate_seconds, DurationEstimator};
use forge_studio::task::running_progress_percent;

#[test]
fn running_progress_is_bounded_before_completion() {
    let progress = running_progress_percent(1, 600);
    assert!(progress >= 100 && progress < 10000);
}

#[test]
fn default_estimate_returns_expected_values() {
    assert_eq!(default_estimate_seconds("train"), 240);
    assert_eq!(default_estimate_seconds("versions"), 8);
    assert_eq!(default_estimate_seconds("chat"), 20);
    assert_eq!(default_estimate_seconds("unknown"), 30);
}

#[test]
fn default_estimate_covers_the_whole_table() {
    assert_eq!(default_estimate_seconds("ingest"), 60);
    assert_eq!(default_estimate_seconds("filter"), 30);
    assert_eq!(default_estimate_seconds("export-training"), 60);
    assert_eq!(default_estimate_seconds(""), 30);
}

#[test]
fn running_progress_formula() {
    assert_eq!(running_progress_percent(4, 8), 5000);
    assert_eq!(running_progress_percent(1, 3), 2000);
    assert_eq!(running_progress_percent(0, 8), 100);
    assert_eq!(running_progress_percent(8, 8), 9900);
    assert_eq!(running_progress_percent(u64::MAX, 1), 9900);
    assert_eq!(running_progress_percent(1, 600), 100);
}

#[test]
fn first_observation_becomes_the_estimate() {
    let mut e = DurationEstimator::new();
    e.observe("train", 12_400);
    assert_eq!(e.estimate("train"), 12);
    e.observe("ingest", 12_500);
    assert_eq!(e.estimate("ingest"), 13);
    e.observe("chat", 2_000);
    assert_eq!(e.estimate("chat"), 5);
    assert_eq!(e.estimate("versions"), 8);
}

#[test]
fn moving_average_weights_prior_value() {
    let mut e = DurationEstimator::new();
    e.observe("train", 10_000);
    e.observe("train", 100_000);
    assert_eq!(e.averages[0], 37_000);
    assert_eq!(e.estimate("train"), 37);
}

#[test]
fn repeated_observations_converge() {
    let mut e = DurationEstimator::new();
    e.observe("train", 500_000);
    let mut last = 400_000u64;
    for _ in 0..50 {
        e.observe("train", 100_000);
        let d = e.averages[0].abs_diff(100_000);
        assert!(d <= last);
        last = d;
    }
    assert!(last < 10);
    assert_eq!(e.estimate("train"), 100);
}

#[test]
fn observations_stay_per_command() {
    let mut e = DurationEstimator::new();
    e.observe("train", 60_000);
    e.observe("filter", 9_000);
    e.observe("train", 60_000);
    assert_eq!(e.estimate("train"), 60);
    assert_eq!(e.estimate("filter"), 9);
    assert_eq!(e.names.len(), 2);
}
