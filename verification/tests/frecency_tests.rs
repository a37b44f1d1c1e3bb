use fexplorer::frecency::{
    calculate_frecency, days_between, recency_weight, score_from_term, SCORE_SCALE,
    SECONDS_PER_DAY,
};

const NOW: i64 = 1_700_000_000;
const DAY: i64 = 86_400;

/// The frequency term of an access count, in thousandths of a point.
fn frequency_term(access_count: u32) -> u32 {
    (((access_count as f64) + 1.0).ln() * 10.0 * 1000.0).round() as u32
}

fn points(score: u64) -> f64 {
    score as f64 / SCORE_SCALE as f64
}

#[test]
fn test_calculate_frecency_never_accessed() {
    let score = calculate_frecency(0, None, NOW, frequency_term);
    // ln(1) * 10 + 0 = 0
    assert_eq!(points(score), 0.0);
}

#[test]
fn test_calculate_frecency_accessed_today() {
    let score = calculate_frecency(5, Some(NOW), NOW, frequency_term);
    // ln(6) * 10 + 100
    let expected = (6.0_f64).ln() * 10.0 + 100.0;
    assert!((points(score) - expected).abs() < 0.001);
}

#[test]
fn test_calculate_frecency_accessed_week_ago() {
    let week_ago = NOW - 7 * DAY;
    let score = calculate_frecency(3, Some(week_ago), NOW, frequency_term);
    // ln(4) * 10 + 70
    let expected = (4.0_f64).ln() * 10.0 + 70.0;
    assert!((points(score) - expected).abs() < 0.001);
}

#[test]
fn test_calculate_frecency_accessed_month_ago() {
    let month_ago = NOW - 20 * DAY;
    let score = calculate_frecency(10, Some(month_ago), NOW, frequency_term);
    // ln(11) * 10 + 50
    let expected = (11.0_f64).ln() * 10.0 + 50.0;
    assert!((points(score) - expected).abs() < 0.001);
}

#[test]
fn test_calculate_frecency_accessed_long_ago() {
    let long_ago = NOW - 100 * DAY;
    let score = calculate_frecency(2, Some(long_ago), NOW, frequency_term);
    // ln(3) * 10 + 10
    let expected = (3.0_f64).ln() * 10.0 + 10.0;
    assert!((points(score) - expected).abs() < 0.001);
}

#[test]
fn test_recency_weight() {
    assert_eq!(recency_weight(0), 100);
    assert_eq!(recency_weight(2), 100);
    assert_eq!(recency_weight(4), 100);
    assert_eq!(recency_weight(5), 70);
    assert_eq!(recency_weight(10), 70);
    assert_eq!(recency_weight(20), 50);
    assert_eq!(recency_weight(60), 30);
    assert_eq!(recency_weight(100), 10);
}

#[test]
fn test_frecency_favors_recent_over_frequent() {
    let recent_low_count = calculate_frecency(2, Some(NOW), NOW, frequency_term);
    let old_high_count = calculate_frecency(20, Some(NOW - 100 * DAY), NOW, frequency_term);
    assert!(recent_low_count > old_high_count);
}

#[test]
fn test_frecency_frequency_still_matters() {
    let recent_high = calculate_frecency(20, Some(NOW), NOW, frequency_term);
    let recent_low = calculate_frecency(2, Some(NOW), NOW, frequency_term);
    assert!(recent_high > recent_low);
}

#[test]
fn recency_bucket_boundaries() {
    assert_eq!(recency_weight(4), 100);
    assert_eq!(recency_weight(5), 70);
    assert_eq!(recency_weight(14), 70);
    assert_eq!(recency_weight(15), 50);
    assert_eq!(recency_weight(31), 50);
    assert_eq!(recency_weight(32), 30);
    assert_eq!(recency_weight(90), 30);
    assert_eq!(recency_weight(91), 10);
    assert_eq!(recency_weight(i64::MAX), 10);
}

#[test]
fn negative_age_counts_as_zero_days() {
    assert_eq!(recency_weight(-1), 100);
    assert_eq!(recency_weight(i64::MIN), 100);
    assert_eq!(days_between(NOW, NOW + 3 * DAY), 0);
    assert_eq!(score_from_term(0, Some(NOW + 40 * DAY), NOW), 100_000);
}

#[test]
fn days_between_counts_whole_days() {
    assert_eq!(SECONDS_PER_DAY, 86_400);
    assert_eq!(days_between(10 * DAY, 0), 10);
    assert_eq!(days_between(10 * DAY - 1, 0), 9);
    assert_eq!(days_between(0, 10 * DAY), 0);
    assert_eq!(days_between(NOW, NOW), 0);
    assert_eq!(days_between(i64::MAX, i64::MIN), 213_503_982_334_601);
}

#[test]
fn score_is_frequency_plus_recency_exactly() {
    assert_eq!(score_from_term(17_918, Some(NOW - 4 * DAY), NOW), 117_918);
    assert_eq!(score_from_term(17_918, Some(NOW - 5 * DAY), NOW), 87_918);
    assert_eq!(score_from_term(17_918, Some(NOW - 31 * DAY), NOW), 67_918);
    assert_eq!(score_from_term(17_918, Some(NOW - 32 * DAY), NOW), 47_918);
    assert_eq!(score_from_term(17_918, Some(NOW - 91 * DAY), NOW), 27_918);
    assert_eq!(score_from_term(17_918, None, NOW), 17_918);
    assert_eq!(score_from_term(u32::MAX, Some(NOW), NOW), u32::MAX as u64 + 100_000);
}

#[test]
fn the_frequency_term_is_asked_for_the_access_count() {
    assert_eq!(calculate_frecency(7, None, NOW, |count| count * 1_000), 7_000);
    assert_eq!(calculate_frecency(7, Some(NOW), NOW, |count| count * 1_000), 107_000);
    assert_eq!(calculate_frecency(0, None, NOW, frequency_term), 0);
    assert_eq!(calculate_frecency(1, None, NOW, frequency_term), 6_931);
    assert_eq!(calculate_frecency(1_000_000, None, NOW, frequency_term), 138_155);
    assert_eq!(calculate_frecency(u32::MAX, None, NOW, frequency_term), 221_807);
}

#[test]
fn score_never_drops_as_the_last_access_gets_younger() {
    let mut previous = score_from_term(5_000, None, NOW);
    for age in (0..200).rev() {
        let score = score_from_term(5_000, Some(NOW - age * DAY), NOW);
        assert!(score >= previous, "age {}", age);
        previous = score;
    }
}
