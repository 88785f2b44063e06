use dcc_decoder::math::filtered_mean;
use dcc_decoder::motor::calibration::{
    calc_idle_level, chosen_offset, combined_offset, output_max, stored_offset,
};
use dcc_decoder::timing::expires_at;

#[test]
fn test_empty_input() {
    let data = [];
    assert_eq!(filtered_mean(&data, 2), None);
}

#[test]
fn test_single_element() {
    let data = [42];
    // A single element is its own mean, variance is mathematically undefined
    // or treated as 0, logic should simply return the element.
    assert_eq!(filtered_mean(&data, 2), Some(42));
}

#[test]
fn test_identical_elements() {
    let data = [10, 10, 10, 10];
    // Mean 10, StdDev 0. All elements included.
    assert_eq!(filtered_mean(&data, 1), Some(10));
}

#[test]
fn test_basic_outlier_removal() {
    let data = [10, 12, 11, 10, 100];

    let result = filtered_mean(&data, 1);

    // We expect result to be close to 11 (average of 10, 12, 11, 10)
    assert_eq!(result, Some(11));
}

#[test]
fn test_no_outliers_removed_with_high_tolerance() {
    let data = [10, 12, 11, 10, 50];
    // If we allow 3 standard deviations, 50 should likely stay included
    // because the std_dev itself will be large due to the 50.
    let result = filtered_mean(&data, 3);

    // Sum: 93, Count: 5, Mean: 18.6
    assert_eq!(result, Some(19)); // 18.6 rounds to 19
}

#[test]
fn test_small_variance_precision() {
    // In the original integer code, variance of 0.5 became 0.
    // Here: Mean is 10.5.
    // Variance sum: (0.5^2 + 0.5^2) = 0.5.
    // Variance = 0.5 / 1 = 0.5. StdDev = 0.707.
    // Threshold (2 sigmas) = 1.414.
    // Diff is 0.5. 0.5 <= 1.414. Both kept.
    let data = [10, 11];
    let result = filtered_mean(&data, 2);

    // Average of 10 and 11 is 10.5 -> rounds to 11
    assert_eq!(result, Some(11));
}

#[test]
fn test_two_distinct_clusters() {
    // Cluster A: 10, 10, 10
    // Cluster B: 30, 30, 30
    // Mean: 20. Std Dev: 10.
    // 1 Sigma range: [10, 30].
    // All should be kept.
    let data = [10, 10, 10, 30, 30, 30];
    assert_eq!(filtered_mean(&data, 1), Some(20));
}

#[test]
fn test_aggressive_filtering() {
    // Mean: 50
    // If we set std_deviations to 0, we only keep elements exactly equal to the mean.
    let data = [40, 50, 60];
    // Mean is 50.
    // 40 diff is 10. 60 diff is 10. 50 diff is 0.
    // Threshold = 0 * std_dev = 0.
    // Only 50 should remain.
    assert_eq!(filtered_mean(&data, 0), Some(50));
}

#[test]
fn mean_without_tolerance_can_be_missing() {
    // the mean is rounded down to 10, which no element equals
    assert_eq!(filtered_mean(&[9, 12], 0), None);
}

#[test]
fn mean_of_the_largest_values() {
    assert_eq!(filtered_mean(&[u16::MAX; 3], 2), Some(u16::MAX));
    assert_eq!(filtered_mean(&[u16::MAX, 0], 65535), Some(32768));
}

#[test]
fn idle_level_is_combined_and_stored() {
    assert_eq!(calc_idle_level(&[]), 0);
    assert_eq!(calc_idle_level(&[10, 12, 11, 10, 10, 11, 12, 10, 100]), 11);
    assert_eq!(combined_offset(10, 13), 11);
    assert_eq!(combined_offset(u16::MAX, u16::MAX), u16::MAX);
    assert_eq!(stored_offset(254), 254);
    assert_eq!(stored_offset(255), 254);
    assert_eq!(stored_offset(4000), 254);
    assert_eq!(stored_offset(0), 0);
}

#[test]
fn offset_is_measured_if_none_is_stored() {
    assert_eq!(chosen_offset(Some(12), None), (12, None));
    assert_eq!(chosen_offset(Some(12), Some(30)), (12, None));
    assert_eq!(chosen_offset(None, Some(30)), (30, Some(30)));
    assert_eq!(chosen_offset(None, Some(255)), (254, Some(254)));
    assert_eq!(chosen_offset(None, None), (0, None));
}

#[test]
fn output_scale() {
    assert_eq!(output_max(125_000_000, 25_000), 5000);
    assert_eq!(output_max(125_000_000, 10_000), 12500);
    assert_eq!(output_max(u32::MAX, 1), u16::MAX);
    assert_eq!(output_max(65536, 1), 0);
}

#[test]
fn timers_end_in_time() {
    assert_eq!(expires_at(5, 7), 12);
    assert_eq!(expires_at(5, u64::MAX), u64::MAX - 1);
    assert_eq!(expires_at(0, u64::MAX - 1), u64::MAX - 1);
}
