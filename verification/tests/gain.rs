use dcc_decoder::cv::default_values;
use dcc_decoder::cv::image::CvImage;
use dcc_decoder::motor::speed::gain::{Config, Gain, GainRange, Schedule};

/// Setpoints and gains of the ranges are given in thousandths.
fn fixed(value: f64) -> i32 {
    (value * 1000.0).round() as i32
}

fn assert_gain(gain: Gain, expected: f64) {
    assert!(gain.den > 0);
    assert_eq!(gain.num, fixed(expected) as i128 * gain.den);
}

fn default_cv_config() -> Config {
    Config {
        max_setpoint: 1600,     // CV_5 = 100 -> 100 * 16
        kp_gain_range1_end: 13, // CV_60, in units of 1/255
        kp_y0: 2000,            // 20.0
        kp_y1: 250,             // 2.5
        kp_y2: 150,             // 1.5
    }
}

#[test]
fn test_pid_kp_schedule_matches_cv_defaults() {
    let cfg = default_cv_config();
    let schedule = Schedule::new(cfg);
    let x1 = 1600 * 13; // 1600 * 13/255, in units of 1/255
    let max_setpoint = 1600 * 255;
    let is = |gain: Gain, hundredths: u16| gain.num == hundredths as i128 * gain.den;

    // At x1 -> kp_y1 (falls into high range start)
    assert!(is(schedule.kp_for_setpoint(x1), cfg.kp_y1));

    // At max_setpoint -> near kp_y2
    assert!(is(schedule.kp_for_setpoint(max_setpoint), cfg.kp_y2));

    // Below 0 clamps to 0
    assert!(is(schedule.kp_for_setpoint(-100 * 255), cfg.kp_y0));

    // Above max clamps to max
    assert!(is(schedule.kp_for_setpoint(max_setpoint + 1_000 * 255), cfg.kp_y2));
}

#[test]
fn test_new_gain_range_positive_slope() {
    let gain_range = GainRange::new(fixed(10.0), fixed(20.0), fixed(1.0), fixed(2.0));

    // (2.0 - 1.0) / (20.0 - 10.0) = 0.1
    assert_eq!((gain_range.start, gain_range.end), (fixed(10.0), fixed(20.0)));
    assert_eq!(gain_range.kp_start, fixed(1.0));
    let slope = gain_range.slope();
    assert_eq!(slope.num * 10, slope.den);
}

#[test]
fn test_new_gain_range_negative_slope() {
    let gain_range = GainRange::new(fixed(50.0), fixed(100.0), fixed(5.0), fixed(0.0));

    // (0.0 - 5.0) / (100.0 - 50.0) = -0.1
    assert_eq!((gain_range.start, gain_range.end), (fixed(50.0), fixed(100.0)));
    assert_eq!(gain_range.kp_start, fixed(5.0));
    let slope = gain_range.slope();
    assert_eq!(slope.num * -10, slope.den);
}

#[test]
fn test_new_gain_range_zero_slope() {
    let gain_range = GainRange::new(fixed(0.0), fixed(10.0), fixed(3.0), fixed(3.0));

    assert_eq!((gain_range.start, gain_range.end), (fixed(0.0), fixed(10.0)));
    assert_eq!(gain_range.kp_start, fixed(3.0));
    assert_eq!(gain_range.slope().num, 0);
}

#[test]
fn test_new_gain_range_empty() {
    let gain_range = GainRange::new(fixed(10.0), fixed(10.0), fixed(1.0), fixed(2.0));

    assert_eq!((gain_range.start, gain_range.end), (fixed(10.0), fixed(10.0)));
    assert_eq!(gain_range.kp_start, fixed(1.0));
    let slope = gain_range.slope();
    assert_eq!(slope.num, slope.den);
}

#[test]
fn test_new_gain_range_flickering_empty() {
    // a range that is too small to be told from an empty one
    let end = fixed(10.0 + f32::EPSILON as f64 / 2.0);
    let gain_range = GainRange::new(fixed(10.0), end, fixed(1.0), fixed(2.0));

    assert_eq!((gain_range.start, gain_range.end), (fixed(10.0), end));
    assert_eq!(gain_range.kp_start, fixed(1.0));
    let slope = gain_range.slope();
    assert_eq!(slope.num, slope.den);
}

#[test]
fn test_get_kp() {
    // slope = 0.1
    let gain_range = GainRange::new(fixed(10.0), fixed(20.0), fixed(1.0), fixed(2.0));

    // Start of range
    assert_gain(gain_range.get_kp(fixed(10.0)), 1.0);
    // Middle of range
    assert_gain(gain_range.get_kp(fixed(15.0)), 1.5);
    // End of range (exclusive, but calculation should still work)
    assert_gain(gain_range.get_kp(fixed(20.0)), 2.0);
}

#[test]
fn test_get_kp_extrapolation() {
    // slope = 0.1
    let gain_range = GainRange::new(fixed(10.0), fixed(20.0), fixed(1.0), fixed(2.0));

    // Before range
    assert_gain(gain_range.get_kp(fixed(5.0)), 0.5); // 0.1 * (5.0 - 10.0) + 1.0 = 0.5
    // After range
    assert_gain(gain_range.get_kp(fixed(30.0)), 3.0); // 0.1 * (30.0 - 10.0) + 1.0 = 3.0
}

#[test]
fn test_get_kp_zero_slope() {
    // slope = 0.0
    let gain_range = GainRange::new(fixed(0.0), fixed(10.0), fixed(3.0), fixed(3.0));

    assert_gain(gain_range.get_kp(fixed(0.0)), 3.0);
    assert_gain(gain_range.get_kp(fixed(5.0)), 3.0);
    assert_gain(gain_range.get_kp(fixed(10.0)), 3.0);
    assert_gain(gain_range.get_kp(fixed(100.0)), 3.0); // Extrapolates
}

#[test]
fn test_contains() {
    let gain_range = GainRange::new(fixed(10.0), fixed(20.0), fixed(1.0), fixed(2.0));

    // Inside
    assert!(gain_range.contains(fixed(10.0)));
    assert!(gain_range.contains(fixed(15.0)));
    assert!(gain_range.contains(fixed(19.999)));

    // Outside (boundary)
    assert!(!gain_range.contains(fixed(20.0))); // the end is exclusive

    // Outside
    assert!(!gain_range.contains(fixed(9.999)));
    assert!(!gain_range.contains(fixed(25.0)));
    assert!(!gain_range.contains(fixed(-10.0)));
}

#[test]
fn test_contains_empty_range() {
    let gain_range = GainRange::new(fixed(10.0), fixed(10.0), fixed(1.0), fixed(2.0));

    assert!(!gain_range.contains(fixed(10.0)));
    assert!(!gain_range.contains(fixed(0.0)));
}

#[test]
fn gain_stays_between_its_nodes() {
    let schedule = Schedule::new(default_cv_config());
    for setpoint in (-1000..500_000).step_by(97) {
        let gain = schedule.kp_for_setpoint(setpoint);
        assert!(150 * gain.den <= gain.num && gain.num <= 2000 * gain.den);
    }
}

#[test]
fn gain_with_empty_ranges() {
    let one = Schedule::new(Config { kp_gain_range1_end: 0, ..default_cv_config() });
    assert_eq!(one.kp_for_setpoint(0).num, 250 * one.kp_for_setpoint(0).den);
    let two = Schedule::new(Config { kp_gain_range1_end: 255, ..default_cv_config() });
    assert_eq!(two.kp_for_setpoint(1600 * 255), Gain { num: 250, den: 1 });
    let none = Schedule::new(Config { max_setpoint: 0, ..default_cv_config() });
    assert_eq!(none.kp_for_setpoint(77), Gain { num: 250, den: 1 });
    let extreme = GainRange::new(i32::MIN, i32::MAX, i32::MAX, i32::MIN);
    let gain = extreme.get_kp(i32::MAX);
    assert_eq!(gain.num, i32::MIN as i128 * gain.den);
}

#[test]
fn gain_config_from_store() {
    let store = CvImage::new(default_values()).unwrap();
    assert_eq!(Config::read(&store, 1600), Ok(default_cv_config()));
}
