use reniced::actions::convert_oom_adj;

#[test]
fn converts_maximum_oom_adj() {
    // The legacy maximum maps to the new-interface maximum.
    assert_eq!(convert_oom_adj(15), 1000);
}

#[test]
fn converts_zero_oom_adj() {
    assert_eq!(convert_oom_adj(0), 0);
}

#[test]
fn converts_negative_oom_adj() {
    assert_eq!(convert_oom_adj(-17), -1000);
}

#[test]
fn converts_mid_range_positive() {
    // (7 * 1000) / 17 = 411 (integer division)
    assert_eq!(convert_oom_adj(7), 411);
}

#[test]
fn converts_mid_range_negative() {
    // (-8 * 1000) / 17 = -470 (division toward zero)
    assert_eq!(convert_oom_adj(-8), -470);
}

#[test]
fn converts_one() {
    assert_eq!(convert_oom_adj(1), 58);
}

#[test]
fn converts_minus_one() {
    assert_eq!(convert_oom_adj(-1), -58);
}

#[test]
fn conversion_caps_values_beyond_the_legacy_range() {
    assert_eq!(convert_oom_adj(16), 1000);
    assert_eq!(convert_oom_adj(i32::MAX), 1000);
    assert_eq!(convert_oom_adj(-18), -1000);
    assert_eq!(convert_oom_adj(i32::MIN), -1000);
}

#[test]
fn conversion_is_monotone_and_bounded_on_samples() {
    let mut previous = convert_oom_adj(-40);
    for score in -39..40 {
        let converted = convert_oom_adj(score);
        assert!(converted >= previous);
        assert!((-1000..=1000).contains(&converted));
        previous = converted;
    }
    assert_eq!(convert_oom_adj(-14), -convert_oom_adj(14));
    assert_eq!(convert_oom_adj(-16), -941);
    assert_eq!(reniced::platform::linux::convert_oom_adj(10), 588);
}
