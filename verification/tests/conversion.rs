use ddcci_brightness::convert::{percent_from_raw, raw_from_percent, scale};

#[test]
fn scale_rounds_half_away_from_zero() {
    assert_eq!(scale(5, 2), 3);
    assert_eq!(scale(4, 2), 2);
    assert_eq!(scale(1, 3), 0);
}

#[test]
fn scale_plain_quotients() {
    assert_eq!(scale(10, 5), 2);
    assert_eq!(scale(0, 7), 0);
    assert_eq!(scale(99, 100), 1);
    assert_eq!(scale(49, 100), 0);
    assert_eq!(scale(50, 100), 1);
}

#[test]
fn percent_stays_within_range() {
    for max in [1u32, 2, 3, 7, 80, 100, 255, 300, 65535] {
        for raw in [0u32, 1, max / 2, max.saturating_sub(1), max] {
            let p = percent_from_raw(raw, max);
            assert!(p <= 100, "percent {p} out of range for raw {raw} max {max}");
        }
    }
}

#[test]
fn percent_endpoints_are_exact() {
    assert_eq!(percent_from_raw(0, 80), 0);
    assert_eq!(percent_from_raw(80, 80), 100);
    assert_eq!(percent_from_raw(40, 80), 50);
    assert_eq!(percent_from_raw(1, 3), 33);
    assert_eq!(percent_from_raw(2, 3), 67);
}

#[test]
fn raw_from_percent_examples() {
    assert_eq!(raw_from_percent(0, 80), 0);
    assert_eq!(raw_from_percent(100, 80), 80);
    assert_eq!(raw_from_percent(50, 80), 40);
    assert_eq!(raw_from_percent(10, 100), 10);
    assert_eq!(raw_from_percent(33, 3), 1);
}

#[test]
fn round_trip_stays_within_one_unit() {
    for max in [1u32, 2, 3, 7, 50, 100, 137, 200, 255, 300] {
        for raw in 0..=max {
            let p = percent_from_raw(raw, max);
            let back = raw_from_percent(p, max);
            let diff = back.abs_diff(raw);
            assert!(diff <= 1, "round trip moved raw {raw} to {back} at max {max}");
        }
    }
}
