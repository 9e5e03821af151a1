use k0_core::formatting::{count_ratio, format_age, ready_ratio};

const NOW: i64 = 1_700_000_000;

#[test]
fn test_format_age_days() {
    let t = NOW - 5 * 86400;
    assert_eq!(format_age(Some(t), NOW), "5d");
}

#[test]
fn test_format_age_hours() {
    let t = NOW - 3 * 3600;
    assert_eq!(format_age(Some(t), NOW), "3h");
}

#[test]
fn test_format_age_minutes() {
    let t = NOW - 45 * 60;
    assert_eq!(format_age(Some(t), NOW), "45m");
}

#[test]
fn test_format_age_seconds() {
    let t = NOW - 30;
    assert_eq!(format_age(Some(t), NOW), "30s");
}

#[test]
fn test_format_age_none() {
    assert_eq!(format_age(None, NOW), "Unknown");
}

#[test]
fn format_age_boundaries() {
    assert_eq!(format_age(Some(NOW), NOW), "0s");
    assert_eq!(format_age(Some(NOW - 86400), NOW), "1d");
    assert_eq!(format_age(Some(NOW - 86399), NOW), "23h");
    assert_eq!(format_age(Some(NOW + 10), NOW), "-10s");
}

#[test]
fn ratios_render_exactly() {
    assert_eq!(ready_ratio(1, 3), "1/3");
    assert_eq!(ready_ratio(0, 0), "0/0");
    assert_eq!(ready_ratio(-1, 10), "-1/10");
    assert_eq!(count_ratio(2, 2), "2/2");
}
