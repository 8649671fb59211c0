use streamtrim::date::{checked_add_seconds, format_date_base, format_full_base, CivilDateTime};
use streamtrim::decrement_floored;

fn civil(year: u32, month: u32, day: u32, hour: u32, minute: u32, second: u32) -> CivilDateTime {
    CivilDateTime { year, month, day, hour, minute, second }
}

#[test]
fn add_seconds_within_a_day() {
    let dt = civil(2024, 1, 1, 10, 0, 0);
    assert_eq!(checked_add_seconds(&dt, 4), Some(civil(2024, 1, 1, 10, 0, 4)));
}

#[test]
fn add_seconds_rolls_over_midnight() {
    let dt = civil(2024, 1, 1, 23, 59, 59);
    assert_eq!(checked_add_seconds(&dt, 2), Some(civil(2024, 1, 2, 0, 0, 1)));
}

#[test]
fn add_seconds_rolls_into_leap_day() {
    let dt = civil(2024, 2, 28, 23, 59, 59);
    assert_eq!(checked_add_seconds(&dt, 1), Some(civil(2024, 2, 29, 0, 0, 0)));
}

#[test]
fn add_seconds_skips_leap_day_in_common_year() {
    let dt = civil(2023, 2, 28, 23, 59, 59);
    assert_eq!(checked_add_seconds(&dt, 1), Some(civil(2023, 3, 1, 0, 0, 0)));
}

#[test]
fn add_seconds_rolls_over_year_end() {
    let dt = civil(2023, 12, 31, 23, 59, 59);
    assert_eq!(checked_add_seconds(&dt, 61), Some(civil(2024, 1, 1, 0, 1, 0)));
}

#[test]
fn add_seconds_over_a_century_boundary() {
    // 1900 was no leap year: February holds 28 days.
    let dt = civil(1900, 2, 28, 12, 0, 0);
    assert_eq!(checked_add_seconds(&dt, 86400), Some(civil(1900, 3, 1, 12, 0, 0)));
}

#[test]
fn add_seconds_beyond_the_calendar_gives_none() {
    let dt = civil(9999, 12, 31, 23, 59, 59);
    assert_eq!(checked_add_seconds(&dt, 1), None);
    assert_eq!(checked_add_seconds(&dt, 0), Some(dt));
}

#[test]
fn formats_pad_with_zeroes() {
    let dt = civil(987, 3, 7, 4, 5, 6);
    assert_eq!(format_date_base(&dt), "0987-03-07");
    assert_eq!(format_full_base(&dt), "0987-03-07 04:05:06");
}

#[test]
fn format_of_a_plain_timestamp() {
    let dt = civil(2024, 1, 1, 10, 0, 4);
    assert_eq!(format_full_base(&dt), "2024-01-01 10:00:04");
    assert_eq!(format_date_base(&dt), "2024-01-01");
}

#[test]
fn decrement_is_floored_at_zero() {
    // An offset smaller than the trim amount lands exactly on zero.
    assert_eq!(decrement_floored(3000, 4000), 0);
    assert_eq!(decrement_floored(0, 1), 0);
    assert_eq!(decrement_floored(4000, 4000), 0);
    assert_eq!(decrement_floored(9500, 4000), 5500);
}
