use photo_importer::datetime::{days_in_month, is_leap_year, Date, DateTime};
use photo_importer::format::{format_date, format_year};
use photo_importer::parse::{
    parse_date, parse_date_or_datetime, parse_exif_datetime, parse_iso_datetime, trim,
};

fn dt(year: u16, month: u8, day: u8, hour: u8, minute: u8, second: u8) -> DateTime {
    DateTime { date: Date { year, month, day }, hour, minute, second }
}

#[test]
fn exif_timestamp_parses_exactly() {
    let r = parse_exif_datetime("2023:01:01 10:00:00").unwrap();
    assert_eq!(r, dt(2023, 1, 1, 10, 0, 0));
    let r = parse_exif_datetime("1999:12:31 23:59:59").unwrap();
    assert_eq!(r, dt(1999, 12, 31, 23, 59, 59));
}

#[test]
fn exif_timestamp_rejects_wrong_shape() {
    assert!(parse_exif_datetime("2023-01-01T10:00:00").is_none());
    assert!(parse_exif_datetime("2023:01:01").is_none());
    assert!(parse_exif_datetime("2023:01:01 10:00").is_none());
    assert!(parse_exif_datetime("").is_none());
    assert!(parse_exif_datetime("2023:01:01 10:00:00 ").is_none());
}

#[test]
fn exif_timestamp_rejects_invalid_calendar_or_clock() {
    assert!(parse_exif_datetime("2023:13:01 10:00:00").is_none());
    assert!(parse_exif_datetime("2023:00:10 10:00:00").is_none());
    assert!(parse_exif_datetime("2023:02:29 10:00:00").is_none());
    assert!(parse_exif_datetime("2023:04:31 10:00:00").is_none());
    assert!(parse_exif_datetime("2023:01:00 10:00:00").is_none());
    assert!(parse_exif_datetime("2023:01:01 24:00:00").is_none());
    assert!(parse_exif_datetime("2023:01:01 10:60:00").is_none());
    assert!(parse_exif_datetime("2023:01:01 10:00:60").is_none());
}

#[test]
fn leap_years_admit_february_29() {
    assert!(parse_exif_datetime("2024:02:29 00:00:00").is_some());
    assert!(parse_exif_datetime("2000:02:29 00:00:00").is_some());
    assert!(parse_exif_datetime("1900:02:29 00:00:00").is_none());
    assert!(is_leap_year(2024));
    assert!(is_leap_year(2000));
    assert!(!is_leap_year(1900));
    assert!(!is_leap_year(2023));
    assert_eq!(days_in_month(2024, 2), 29);
    assert_eq!(days_in_month(2023, 2), 28);
    assert_eq!(days_in_month(2023, 4), 30);
    assert_eq!(days_in_month(2023, 12), 31);
}

#[test]
fn plain_date_parses_to_a_date() {
    let d = parse_date("2023-06-01").unwrap();
    assert_eq!(d, Date { year: 2023, month: 6, day: 1 });
    assert!(parse_date("2023-6-1").is_none());
    assert!(parse_date("2023-06-31").is_none());
    assert!(parse_date("2023:06:01").is_none());
}

#[test]
fn iso_timestamp_parses_exactly() {
    let r = parse_iso_datetime("2023-06-01T12:34:56").unwrap();
    assert_eq!(r, dt(2023, 6, 1, 12, 34, 56));
    assert!(parse_iso_datetime("2023-06-01 12:34:56").is_none());
}

#[test]
fn cli_bound_takes_datetime_or_date_at_midnight() {
    let r = parse_date_or_datetime("2023-06-01T12:34:56").unwrap();
    assert_eq!(r, dt(2023, 6, 1, 12, 34, 56));
    let r = parse_date_or_datetime("2023-06-01").unwrap();
    assert_eq!(r, dt(2023, 6, 1, 0, 0, 0));
    assert!(parse_date_or_datetime("June first").is_none());
}

#[test]
fn cli_bound_ignores_surrounding_whitespace() {
    let r = parse_date_or_datetime("  2023-06-01\n").unwrap();
    assert_eq!(r, dt(2023, 6, 1, 0, 0, 0));
    assert_eq!(trim("  a b\t"), "a b");
    assert_eq!(trim("   "), "");
    assert_eq!(trim(""), "");
}

#[test]
fn dates_format_zero_padded() {
    assert_eq!(format_date(&Date { year: 2023, month: 1, day: 1 }).as_str(), "2023-01-01");
    assert_eq!(format_date(&Date { year: 987, month: 11, day: 30 }).as_str(), "0987-11-30");
    assert_eq!(format_year(&Date { year: 2023, month: 5, day: 5 }).as_str(), "2023");
    assert_eq!(format_year(&Date { year: 42, month: 1, day: 1 }).as_str(), "0042");
}

#[test]
fn format_then_parse_round_trips() {
    let d = Date { year: 2024, month: 2, day: 29 };
    let s = format_date(&d);
    assert_eq!(parse_date(s.as_str()).unwrap(), d);
}

#[test]
fn timestamps_order_lexicographically() {
    let a = dt(2023, 6, 1, 0, 0, 0);
    let b = dt(2023, 6, 1, 0, 0, 1);
    let c = dt(2024, 1, 1, 0, 0, 0);
    assert!(a.lt(&b));
    assert!(b.lt(&c));
    assert!(a.le(&a));
    assert!(!c.le(&a));
}
