use rust_cal::{datetime_or_epoch, duration_label, parse_timestamp, Date, DateTime};

fn dt(year: u32, month: u32, day: u32, hour: u32, minute: u32, second: u32) -> DateTime {
    DateTime { year, month, day, hour, minute, second }
}

const EPOCH: DateTime = DateTime { year: 1970, month: 1, day: 1, hour: 0, minute: 0, second: 0 };

#[test]
fn parses_exact_components() {
    assert_eq!(parse_timestamp("20240115T090000"), Some(dt(2024, 1, 15, 9, 0, 0)));
    assert_eq!(parse_timestamp("19991231T235959"), Some(dt(1999, 12, 31, 23, 59, 59)));
    assert_eq!(parse_timestamp("00010101T000000"), Some(dt(1, 1, 1, 0, 0, 0)));
}

#[test]
fn rejects_invalid_day() {
    assert_eq!(parse_timestamp("20230199T000000"), None);
    assert_eq!(parse_timestamp("20230100T000000"), None);
    assert_eq!(parse_timestamp("20230432T000000"), None);
}

#[test]
fn rejects_invalid_month() {
    assert_eq!(parse_timestamp("20231301T000000"), None);
    assert_eq!(parse_timestamp("20230001T000000"), None);
}

#[test]
fn rejects_invalid_time_of_day() {
    assert_eq!(parse_timestamp("20230101T240000"), None);
    assert_eq!(parse_timestamp("20230101T006000"), None);
    assert_eq!(parse_timestamp("20230101T000060"), None);
}

#[test]
fn rejects_wrong_shape() {
    assert_eq!(parse_timestamp(""), None);
    assert_eq!(parse_timestamp("20230101"), None);
    assert_eq!(parse_timestamp("20230101T0000000"), None);
    assert_eq!(parse_timestamp("20230101X000000"), None);
    assert_eq!(parse_timestamp("2023010aT000000"), None);
    assert_eq!(parse_timestamp("20230101T00000a"), None);
}

#[test]
fn leap_year_rules() {
    assert_eq!(parse_timestamp("20240229T120000"), Some(dt(2024, 2, 29, 12, 0, 0)));
    assert_eq!(parse_timestamp("20230229T120000"), None);
    assert_eq!(parse_timestamp("19000229T120000"), None);
    assert_eq!(parse_timestamp("20000229T120000"), Some(dt(2000, 2, 29, 12, 0, 0)));
    assert_eq!(parse_timestamp("20240230T120000"), None);
}

#[test]
fn month_lengths() {
    assert_eq!(parse_timestamp("20230430T000000"), Some(dt(2023, 4, 30, 0, 0, 0)));
    assert_eq!(parse_timestamp("20230431T000000"), None);
    assert_eq!(parse_timestamp("20230131T000000"), Some(dt(2023, 1, 31, 0, 0, 0)));
}

#[test]
fn malformed_value_falls_back_to_epoch() {
    assert_eq!(datetime_or_epoch("20230199T000000"), EPOCH);
    assert_eq!(datetime_or_epoch("not a timestamp"), EPOCH);
    assert_eq!(datetime_or_epoch(""), EPOCH);
}

#[test]
fn well_formed_value_is_kept() {
    assert_eq!(datetime_or_epoch("20240115T090000"), dt(2024, 1, 15, 9, 0, 0));
}

#[test]
fn duration_label_formats_times() {
    let start = dt(2024, 1, 15, 9, 0, 0);
    let end = dt(2024, 1, 15, 10, 0, 0);
    assert_eq!(duration_label(&start, &end), "09:00:00-10:00:00");
    assert_eq!(duration_label(&EPOCH, &EPOCH), "00:00:00-00:00:00");
    let a = dt(2023, 6, 1, 23, 59, 58);
    let b = dt(2023, 6, 2, 1, 2, 3);
    assert_eq!(duration_label(&a, &b), "23:59:58-01:02:03");
}

#[test]
fn date_component() {
    let t = dt(2024, 1, 15, 9, 30, 0);
    assert_eq!(t.date(), Date { year: 2024, month: 1, day: 15 });
}
