use byebyecode::timestamp::{is_leap_year, iso_ts_to_epoch, try_iso_ts_to_epoch};

#[test]
fn converts_documented_example() {
    assert_eq!(iso_ts_to_epoch("2026-03-16T04:52:11.745Z"), 1773636731745);
}

#[test]
fn converts_leap_day_and_century_leap_year() {
    assert_eq!(iso_ts_to_epoch("2024-02-29T23:59:59.999Z"), 1709251199999);
    assert_eq!(iso_ts_to_epoch("2000-03-01T00:00:00Z"), 951868800000);
}

#[test]
fn epoch_origin_is_zero() {
    assert_eq!(iso_ts_to_epoch("1970-01-01T00:00:00Z"), 0);
    assert_eq!(iso_ts_to_epoch("1970-01-01T00:00:00.000Z"), 0);
}

#[test]
fn next_day_is_one_day_later() {
    let a = iso_ts_to_epoch("2023-12-31T10:00:00Z");
    let b = iso_ts_to_epoch("2024-01-01T10:00:00Z");
    assert_eq!(b - a, 86_400_000);
    let c = iso_ts_to_epoch("2024-02-28T10:00:00Z");
    let d = iso_ts_to_epoch("2024-02-29T10:00:00Z");
    let e = iso_ts_to_epoch("2024-03-01T10:00:00Z");
    assert_eq!(d - c, 86_400_000);
    assert_eq!(e - d, 86_400_000);
}

#[test]
fn surrounding_whitespace_and_trailing_zs_are_ignored() {
    assert_eq!(iso_ts_to_epoch("  2026-03-16T04:52:11.745ZZ \n"), 1773636731745);
}

#[test]
fn milliseconds_are_read_as_a_plain_number() {
    // ".5" counts as 5 milliseconds, not 500.
    assert_eq!(iso_ts_to_epoch("1970-01-01T00:00:00.5Z"), 5);
    // Unparsable milliseconds count 0.
    assert_eq!(iso_ts_to_epoch("1970-01-01T00:00:01.xyzZ"), 1000);
}

#[test]
fn malformed_timestamps_count_zero() {
    assert_eq!(iso_ts_to_epoch(""), 0);
    assert_eq!(iso_ts_to_epoch("2026-03-16"), 0);
    assert_eq!(iso_ts_to_epoch("2026-03T04:52:11Z"), 0);
    assert_eq!(iso_ts_to_epoch("2026-03-16T04:52Z"), 0);
}

#[test]
fn unparsable_pieces_are_skipped() {
    // "x" is dropped, leaving three date numbers.
    assert_eq!(iso_ts_to_epoch("2026-x-03-16T04:52:11.745Z"), 1773636731745);
    // A leading '+' is accepted by the number parser.
    assert_eq!(iso_ts_to_epoch("+1970-01-01T00:00:01Z"), 1000);
}

#[test]
fn years_before_1970_count_as_1970() {
    assert_eq!(iso_ts_to_epoch("1969-01-02T00:00:00Z"), 86_400_000);
}

#[test]
fn inconvertible_fields_are_reported() {
    assert_eq!(try_iso_ts_to_epoch("2026-03-00T00:00:00Z"), None);
    assert_eq!(try_iso_ts_to_epoch("2026-14-01T00:00:00Z"), None);
    assert_eq!(try_iso_ts_to_epoch("2026-13-01T00:00:00Z"), Some(iso_ts_to_epoch("2027-01-01T00:00:00Z")));
    assert_eq!(try_iso_ts_to_epoch("999999999999-01-01T00:00:00Z"), None);
    assert_eq!(try_iso_ts_to_epoch("1970-01-01T00:00:00.18446744073709551615Z"), Some(18446744073709551615));
    assert_eq!(try_iso_ts_to_epoch("1970-01-01T00:00:01.18446744073709551615Z"), None);
    assert_eq!(try_iso_ts_to_epoch("garbage"), Some(0));
}

#[test]
fn leap_years_follow_the_gregorian_rule() {
    assert!(is_leap_year(2024));
    assert!(!is_leap_year(2023));
    assert!(!is_leap_year(1900));
    assert!(is_leap_year(2000));
}

#[test]
fn later_time_of_day_is_later() {
    let a = iso_ts_to_epoch("2025-06-01T12:59:59.999Z");
    let b = iso_ts_to_epoch("2025-06-01T13:00:00.000Z");
    assert_eq!(b - a, 1);
}
