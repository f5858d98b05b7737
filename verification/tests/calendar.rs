use node_manager::calendar::{
    days_to_ymd, deployed_duration, fmt_uptime, format_unix_iso, iso_is_readable,
    parse_iso_to_secs, utc_now_iso,
};

#[test]
fn days_become_dates() {
    assert_eq!(days_to_ymd(0), (1970, 1, 1));
    assert_eq!(days_to_ymd(58), (1970, 2, 28));
    assert_eq!(days_to_ymd(59), (1970, 3, 1));
    assert_eq!(days_to_ymd(364), (1970, 12, 31));
    assert_eq!(days_to_ymd(365), (1971, 1, 1));
    assert_eq!(days_to_ymd(789), (1972, 2, 29));
    assert_eq!(days_to_ymd(11016), (2000, 2, 29));
    assert_eq!(days_to_ymd(11017), (2000, 3, 1));
    assert_eq!(days_to_ymd(19723), (2024, 1, 1));
    assert_eq!(days_to_ymd(47540), (2100, 2, 28));
    assert_eq!(days_to_ymd(47541), (2100, 3, 1));
}

#[test]
fn seconds_become_times() {
    assert_eq!(format_unix_iso(0), "1970-01-01T00:00:00Z");
    assert_eq!(format_unix_iso(951782399), "2000-02-28T23:59:59Z");
    assert_eq!(format_unix_iso(1704067199), "2023-12-31T23:59:59Z");
    assert_eq!(utc_now_iso(1704067200), "2024-01-01T00:00:00Z");
}

#[test]
fn times_become_seconds() {
    assert_eq!(parse_iso_to_secs("1970-01-01T00:00:00Z"), Some(0));
    assert_eq!(parse_iso_to_secs("2024-01-01T00:00:01Z"), Some(1704067201));
    assert_eq!(parse_iso_to_secs("2000-02-28T23:59:59"), Some(951782399));
    assert_eq!(parse_iso_to_secs("2024-01-01"), None);
    assert_eq!(parse_iso_to_secs("20x4-01-01T00:00:00Z"), None);
    for secs in [0, 86399, 86400, 951782400, 1709251199, 4102444800] {
        assert_eq!(parse_iso_to_secs(&format_unix_iso(secs)), Some(secs));
    }
}

#[test]
fn later_times_sort_later() {
    let times = [0, 1, 59, 60, 3599, 3600, 86399, 86400, 951782399, 951782400, 253402300799];
    for pair in times.windows(2) {
        assert!(format_unix_iso(pair[0]) < format_unix_iso(pair[1]));
    }
    assert!(format_unix_iso(253402300799) > format_unix_iso(253402300800));
}

#[test]
fn readable_times() {
    assert!(iso_is_readable("2024-01-01T00:00:00Z"));
    assert!(iso_is_readable(""));
    assert!(iso_is_readable("not a time at all, sure"));
    assert!(!iso_is_readable("2024-00-01T00:00:00Z"));
    assert!(!iso_is_readable("2024-01-00T00:00:00Z"));
    assert!(!iso_is_readable("202é-01-01T00:00:00Z"));
}

#[test]
fn spans_of_time() {
    assert_eq!(fmt_uptime(59), "59s");
    assert_eq!(fmt_uptime(60), "1m");
    assert_eq!(fmt_uptime(3599), "59m");
    assert_eq!(fmt_uptime(3600), "1h 0m");
    assert_eq!(fmt_uptime(86399), "23h 59m");
    assert_eq!(fmt_uptime(90000), "1d 1h");
    assert_eq!(deployed_duration("", 100), "—");
    assert_eq!(deployed_duration("soon", 100), "—");
    assert_eq!(deployed_duration("1970-01-01T00:01:40Z", 100), "just now");
    assert_eq!(deployed_duration("1970-01-01T00:00:00Z", 7260), "2h 1m");
}
