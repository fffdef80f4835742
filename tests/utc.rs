use blocktimes::{format_civil, format_utc, CivilTime, FetchError};

fn civil(year: i32, month: u32, day: u32, hour: u32, minute: u32, second: u32) -> CivilTime {
    CivilTime { year, month, day, hour, minute, second }
}

#[test]
fn epoch_formats_as_utc_text() {
    assert_eq!(format_utc(0).unwrap(), "1970-01-01 00:00:00 UTC");
}

#[test]
fn small_timestamps_format() {
    assert_eq!(format_utc(1000).unwrap(), "1970-01-01 00:16:40 UTC");
    assert_eq!(format_utc(1500).unwrap(), "1970-01-01 00:25:00 UTC");
    assert_eq!(format_utc(1400).unwrap(), "1970-01-01 00:23:20 UTC");
}

#[test]
fn calendar_dates_format() {
    assert_eq!(format_utc(1_431_648_000).unwrap(), "2015-05-15 00:00:00 UTC");
    assert_eq!(format_utc(951_782_400).unwrap(), "2000-02-29 00:00:00 UTC");
    assert_eq!(format_utc(1_700_000_000).unwrap(), "2023-11-14 22:13:20 UTC");
    assert_eq!(format_utc(86_399).unwrap(), "1970-01-01 23:59:59 UTC");
}

#[test]
fn timestamps_beyond_the_calendar_are_invalid() {
    for secs in [u64::MAX, i64::MAX as u64, (i64::MAX as u64) + 1] {
        match format_utc(secs) {
            Err(FetchError::InvalidTimestamp { secs: s }) => assert_eq!(s, secs),
            other => panic!("expected InvalidTimestamp, got {:?}", other),
        }
    }
}

#[test]
fn civil_fields_are_zero_padded() {
    assert_eq!(format_civil(&civil(2024, 3, 9, 4, 5, 6)), "2024-03-09 04:05:06 UTC");
    assert_eq!(format_civil(&civil(5, 12, 31, 23, 59, 59)), "0005-12-31 23:59:59 UTC");
}

#[test]
fn civil_years_outside_four_digits_carry_a_sign() {
    assert_eq!(format_civil(&civil(10000, 1, 2, 3, 4, 5)), "+10000-01-02 03:04:05 UTC");
    assert_eq!(format_civil(&civil(-44, 3, 15, 12, 0, 0)), "-0044-03-15 12:00:00 UTC");
}

#[test]
fn four_digit_years_end_representable() {
    assert_eq!(format_utc(253_402_300_799).unwrap(), "9999-12-31 23:59:59 UTC");
    assert_eq!(format_utc(253_402_300_800).unwrap(), "+10000-01-01 00:00:00 UTC");
}

#[test]
fn calendar_range_ends_with_its_last_year() {
    assert_eq!(format_utc(8_210_266_876_799).unwrap(), "+262142-12-31 23:59:59 UTC");
    assert!(matches!(
        format_utc(8_210_266_876_800),
        Err(FetchError::InvalidTimestamp { secs: 8_210_266_876_800 })
    ));
}

#[test]
fn leap_years_follow_the_gregorian_rules() {
    assert_eq!(format_utc(4_107_542_400).unwrap(), "2100-03-01 00:00:00 UTC");
    assert_eq!(format_utc(4_107_456_000).unwrap(), "2100-02-28 00:00:00 UTC");
    assert_eq!(format_utc(1_709_164_800).unwrap(), "2024-02-29 00:00:00 UTC");
}
