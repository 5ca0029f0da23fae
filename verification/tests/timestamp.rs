use amalgam::error::Error;
use amalgam::timestamp::{realtime_timestamp_to_datetime, split_micros, UtcInstant};

#[test]
fn timestamp_splits_into_seconds_and_nanoseconds() {
    let instant = realtime_timestamp_to_datetime("1600000000123456").unwrap();
    assert_eq!(instant.timestamp(), 1_600_000_000);
    assert_eq!(instant.timestamp_subsec_nanos(), 123_456_000);
}

#[test]
fn timestamp_round_trips_through_its_text() {
    for micros in [0u64, 1, 999_999, 1_000_000, 1_600_000_000_000_000, 253_402_300_799_999_999] {
        let instant = realtime_timestamp_to_datetime(&micros.to_string()).unwrap();
        assert_eq!(instant.timestamp() as u64, micros / 1_000_000);
        assert_eq!(instant.timestamp_subsec_nanos() as u64, (micros % 1_000_000) * 1_000);
    }
}

#[test]
fn timestamp_agrees_with_the_calendar() {
    let instant = realtime_timestamp_to_datetime("1600000000000000").unwrap();
    let expected = chrono::NaiveDate::from_ymd_opt(2020, 9, 13)
        .unwrap()
        .and_hms_opt(12, 26, 40)
        .unwrap()
        .and_utc();
    assert_eq!(
        chrono::DateTime::from_timestamp(instant.timestamp(), instant.timestamp_subsec_nanos()),
        Some(expected)
    );
}

#[test]
fn timestamp_may_carry_a_plus_sign() {
    let instant = realtime_timestamp_to_datetime("+2000001").unwrap();
    assert_eq!(instant.timestamp(), 2);
    assert_eq!(instant.timestamp_subsec_nanos(), 1_000);
}

#[test]
fn timestamp_must_be_an_unsigned_decimal() {
    let malformed =
        Err(Error::MalformedRecord("timestamp is not an unsigned decimal".to_string()));
    for text in ["", "+", "-1", "12a", " 12", "12 ", "1_000", "0x10", "١٢٣", "1.5"] {
        assert_eq!(realtime_timestamp_to_datetime(text), malformed, "{:?}", text);
    }
    assert_eq!(realtime_timestamp_to_datetime("18446744073709551616"), malformed);
}

#[test]
fn timestamp_beyond_the_calendar_is_out_of_range() {
    assert_eq!(
        realtime_timestamp_to_datetime("18446744073709551615"),
        Err(Error::MalformedRecord("timestamp is out of range".to_string()))
    );
}

#[test]
fn instant_is_checked_when_built() {
    let instant = UtcInstant::new(-1, 999_999_999).unwrap();
    assert_eq!(instant.timestamp(), -1);
    assert_eq!(instant.timestamp_subsec_nanos(), 999_999_999);
    assert_eq!(UtcInstant::new(0, 1_000_000_000), None);
    assert_eq!(UtcInstant::new(i64::MAX, 0), None);
    assert_eq!(UtcInstant::new(i64::MIN, 0), None);
}

#[test]
fn microseconds_are_split_exactly() {
    assert_eq!(split_micros(0), (0, 0));
    assert_eq!(split_micros(999_999), (0, 999_999_000));
    assert_eq!(split_micros(1_000_000), (1, 0));
    assert_eq!(split_micros(1_600_000_000_123_456), (1_600_000_000, 123_456_000));
    assert_eq!(split_micros(u64::MAX), (18_446_744_073_709, 551_615_000));
}
