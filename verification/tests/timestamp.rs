use atom_syndication_format::common::timestamp::OffsetSymbol;
use atom_syndication_format::common::timestamp::TimeStamp;
use atom_syndication_format::common::timestamp::TimeZoneOffset;
use atom_syndication_format::error::TimeStampFormatErrors;

fn offset(hours: u8, minutes: u8, symbol: OffsetSymbol) -> TimeZoneOffset {
    let mut tz = TimeZoneOffset::new();
    tz.set_hours(hours);
    tz.set_minutes(minutes);
    tz.set_symbol(symbol);
    tz
}

#[test]
fn basic_timestamp() {
    let timestamp = TimeStamp::new(1726702105542 / 1000);
    assert_eq!("2024-09-18T23:28:25Z", timestamp.to_string());
}

#[test]
fn basic_timestamp_with_utc_plus_03() {
    let mut timestamp = TimeStamp::new(1726702105542 / 1000);
    timestamp.set_tz(offset(3, 0, OffsetSymbol::Plus));
    assert_eq!("2024-09-19T02:28:25+03:00", timestamp.to_string());
}

#[test]
fn basic_timestamp_with_utc_minus_03() {
    let mut timestamp = TimeStamp::new(1726702105542 / 1000);
    timestamp.set_tz(offset(3, 0, OffsetSymbol::Minus));
    assert_eq!("2024-09-18T20:28:25-03:00", timestamp.to_string());
}

#[test]
fn ts_parse() {
    let mut timestamp = TimeStamp::new(1726702105);
    timestamp.set_tz(offset(3, 0, OffsetSymbol::Plus));
    let text = timestamp.to_string();

    println!("first {}", text);

    let ts = TimeStamp::from_str(&text).unwrap();

    println!("second as u64 {}", ts.unix_time);
    println!("second as str {}", ts.to_string());

    let mut timestamp2 = TimeStamp::new(ts.unix_time);

    println!("final {}", timestamp2.to_string());
    timestamp2.set_tz(offset(5, 0, OffsetSymbol::Minus));
    println!("final {}", timestamp2.to_string());
    assert_eq!(1726702105, ts.unix_time);
}

#[test]
fn decode_utc() {
    let ts = TimeStamp::from_str("2024-09-18T23:28:25Z").unwrap();
    assert_eq!(1726702105, ts.unix_time);
}

#[test]
fn round_trip_various_offsets() {
    let cases: Vec<(u64, TimeZoneOffset)> = vec![
        (0, TimeZoneOffset::new()),
        (1, offset(0, 0, OffsetSymbol::Minus)),
        (951827696, offset(11, 30, OffsetSymbol::Plus)),
        (4107542400, offset(23, 59, OffsetSymbol::Minus)),
        (1726702105, offset(3, 0, OffsetSymbol::Plus)),
    ];
    for (secs, tz) in cases {
        let mut ts = TimeStamp::new(secs);
        ts.set_tz(tz);
        let text = ts.to_string();
        let back = TimeStamp::from_str(&text).unwrap();
        assert_eq!(secs, back.unix_time);
        assert_eq!(tz, back.time_zone);
    }
}

#[test]
fn decode_rejects_month_13() {
    let r = TimeStamp::from_str("2024-13-01T00:00:00Z");
    assert!(matches!(r, Err(TimeStampFormatErrors::InvalidDate)));
}

#[test]
fn decode_rejects_feb_30_in_non_leap_year() {
    let r = TimeStamp::from_str("2023-02-30T00:00:00Z");
    assert!(matches!(r, Err(TimeStampFormatErrors::InvalidDate)));
    // the leap year accepts the 29th
    assert!(TimeStamp::from_str("2024-02-29T00:00:00Z").is_ok());
    assert!(matches!(
        TimeStamp::from_str("2023-02-29T00:00:00Z"),
        Err(TimeStampFormatErrors::InvalidDate)
    ));
}

#[test]
fn decode_rejects_hour_24() {
    let r = TimeStamp::from_str("2024-09-18T24:00:00Z");
    assert!(matches!(r, Err(TimeStampFormatErrors::InvalidTime)));
}

#[test]
fn decode_rejects_malformed_offsets() {
    assert!(matches!(
        TimeStamp::from_str("2024-09-18T23:28:25+0300"),
        Err(TimeStampFormatErrors::InvalidTimeOffset)
    ));
    assert!(matches!(
        TimeStamp::from_str("2024-09-18T23:28:25X"),
        Err(TimeStampFormatErrors::InvalidTimeOffset)
    ));
    assert!(matches!(
        TimeStamp::from_str("2024-09-18T23:28:25+aa:00"),
        Err(TimeStampFormatErrors::InvalidTimeOffset)
    ));
    // the unknown-offset sentinel decodes like a genuine -00:00
    let ts = TimeStamp::from_str("2024-09-18T23:28:25-00:00").unwrap();
    assert_eq!(1726702105, ts.unix_time);
    assert_eq!(OffsetSymbol::Minus, ts.time_zone.symbol);
}

#[test]
fn decode_rejects_wrong_shapes() {
    assert!(matches!(
        TimeStamp::from_str("2024-09-18"),
        Err(TimeStampFormatErrors::InvalidFormat)
    ));
    assert!(matches!(
        TimeStamp::from_str("2024-09-18 23:28:25Z"),
        Err(TimeStampFormatErrors::InvalidFormat)
    ));
    assert!(matches!(
        TimeStamp::from_str("1969-12-31T23:59:59Z"),
        Err(TimeStampFormatErrors::UnsupportedYear)
    ));
}

#[test]
fn round_trip_drifts_on_last_block_day() {
    // the final day of a four-year leap block: the year split drifts a
    // day forward, and the decoded instant lands one leap day later
    let ts = TimeStamp::new(126144000);
    let text = ts.to_string();
    assert_eq!("1974-01-01T00:00:00Z", text);
    let back = TimeStamp::from_str(&text).unwrap();
    assert_eq!(126230400, back.unix_time);
}

#[test]
fn decode_checks_punctuation_before_ranges() {
    // a bad month and a bad time colon together: the layout check wins
    assert!(matches!(
        TimeStamp::from_str("2024-13-01T00x00:00Z"),
        Err(TimeStampFormatErrors::InvalidFormat)
    ));
}
