use chrono::{DateTime, Datelike, Timelike, Utc};
use mass_store::instant::{
    to_application_instant, to_storage_instant, ApplicationInstant, StorageInstant,
    TemporalConversionFailure, MAX_UNIX_SECONDS, MIN_UNIX_SECONDS, NANOS_PER_SECOND,
};
use time::OffsetDateTime;

fn app(seconds: i64, nanoseconds: u32) -> ApplicationInstant {
    ApplicationInstant { seconds, nanoseconds }
}

fn stored(unix_nanos: i128) -> StorageInstant {
    StorageInstant { unix_nanos }
}

#[test]
fn epoch_is_zero_in_both_tiers() {
    assert_eq!(to_storage_instant(app(0, 0)), Ok(stored(0)));
    assert_eq!(to_application_instant(stored(0)), Ok(app(0, 0)));
}

#[test]
fn whole_seconds_become_nanoseconds() {
    assert_eq!(
        to_storage_instant(app(1_546_300_800, 0)),
        Ok(stored(1_546_300_800_000_000_000))
    );
}

#[test]
fn nanoseconds_are_kept_exactly() {
    assert_eq!(to_storage_instant(app(1, 500_000_000)), Ok(stored(1_500_000_000)));
    assert_eq!(
        to_storage_instant(app(1_700_000_000, 123_456_789)),
        Ok(stored(1_700_000_000_123_456_789))
    );
    assert_eq!(
        to_application_instant(stored(1_700_000_000_123_456_789)),
        Ok(app(1_700_000_000, 123_456_789))
    );
}

#[test]
fn instants_before_the_epoch_round_down_to_the_second() {
    assert_eq!(to_storage_instant(app(-1, 999_999_999)), Ok(stored(-1)));
    assert_eq!(to_application_instant(stored(-1)), Ok(app(-1, 999_999_999)));
    assert_eq!(to_application_instant(stored(-1_000_000_000)), Ok(app(-1, 0)));
    assert_eq!(to_application_instant(stored(-1_000_000_001)), Ok(app(-2, 999_999_999)));
}

#[test]
fn nanoseconds_beyond_one_second_are_malformed() {
    assert_eq!(
        to_storage_instant(app(0, 1_000_000_000)),
        Err(TemporalConversionFailure::Malformed)
    );
    assert_eq!(
        to_storage_instant(app(1_483_228_799, 1_999_999_999)),
        Err(TemporalConversionFailure::Malformed)
    );
    assert_eq!(to_storage_instant(app(0, 999_999_999)), Ok(stored(999_999_999)));
}

#[test]
fn malformed_is_reported_before_out_of_range() {
    assert_eq!(
        to_storage_instant(app(i64::MAX, u32::MAX)),
        Err(TemporalConversionFailure::Malformed)
    );
}

#[test]
fn seconds_outside_the_storage_years_are_out_of_range() {
    assert_eq!(
        to_storage_instant(app(MAX_UNIX_SECONDS + 1, 0)),
        Err(TemporalConversionFailure::OutOfRange)
    );
    assert_eq!(
        to_storage_instant(app(MIN_UNIX_SECONDS - 1, 999_999_999)),
        Err(TemporalConversionFailure::OutOfRange)
    );
    assert_eq!(to_storage_instant(app(i64::MAX, 0)), Err(TemporalConversionFailure::OutOfRange));
    assert_eq!(to_storage_instant(app(i64::MIN, 0)), Err(TemporalConversionFailure::OutOfRange));
}

#[test]
fn first_and_last_instants_convert() {
    let first = stored(-377_705_116_800_000_000_000);
    let last = stored(253_402_300_799_999_999_999);
    assert_eq!(to_storage_instant(app(MIN_UNIX_SECONDS, 0)), Ok(first));
    assert_eq!(to_storage_instant(app(MAX_UNIX_SECONDS, 999_999_999)), Ok(last));
    assert_eq!(to_application_instant(first), Ok(app(-377_705_116_800, 0)));
    assert_eq!(to_application_instant(last), Ok(app(253_402_300_799, 999_999_999)));
}

#[test]
fn storage_instants_outside_the_years_are_out_of_range() {
    assert_eq!(
        to_application_instant(stored(253_402_300_800_000_000_000)),
        Err(TemporalConversionFailure::OutOfRange)
    );
    assert_eq!(
        to_application_instant(stored(-377_705_116_800_000_000_001)),
        Err(TemporalConversionFailure::OutOfRange)
    );
    let refused = Err(TemporalConversionFailure::OutOfRange);
    assert_eq!(to_application_instant(stored(i128::MAX)), refused);
    assert_eq!(to_application_instant(stored(i128::MIN)), refused);
}

#[test]
fn round_trip_from_the_application_tier() {
    let samples = [
        app(0, 0),
        app(1, 1),
        app(-1, 999_999_999),
        app(1_700_000_000, 123_456_789),
        app(-62_135_596_800, 0),
        app(MIN_UNIX_SECONDS, 0),
        app(MAX_UNIX_SECONDS, 999_999_999),
    ];
    for sample in samples {
        let there = to_storage_instant(sample).unwrap();
        assert_eq!(to_application_instant(there), Ok(sample));
    }
}

#[test]
fn round_trip_from_the_storage_tier() {
    let samples: [i128; 6] = [
        0,
        -1,
        1,
        1_700_000_000_123_456_789,
        -377_705_116_800_000_000_000,
        253_402_300_799_999_999_999,
    ];
    for sample in samples {
        let there = to_application_instant(stored(sample)).unwrap();
        assert_eq!(to_storage_instant(there), Ok(stored(sample)));
    }
}

#[test]
fn conversion_keeps_the_order_of_instants() {
    let earlier = app(1_700_000_000, 999_999_999);
    let later = app(1_700_000_001, 0);
    let a = to_storage_instant(earlier).unwrap();
    let b = to_storage_instant(later).unwrap();
    assert!(a.unix_nanos < b.unix_nanos);
    let before_epoch = to_storage_instant(app(-5, 1)).unwrap();
    let at_epoch = to_storage_instant(app(0, 0)).unwrap();
    assert!(before_epoch.unix_nanos < at_epoch.unix_nanos);
}

#[test]
fn conversion_is_exact_to_the_millisecond() {
    let instant = app(1_700_000_000, 123_456_789);
    let there = to_storage_instant(instant).unwrap();
    assert_eq!(there.unix_nanos / 1_000_000, 1_700_000_000_123);
    assert_eq!(there.unix_nanos / NANOS_PER_SECOND, 1_700_000_000);
}

#[test]
fn the_range_is_that_of_the_storage_calendar() {
    let first = (MIN_UNIX_SECONDS as i128) * NANOS_PER_SECOND;
    let last = (MAX_UNIX_SECONDS as i128) * NANOS_PER_SECOND + 999_999_999;
    assert!(OffsetDateTime::from_unix_timestamp_nanos(first).is_ok());
    assert!(OffsetDateTime::from_unix_timestamp_nanos(first - 1).is_err());
    assert!(OffsetDateTime::from_unix_timestamp_nanos(last).is_ok());
    assert!(OffsetDateTime::from_unix_timestamp_nanos(last + 1).is_err());
    let opened = OffsetDateTime::from_unix_timestamp_nanos(first).unwrap();
    assert_eq!((opened.year(), opened.ordinal()), (-9999, 1));
    let closed = OffsetDateTime::from_unix_timestamp_nanos(last).unwrap();
    assert_eq!((closed.year(), closed.ordinal(), closed.hour()), (9999, 365, 23));
}

#[test]
fn both_calendars_read_the_same_utc_fields() {
    let samples: [(i64, u32); 5] = [
        (0, 0),
        (1_700_000_000, 123_456_789),
        (951_782_400, 0),
        (-1, 999_999_999),
        (4_102_444_799, 999_000_000),
    ];
    for (seconds, nanoseconds) in samples {
        let wall: DateTime<Utc> = DateTime::from_timestamp(seconds, nanoseconds).unwrap();
        let instant = app(wall.timestamp(), wall.timestamp_subsec_nanos());
        let there = to_storage_instant(instant).unwrap();
        let kept = OffsetDateTime::from_unix_timestamp_nanos(there.unix_nanos).unwrap();
        assert_eq!(kept.year(), wall.year());
        assert_eq!(u8::from(kept.month()) as u32, wall.month());
        assert_eq!(kept.day() as u32, wall.day());
        assert_eq!(kept.hour() as u32, wall.hour());
        assert_eq!(kept.minute() as u32, wall.minute());
        assert_eq!(kept.second() as u32, wall.second());
        assert_eq!(kept.nanosecond(), wall.nanosecond());
        assert!(kept.offset().is_utc());
        let back = to_application_instant(stored(kept.unix_timestamp_nanos())).unwrap();
        assert_eq!(DateTime::from_timestamp(back.seconds, back.nanoseconds), Some(wall));
    }
}

#[test]
fn a_leap_second_of_the_wall_clock_is_refused() {
    let leap: DateTime<Utc> = DateTime::from_timestamp(1_483_228_799, 1_500_000_000).unwrap();
    let instant = app(leap.timestamp(), leap.timestamp_subsec_nanos());
    assert_eq!(to_storage_instant(instant), Err(TemporalConversionFailure::Malformed));
}
