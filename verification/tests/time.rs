use liase::time::{Timestamp, FIRST_SECOND, LAST_SECOND};

fn at(secs: i64, nanos: u32) -> Timestamp {
    Timestamp::new(secs, nanos).unwrap()
}

#[test]
fn minutes_are_whole() {
    assert_eq!(at(600, 0).minutes_since(&at(0, 0)), 10);
    assert_eq!(at(599, 999_999_999).minutes_since(&at(0, 0)), 9);
    assert_eq!(at(0, 0).minutes_since(&at(600, 0)), -10);
    assert_eq!(at(0, 0).minutes_since(&at(599, 0)), -9);
    assert_eq!(at(660, 5).minutes_since(&at(600, 6)), 0);
    assert_eq!(at(1_700_000_000, 0).minutes_since(&at(1_600_000_000, 0)), 1_666_666);
}

#[test]
fn leap_seconds_count() {
    // a leap second ends the second minute
    assert_eq!(at(119, 1_000_000_000).minutes_since(&at(60, 0)), 1);
    assert_eq!(at(119, 999_999_999).minutes_since(&at(60, 0)), 0);
    assert_eq!(at(179, 0).minutes_since(&at(119, 1_000_000_000)), 1);
}

#[test]
fn times_in_rfc_3339() {
    assert_eq!(at(0, 0).to_rfc3339(), "1970-01-01T00:00:00+00:00");
    assert_eq!(at(1_709_210_096, 0).to_rfc3339(), "2024-02-29T12:34:56+00:00");
    assert_eq!(at(0, 500_000_000).to_rfc3339(), "1970-01-01T00:00:00.500+00:00");
    assert_eq!(at(-1, 0).to_rfc3339(), "1969-12-31T23:59:59+00:00");
}

#[test]
fn times_have_bounds() {
    assert!(Timestamp::new(FIRST_SECOND, 0).is_some());
    assert!(Timestamp::new(FIRST_SECOND - 1, 0).is_none());
    assert!(Timestamp::new(LAST_SECOND, 999_999_999).is_some());
    assert!(Timestamp::new(LAST_SECOND + 1, 0).is_none());
    assert!(Timestamp::new(0, 1_000_000_000).is_none());
    assert!(Timestamp::new(59, 1_999_999_999).is_some());
    assert!(Timestamp::new(-1, 1_000_000_000).is_some());
    assert!(Timestamp::new(59, 2_000_000_000).is_none());
    // every point in time can be told apart and written
    let first = at(FIRST_SECOND, 0).to_rfc3339();
    let last = at(LAST_SECOND, 0).to_rfc3339();
    assert_ne!(first, last);
    assert_eq!(at(LAST_SECOND, 0).minutes_since(&at(FIRST_SECOND, 0)), 275_747_801_759);
}

#[test]
fn bounds_are_those_of_chrono() {
    for (secs, nanos) in [
        (FIRST_SECOND, 0), (FIRST_SECOND - 1, 0), (LAST_SECOND, 0), (LAST_SECOND + 1, 0),
        (59, 1_500_000_000), (58, 1_500_000_000), (-1, 1_000_000_000), (0, 2_000_000_000),
    ] {
        assert_eq!(
            Timestamp::new(secs, nanos).is_some(),
            chrono::DateTime::from_timestamp(secs, nanos).is_some()
        );
    }
}

#[test]
fn times_keep_their_numbers() {
    let t = at(42, 7);
    assert_eq!((t.timestamp(), t.timestamp_subsec_nanos()), (42, 7));
}
