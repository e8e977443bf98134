use satnogs_monitor::time::{
    countdown, date_text, moment_text, plain_clock, signed_clock, Countdown, Timestamp,
    FIRST_SECOND, LAST_SECOND, NANOS,
};

fn at(secs: i64, nanos: u32) -> Timestamp {
    Timestamp { secs, nanos }
}

#[test]
fn the_count_is_cut_towards_zero() {
    let start = at(1_000, 500_000_000);
    let count = |now: Timestamp| countdown(start, now);
    assert_eq!(count(start), Countdown { minutes: 0, seconds: 0, reached: true });
    assert_eq!(count(at(1_000, 499_999_999)), Countdown { minutes: 0, seconds: 0, reached: false });
    assert_eq!(count(at(999, 600_000_000)), Countdown { minutes: 0, seconds: 0, reached: false });
    assert_eq!(count(at(999, 500_000_000)), Countdown { minutes: 0, seconds: 1, reached: false });
    assert_eq!(count(at(999, 400_000_000)), Countdown { minutes: 0, seconds: 1, reached: false });
    assert_eq!(count(at(940, 500_000_001)), Countdown { minutes: 0, seconds: 59, reached: false });
    assert_eq!(count(at(940, 500_000_000)), Countdown { minutes: -1, seconds: 0, reached: false });
    assert_eq!(count(at(1_060, 499_999_999)), Countdown { minutes: 0, seconds: 59, reached: true });
    assert_eq!(count(at(1_125, 500_000_000)), Countdown { minutes: 2, seconds: 5, reached: true });
}

#[test]
fn the_count_agrees_with_chrono() {
    let moments = [
        at(0, 0),
        at(0, 1),
        at(59, 999_999_999),
        at(60, 0),
        at(-1, 0),
        at(-61, 7),
        at(1_562_000_000, 123_456_789),
        at(1_562_003_599, 123_456_790),
        at(FIRST_SECOND, 0),
        at(LAST_SECOND, NANOS - 1),
        at(1_483_228_799, 1_500_000_000),
        at(1_483_228_800, 200_000_000),
        at(1_483_228_799, 400_000_000),
        at(1_483_315_199, 1_000_000_000),
        at(1_483_401_540, 700_000_000),
        at(-1, 1_999_999_999),
        at(LAST_SECOND, 1_999_999_999),
    ];
    for start in moments {
        for now in moments {
            let utc = |t: Timestamp| chrono::DateTime::from_timestamp(t.secs, t.nanos).unwrap();
            let delta = utc(now) - utc(start);
            let count = countdown(start, now);
            assert_eq!(count.minutes, delta.num_minutes());
            assert_eq!(count.seconds as i64, (delta.num_seconds() % 60).abs());
            assert_eq!(count.reached, delta >= chrono::Duration::zero());
            assert_eq!(now.not_before(start), utc(now) >= utc(start));
        }
    }
}

#[test]
fn the_clock_has_its_fields() {
    let early = Countdown { minutes: -12, seconds: 5, reached: false };
    assert_eq!(signed_clock(early, 4), " -12' 5\"");
    assert_eq!(plain_clock(early, 5), "  -12' 5\"");
    let late = Countdown { minutes: 0, seconds: 42, reached: true };
    assert_eq!(signed_clock(late, 4), "  +0'42\"");
    assert_eq!(plain_clock(late, 5), "    0'42\"");
}

#[test]
fn moments_are_written_as_dates() {
    assert_eq!(date_text(at(0, 0)), "1970-01-01 00:00:00");
    assert_eq!(date_text(at(1_562_068_800, 999_999_999)), "2019-07-02 12:00:00");
    assert_eq!(date_text(at(1_483_228_799, 1_500_000_000)), "2016-12-31 23:59:60");
    assert_eq!(moment_text(at(0, 0)), "1970-01-01 00:00:00 UTC");
    assert_eq!(moment_text(at(1_562_068_800, 250_000_000)), "2019-07-02 12:00:00.250 UTC");
}

#[test]
fn the_calendar_has_its_ends() {
    assert_eq!(date_text(at(FIRST_SECOND, 0)), "-262143-01-01 00:00:00");
    assert_eq!(date_text(at(LAST_SECOND, NANOS - 1)), "+262142-12-31 23:59:59");
    assert!(at(FIRST_SECOND, 0).valid());
    assert!(!at(FIRST_SECOND - 1, 0).valid());
    assert!(at(LAST_SECOND, NANOS - 1).valid());
    assert!(!at(LAST_SECOND + 1, 0).valid());
    assert!(!at(0, NANOS).valid());
    assert!(at(59, 2 * NANOS - 1).valid());
    assert!(!at(59, 2 * NANOS).valid());
    assert!(at(-61, NANOS).valid());
    assert!(!at(-59, NANOS).valid());
    for secs in -130..130 {
        let leap = chrono::DateTime::from_timestamp(secs, NANOS);
        assert_eq!(at(secs, NANOS).valid(), leap.is_some());
    }
    assert!(chrono::DateTime::from_timestamp(FIRST_SECOND - 1, 0).is_none());
    assert!(chrono::DateTime::from_timestamp(LAST_SECOND + 1, 0).is_none());
}
