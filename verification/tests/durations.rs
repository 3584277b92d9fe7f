use ctc_tracker::duration::parse_duration_seconds;
use ctc_tracker::duration::parsed_seconds;
use ctc_tracker::duration::IsoDuration;
use ctc_tracker::model::VideoDuration;
use ctc_tracker::model::VideoPublishDate;

#[test]
fn clock_units_add_up() {
    assert_eq!(parse_duration_seconds("PT1H2M3S"), 3723);
    assert_eq!(parse_duration_seconds("PT45S"), 45);
    assert_eq!(parse_duration_seconds("PT12M"), 720);
    assert_eq!(parse_duration_seconds("PT0S"), 0);
}

#[test]
fn calendar_units_use_fixed_lengths() {
    let expected = 365 * 86_400 + 2 * 30 * 86_400 + 3 * 86_400 + 4 * 3600 + 5 * 60 + 6;
    assert_eq!(parse_duration_seconds("P1Y2M3DT4H5M6S"), expected);
    assert_eq!(parse_duration_seconds("P1D"), 86_400);
}

#[test]
fn weeks_are_seven_days() {
    assert_eq!(parse_duration_seconds("P2W"), 2 * 7 * 86_400);
}

#[test]
fn fraction_of_a_second_is_dropped() {
    assert_eq!(parse_duration_seconds("PT1.999S"), 1);
    assert_eq!(parse_duration_seconds("PT59.5S"), 59);
}

#[test]
fn rejected_text_counts_as_zero() {
    assert_eq!(parse_duration_seconds(""), 0);
    assert_eq!(parse_duration_seconds("garbage"), 0);
    assert_eq!(parse_duration_seconds("P"), 0);
    assert_eq!(parse_duration_seconds("1H"), 0);
}

#[test]
fn largest_units_do_not_overflow() {
    let year = u32::MAX as u64;
    assert_eq!(parse_duration_seconds("P4294967295Y"), year * 365 * 86_400);
}

#[test]
fn parsed_seconds_follows_the_formula() {
    assert_eq!(parsed_seconds(None), 0);
    assert_eq!(parsed_seconds(Some(IsoDuration::Weeks(3))), 3 * 7 * 86_400);
    let d = IsoDuration::Ymdhms {
        year: 1,
        month: 1,
        day: 1,
        hour: 1,
        minute: 1,
        second: 1,
        millisecond: 999,
    };
    assert_eq!(parsed_seconds(Some(d)), 365 * 86_400 + 30 * 86_400 + 86_400 + 3600 + 60 + 1);
}

#[test]
fn label_counts_minutes_below_an_hour() {
    assert_eq!(VideoDuration::new(0).label(), "0m");
    assert_eq!(VideoDuration::new(59).label(), "0m");
    assert_eq!(VideoDuration::new(60).label(), "1m");
    assert_eq!(VideoDuration::new(3599).label(), "59m");
}

#[test]
fn label_counts_hours_from_an_hour_on() {
    assert_eq!(VideoDuration::new(3600).label(), "1h");
    assert_eq!(VideoDuration::new(7199).label(), "1h");
    assert_eq!(VideoDuration::new(86_400).label(), "24h");
    assert_eq!(VideoDuration::new(u64::MAX).label(), format!("{}h", u64::MAX / 3600));
}

#[test]
fn date_string_is_the_utc_day() {
    assert_eq!(VideoPublishDate::new(1_431_648_000_000).date_string(), Some("2015-05-15".to_string()));
    assert_eq!(VideoPublishDate::new(0).date_string(), Some("1970-01-01".to_string()));
    assert_eq!(VideoPublishDate::new(86_399_999).date_string(), Some("1970-01-01".to_string()));
    assert_eq!(VideoPublishDate::new(86_400_000).date_string(), Some("1970-01-02".to_string()));
}

#[test]
fn date_string_rounds_milliseconds_towards_zero() {
    assert_eq!(VideoPublishDate::new(-999).date_string(), Some("1970-01-01".to_string()));
    assert_eq!(VideoPublishDate::new(-1000).date_string(), Some("1969-12-31".to_string()));
    assert_eq!(VideoPublishDate::new(-1500).date_string(), Some("1969-12-31".to_string()));
}

#[test]
fn date_string_is_none_outside_the_calendar() {
    assert_eq!(VideoPublishDate::new(i64::MAX).date_string(), None);
    assert_eq!(VideoPublishDate::new(i64::MIN).date_string(), None);
}
