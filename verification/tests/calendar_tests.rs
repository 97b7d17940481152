use appointment_agent::calendar::{Date, LocalTime};

#[test]
fn dates_exist_only_in_the_calendar() {
    assert!(Date::from_ymd_opt(2026, 4, 15).is_some());
    assert!(Date::from_ymd_opt(2023, 2, 29).is_none());
    assert!(Date::from_ymd_opt(2024, 2, 29).is_some());
    assert!(Date::from_ymd_opt(2026, 13, 1).is_none());
}

#[test]
fn dates_format_parse_and_weekday() {
    let d = Date::from_ymd_opt(2026, 4, 18).unwrap();
    assert_eq!(d.to_iso_string(), "2026-04-18");
    assert_eq!(d.weekday_name(), "Saturday");
    let p = Date::parse_iso("2026-04-15").unwrap();
    assert_eq!((p.year(), p.month(), p.day()), (2026, 4, 15));
    assert_eq!(p.weekday_name(), "Wednesday");
    assert!(Date::parse_iso("2026-02-30").is_none());
    assert!(Date::parse_iso("tomorrow").is_none());
}

#[test]
fn dates_move_by_days() {
    let d = Date::from_ymd_opt(2026, 4, 15).unwrap();
    let later = d.checked_add_days(30).unwrap();
    assert_eq!(later.to_iso_string(), "2026-05-15");
    let earlier = d.checked_add_days(-15).unwrap();
    assert_eq!(earlier.to_iso_string(), "2026-03-31");
    assert!(d.checked_add_days(1_000_000_000).is_none());
}

#[test]
fn local_times_add_and_compare() {
    let now = LocalTime::now();
    let later = now.checked_add_seconds(90).unwrap();
    assert!(now.is_before(&later));
    assert!(!later.is_before(&now));
    assert_eq!(later.timestamp(), now.timestamp() + 90);
    assert_eq!(later.nanosecond(), now.nanosecond());
    assert_eq!(now.millis_until(&later), 90_000);
    assert_eq!(now.millis_until(&now), 0);
}

#[test]
fn local_time_hour_and_minute_replacement() {
    let now = LocalTime::now();
    assert!(now.with_hour(24).is_none());
    assert!(now.with_minute(60).is_none());
    if let Some(t) = now.with_hour(3) {
        assert_eq!(t.hour(), 3);
        assert_eq!(t.minute(), now.minute());
    }
}

#[test]
fn rfc3339_text_starts_with_the_local_reading() {
    let t = LocalTime::now();
    let text = t.to_rfc3339();
    let prefix = format!("{}T{:02}:{:02}:", t.date().to_iso_string(), t.hour(), t.minute());
    assert!(text.starts_with(&prefix), "{} does not start with {}", text, prefix);
    let later = t.checked_add_seconds(86_400).unwrap();
    assert_ne!(later.to_rfc3339(), text);
}

#[test]
fn local_time_second_and_whole_second() {
    let now = LocalTime::now();
    assert!(now.with_second(60).is_none());
    if let Some(t) = now.with_second(0) {
        assert_eq!((t.hour(), t.minute(), t.second()), (now.hour(), now.minute(), 0));
        if let Some(w) = t.at_whole_second() {
            assert_eq!(w.nanosecond(), 0);
            assert_eq!(w.second(), 0);
        }
    }
}

#[test]
fn local_reading_matches_the_instant() {
    let now = LocalTime::now();
    let local = now.timestamp() + now.offset() as i64;
    let secs_of_day = local.rem_euclid(86_400);
    assert_eq!(secs_of_day, (now.hour() * 3600 + now.minute() * 60 + now.second()) as i64);
}

#[test]
fn day_shifts_stop_at_the_time_delta_bound() {
    let d = Date::from_ymd_opt(2026, 4, 15).unwrap();
    assert!(d.checked_add_days(106_751_991_167).is_none());
    assert!(d.checked_add_days(-106_751_991_167).is_none());
}
