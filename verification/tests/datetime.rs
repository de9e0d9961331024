use git_redate::datetime::{
    add_delta, bump, format_offset, parse_in_offset, parts, Component, ParseTimeError, Stamp,
};

// 2024-03-01 14:32:47 +08:00 -> unix seconds.
// 14:32:47 +08:00 == 06:32:47 UTC. Computed with jiff itself.
fn sample() -> Stamp {
    let dt = jiff::civil::DateTime::new(2024, 3, 1, 14, 32, 47, 0).unwrap();
    let off = jiff::tz::Offset::from_seconds(8 * 3600).unwrap();
    let seconds = off.to_timestamp(dt).unwrap().as_second();
    Stamp::new(seconds, 8 * 3600)
}

#[test]
fn format_shows_wall_clock_in_offset() {
    assert_eq!(git_redate::datetime::format(sample()), "2024-03-01 14:32");
    assert_eq!(format_offset(sample()), "+08:00");
}

#[test]
fn format_offset_handles_negative_and_half_hours() {
    assert_eq!(format_offset(Stamp::new(0, -5 * 3600 - 30 * 60)), "-05:30");
    assert_eq!(format_offset(Stamp::new(0, 0)), "+00:00");
    assert_eq!(format_offset(Stamp::new(0, 5 * 3600 + 45 * 60)), "+05:45");
}

#[test]
fn parse_round_trips_format() {
    let s = sample();
    // Reparsing the formatted wall clock zeroes seconds but keeps
    // the same minute in the same offset.
    let reparsed = parse_in_offset(&git_redate::datetime::format(s), s.offset).unwrap();
    assert_eq!(reparsed.offset, s.offset);
    assert_eq!(git_redate::datetime::format(reparsed), "2024-03-01 14:32");
    // Only the sub-minute seconds differ (47 -> 0).
    assert_eq!(s.seconds - reparsed.seconds, 47);
}

#[test]
fn parse_accepts_t_separator_and_optional_seconds() {
    let a = parse_in_offset("2024-03-01 14:32", 0).unwrap();
    let b = parse_in_offset("2024-03-01T14:32", 0).unwrap();
    let c = parse_in_offset("2024-03-01 14:32:59", 0).unwrap();
    assert_eq!(a, b);
    assert_eq!(a, c); // trailing seconds are ignored
}

#[test]
fn parse_rejects_garbage_and_out_of_range() {
    assert!(parse_in_offset("not a date", 0).is_err());
    assert!(parse_in_offset("2024-13-01 00:00", 0).is_err()); // month 13
    assert!(parse_in_offset("2024-02-30 00:00", 0).is_err()); // Feb 30
    assert!(parse_in_offset("2024-01-01 25:00", 0).is_err()); // hour 25
    assert!(parse_in_offset("2024-01-01", 0).is_err()); // no time
}

#[test]
fn parse_interprets_wall_clock_in_given_offset() {
    // Same wall clock, different offsets -> instants differ by the
    // offset difference.
    let utc = parse_in_offset("2024-03-01 12:00", 0).unwrap();
    let plus8 = parse_in_offset("2024-03-01 12:00", 8 * 3600).unwrap();
    assert_eq!(utc.seconds - plus8.seconds, 8 * 3600);
}

#[test]
fn bump_minute_preserves_offset_and_seconds() {
    let s = sample();
    let up = bump(s, Component::Minute, 1);
    assert_eq!(up.offset, s.offset);
    assert_eq!(up.seconds - s.seconds, 60); // +1 minute, seconds kept
    assert_eq!(git_redate::datetime::format(up), "2024-03-01 14:33");
}

#[test]
fn bump_hour_can_roll_into_the_next_day() {
    // 23:32 + 1h -> next day 00:32.
    let base = parse_in_offset("2024-03-01 23:32", 0).unwrap();
    let up = bump(base, Component::Hour, 1);
    assert_eq!(git_redate::datetime::format(up), "2024-03-02 00:32");
}

#[test]
fn bump_month_clamps_to_month_end() {
    // Jan 31 + 1 month -> Feb 29 (2024 is a leap year).
    let jan31 = parse_in_offset("2024-01-31 09:00", 0).unwrap();
    let feb = bump(jan31, Component::Month, 1);
    assert_eq!(git_redate::datetime::format(feb), "2024-02-29 09:00");
}

#[test]
fn bump_negative_steps_go_backward() {
    let s = parse_in_offset("2024-03-01 00:00", 0).unwrap();
    let prev = bump(s, Component::Day, -1);
    assert_eq!(git_redate::datetime::format(prev), "2024-02-29 00:00");
}

#[test]
fn bump_offset_holds_wall_clock_and_changes_instant() {
    // +08:00 wall clock 14:32, step offset up one (15 min) -> the
    // displayed clock stays, offset becomes +08:15, instant shifts.
    let s = sample();
    let up = bump(s, Component::Offset, 1);
    assert_eq!(up.offset, 8 * 3600 + 15 * 60);
    assert_eq!(git_redate::datetime::format(up), "2024-03-01 14:32"); // wall clock held
    // A larger offset (more east) means an earlier instant.
    assert_eq!(s.seconds - up.seconds, 15 * 60);
}

#[test]
fn add_delta_shifts_instant_only() {
    let s = sample();
    let shifted = add_delta(s, 3600);
    assert_eq!(shifted.offset, s.offset);
    assert_eq!(shifted.seconds - s.seconds, 3600);
    assert_eq!(git_redate::datetime::format(shifted), "2024-03-01 15:32");
}

#[test]
fn offset_bump_clamps_at_18_hours() {
    let s = Stamp::new(0, 18 * 3600);
    let up = bump(s, Component::Offset, 10);
    assert_eq!(up.offset, 18 * 3600);
}

#[test]
fn offset_bump_clamps_at_minus_18_hours() {
    let s = Stamp::new(0, -17 * 3600);
    let down = bump(s, Component::Offset, -10);
    assert_eq!(down.offset, -18 * 3600);
}

#[test]
fn parts_of_the_epoch() {
    assert_eq!(parts(Stamp::new(0, 0)), (1970, 1, 1, 0, 0));
    // One second before the epoch, seen from +01:00.
    assert_eq!(parts(Stamp::new(-1, 3600)), (1970, 1, 1, 0, 59));
    assert_eq!(git_redate::datetime::format(Stamp::new(0, -3600)), "1969-12-31 23:00");
}

#[test]
fn add_delta_saturates() {
    let s = Stamp::new(i64::MAX - 5, 0);
    assert_eq!(add_delta(s, 100).seconds, i64::MAX);
    let t = Stamp::new(i64::MIN + 5, 0);
    assert_eq!(add_delta(t, -100).seconds, i64::MIN);
}

#[test]
fn parse_error_carries_the_trimmed_text() {
    let e = parse_in_offset("  2024-02-30 00:00 ", 0).unwrap_err();
    assert_eq!(e, ParseTimeError("2024-02-30 00:00".to_string()));
    assert_eq!(
        e.message(),
        "invalid date/time (expected YYYY-MM-DD HH:MM): 2024-02-30 00:00"
    );
    // A missing number reports no text at all.
    assert_eq!(
        parse_in_offset("2024-xx-01 00:00", 0).unwrap_err(),
        ParseTimeError(String::new())
    );
}

#[test]
fn parse_handles_the_calendar_extremes() {
    let leap = parse_in_offset("2000-02-29 12:00", 0).unwrap();
    assert_eq!(git_redate::datetime::format(leap), "2000-02-29 12:00");
    assert!(parse_in_offset("1900-02-29 12:00", 0).is_err());
    let neg = parse_in_offset("2024-06-15 09:30", -7 * 3600).unwrap();
    assert_eq!(git_redate::datetime::format(neg), "2024-06-15 09:30");
    assert_eq!(format_offset(neg), "-07:00");
}
