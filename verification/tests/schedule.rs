
use chrono::{Datelike, NaiveDate, NaiveTime, Timelike};
use watercontroller::schedule::{default_schedule, local_at, to_local, LocalTime};

fn dt(y: i32, m: u32, d: u32, h: u32, min: u32) -> LocalTime {
    let at = NaiveDate::from_ymd_opt(y, m, d)
        .unwrap()
        .and_time(NaiveTime::from_hms_opt(h, min, 0).unwrap());
    LocalTime::new(at.num_days_from_ce(), at.num_seconds_from_midnight()).unwrap()
}

#[test]
fn yaml_default_fires_at_10_and_22() {
    let s = default_schedule();
    let last = dt(2026, 5, 10, 9, 59);
    let now = dt(2026, 5, 10, 10, 0);
    let hits = s.evaluate_range(last, now);
    assert_eq!(hits.len(), 1);
    assert_eq!(hits[0].id, "riego_exterior");
}

#[test]
fn missed_minutes_are_recovered() {
    let s = default_schedule();
    // Clock jumped from 09:55 to 10:31 (e.g. SNTP sync).
    let hits = s.evaluate_range(dt(2026, 5, 10, 9, 55), dt(2026, 5, 10, 10, 31));
    let ids: Vec<_> = hits.iter().map(|r| r.id.as_str()).collect();
    assert_eq!(ids, vec!["riego_exterior", "riego_interior"]);
}

#[test]
fn no_double_fire_at_minute_boundary() {
    let s = default_schedule();
    // First call covers up through 10:00.
    let h1 = s.evaluate_range(dt(2026, 5, 10, 9, 59), dt(2026, 5, 10, 10, 0));
    // Second call uses 10:00 as `last` — must NOT fire 10:00 again.
    let h2 = s.evaluate_range(dt(2026, 5, 10, 10, 0), dt(2026, 5, 10, 10, 1));
    assert_eq!(h1.len(), 1);
    assert_eq!(h2.len(), 0);
}

#[test]
fn day_of_week_filter() {
    let mut s = default_schedule();
    s.rules[0].days_of_week = vec![0, 1, 2, 3, 4]; // Mon-Fri only
    let weekday = dt(2026, 5, 11, 10, 0); // 2026-05-11 is a Monday
    let weekend = dt(2026, 5, 9, 10, 0); // Saturday
    assert_eq!(s.evaluate_minute(weekday).len(), 1);
    assert_eq!(s.evaluate_minute(weekend).len(), 0);
}

#[test]
fn disabled_rules_dont_fire() {
    let mut s = default_schedule();
    s.rules[0].enabled = false;
    let hits = s.evaluate_minute(dt(2026, 5, 10, 10, 0));
    assert!(hits.is_empty());
}

#[test]
fn extreme_jump_is_capped_safely() {
    // 5-day jump should not iterate forever; cap at 25h means we still
    // catch some firings but not all 5 days' worth.
    let s = default_schedule();
    let hits = s.evaluate_range(dt(2026, 5, 10, 0, 0), dt(2026, 5, 15, 23, 59));
    // We'd hit each of riego_exterior (10:00, 22:00) and riego_interior
    // (10:30, 22:30) up to ~25h after the start.
    assert!(hits.len() <= 5);
}

fn utc(y: i32, m: u32, d: u32, h: u32) -> i64 {
    NaiveDate::from_ymd_opt(y, m, d).unwrap().and_hms_opt(h, 0, 0).unwrap().and_utc().timestamp()
}

#[test]
fn local_time_follows_the_configured_zone() {
    let madrid = "Europe/Madrid";
    assert_eq!(to_local(utc(2026, 5, 10, 8), madrid), Some(dt(2026, 5, 10, 10, 0)));
    assert_eq!(to_local(utc(2026, 1, 10, 23), madrid), Some(dt(2026, 1, 11, 0, 0)));
    assert_eq!(to_local(utc(2026, 1, 10, 2), "America/New_York"), Some(dt(2026, 1, 9, 21, 0)));
    assert_eq!(to_local(utc(2026, 1, 10, 2), "UTC"), Some(dt(2026, 1, 10, 2, 0)));
    assert_eq!(to_local(utc(2026, 1, 10, 2), "No/Where"), Some(dt(2026, 1, 10, 2, 0)));
    assert_eq!(to_local(i64::MAX, madrid), None);
    assert_eq!(local_at(-1, 0), LocalTime::new(719_162, 86_399));
    assert_eq!(local_at(0, 3_600), LocalTime::new(719_163, 3_600));
}
