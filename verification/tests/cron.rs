use ai_task::cron::{
    apply_jitter, local_to_utc, CronError, CronSchedule, MisfirePolicy, Zone, MAX_CATCH_UP,
    MICROS_PER_SECOND,
};
use chrono::Datelike;

/// Wall-clock `s` (`%Y-%m-%d %H:%M:%S`) in `zone`, as a UTC instant in microseconds.
fn at(zone: &str, s: &str) -> i64 {
    let naive = chrono::NaiveDateTime::parse_from_str(s, "%Y-%m-%d %H:%M:%S")
        .expect("time format")
        .and_utc()
        .timestamp_micros();
    let zone = Zone::parse(zone).expect("zone");
    local_to_utc(&zone, naive).expect("local time converts")
}

fn nexts(expr: &str, zone: &str, from: &str, n: usize) -> Vec<String> {
    let s = CronSchedule::parse(expr, zone).expect("parse");
    let mut out = Vec::new();
    let mut cursor = at(zone, from);
    for _ in 0..n {
        let next = s.next_after(cursor).expect("has a next occurrence");
        out.push(s.to_local_string(next));
        cursor = next;
    }
    out
}

const GRACE: i64 = 30 * MICROS_PER_SECOND;

#[test]
fn accepts_both_five_and_six_field_expressions() {
    assert_eq!(
        nexts("*/1 * * * *", "Asia/Shanghai", "2026-09-08 10:00:00", 2),
        ["2026-09-08 10:01:00 CST", "2026-09-08 10:02:00 CST"]
    );
    assert_eq!(
        nexts("*/30 * * * * *", "Asia/Shanghai", "2026-09-08 10:00:00", 2),
        ["2026-09-08 10:00:30 CST", "2026-09-08 10:01:00 CST"]
    );
}

#[test]
fn supports_last_day_of_month() {
    assert_eq!(
        nexts("0 0 L * *", "Asia/Shanghai", "2026-01-15 00:00:00", 3),
        [
            "2026-01-31 00:00:00 CST",
            "2026-02-28 00:00:00 CST",
            "2026-03-31 00:00:00 CST"
        ]
    );
}

#[test]
fn supports_nth_weekday() {
    assert_eq!(
        nexts("0 0 * * 1#2", "Asia/Shanghai", "2026-01-01 00:00:00", 2),
        ["2026-01-12 00:00:00 CST", "2026-02-09 00:00:00 CST"]
    );
}

#[test]
fn leap_day_skips_non_leap_years() {
    assert_eq!(
        nexts("0 0 29 2 *", "Asia/Shanghai", "2026-03-01 00:00:00", 2),
        ["2028-02-29 00:00:00 CST", "2032-02-29 00:00:00 CST"]
    );
}

#[test]
fn dst_spring_forward_lands_on_the_resumed_hour() {
    assert_eq!(
        nexts("30 2 * * *", "America/New_York", "2026-03-07 12:00:00", 2),
        ["2026-03-08 03:00:00 EDT", "2026-03-09 02:30:00 EDT"]
    );
}

#[test]
fn dst_fall_back_fires_once_not_twice() {
    let s = CronSchedule::parse("30 1 * * *", "America/New_York").expect("parse");
    let mut cursor = at("America/New_York", "2026-10-31 12:00:00");
    let mut fires = Vec::new();
    for _ in 0..3 {
        let next = s.next_after(cursor).expect("has a next");
        fires.push(next);
        cursor = next;
    }
    let on_nov_1: Vec<_> = fires
        .iter()
        .filter(|t| {
            chrono::DateTime::from_timestamp_micros(**t)
                .expect("instant")
                .with_timezone(&chrono_tz::America::New_York)
                .date_naive()
                .day()
                == 1
        })
        .collect();
    assert_eq!(on_nov_1.len(), 1, "fires once on the fall-back day: {fires:?}");
    assert_eq!(s.to_local_string(fires[0]), "2026-11-01 01:30:00 EDT");
}

#[test]
fn timezone_actually_changes_the_instant() {
    let sh = CronSchedule::parse("0 2 * * *", "Asia/Shanghai").expect("parse");
    let ny = CronSchedule::parse("0 2 * * *", "America/New_York").expect("parse");
    let from = at("UTC", "2026-06-01 00:00:00");
    assert_ne!(sh.next_after(from), ny.next_after(from));
}

#[test]
fn rejects_bad_expressions_and_timezones_at_parse_time() {
    assert!(matches!(
        CronSchedule::parse("not a cron", "UTC"),
        Err(CronError::BadExpression { .. })
    ));
    assert!(matches!(
        CronSchedule::parse("0 0 * * *", "Mars/Olympus"),
        Err(CronError::BadTimezone(_))
    ));
    assert!(matches!(
        CronSchedule::parse("0 0 30 2 *", "UTC"),
        Err(CronError::NeverFires(_))
    ));
}

#[test]
fn an_on_time_occurrence_fires_under_every_policy() {
    let s = CronSchedule::parse("*/1 * * * *", "UTC").expect("parse");
    let now = at("UTC", "2026-09-08 10:01:00") + 300_000;
    let due = s.due_between(at("UTC", "2026-09-08 10:00:00"), now);
    assert_eq!(due.points, vec![at("UTC", "2026-09-08 10:01:00")]);
    for policy in [
        MisfirePolicy::Skip,
        MisfirePolicy::FireOnce,
        MisfirePolicy::FireAll,
    ] {
        assert_eq!(
            due.select(now, policy, GRACE).len(),
            1,
            "{policy:?} must fire during normal operation too"
        );
    }
}

#[test]
fn skip_discards_the_backlog_but_keeps_the_on_time_one() {
    let s = CronSchedule::parse("*/1 * * * *", "UTC").expect("parse");
    let now = at("UTC", "2026-09-08 10:03:20");
    let due = s.due_between(at("UTC", "2026-09-08 10:00:00"), now);
    assert_eq!(due.points.len(), 3);
    assert_eq!(
        due.select(now, MisfirePolicy::Skip, GRACE),
        vec![at("UTC", "2026-09-08 10:03:00")]
    );
}

#[test]
fn skip_fires_nothing_when_even_the_newest_is_stale() {
    let s = CronSchedule::parse("0 * * * *", "UTC").expect("parse");
    let now = at("UTC", "2026-09-08 13:45:00");
    let due = s.due_between(at("UTC", "2026-09-08 10:00:00"), now);
    assert!(due.select(now, MisfirePolicy::Skip, GRACE).is_empty());
}

#[test]
fn fire_once_collapses_the_whole_backlog_into_exactly_one_run() {
    let s = CronSchedule::parse("0 * * * *", "UTC").expect("parse");
    let now = at("UTC", "2026-09-08 13:30:00");
    let due = s.due_between(at("UTC", "2026-09-08 10:00:00"), now);
    assert_eq!(due.points.len(), 3, "11:00 / 12:00 / 13:00");
    let fires = due.select(now, MisfirePolicy::FireOnce, GRACE);
    assert_eq!(fires.len(), 1);
    assert_eq!(fires[0], at("UTC", "2026-09-08 13:00:00"));
}

#[test]
fn fire_all_replays_every_missed_point() {
    let s = CronSchedule::parse("0 * * * *", "UTC").expect("parse");
    let now = at("UTC", "2026-09-08 13:30:00");
    let due = s.due_between(at("UTC", "2026-09-08 10:00:00"), now);
    assert_eq!(
        due.select(now, MisfirePolicy::FireAll, GRACE),
        vec![
            at("UTC", "2026-09-08 11:00:00"),
            at("UTC", "2026-09-08 12:00:00"),
            at("UTC", "2026-09-08 13:00:00"),
        ]
    );
}

#[test]
fn enumeration_is_bounded_so_a_long_outage_cannot_flood_the_cluster() {
    let s = CronSchedule::parse("* * * * *", "UTC").expect("parse");
    let now = at("UTC", "2026-09-08 00:00:00");
    let due = s.due_between(at("UTC", "2026-09-01 00:00:00"), now);
    assert!(due.truncated);
    assert_eq!(due.points.len(), MAX_CATCH_UP);
    assert_eq!(due.total, 7 * 24 * 60, "the total is reported, not hidden by truncation");
    assert_eq!(due.newest(), Some(now));
}

#[test]
fn an_empty_interval_yields_nothing_to_realign() {
    let s = CronSchedule::parse("0 0 * * *", "UTC").expect("parse");
    let due = s.due_between(
        at("UTC", "2026-09-08 00:00:00"),
        at("UTC", "2026-09-08 10:00:00"),
    );
    assert!(due.is_empty());
    assert_eq!(due.newest(), None);
    assert_eq!(due.total, 0);
}

#[test]
fn jitter_only_delays_and_stays_within_bounds() {
    let base = at("UTC", "2026-09-08 10:00:00");
    assert_eq!(apply_jitter(base, 0), base, "zero jitter returns the input");
    for _ in 0..200 {
        let jittered = apply_jitter(base, 30);
        let delay = (jittered - base) / MICROS_PER_SECOND;
        assert!((0..=30).contains(&delay), "jitter {delay}s out of range");
        assert_eq!((jittered - base) % MICROS_PER_SECOND, 0);
    }
}

#[test]
fn parse_errors_name_the_input() {
    match CronSchedule::parse("0 0 * * *", "Mars/Olympus") {
        Err(e) => assert_eq!(
            e.message(),
            "`Mars/Olympus` 不是合法的 IANA 时区名（形如 Asia/Shanghai、UTC）"
        ),
        Ok(_) => panic!("unknown zone accepted"),
    }
    match CronSchedule::parse("0 0 30 2 *", "UTC") {
        Err(e) => assert_eq!(e.message(), "cron 表达式 `0 0 30 2 *` 永远不会触发"),
        Ok(_) => panic!("never-firing expression accepted"),
    }
    match CronSchedule::parse("not a cron", "UTC") {
        Err(e) => assert!(e.message().starts_with("cron 表达式 `not a cron` 无法解析：")),
        Ok(_) => panic!("garbage accepted"),
    }
}

#[test]
fn a_parsed_schedule_remembers_its_expression_and_zone() {
    let s = CronSchedule::parse("0 2 * * *", "Asia/Shanghai").expect("parse");
    assert_eq!(s.expression(), "0 2 * * *");
    assert_eq!(s.timezone().name(), "Asia/Shanghai");
    assert!(Zone::parse("Mars/Olympus").is_none());
}

#[test]
fn due_points_are_strictly_increasing_and_inside_the_window() {
    let s = CronSchedule::parse("*/15 * * * *", "UTC").expect("parse");
    let after = at("UTC", "2026-09-08 10:00:00");
    let now = at("UTC", "2026-09-08 12:00:00");
    let due = s.due_between(after, now);
    assert_eq!(due.points.len(), 8);
    for w in due.points.windows(2) {
        assert!(w[0] < w[1]);
    }
    assert!(due.points.iter().all(|p| after < *p && *p <= now));
}
