use ai_task::cron::{CronSchedule, MICROS_PER_SECOND};
use ai_task::cron::MisfirePolicy;
use ai_task::scheduler::{
    begin_claim, fires_for, next_position, plan_claim, runs_to_create, skip_needs_check, ClaimOutcome,
    ClaimPlan, ClaimStart, ClaimedSchedule, OverlapPolicy, Tick, BAD_EXPRESSION_BACKOFF_MICROS, GRACE_MICROS,
};

fn at(s: &str) -> i64 {
    chrono::DateTime::parse_from_rfc3339(s)
        .expect("time format")
        .timestamp_micros()
}

#[test]
fn the_next_fire_point_is_always_in_the_future() {
    let cron = CronSchedule::parse("*/1 * * * *", "UTC").expect("parse");
    let now = at("2026-09-08T10:03:20Z");
    let position = next_position(&cron, 0, Some(at("2026-09-08T09:00:00Z")), now);
    assert!(position.next_fire_at > now, "{:?}", position.next_fire_at);
    assert_eq!(position.next_fire_at, at("2026-09-08T10:04:00Z"));
}

#[test]
fn the_cursor_advances_even_when_nothing_was_fired() {
    let cron = CronSchedule::parse("*/1 * * * *", "UTC").expect("parse");
    let newest = Some(at("2026-09-08T10:03:00Z"));
    let position = next_position(&cron, 0, newest, at("2026-09-08T10:03:20Z"));
    assert_eq!(position.last_fired_at, newest);
}

#[test]
fn jitter_delays_the_claim_but_never_the_canonical_fire_point() {
    let cron = CronSchedule::parse("0 * * * *", "UTC").expect("parse");
    let now = at("2026-09-08T10:00:05Z");
    for _ in 0..100 {
        let position = next_position(&cron, 30, Some(at("2026-09-08T10:00:00Z")), now);
        assert_eq!(position.next_fire_at, at("2026-09-08T11:00:00Z"));
        let delay = (position.next_claim_at - position.next_fire_at) / MICROS_PER_SECOND;
        assert!((0..=30).contains(&delay), "jitter {delay}s out of range");
    }
}

#[test]
fn zero_jitter_makes_claim_and_fire_identical() {
    let cron = CronSchedule::parse("0 * * * *", "UTC").expect("parse");
    let position = next_position(
        &cron,
        0,
        Some(at("2026-09-08T10:00:00Z")),
        at("2026-09-08T10:00:05Z"),
    );
    assert_eq!(position.next_claim_at, position.next_fire_at);
}

#[test]
fn grace_is_long_enough_for_a_slow_tick_but_short_enough_to_catch_an_outage() {
    assert!(GRACE_MICROS >= 5 * MICROS_PER_SECOND);
    assert!(GRACE_MICROS <= 120 * MICROS_PER_SECOND);
}

#[test]
fn a_first_claim_searches_from_now() {
    let cron = CronSchedule::parse("0 * * * *", "UTC").expect("parse");
    let position = next_position(&cron, 0, None, at("2026-09-08T10:20:00Z"));
    assert_eq!(position.next_fire_at, at("2026-09-08T11:00:00Z"));
    assert_eq!(position.last_fired_at, None);
}

fn claim(cron: &str, misfire: MisfirePolicy, overlap: OverlapPolicy) -> ClaimedSchedule {
    ClaimedSchedule {
        cron: cron.to_string(),
        timezone: "UTC".to_string(),
        misfire,
        overlap,
        jitter_s: 0,
        task_enabled: true,
        next_fire_at: None,
        last_fired_at: Some(at("2026-09-08T10:00:00Z")),
    }
}

#[test]
fn a_broken_expression_is_backed_off_not_fired() {
    let now = at("2026-09-08T10:30:00Z");
    match begin_claim(&claim("not a cron", MisfirePolicy::FireAll, OverlapPolicy::Allow), now) {
        ClaimStart::BadExpression(p) => {
            assert_eq!(p.next_fire_at, now);
            assert_eq!(p.next_claim_at, now + BAD_EXPRESSION_BACKOFF_MICROS);
            assert_eq!(p.last_fired_at, None);
        }
        ClaimStart::Due { .. } => panic!("a broken expression must not enumerate"),
    }
}

#[test]
fn a_claim_enumerates_from_the_last_fired_point() {
    let now = at("2026-09-08T10:03:20Z");
    let c = claim("*/1 * * * *", MisfirePolicy::Skip, OverlapPolicy::Allow);
    match begin_claim(&c, now) {
        ClaimStart::Due { due, .. } => {
            assert_eq!(due.points.len(), 3);
            assert_eq!(fires_for(&c, &due, now), vec![at("2026-09-08T10:03:00Z")]);
        }
        ClaimStart::BadExpression(_) => panic!("expression is valid"),
    }
}

#[test]
fn overlap_skip_and_disabled_tasks_create_nothing() {
    let fires = vec![1, 2];
    let skip = claim("* * * * *", MisfirePolicy::FireAll, OverlapPolicy::Skip);
    assert!(skip_needs_check(&skip, &fires));
    assert!(runs_to_create(&skip, fires.clone(), true).is_empty());
    assert_eq!(runs_to_create(&skip, fires.clone(), false), fires);
    let mut disabled = claim("* * * * *", MisfirePolicy::FireAll, OverlapPolicy::Allow);
    disabled.task_enabled = false;
    assert!(runs_to_create(&disabled, fires.clone(), false).is_empty());
}

#[test]
fn a_tick_counts_what_each_claim_did() {
    let mut tick = Tick::new();
    tick.absorb(ClaimOutcome::Created(vec![(1, 2), (1, 3)]));
    tick.absorb(ClaimOutcome::Deferred);
    tick.absorb(ClaimOutcome::Nothing);
    assert_eq!(tick.processed, 3);
    assert_eq!(tick.created, vec![(1, 2), (1, 3)]);
    assert_eq!(tick.deferred, 1);
}

#[test]
fn a_claim_plan_backs_off_a_broken_expression() {
    let now = at("2026-09-08T10:30:00Z");
    match plan_claim(&claim("not a cron", MisfirePolicy::FireAll, OverlapPolicy::Allow), now, None) {
        ClaimPlan::Advance { position, deferred } => {
            assert!(!deferred);
            assert_eq!(position.next_fire_at, now);
            assert_eq!(position.next_claim_at, now + BAD_EXPRESSION_BACKOFF_MICROS);
        }
        _ => panic!("a broken expression must only advance"),
    }
}

#[test]
fn a_claim_plan_fires_the_due_occurrences_and_moves_past_now() {
    let now = at("2026-09-08T10:02:30Z");
    match plan_claim(&claim("*/1 * * * *", MisfirePolicy::FireAll, OverlapPolicy::Allow), now, None) {
        ClaimPlan::Fire { fires, position } => {
            assert_eq!(fires, vec![at("2026-09-08T10:01:00Z"), at("2026-09-08T10:02:00Z")]);
            assert_eq!(position.last_fired_at, Some(at("2026-09-08T10:02:00Z")));
            assert_eq!(position.next_fire_at, at("2026-09-08T10:03:00Z"));
            assert!(position.next_fire_at > now);
        }
        _ => panic!("due occurrences must fire"),
    }
}

#[test]
fn a_queued_claim_asks_about_the_previous_run_then_waits_for_it() {
    let now = at("2026-09-08T10:02:30Z");
    let c = claim("*/1 * * * *", MisfirePolicy::FireAll, OverlapPolicy::Queue);
    assert!(matches!(plan_claim(&c, now, None), ClaimPlan::CheckRunning));
    match plan_claim(&c, now, Some(true)) {
        ClaimPlan::Advance { deferred, .. } => assert!(deferred),
        _ => panic!("a running previous run defers a queued occurrence"),
    }
    assert!(matches!(plan_claim(&c, now, Some(false)), ClaimPlan::Fire { .. }));
}
