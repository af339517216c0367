use ai_task::cron::{CronError, CronSchedule};
use ai_task::error::AppError;
use ai_task::schedules::{
    cron_error, default_true, default_tz, first_fire, jitter_check, next_three, preview_count,
    schedule_not_found, task_missing, upcoming,
};
use ai_task::tasks::{
    baseline_missing, changed_meanwhile, idempotency_refusal, if_match_version, invalid_dag,
    rules_hash, run_location, task_disabled, trigger_check, version_etag, IdempotentRun,
};

fn rules(v: &[&str]) -> Vec<String> {
    v.iter().map(|s| s.to_string()).collect()
}

#[test]
fn rules_hash_is_order_independent_but_content_sensitive() {
    let a = rules_hash(&rules(&["禁止删除", "只读"]));
    let b = rules_hash(&rules(&["只读", "禁止删除"]));
    assert_eq!(a, b, "reordering rules does not change their meaning");
    let c = rules_hash(&rules(&["禁止删除"]));
    assert_ne!(a, c, "a missing rule shows in the fingerprint");
    assert_eq!(a.len(), 32);
}

#[test]
fn empty_rules_still_produce_a_stable_hash() {
    assert_eq!(rules_hash(&Vec::new()), rules_hash(&Vec::new()));
    assert_ne!(rules_hash(&Vec::new()), rules_hash(&rules(&["x"])));
}

#[test]
fn the_rules_hash_is_blake3_of_the_sorted_lines() {
    let mut hasher = blake3::Hasher::new();
    hasher.update("b\n".as_bytes());
    hasher.update("c\n".as_bytes());
    let expected = hasher.finalize().to_hex()[..32].to_string();
    assert_eq!(rules_hash(&rules(&["c", "b"])), expected);
}

#[test]
fn if_match_reads_the_version_in_any_quoting() {
    assert_eq!(if_match_version(Some("\"7\"")), Some(7));
    assert_eq!(if_match_version(Some("W/\"7\"")), Some(7));
    assert_eq!(if_match_version(Some("7")), Some(7));
    assert_eq!(if_match_version(Some("\"x\"")), None);
    assert_eq!(if_match_version(None), None);
    assert_eq!(version_etag(7), "\"7\"");
}

#[test]
fn task_refusals_name_their_cause() {
    match invalid_dag(&rules(&["存在环", "节点 key 重复"])) {
        AppError::Validation(v) => {
            assert_eq!(v.len(), 2);
            assert!(v.iter().all(|f| f.field == "spec" && f.code == "invalid_dag"));
            assert_eq!(v[1].message, "节点 key 重复");
        }
        _ => panic!(),
    }
    assert!(matches!(task_disabled("t"), AppError::Conflict(m) if m == "任务 t 已停用"));
    assert!(matches!(changed_meanwhile("t1"), AppError::PreconditionFailed(_)));
    match baseline_missing("r0") {
        AppError::Validation(v) => {
            assert_eq!(v[0].field, "compare_to");
            assert_eq!(v[0].message, "基线 run r0 不存在");
        }
        _ => panic!(),
    }
    assert!(idempotency_refusal(&IdempotentRun::Created).is_none());
    assert!(idempotency_refusal(&IdempotentRun::Replayed).is_none());
    assert!(matches!(
        idempotency_refusal(&IdempotentRun::Conflict),
        Some(AppError::Conflict(m)) if m == "同一个 Idempotency-Key 配了不同的请求体"
    ));
    assert!(matches!(idempotency_refusal(&IdempotentRun::InFlight), Some(AppError::Conflict(_))));
    assert_eq!(run_location("r1"), "/api/v1/runs/r1");
}

fn at(s: &str) -> i64 {
    chrono::DateTime::parse_from_rfc3339(s).expect("time").timestamp_micros()
}

#[test]
fn a_preview_lists_increasing_fire_points() {
    let s = CronSchedule::parse("0 * * * *", "UTC").expect("parse");
    let pts = upcoming(&s, at("2026-09-08T10:20:00Z"), 3);
    assert_eq!(
        pts,
        vec![at("2026-09-08T11:00:00Z"), at("2026-09-08T12:00:00Z"), at("2026-09-08T13:00:00Z")]
    );
    let shown = next_three(&Ok(s), at("2026-09-08T10:20:00Z"));
    assert_eq!(shown, ["2026-09-08 11:00:00 UTC", "2026-09-08 12:00:00 UTC", "2026-09-08 13:00:00 UTC"]);
    assert!(next_three(&Err(CronError::BadTimezone("x".into())), 0).is_empty());
}

#[test]
fn schedule_inputs_are_bounded() {
    assert_eq!(preview_count(None).expect("default"), 5);
    assert_eq!(preview_count(Some(10)).expect("max"), 10);
    match preview_count(Some(11)) {
        Err(AppError::Validation(v)) => assert_eq!(v[0].message, "一次预览 1 到 10 次"),
        _ => panic!(),
    }
    assert!(jitter_check(3600).is_ok());
    assert!(jitter_check(3601).is_err());
    assert_eq!(default_tz(), "Asia/Shanghai");
    assert!(default_true());
}

#[test]
fn a_parse_error_lands_on_its_field() {
    match cron_error(&CronError::BadTimezone("Mars/Olympus".into())) {
        AppError::Validation(v) => assert_eq!(v[0].field, "timezone"),
        _ => panic!(),
    }
    match cron_error(&CronError::NeverFires("0 0 30 2 *".into())) {
        AppError::Validation(v) => {
            assert_eq!(v[0].field, "cron");
            assert_eq!(v[0].message, "cron 表达式 `0 0 30 2 *` 永远不会触发");
        }
        _ => panic!(),
    }
    let s = CronSchedule::parse("0 * * * *", "UTC").expect("parse");
    assert_eq!(first_fire(&s, at("2026-09-08T10:20:00Z")).expect("fires"), at("2026-09-08T11:00:00Z"));
    assert!(matches!(task_missing("t"), AppError::Validation(_)));
    assert!(matches!(schedule_not_found("s"), AppError::NotFound(m) if m == "定时配置 s 不存在"));
}

#[test]
fn a_trigger_is_checked_before_a_run_is_created() {
    assert!(matches!(trigger_check("t", false, None), Err(AppError::Conflict(m)) if m == "任务 t 已停用"));
    match trigger_check("t", true, Some(("r0", false))) {
        Err(AppError::Validation(v)) => assert_eq!(v[0].message, "基线 run r0 不存在"),
        _ => panic!("a missing baseline is refused"),
    }
    assert!(trigger_check("t", true, Some(("r0", true))).is_ok());
    assert!(trigger_check("t", true, None).is_ok());
}
