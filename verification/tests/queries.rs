use ai_task::audit::{self, plan, page_split, AuditQuery};
use ai_task::engine::RunStatus;
use ai_task::error::AppError;
use ai_task::overview::{daily_params, tasks_params};
use ai_task::runs::{
    cancel_check, decode_cursor, delete_outcome, encode_cursor, list_limit, page_is_full,
    run_not_found, summary_error,
};

fn fields(err: AppError) -> Vec<String> {
    match err {
        AppError::Validation(errors) => errors.into_iter().map(|e| e.field).collect(),
        other => panic!("expected 422, got {other:?}"),
    }
}

#[test]
fn daily_defaults_to_two_weeks_in_shanghai() {
    let (days, tz) = daily_params(None, None).expect("defaults are valid");
    assert_eq!(days, 14);
    assert_eq!(tz.name(), "Asia/Shanghai");
}

#[test]
fn daily_reports_every_bad_parameter_at_once() {
    let err = match daily_params(Some(0), Some("Mars/Olympus")) {
        Err(e) => e,
        Ok(_) => panic!("both are wrong"),
    };
    assert_eq!(fields(err), vec!["days", "timezone"]);
    let err = match daily_params(Some(91), None) {
        Err(e) => e,
        Ok(_) => panic!("more than 90 days"),
    };
    assert_eq!(fields(err), vec!["days"]);
}

#[test]
fn tasks_bounds_are_enforced_together() {
    assert_eq!(tasks_params(None, None).expect("defaults are valid"), (168, 5));
    let err = tasks_params(Some(721), Some(0)).expect_err("both out of range");
    assert_eq!(fields(err), vec!["window_hours", "limit"]);
    assert_eq!(tasks_params(Some(720), Some(50)).expect("upper bounds"), (720, 50));
}

#[test]
fn cursor_round_trips_without_losing_precision() {
    let ts = 1_788_857_536_123_456;
    let id = uuid::Uuid::new_v4().as_u128();
    let (back_ts, back_id) = decode_cursor(&encode_cursor(ts, id)).expect("parses");
    assert_eq!(back_ts, ts);
    assert_eq!(back_id, id);
}

#[test]
fn a_tampered_cursor_is_a_bad_request_not_a_panic() {
    for bad in ["", "abc", "123", "abc|def", "123|not-a-uuid", "|"] {
        assert!(
            matches!(decode_cursor(bad), Err(AppError::BadRequest(_))),
            "cursor {bad:?} must be refused"
        );
    }
}

#[test]
fn listing_limits_and_pages() {
    assert_eq!(list_limit(None), 50);
    assert_eq!(list_limit(Some(0)), 1);
    assert_eq!(list_limit(Some(1000)), 200);
    assert!(page_is_full(50, 50));
    assert!(!page_is_full(49, 50));
}

#[test]
fn run_answers_depend_on_the_status() {
    assert_eq!(summary_error(RunStatus::Failed, Some("x".into())), Some("x".to_string()));
    assert_eq!(summary_error(RunStatus::Running, Some("x".into())), None);
    assert_eq!(summary_error(RunStatus::Succeeded, Some("x".into())), None);
    match cancel_check(RunStatus::Succeeded) {
        Err(AppError::Conflict(m)) => assert_eq!(m, "run 已经是终态 Succeeded，无法取消"),
        _ => panic!("a finished run cannot be cancelled"),
    }
    assert!(cancel_check(RunStatus::Running).is_ok());
    assert!(delete_outcome(None, RunStatus::Succeeded).is_ok());
    assert!(delete_outcome(Some(true), RunStatus::Succeeded).is_ok());
    match delete_outcome(Some(false), RunStatus::Running) {
        Err(AppError::Conflict(m)) => assert!(m.starts_with("run 还在 Running，")),
        _ => panic!("a running run is not deleted"),
    }
    match run_not_found("r9") {
        AppError::NotFound(m) => assert_eq!(m, "run r9 不存在"),
        _ => panic!(),
    }
}

fn query() -> AuditQuery {
    AuditQuery { target_kind: None, target_id: None, q: None, action: None, cursor: None, limit: None }
}

#[test]
fn an_audit_id_without_its_kind_is_refused() {
    let mut q = query();
    q.target_id = Some("r1".into());
    assert_eq!(fields(plan(&q).err().expect("refused")), vec!["target_kind"]);
}

#[test]
fn an_audit_plan_keeps_filters_and_bounds_the_page() {
    let mut q = query();
    q.target_kind = Some("rule".into());
    q.action = Some(" rule.create, ,rule.delete ".into());
    q.q = Some("   ".into());
    q.limit = Some(1000);
    q.cursor = Some(audit::encode_cursor(1_788_857_536_123_456, 42));
    let p = plan(&q).ok().expect("valid");
    assert_eq!(p.actions, Some(vec!["rule.create".to_string(), "rule.delete".to_string()]));
    assert_eq!(p.search, None);
    assert_eq!(p.limit, 200);
    assert_eq!(p.cursor, Some((1_788_857_536_123_456, 42)));
    assert_eq!(page_split(201, 200), (200, true));
    assert_eq!(page_split(3, 200), (3, false));
    let mut bad = query();
    bad.cursor = Some("x|y".into());
    assert!(matches!(plan(&bad), Err(AppError::BadRequest(_))));
}
