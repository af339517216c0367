use ai_task::error::{invalid, map_conflict, map_not_found, not_found, AppError, FieldError, StoreFailure};

#[test]
fn internal_errors_do_not_leak_details_to_the_client() {
    let e = AppError::Store(
        "connection to host db-prod-3.internal failed: password authentication failed".into(),
    );
    let text = e.client_message("req-1");
    assert!(!text.contains("db-prod-3"), "internal host name leaked: {text}");
    assert!(!text.contains("password"), "internal detail leaked: {text}");
    assert_eq!(text, "服务内部错误。请把 request_id req-1 提供给运维。");
    assert_eq!(e.classify(), (500, "internal"));
    assert!(e.is_server_error());
}

#[test]
fn forbidden_uses_the_same_envelope_as_every_other_error() {
    let e = AppError::Forbidden("需要 admin 及以上，你是 operator".into());
    assert_eq!(e.classify(), (403, "forbidden"));
    assert!(e.client_message("r").contains("admin"));
    assert!(e.details().is_empty());
    assert!(!e.is_server_error());
}

#[test]
fn not_found_message_reaches_the_client() {
    let nf = AppError::NotFound("接口 /api/v1/nope 不存在".into());
    assert_eq!(nf.classify(), (404, "not_found"));
    assert_eq!(nf.client_message("r"), "接口 /api/v1/nope 不存在");
}

#[test]
fn validation_is_422_and_reports_every_field_at_once() {
    let e = AppError::Validation(vec![
        FieldError::new("spec", "invalid_dag", "存在环"),
        FieldError::new("spec", "invalid_dag", "节点 key 重复"),
    ]);
    assert_eq!(e.classify(), (422, "validation_failed"));
    assert_eq!(e.client_message("r"), "请求校验未通过");
    let d = e.details();
    assert_eq!(d.len(), 2);
    assert_eq!(d[0].message, "存在环");
    assert_eq!(d[1].message, "节点 key 重复");
    assert!(AppError::Conflict("x".into()).details().is_empty());
}

#[test]
fn every_variant_has_its_status_and_code() {
    assert_eq!(AppError::Unauthorized("x".into()).classify(), (401, "unauthorized"));
    assert_eq!(AppError::BadRequest("x".into()).classify(), (400, "bad_request"));
    assert_eq!(AppError::Conflict("x".into()).classify(), (409, "conflict"));
    assert_eq!(
        AppError::PreconditionFailed("x".into()).classify(),
        (412, "precondition_failed")
    );
    assert_eq!(AppError::Internal("x".into()).classify(), (500, "internal"));
    assert_eq!(
        AppError::Rejected { status: 413, message: "big".into() }.classify(),
        (413, "payload_too_large")
    );
    assert_eq!(
        AppError::Rejected { status: 415, message: "type".into() }.classify(),
        (415, "unsupported_media_type")
    );
    assert_eq!(
        AppError::Rejected { status: 400, message: "bad".into() }.classify(),
        (400, "bad_request")
    );
}

#[test]
fn store_failures_map_to_client_errors() {
    match map_not_found(StoreFailure::NotFound, "任务", "t1") {
        AppError::NotFound(m) => assert_eq!(m, "任务 t1 不存在"),
        _ => panic!("a missing row is a 404"),
    }
    assert!(matches!(
        map_not_found(StoreFailure::Other("boom".into()), "任务", "t1"),
        AppError::Store(_)
    ));
    match map_conflict(StoreFailure::Conflict { what: "主机".into(), id: "prod-1".into() }) {
        AppError::Conflict(m) => assert_eq!(m, "主机 `prod-1` 已存在"),
        _ => panic!("a duplicate is a 409"),
    }
    match not_found("run", "r1") {
        AppError::NotFound(m) => assert_eq!(m, "run r1 不存在"),
        _ => panic!(),
    }
    match invalid("name", "不能为空") {
        AppError::Validation(v) => {
            assert_eq!(v.len(), 1);
            assert_eq!(v[0].field, "name");
            assert_eq!(v[0].code, "invalid");
        }
        _ => panic!(),
    }
}
