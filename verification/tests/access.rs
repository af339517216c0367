use ai_task::access::{
    authorize, current, gate, is_public, is_safe, public_paths, required_role, session_cookie,
    token_from, InternalToken, Method, RequestSpan, Role,
};
use ai_task::error::AppError;

#[test]
fn reading_needs_viewer_and_writing_needs_operator() {
    assert_eq!(required_role(Method::Get, "/api/v1/runs"), Role::Viewer);
    assert_eq!(required_role(Method::Post, "/api/v1/tasks/x/runs"), Role::Operator);
    assert_eq!(required_role(Method::Put, "/api/v1/tasks/x"), Role::Operator);
    assert_eq!(required_role(Method::Delete, "/api/v1/anything"), Role::Operator);
}

#[test]
fn an_unrecognised_write_route_defaults_to_operator_not_to_open() {
    assert_eq!(
        required_role(Method::Patch, "/api/v1/something-invented-tomorrow"),
        Role::Operator
    );
}

#[test]
fn machines_credentials_and_the_audit_trail_are_admin_only() {
    for path in [
        "/api/v1/hosts",
        "/api/v1/rules",
        "/api/v1/audit",
        "/api/v1/audit?limit=10",
        "/api/v1/users",
    ] {
        assert_eq!(required_role(Method::Get, path), Role::Admin, "{path}");
    }
}

#[test]
fn the_login_route_is_reachable_without_being_logged_in() {
    let public = public_paths();
    assert!(public.contains(&"/api/v1/auth/login"));
    assert!(public.contains(&"/api/v1/auth/me"));
    assert!(public.contains(&"/api/v1/healthz"));
    assert!(!public.iter().any(|p| p.starts_with("/api/v1/tasks")));
    assert!(!public.iter().any(|p| p.starts_with("/api/v1/runs")));
    assert!(is_public("/api/v1/auth/login"));
    assert!(!is_public("/api/v1/tasks"));
}

#[test]
fn the_gate_lets_assets_and_public_routes_through() {
    assert_eq!(gate(Method::Get, "/_app/immutable/x.js", true), None);
    assert_eq!(gate(Method::Post, "/api/v1/auth/login", true), None);
    assert_eq!(gate(Method::Post, "/api/v1/tasks", false), None);
    assert_eq!(gate(Method::Post, "/api/v1/tasks", true), Some(Role::Operator));
}

#[test]
fn a_missing_login_is_401_and_a_low_role_is_403() {
    match authorize(None, Role::Viewer) {
        Err(AppError::Unauthorized(m)) => assert_eq!(m, "需要登录"),
        _ => panic!("no principal must be 401"),
    }
    match authorize(Some(Role::Operator), Role::Admin) {
        Err(AppError::Forbidden(m)) => assert_eq!(m, "需要 admin 及以上，你是 operator"),
        _ => panic!("operator below admin must be 403"),
    }
    assert!(authorize(Some(Role::Admin), Role::Operator).is_ok());
    assert!(Role::Operator.allows(Role::Viewer));
    assert!(!Role::Viewer.allows(Role::Operator));
}

#[test]
fn role_names_parse_strictly() {
    assert_eq!(Role::parse("superuser"), None);
    assert_eq!(Role::parse("Admin"), None, "case matters");
    assert_eq!(Role::parse("operator"), Some(Role::Operator));
    assert_eq!(Role::Admin.as_str(), "admin");
}

#[test]
fn accepts_ordinary_trace_ids() {
    assert!(is_safe("0199a1f0-9c3a-7c11-9f6e-2b1c7a0d4e55"));
    assert!(is_safe("trace_abc.123:1"));
}

#[test]
fn rejects_log_injection_and_oversized_ids() {
    assert!(!is_safe(""));
    assert!(!is_safe("a\nINFO fake log line"));
    assert!(!is_safe("a\r\nb"));
    assert!(!is_safe("<script>"));
    assert!(!is_safe(&"x".repeat(129)));
}

#[test]
fn the_current_request_id_falls_back_to_a_dash() {
    assert_eq!(current(None), "-");
    assert_eq!(current(Some("trace-1")), "trace-1");
    assert_eq!(RequestSpan::request_id(None), "-");
    assert_eq!(RequestSpan::request_id(Some("abc")), "abc");
}

#[test]
fn the_session_cookie_is_not_reachable_from_page_scripts() {
    let cookie = session_cookie("abc", 3600);
    assert!(cookie.contains("HttpOnly"), "one XSS would take the session without it");
    assert!(cookie.contains("SameSite=Strict"), "{cookie}");
    assert!(cookie.contains("Path=/"), "{cookie}");
    assert_eq!(
        cookie,
        "ai_task_session=abc; Path=/; HttpOnly; SameSite=Strict; Max-Age=3600"
    );
}

#[test]
fn logging_out_expires_the_cookie_immediately() {
    assert!(session_cookie("", 0).contains("Max-Age=0"));
}

#[test]
fn the_token_is_picked_out_of_a_crowded_cookie_header() {
    assert_eq!(
        token_from(Some("theme=dark; ai_task_session=deadbeef; other=1")).as_deref(),
        Some("deadbeef")
    );
    assert_eq!(token_from(Some("ai_task_session_backup=nope")), None);
}

#[test]
fn no_cookie_means_not_logged_in_rather_than_an_error() {
    assert_eq!(token_from(None), None);
}

#[test]
fn the_internal_token_matches_only_itself() {
    let t = InternalToken::new("s3cret-token".to_string());
    assert!(t.verify_internal_token("s3cret-token"));
    assert!(!t.verify_internal_token("s3cret-tokeN"));
    assert!(!t.verify_internal_token("s3cret"));
    assert!(!t.verify_internal_token(""));
}
