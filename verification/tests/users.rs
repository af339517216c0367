use ai_task::access::Role;
use ai_task::auth::{bootstrap_check, identity, login_failed, not_logged_in};
use ai_task::error::AppError;
use ai_task::users::{
    check_email, check_password, delete_check, disable_check, email_taken, last_admin_verdict,
    guard_last_admin, parse_role, profile_edit_check, role_change_check, system_user_id,
    user_not_found, user_summary, UserSummary, validate_create, validate_update, CreateUser, UpdateUser,
};

fn conflict(r: Result<(), AppError>) -> String {
    match r {
        Err(AppError::Conflict(m)) => m,
        other => panic!("expected a conflict, got {other:?}"),
    }
}

#[test]
fn an_unknown_role_name_is_refused_rather_than_defaulted() {
    assert!(parse_role("superuser").is_err());
    assert!(parse_role("Admin").is_err(), "case matters too");
    assert!(parse_role("").is_err());
    assert_eq!(parse_role("operator").ok(), Some(Role::Operator));
}

#[test]
fn the_last_admin_cannot_be_removed() {
    assert_eq!(
        conflict(last_admin_verdict(true, 1, true)),
        "你是最后一个管理员，不能把自己摘掉。先加一个管理员再来"
    );
    assert!(conflict(last_admin_verdict(true, 1, false)).starts_with("这是最后一个管理员。"));
    assert!(last_admin_verdict(true, 2, true).is_ok());
    assert!(last_admin_verdict(false, 1, false).is_ok());
    assert!(guard_last_admin(true, true, 1, false).is_err(), "a removal of the last admin is refused");
    assert!(guard_last_admin(false, true, 1, false).is_ok(), "a change that takes nothing away goes ahead");
    assert!(guard_last_admin(true, true, 2, true).is_ok());
}

#[test]
fn the_built_in_admin_is_protected() {
    assert_eq!(system_user_id(&vec![5, 6]), Some(5));
    assert_eq!(system_user_id(&Vec::new()), None);
    assert_eq!(conflict(delete_check(Some(1), 1, false)), "不能删除自己的账号。让另一个管理员来删");
    assert!(conflict(delete_check(Some(2), 1, true)).starts_with("内置管理员不能删除"));
    assert!(delete_check(Some(2), 1, false).is_ok());
    assert_eq!(conflict(role_change_check(Role::Viewer, true)), "内置管理员不能降级");
    assert!(role_change_check(Role::Admin, true).is_ok());
    assert_eq!(conflict(disable_check(true, true)), "内置管理员不能停用");
    assert!(disable_check(false, true).is_ok());
    assert!(profile_edit_check(true, true, Some(2), 1).is_err());
    assert!(profile_edit_check(true, true, Some(1), 1).is_ok());
    assert!(profile_edit_check(true, false, None, 1).is_ok());
}

#[test]
fn user_fields_are_checked_in_order() {
    assert!(check_email("a@b.c").is_ok());
    assert!(check_email("abc").is_err());
    match check_password("短", 12) {
        Err(AppError::Validation(v)) => assert_eq!(
            v[0].message,
            "至少 12 个字符：这个账号能让系统 SSH 到任意机器执行命令"
        ),
        _ => panic!(),
    }
    assert!(check_password("十二个字符十二个字符十二", 12).is_ok());
    let body = CreateUser {
        email: "a@b.c".into(),
        display_name: "zzh".into(),
        password: "correct horse battery".into(),
        role: "admin".into(),
    };
    assert_eq!(validate_create(&body, 12).expect("valid"), Role::Admin);
    let mut upd = UpdateUser { email: "a@b.c".into(), display_name: " ".into(), password: None };
    match validate_update(&upd, 12) {
        Err(AppError::Validation(v)) => assert_eq!(v[0].field, "display_name"),
        _ => panic!(),
    }
    upd.display_name = "zzh".into();
    upd.password = Some(String::new());
    assert_eq!(validate_update(&upd, 12).expect("valid"), None);
    upd.password = Some("correct horse battery".into());
    assert_eq!(validate_update(&upd, 12).expect("valid").as_deref(), Some("correct horse battery"));
    assert!(matches!(email_taken("a@b.c"), AppError::Conflict(m) if m == "邮箱 a@b.c 已被占用"));
    assert!(matches!(user_not_found("u1"), AppError::NotFound(m) if m == "用户 u1 不存在"));
}

#[test]
fn logins_and_bootstrap() {
    assert!(matches!(login_failed(), AppError::Unauthorized(_)));
    assert!(matches!(not_logged_in(), AppError::Unauthorized(_)));
    let id = identity("a@b.c".into(), "zzh".into(), Role::Operator);
    assert_eq!(id.role, "operator");
    assert!(bootstrap_check(false, "correct horse battery", 12).is_ok());
    assert!(bootstrap_check(true, "correct horse battery", 12).is_err());
    assert!(bootstrap_check(false, "short", 12).is_err());
}

#[test]
fn the_user_summary_never_carries_a_password_hash() {
    // Every field is named: a new one (a password hash) breaks this literal.
    let UserSummary { id, email, display_name, role, disabled, active_sessions, created_at, system } =
        user_summary(9, "u".into(), "a@b.c".into(), "zzh".into(), Role::Admin, None, 2, 0, Some(9));
    assert_eq!((id.as_str(), email.as_str(), display_name.as_str(), role.as_str()), ("u", "a@b.c", "zzh", "admin"));
    assert_eq!((disabled, active_sessions, created_at, system), (false, 2, 0, true));
    let other = user_summary(8, "v".into(), "c@d.e".into(), "x".into(), Role::Viewer, Some(1), 0, 0, Some(9));
    assert!(other.disabled && !other.system);
}
