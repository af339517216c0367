//! The rules of user and role management (all admin-only).
//!
//! These endpoints decide who can make this system run commands on other
//! machines, so every guard here errs on the side of keeping an admin.

use vstd::prelude::*;

use crate::access::{role_name, Role};
use crate::error::{invalid, AppError};
use crate::text::{chars_of, decimal, is_blank, is_blank_str, push_decimal};

verus! {

/// The body of `PUT /api/v1/users/{id}`.
pub struct UpdateUser {
    pub email: String,
    pub display_name: String,
    /// Absent or empty: the password stays.
    pub password: Option<String>,
}

/// The body of `POST /api/v1/users`.
pub struct CreateUser {
    pub email: String,
    pub display_name: String,
    pub password: String,
    pub role: String,
}

/// The body of `PUT /api/v1/users/{id}/role`.
pub struct RoleChange {
    pub role: String,
}

/// The body of `PUT /api/v1/users/{id}/disabled`.
pub struct DisableChange {
    pub disabled: bool,
}

/// A role name, strictly: an unknown or miscased name is refused rather
/// than defaulted (a typo must not quietly give less, or more).
pub fn parse_role(text: &str) -> (r: Result<Role, AppError>)
    ensures
        match r {
            Ok(role) => role_name(role) == text@,
            Err(e) => (forall|role: Role| role_name(role) != text@) && (e matches AppError::Validation(v)
                && v@.len() == 1 && v@[0].field@ == "role"@ && v@[0].message@
                == "只能是 viewer / operator / admin"@),
        },
{
    match Role::parse(text) {
        Some(role) => Ok(role),
        None => Err(invalid("role", "只能是 viewer / operator / admin")),
    }
}

pub open spec fn email_error() -> Seq<char> {
    "不像是一个邮箱地址"@
}

/// An address must at least contain `@`.
pub fn check_email(email: &str) -> (r: Result<(), AppError>)
    ensures
        email@.contains('@') ==> r is Ok,
        !email@.contains('@') ==> (r matches Err(AppError::Validation(v)) && v@.len() == 1
            && v@[0].field@ == "email"@ && v@[0].message@ == email_error()),
{
    let chars = chars_of(email);
    match crate::text::find_char(chars.as_slice(), '@') {
        Some(i) => {
            assert(chars@[i as int] == '@');
            Ok(())
        },
        None => Err(invalid("email", "不像是一个邮箱地址")),
    }
}

/// The refusal of a password shorter than the floor.
pub open spec fn password_error(floor: usize) -> Seq<char> {
    "至少 "@ + decimal(floor as nat) + " 个字符：这个账号能让系统 SSH 到任意机器执行命令"@
}

/// A password needs at least `floor` characters (characters, not bytes).
pub fn check_password(password: &str, floor: usize) -> (r: Result<(), AppError>)
    ensures
        password@.len() >= floor ==> r is Ok,
        password@.len() < floor ==> (r matches Err(AppError::Validation(v)) && v@.len() == 1
            && v@[0].field@ == "password"@ && v@[0].message@ == password_error(floor)),
{
    let chars = chars_of(password);
    if chars.len() < floor {
        let mut m = String::from_str("至少 ");
        push_decimal(&mut m, floor as u64);
        m.append(" 个字符：这个账号能让系统 SSH 到任意机器执行命令");
        Err(invalid("password", m.as_str()))
    } else {
        Ok(())
    }
}

/// The checks of a profile update, in order: the address, the display
/// name, then the new password if one is given (an empty one is none).
/// The result is the password to set.
pub fn validate_update(body: &UpdateUser, floor: usize) -> (r: Result<Option<String>, AppError>)
    ensures
        !body.email@.contains('@') ==> (r matches Err(AppError::Validation(v)) && v@[0].field@ == "email"@),
        body.email@.contains('@') && is_blank(body.display_name@) ==> (r matches Err(
            AppError::Validation(v),
        ) && v@.len() == 1 && v@[0].field@ == "display_name"@ && v@[0].message@ == "显示名不能为空"@),
        body.email@.contains('@') && !is_blank(body.display_name@) ==> match body.password {
            Some(p) => if p@.len() == 0 {
                r matches Ok(None)
            } else if p@.len() < floor {
                r matches Err(AppError::Validation(v)) && v@[0].field@ == "password"@ && v@[0].message@
                    == password_error(floor)
            } else {
                r matches Ok(Some(q)) && q@ == p@
            },
            None => r matches Ok(None),
        },
{
    check_email(body.email.as_str())?;
    if is_blank_str(body.display_name.as_str()) {
        return Err(invalid("display_name", "显示名不能为空"));
    }
    match &body.password {
        Some(p) => {
            if p.as_str().is_empty() {
                Ok(None)
            } else {
                check_password(p.as_str(), floor)?;
                Ok(Some(p.clone()))
            }
        },
        None => Ok(None),
    }
}

/// The checks of a new user, in order: the role, the address, the
/// password.
pub fn validate_create(body: &CreateUser, floor: usize) -> (r: Result<Role, AppError>)
    ensures
        match r {
            Ok(role) => role_name(role) == body.role@ && body.email@.contains('@')
                && body.password@.len() >= floor,
            Err(_) => (forall|role: Role| role_name(role) != body.role@) || !body.email@.contains('@')
                || body.password@.len() < floor,
        },
{
    let role = parse_role(body.role.as_str())?;
    check_email(body.email.as_str())?;
    check_password(body.password.as_str(), floor)?;
    Ok(role)
}

/// The built-in admin is the earliest user of the workspace (the one
/// bootstrap created); the listing is ordered by creation.
pub fn system_user_id(user_ids: &Vec<u128>) -> (r: Option<u128>)
    ensures
        r == (if user_ids@.len() == 0 {
            None
        } else {
            Some(user_ids@[0])
        }),
{
    if user_ids.len() == 0 {
        None
    } else {
        Some(user_ids[0])
    }
}

/// The built-in admin's profile can only be changed by that admin.
pub fn profile_edit_check(is_system: bool, require_auth: bool, actor: Option<u128>, target: u128) -> (r:
    Result<(), AppError>)
    ensures
        (is_system && require_auth && actor != Some(target)) ==> (r matches Err(AppError::Conflict(m))
            && m@ == "内置管理员的资料只能由本人修改"@),
        !(is_system && require_auth && actor != Some(target)) ==> r is Ok,
{
    if is_system && require_auth && actor != Some(target) {
        Err(AppError::Conflict(String::from_str("内置管理员的资料只能由本人修改")))
    } else {
        Ok(())
    }
}

/// The first two guards of a delete: nobody deletes their own account,
/// and the built-in admin is never deleted.
pub fn delete_check(actor: Option<u128>, target: u128, is_system: bool) -> (r: Result<(), AppError>)
    ensures
        actor == Some(target) ==> (r matches Err(AppError::Conflict(m)) && m@
            == "不能删除自己的账号。让另一个管理员来删"@),
        actor != Some(target) && is_system ==> (r matches Err(AppError::Conflict(m)) && m@
            == "内置管理员不能删除：它是首次部署时创建的兜底账号"@),
        actor != Some(target) && !is_system ==> r is Ok,
{
    if actor == Some(target) {
        return Err(AppError::Conflict(String::from_str("不能删除自己的账号。让另一个管理员来删")));
    }
    if is_system {
        return Err(
            AppError::Conflict(String::from_str("内置管理员不能删除：它是首次部署时创建的兜底账号")),
        );
    }
    Ok(())
}

/// The built-in admin cannot be demoted.
pub fn role_change_check(role: Role, is_system: bool) -> (r: Result<(), AppError>)
    ensures
        (role != Role::Admin && is_system) ==> (r matches Err(AppError::Conflict(m)) && m@
            == "内置管理员不能降级"@),
        !(role != Role::Admin && is_system) ==> r is Ok,
{
    if role != Role::Admin && is_system {
        Err(AppError::Conflict(String::from_str("内置管理员不能降级")))
    } else {
        Ok(())
    }
}

/// The built-in admin cannot be disabled.
pub fn disable_check(disabled: bool, is_system: bool) -> (r: Result<(), AppError>)
    ensures
        (disabled && is_system) ==> (r matches Err(AppError::Conflict(m)) && m@ == "内置管理员不能停用"@),
        !(disabled && is_system) ==> r is Ok,
{
    if disabled && is_system {
        Err(AppError::Conflict(String::from_str("内置管理员不能停用")))
    } else {
        Ok(())
    }
}

/// The last-admin guard. Only a target that currently is an active admin
/// can reduce the number of admins; with more than one active admin the
/// change goes ahead. Otherwise it is refused: after it nobody could add
/// people, change roles or read the audit trail.
pub fn last_admin_verdict(target_is_active_admin: bool, active_admins: i64, actor_is_target: bool) -> (r:
    Result<(), AppError>)
    ensures
        (!target_is_active_admin || active_admins > 1) ==> r is Ok,
        (target_is_active_admin && active_admins <= 1) ==> (r matches Err(AppError::Conflict(m)) && m@
            == (if actor_is_target {
            "你是最后一个管理员，不能把自己摘掉。先加一个管理员再来"@
        } else {
            "这是最后一个管理员。摘掉之后加人、改角色、看审计都做不了，只能改库救回来"@
        })),
{
    if !target_is_active_admin || active_admins > 1 {
        return Ok(());
    }
    if actor_is_target {
        Err(AppError::Conflict(String::from_str("你是最后一个管理员，不能把自己摘掉。先加一个管理员再来")))
    } else {
        Err(
            AppError::Conflict(
                String::from_str("这是最后一个管理员。摘掉之后加人、改角色、看审计都做不了，只能改库救回来"),
            ),
        )
    }
}

/// A user as the API shows it. There is no field for the password hash,
/// and there will not be one: one offline cracking run is enough.
#[derive(Debug)]
pub struct UserSummary {
    pub id: String,
    pub email: String,
    pub display_name: String,
    pub role: String,
    /// Disabled: cannot log in, and its sessions were revoked.
    pub disabled: bool,
    pub active_sessions: i64,
    /// Microseconds since the Unix epoch.
    pub created_at: i64,
    /// The built-in admin created by bootstrap.
    pub system: bool,
}

/// The summary of a stored user; `system_id` is the built-in admin's id
/// ([`system_user_id`]).
pub fn user_summary(
    id: u128,
    id_text: String,
    email: String,
    display_name: String,
    role: Role,
    disabled_at: Option<i64>,
    active_sessions: i64,
    created_at: i64,
    system_id: Option<u128>,
) -> (u: UserSummary)
    ensures
        u.id == id_text && u.email == email && u.display_name == display_name,
        u.role@ == role_name(role),
        u.disabled == disabled_at is Some,
        u.active_sessions == active_sessions && u.created_at == created_at,
        u.system == (system_id == Some(id)),
{
    UserSummary {
        id: id_text,
        email,
        display_name,
        role: String::from_str(role.as_str()),
        disabled: disabled_at.is_some(),
        active_sessions,
        created_at,
        system: system_id == Some(id),
    }
}

/// An address already in use.
pub fn email_taken(email: &str) -> (e: AppError)
    ensures
        e matches AppError::Conflict(m) && m@ == "邮箱 "@ + email@ + " 已被占用"@,
{
    let mut m = String::from_str("邮箱 ");
    m.append(email);
    m.append(" 已被占用");
    AppError::Conflict(m)
}

/// A user id that is not in this workspace.
pub fn user_not_found(id: &str) -> (e: AppError)
    ensures
        e matches AppError::NotFound(m) && m@ == "用户 "@ + id@ + " 不存在"@,
{
    let mut m = String::from_str("用户 ");
    m.append(id);
    m.append(" 不存在");
    AppError::NotFound(m)
}

/// The whole last-admin guard for a change that may take admin rights
/// away (`losing_admin`: a delete, a role other than admin, or disabling),
/// with authentication on or off. A change that takes nothing away always
/// goes ahead; otherwise [`last_admin_verdict`] decides.
pub fn guard_last_admin(losing_admin: bool, target_is_active_admin: bool, active_admins: i64, actor_is_target: bool) -> (r:
    Result<(), AppError>)
    ensures
        !losing_admin ==> r is Ok,
        losing_admin && (!target_is_active_admin || active_admins > 1) ==> r is Ok,
        losing_admin && target_is_active_admin && active_admins <= 1 ==> (r matches Err(AppError::Conflict(m))
            && m@ == (if actor_is_target {
            "你是最后一个管理员，不能把自己摘掉。先加一个管理员再来"@
        } else {
            "这是最后一个管理员。摘掉之后加人、改角色、看审计都做不了，只能改库救回来"@
        })),
{
    if !losing_admin {
        return Ok(());
    }
    last_admin_verdict(target_is_active_admin, active_admins, actor_is_target)
}

} // verus!
