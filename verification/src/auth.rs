//! Logging in, out, and the first administrator.
//!
//! The session token travels in an HttpOnly cookie (see
//! [`crate::access::session_cookie`]), never in storage that page scripts
//! can read.

use vstd::prelude::*;

use crate::access::{role_name, Role};
use crate::error::{AppError, FieldError};
use crate::text::{chars_of, decimal, push_decimal};

verus! {

/// The body of `POST /api/v1/auth/login`.
pub struct Credentials {
    pub email: String,
    pub password: String,
}

/// Who is logged in, as the front end sees it.
pub struct Identity {
    pub email: Option<String>,
    pub display_name: String,
    pub role: String,
}

/// The body of `POST /api/v1/auth/bootstrap`.
pub struct Bootstrap {
    pub email: String,
    pub password: String,
    pub display_name: String,
}

/// A failed login. Unknown user and wrong password read the same: telling
/// them apart would enumerate accounts.
pub fn login_failed() -> (e: AppError)
    ensures
        e matches AppError::Unauthorized(m) && m@ == "邮箱或口令不正确"@,
{
    AppError::Unauthorized(String::from_str("邮箱或口令不正确"))
}

/// `GET /auth/me` without a session.
pub fn not_logged_in() -> (e: AppError)
    ensures
        e matches AppError::Unauthorized(m) && m@ == "尚未登录"@,
{
    AppError::Unauthorized(String::from_str("尚未登录"))
}

/// The identity shown for a principal.
pub fn identity(email: String, display_name: String, role: Role) -> (i: Identity)
    ensures
        i.email == Some(email),
        i.display_name == display_name,
        i.role@ == role_name(role),
{
    Identity { email: Some(email), display_name, role: String::from_str(role.as_str()) }
}

pub open spec fn admin_password_message(floor: usize) -> Seq<char> {
    "管理员口令至少 "@ + decimal(floor as nat) + " 个字符：这个账号能 SSH 到任意机器执行命令"@
}

/// The first administrator can only be created while there is no user at
/// all (else this would be an open door to admin), with a password of at
/// least `floor` characters.
pub fn bootstrap_check(has_users: bool, password: &str, floor: usize) -> (r: Result<(), AppError>)
    ensures
        has_users ==> (r matches Err(AppError::Conflict(m)) && m@ == "已经有用户了。加人请让管理员在界面上操作"@),
        !has_users && password@.len() < floor ==> (r matches Err(AppError::Validation(v)) && v@.len()
            == 1 && v@[0].field@ == "password"@ && v@[0].code@ == "too_short"@ && v@[0].message@
            == admin_password_message(floor)),
        !has_users && password@.len() >= floor ==> r is Ok,
{
    if has_users {
        return Err(AppError::Conflict(String::from_str("已经有用户了。加人请让管理员在界面上操作")));
    }
    let chars = chars_of(password);
    if chars.len() < floor {
        let mut m = String::from_str("管理员口令至少 ");
        push_decimal(&mut m, floor as u64);
        m.append(" 个字符：这个账号能 SSH 到任意机器执行命令");
        return Err(AppError::Validation(vec![FieldError::new("password", "too_short", m.as_str())]));
    }
    Ok(())
}

} // verus!
