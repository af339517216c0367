//! Who may do what: roles, the routes open without a login, the session
//! cookie, request ids and the internal token.
//!
//! The decision goes by **method**, not by path: reading is viewer,
//! writing is operator, machines, rules, users and the audit trail are
//! admin. A new route therefore starts in the right tier instead of open.

use vstd::prelude::*;
use vstd::slice::slice_subrange;

use crate::error::AppError;
use crate::text::{
    chars_of, is_blank, push_i64, split_all, split_chars, split_once, split_once_chars, starts_with,
    str_eq, str_starts_with, trim, trim_bounds, decimal_int, chars_eq, lemma_split_all_nonempty,
};

verus! {

// ------------------------------------------------------------------ roles

/// The tiers of access, from least to most.
#[derive(Debug, Clone, Copy, PartialEq, Eq, Structural)]
pub enum Role {
    Viewer,
    Operator,
    Admin,
}

pub open spec fn rank(r: Role) -> int {
    match r {
        Role::Viewer => 0,
        Role::Operator => 1,
        Role::Admin => 2,
    }
}

pub open spec fn role_name(r: Role) -> Seq<char> {
    match r {
        Role::Viewer => "viewer"@,
        Role::Operator => "operator"@,
        Role::Admin => "admin"@,
    }
}

impl Role {
    /// A role is enough for what needs `needed` or less.
    pub fn allows(&self, needed: Role) -> (b: bool)
        ensures
            b == (rank(*self) >= rank(needed)),
    {
        match (self, needed) {
            (Role::Admin, _) => true,
            (Role::Operator, Role::Viewer) | (Role::Operator, Role::Operator) => true,
            (Role::Viewer, Role::Viewer) => true,
            _ => false,
        }
    }

    /// The name of the role as stored and shown.
    pub fn as_str(&self) -> (s: &'static str)
        ensures
            s@ == role_name(*self),
    {
        match self {
            Role::Viewer => "viewer",
            Role::Operator => "operator",
            Role::Admin => "admin",
        }
    }

    /// The role with exactly this name; case matters and nothing is
    /// defaulted.
    pub fn parse(text: &str) -> (r: Option<Role>)
        ensures
            match r {
                Some(role) => role_name(role) == text@,
                None => forall|role: Role| role_name(role) != text@,
            },
    {
        if str_eq(text, "viewer") {
            Some(Role::Viewer)
        } else if str_eq(text, "operator") {
            Some(Role::Operator)
        } else if str_eq(text, "admin") {
            Some(Role::Admin)
        } else {
            assert forall|role: Role| role_name(role) != text@ by {
                match role {
                    Role::Viewer => {},
                    Role::Operator => {},
                    Role::Admin => {},
                }
            }
            None
        }
    }
}

/// HTTP methods as far as access control tells them apart.
#[derive(Debug, Clone, Copy, PartialEq, Eq, Structural)]
pub enum Method {
    Get,
    Head,
    Options,
    Post,
    Put,
    Patch,
    Delete,
    Other,
}

/// The path prefixes that need admin even to read: they show other
/// people's identities, machines and credentials, or the guard rails.
pub open spec fn admin_only() -> Seq<Seq<char>> {
    seq!["/api/v1/audit"@, "/api/v1/hosts"@, "/api/v1/rules"@, "/api/v1/users"@]
}

/// The paths reachable without a login; without them nobody could log in.
pub open spec fn public_set() -> Seq<Seq<char>> {
    seq![
        "/api/v1/healthz"@,
        "/api/v1/readyz"@,
        "/api/v1/auth/login"@,
        "/api/v1/auth/logout"@,
        "/api/v1/auth/me"@,
        "/api/v1/auth/bootstrap"@,
    ]
}

pub open spec fn required_role_spec(method: Method, path: Seq<char>) -> Role {
    if exists|i: int| 0 <= i < admin_only().len() && starts_with(path, #[trigger] admin_only()[i]) {
        Role::Admin
    } else if method == Method::Get || method == Method::Head || method == Method::Options {
        Role::Viewer
    } else {
        Role::Operator
    }
}

/// The tier a request needs.
pub fn required_role(method: Method, path: &str) -> (r: Role)
    ensures
        r == required_role_spec(method, path@),
{
    let prefixes = ["/api/v1/audit", "/api/v1/hosts", "/api/v1/rules", "/api/v1/users"];
    let mut i: usize = 0;
    while i < 4
        invariant
            i <= 4,
            prefixes@.map_values(|p: &str| p@) == admin_only(),
            forall|j: int| 0 <= j < i ==> !starts_with(path@, #[trigger] admin_only()[j]),
        decreases 4 - i,
    {
        assert(prefixes@.map_values(|p: &str| p@)[i as int] == prefixes[i as int]@);
        if str_starts_with(path, prefixes[i]) {
            return Role::Admin;
        }
        i += 1;
    }
    match method {
        Method::Get | Method::Head | Method::Options => Role::Viewer,
        _ => Role::Operator,
    }
}

/// The paths open without a login.
pub fn public_paths() -> (v: Vec<&'static str>)
    ensures
        v@.map_values(|p: &str| p@) == public_set(),
{
    let v = vec![
        "/api/v1/healthz",
        "/api/v1/readyz",
        "/api/v1/auth/login",
        "/api/v1/auth/logout",
        "/api/v1/auth/me",
        "/api/v1/auth/bootstrap",
    ];
    assert(v@.map_values(|p: &str| p@) =~= public_set());
    v
}

/// The path is one of the login-free ones.
pub fn is_public(path: &str) -> (b: bool)
    ensures
        b == public_set().contains(path@),
{
    let v = public_paths();
    let mut i: usize = 0;
    while i < v.len()
        invariant
            i <= v@.len(),
            v@.map_values(|p: &str| p@) == public_set(),
            forall|j: int| 0 <= j < i ==> public_set()[j] != path@,
        decreases v@.len() - i,
    {
        assert(v@.map_values(|p: &str| p@)[i as int] == v@[i as int]@);
        if str_eq(v[i], path) {
            assert(public_set()[i as int] == path@);
            return true;
        }
        i += 1;
    }
    false
}

/// Which requests the access layer checks at all: static assets, pages
/// outside `/api/v1` and the public routes pass, and so does everything
/// when authentication is switched off. `Some(role)` is the tier to check.
pub fn gate(method: Method, path: &str, require_auth: bool) -> (r: Option<Role>)
    ensures
        r == (if !starts_with(path@, "/api/v1"@) || public_set().contains(path@) || !require_auth {
            None
        } else {
            Some(required_role_spec(method, path@))
        }),
{
    if !str_starts_with(path, "/api/v1") || is_public(path) {
        return None;
    }
    if !require_auth {
        return None;
    }
    Some(required_role(method, path))
}

/// The answer to a checked request: no principal is a 401, a role below
/// what is needed a 403 naming both roles.
pub fn authorize(principal: Option<Role>, needed: Role) -> (r: Result<(), AppError>)
    ensures
        match principal {
            None => r matches Err(AppError::Unauthorized(m)) && m@ == "需要登录"@,
            Some(role) => if rank(role) >= rank(needed) {
                r is Ok
            } else {
                r matches Err(AppError::Forbidden(m)) && m@ == "需要 "@ + role_name(needed) + " 及以上，你是 "@
                    + role_name(role)
            },
        },
{
    match principal {
        None => Err(AppError::Unauthorized(String::from_str("需要登录"))),
        Some(role) => {
            if role.allows(needed) {
                Ok(())
            } else {
                let mut m = String::from_str("需要 ");
                m.append(needed.as_str());
                m.append(" 及以上，你是 ");
                m.append(role.as_str());
                Err(AppError::Forbidden(m))
            }
        },
    }
}

// ------------------------------------------------------------------ request ids

/// The header that carries the request id in and out.
pub const HEADER: &'static str = "x-request-id";

pub open spec fn id_char(c: char) -> bool {
    ('a' <= c && c <= 'z') || ('A' <= c && c <= 'Z') || ('0' <= c && c <= '9') || c == '-' || c
        == '_' || c == '.' || c == ':'
}

/// A request id that may go into logs and headers: 1 to 128 characters of
/// ASCII letters, digits and `-_.:`. Anything else could forge log lines.
pub open spec fn safe_id(s: Seq<char>) -> bool {
    0 < s.len() <= 128 && forall|i: int| 0 <= i < s.len() ==> id_char(#[trigger] s[i])
}

/// The incoming id can be kept.
pub fn is_safe(value: &str) -> (b: bool)
    ensures
        b == safe_id(value@),
{
    let v = chars_of(value);
    let n = v.len();
    if n == 0 || n > 128 {
        return false;
    }
    let mut i: usize = 0;
    while i < n
        invariant
            n == v@.len(),
            v@ == value@,
            i <= n,
            forall|j: int| 0 <= j < i ==> id_char(#[trigger] v@[j]),
        decreases n - i,
    {
        let c = v[i];
        let ok = ('a' <= c && c <= 'z') || ('A' <= c && c <= 'Z') || ('0' <= c && c <= '9') || c
            == '-' || c == '_' || c == '.' || c == ':';
        if !ok {
            return false;
        }
        i += 1;
    }
    true
}

/// The request id of the current request, `-` outside of one. `scoped` is
/// what the request's context holds.
pub fn current(scoped: Option<&str>) -> (s: String)
    ensures
        s@ == (match scoped {
            Some(id) => id@,
            None => "-"@,
        }),
{
    match scoped {
        Some(id) => String::from_str(id),
        None => String::from_str("-"),
    }
}

/// The span of a request carries its request id.
#[derive(Clone, Copy, Debug)]
pub struct RequestSpan;

impl RequestSpan {
    /// The request id field of the span: the header's value, or `-`.
    pub fn request_id<'a>(header: Option<&'a str>) -> (s: &'a str)
        ensures
            s@ == (match header {
                Some(h) => h@,
                None => "-"@,
            }),
    {
        match header {
            Some(h) => h,
            None => "-",
        }
    }
}

// ------------------------------------------------------------------ sessions

/// The name of the session cookie.
pub const COOKIE: &'static str = "ai_task_session";

pub open spec fn cookie_name() -> Seq<char> {
    "ai_task_session"@
}

/// The `Set-Cookie` value of a session. `HttpOnly` keeps it from page
/// scripts, `SameSite=Strict` from other sites; `Max-Age=0` expires it.
pub open spec fn session_cookie_spec(token: Seq<char>, max_age: i64) -> Seq<char> {
    cookie_name() + "="@ + token + "; Path=/; HttpOnly; SameSite=Strict; Max-Age="@ + decimal_int(
        max_age as int,
    )
}

pub fn session_cookie(token: &str, max_age: i64) -> (s: String)
    ensures
        s@ == session_cookie_spec(token@, max_age),
{
    let mut s = String::from_str(COOKIE);
    proof {
        reveal_strlit("ai_task_session");
    }
    s.append("=");
    s.append(token);
    s.append("; Path=/; HttpOnly; SameSite=Strict; Max-Age=");
    push_i64(&mut s, max_age);
    s
}

/// The session token among the `;`-separated cookies of a header: the
/// value of the first pair whose name is exactly the session cookie's.
pub open spec fn token_in(parts: Seq<Seq<char>>) -> Option<Seq<char>>
    decreases parts.len(),
{
    if parts.len() == 0 {
        None
    } else {
        match split_once(trim(parts[0]), '=') {
            Some(pair) => if pair.0 == cookie_name() {
                Some(pair.1)
            } else {
                token_in(parts.drop_first())
            },
            None => token_in(parts.drop_first()),
        }
    }
}

/// The session token of a `Cookie` header, if it names one.
pub fn token_from(cookie_header: Option<&str>) -> (r: Option<String>)
    ensures
        match cookie_header {
            None => r is None,
            Some(h) => match token_in(split_all(h@, ';')) {
                Some(t) => r matches Some(s) && s@ == t,
                None => r is None,
            },
        },
{
    let h = match cookie_header {
        Some(h) => h,
        None => return None,
    };
    let chars = chars_of(h);
    let parts = split_chars(chars.as_slice(), ';');
    let ghost views = parts@.map_values(|v: Vec<char>| v@);
    let name = chars_of(COOKIE);
    proof {
        reveal_strlit("ai_task_session");
    }
    let n = parts.len();
    let mut i: usize = 0;
    assert(views.skip(0) =~= views);
    while i < n
        invariant
            n == parts@.len(),
            cookie_header == Some(h),
            views == parts@.map_values(|v: Vec<char>| v@),
            views == split_all(h@, ';'),
            name@ == cookie_name(),
            i <= n,
            token_in(views) == token_in(views.skip(i as int)),
        decreases n - i,
    {
        assert(views.skip(i as int).drop_first() =~= views.skip(i + 1));
        assert(views.skip(i as int)[0] == parts@[i as int]@);
        let part = &parts[i];
        let (a, b) = trim_bounds(part.as_slice());
        let trimmed = slice_subrange(part.as_slice(), a, b);
        assert(trimmed@ == trim(views.skip(i as int)[0]));
        match split_once_chars(trimmed, '=') {
            Some((key, value)) => {
                if chars_eq(key.as_slice(), name.as_slice()) {
                    assert(token_in(views.skip(i as int)) == Some(value@));
                    let mut out = String::new();
                    crate::text::push_all(&mut out, value.as_slice());
                    assert(out@ =~= value@);
                    return Some(out);
                }
            },
            None => {},
        }
        i += 1;
    }
    assert(views.skip(n as int) =~= Seq::<Seq<char>>::empty());
    None
}

// ------------------------------------------------------------------ internal token

/// The token that internal endpoints (the policy hook, the remote proxy)
/// present. Generated at start-up and written only into run directories.
pub struct InternalToken {
    token: String,
}

impl InternalToken {
    pub closed spec fn value(&self) -> Seq<char> {
        self.token@
    }

    pub fn new(token: String) -> (t: InternalToken)
        ensures
            t.value() == token@,
    {
        InternalToken { token }
    }

    /// Whether the presented token is the expected one. Compares in
    /// constant time: every byte is looked at whatever the first
    /// difference, and a length mismatch does not stop the loop either.
    pub fn verify_internal_token(&self, presented: &str) -> (ok: bool)
        ensures
            ok == (self.value() == presented@),
    {
        let expected = self.token.as_str().as_bytes();
        let actual = presented.as_bytes();
        let n = expected.len();
        let m = actual.len();
        let mut diff: u8 = if n != m { 1 } else { 0 };
        let mut i: usize = 0;
        while i < n
            invariant
                n == expected@.len(),
                m == actual@.len(),
                i <= n,
                (diff == 0) <==> (n == m && forall|j: int| 0 <= j < i ==> expected@[j] == actual@[j]),
            decreases n - i,
        {
            let other: u8 = if i < m { actual[i] } else { 0 };
            let x = expected[i];
            let d = diff;
            assert((d | (x ^ other)) == 0 <==> (d == 0 && x == other)) by (bit_vector);
            diff = d | (x ^ other);
            i += 1;
        }
        proof {
            if diff == 0 {
                assert(expected@ =~= actual@);
                vstd::utf8::encode_utf8_decode_utf8(self.token@);
                vstd::utf8::encode_utf8_decode_utf8(presented@);
            }
        }
        diff == 0
    }
}

} // verus!
