//! The HTTP error contract: a status code for the class of problem and a
//! stable `code` for the reason.
//!
//! Rendering the envelope and logging are the web layer's work; what the
//! client is shown is decided here.

use vstd::prelude::*;

verus! {

/// One field that did not validate.
#[derive(Debug)]
pub struct FieldError {
    pub field: String,
    pub code: String,
    pub message: String,
}

/// Everything a request can fail with.
#[derive(Debug)]
pub enum AppError {
    /// The resource does not exist. Resources of another tenant go here
    /// too: a 403 would confirm that they exist.
    NotFound(String),
    /// Not authenticated; a wrong internal token lands here as well.
    Unauthorized(String),
    /// Authenticated, but the role is too low (same tenant only).
    Forbidden(String),
    /// The message could not be read (bad cursor, broken JSON).
    BadRequest(String),
    /// Readable but wrong. Every field error at once, not the first one.
    Validation(Vec<FieldError>),
    /// State conflict: a duplicate name, an illegal transition.
    Conflict(String),
    /// Refused before the handler (not JSON, too large), keeping the status.
    Rejected { status: u16, message: String },
    /// The `If-Match` precondition does not hold.
    PreconditionFailed(String),
    /// The database failed; the detail stays in the log.
    Store(String),
    /// Anything else internal; the detail stays in the log.
    Internal(String),
}

pub const NOT_FOUND: u16 = 404;
pub const UNAUTHORIZED: u16 = 401;
pub const FORBIDDEN: u16 = 403;
pub const PRECONDITION_FAILED: u16 = 412;
pub const BAD_REQUEST: u16 = 400;
pub const UNPROCESSABLE_ENTITY: u16 = 422;
pub const CONFLICT: u16 = 409;
pub const PAYLOAD_TOO_LARGE: u16 = 413;
pub const UNSUPPORTED_MEDIA_TYPE: u16 = 415;
pub const INTERNAL_SERVER_ERROR: u16 = 500;

/// The status and the stable code of an error. The code is part of the
/// contract: adding one is compatible, changing when one fires is not.
pub open spec fn classify_spec(e: AppError) -> (u16, Seq<char>) {
    match e {
        AppError::NotFound(_) => (NOT_FOUND, "not_found"@),
        AppError::Unauthorized(_) => (UNAUTHORIZED, "unauthorized"@),
        AppError::Forbidden(_) => (FORBIDDEN, "forbidden"@),
        AppError::PreconditionFailed(_) => (PRECONDITION_FAILED, "precondition_failed"@),
        AppError::BadRequest(_) => (BAD_REQUEST, "bad_request"@),
        AppError::Validation(_) => (UNPROCESSABLE_ENTITY, "validation_failed"@),
        AppError::Conflict(_) => (CONFLICT, "conflict"@),
        AppError::Rejected { status, .. } => (
            status,
            if status == PAYLOAD_TOO_LARGE {
                "payload_too_large"@
            } else if status == UNSUPPORTED_MEDIA_TYPE {
                "unsupported_media_type"@
            } else {
                "bad_request"@
            },
        ),
        AppError::Store(_) | AppError::Internal(_) => (INTERNAL_SERVER_ERROR, "internal"@),
    }
}

/// What the client reads as `message`. Internal errors say only where to
/// take the request id: stacks, SQL and host names stay in the log.
pub open spec fn client_message_spec(e: AppError, request_id: Seq<char>) -> Seq<char> {
    match e {
        AppError::NotFound(m) => m@,
        AppError::Unauthorized(m) => m@,
        AppError::Forbidden(m) => m@,
        AppError::BadRequest(m) => m@,
        AppError::Validation(_) => "请求校验未通过"@,
        AppError::Conflict(m) => m@,
        AppError::Rejected { message, .. } => message@,
        AppError::PreconditionFailed(m) => m@,
        AppError::Store(_) | AppError::Internal(_) => "服务内部错误。请把 request_id "@ + request_id
            + " 提供给运维。"@,
    }
}

/// The views of a list of field errors.
pub open spec fn field_views(v: Seq<FieldError>) -> Seq<(Seq<char>, Seq<char>, Seq<char>)> {
    v.map_values(|f: FieldError| (f.field@, f.code@, f.message@))
}

impl FieldError {
    pub fn new(field: &str, code: &str, message: &str) -> (f: FieldError)
        ensures
            f.field@ == field@,
            f.code@ == code@,
            f.message@ == message@,
    {
        FieldError {
            field: String::from_str(field),
            code: String::from_str(code),
            message: String::from_str(message),
        }
    }

    /// A copy with the same texts.
    pub fn copy(&self) -> (f: FieldError)
        ensures
            f.field@ == self.field@,
            f.code@ == self.code@,
            f.message@ == self.message@,
    {
        FieldError {
            field: self.field.clone(),
            code: self.code.clone(),
            message: self.message.clone(),
        }
    }
}

impl AppError {
    /// The status code and the stable `code`.
    pub fn classify(&self) -> (r: (u16, &'static str))
        ensures
            r.0 == classify_spec(*self).0,
            r.1@ == classify_spec(*self).1,
    {
        match self {
            AppError::NotFound(_) => (NOT_FOUND, "not_found"),
            AppError::Unauthorized(_) => (UNAUTHORIZED, "unauthorized"),
            AppError::Forbidden(_) => (FORBIDDEN, "forbidden"),
            AppError::PreconditionFailed(_) => (PRECONDITION_FAILED, "precondition_failed"),
            AppError::BadRequest(_) => (BAD_REQUEST, "bad_request"),
            AppError::Validation(_) => (UNPROCESSABLE_ENTITY, "validation_failed"),
            AppError::Conflict(_) => (CONFLICT, "conflict"),
            AppError::Rejected { status, .. } => (
                *status,
                if *status == PAYLOAD_TOO_LARGE {
                    "payload_too_large"
                } else if *status == UNSUPPORTED_MEDIA_TYPE {
                    "unsupported_media_type"
                } else {
                    "bad_request"
                },
            ),
            AppError::Store(_) | AppError::Internal(_) => (INTERNAL_SERVER_ERROR, "internal"),
        }
    }

    /// Whether this is the server's fault (a 5xx): logged as an error
    /// rather than a warning.
    pub fn is_server_error(&self) -> (b: bool)
        ensures
            b == (classify_spec(*self).0 >= 500),
    {
        let (status, _) = self.classify();
        status >= 500
    }

    /// The message of the error envelope.
    pub fn client_message(&self, request_id: &str) -> (s: String)
        ensures
            s@ == client_message_spec(*self, request_id@),
    {
        match self {
            AppError::NotFound(m) => m.clone(),
            AppError::Unauthorized(m) => m.clone(),
            AppError::Forbidden(m) => m.clone(),
            AppError::BadRequest(m) => m.clone(),
            AppError::Validation(_) => String::from_str("请求校验未通过"),
            AppError::Conflict(m) => m.clone(),
            AppError::Rejected { message, .. } => message.clone(),
            AppError::PreconditionFailed(m) => m.clone(),
            AppError::Store(_) | AppError::Internal(_) => {
                let mut s = String::from_str("服务内部错误。请把 request_id ");
                s.append(request_id);
                s.append(" 提供给运维。");
                s
            },
        }
    }

    /// The field errors of the envelope: those of a validation failure,
    /// none otherwise.
    pub fn details(&self) -> (d: Vec<FieldError>)
        ensures
            match *self {
                AppError::Validation(v) => field_views(d@) == field_views(v@),
                _ => d@.len() == 0,
            },
    {
        match self {
            AppError::Validation(v) => {
                let mut out: Vec<FieldError> = Vec::new();
                let n = v.len();
                let mut i: usize = 0;
                while i < n
                    invariant
                        n == v@.len(),
                        i <= n,
                        out@.len() == i,
                        field_views(out@) == field_views(v@.take(i as int)),
                    decreases n - i,
                {
                    let ghost before = out@;
                    let f = v[i].copy();
                    out.push(f);
                    assert forall|k: int| 0 <= k < i + 1 implies #[trigger] field_views(out@)[k]
                        == field_views(v@.take(i + 1))[k] by {
                        if k < i {
                            assert(out@[k] == before[k]);
                            assert(field_views(before)[k] == field_views(v@.take(i as int))[k]);
                        }
                    }
                    assert(field_views(out@) =~= field_views(v@.take(i + 1)));
                    i += 1;
                }
                assert(v@.take(n as int) =~= v@);
                out
            },
            _ => Vec::new(),
        }
    }
}

/// A validation failure on one field, with code `invalid`.
pub fn invalid(field: &str, message: &str) -> (e: AppError)
    ensures
        e matches AppError::Validation(v) && v@.len() == 1 && v@[0].field@ == field@
            && v@[0].code@ == "invalid"@ && v@[0].message@ == message@,
{
    AppError::Validation(vec![FieldError::new(field, "invalid", message)])
}

/// `what id 不存在`: the not-found error for a missing resource.
pub fn not_found(what: &str, id: &str) -> (e: AppError)
    ensures
        e matches AppError::NotFound(m) && m@ == what@ + " "@ + id@ + " 不存在"@,
{
    let mut s = String::from_str(what);
    s.append(" ");
    s.append(id);
    s.append(" 不存在");
    AppError::NotFound(s)
}

/// How a database failure reaches the client: a missing row is a 404
/// naming the resource, anything else stays internal.
pub enum StoreFailure {
    NotFound,
    Conflict { what: String, id: String },
    Other(String),
}

/// A missing row becomes `what id 不存在`; other failures stay internal.
pub fn map_not_found(err: StoreFailure, what: &str, id: &str) -> (e: AppError)
    ensures
        match err {
            StoreFailure::NotFound => e matches AppError::NotFound(m) && m@ == what@ + " "@ + id@
                + " 不存在"@,
            StoreFailure::Conflict { .. } => e is Store,
            StoreFailure::Other(detail) => e matches AppError::Store(d) && d@ == detail@,
        },
{
    match err {
        StoreFailure::NotFound => not_found(what, id),
        StoreFailure::Conflict { what: w, id: i } => {
            let mut d = w;
            d.append(" ");
            d.append(i.as_str());
            AppError::Store(d)
        },
        StoreFailure::Other(detail) => AppError::Store(detail),
    }
}

/// A duplicate becomes `what `id` 已存在`; other failures stay internal.
pub fn map_conflict(err: StoreFailure) -> (e: AppError)
    ensures
        match err {
            StoreFailure::Conflict { what, id } => e matches AppError::Conflict(m) && m@ == what@
                + " `"@ + id@ + "` 已存在"@,
            _ => e is Store,
        },
{
    match err {
        StoreFailure::Conflict { what, id } => {
            let mut m = what;
            m.append(" `");
            m.append(id.as_str());
            m.append("` 已存在");
            AppError::Conflict(m)
        },
        StoreFailure::NotFound => AppError::Store(String::from_str("not found")),
        StoreFailure::Other(detail) => AppError::Store(detail),
    }
}

} // verus!
