//! Request bodies, query strings and path parameters, with failures in the
//! same envelope as every other error.
//!
//! Status codes stay as they were: broken syntax 400, a wrong field 422
//! with its path (`spec.nodes[0].config`), not JSON 415, too large 413.

use vstd::prelude::*;
use vstd::slice::slice_subrange;

use crate::error::{AppError, FieldError, UNSUPPORTED_MEDIA_TYPE};
use crate::text::{
    ascii_lower, ascii_lower_chars, chars_of, ends_with, ends_with_chars, split_all, split_chars,
    starts_with, starts_with_chars, str_eq, trim, trim_bounds, chars_eq,
};

verus! {

/// A JSON request or response body.
pub struct Json<T>(pub T);

/// A query string.
pub struct Query<T>(pub T);

/// Path parameters.
pub struct Path<T>(pub T);

/// The media type of a `Content-Type` value, without parameters, trimmed
/// and lower-cased.
pub open spec fn essence(content_type: Seq<char>) -> Seq<char> {
    ascii_lower(trim(split_all(content_type, ';')[0]))
}

/// `application/json` or `application/*+json`.
pub open spec fn is_json_spec(content_type: Option<Seq<char>>) -> bool {
    match content_type {
        Some(v) => essence(v) == "application/json"@ || (starts_with(essence(v), "application/"@)
            && ends_with(essence(v), "+json"@)),
        None => false,
    }
}

/// Whether a body is JSON by its `Content-Type` (`None`: absent or not
/// readable as text).
pub fn is_json(content_type: Option<&str>) -> (b: bool)
    ensures
        b == is_json_spec(
            match content_type {
                Some(v) => Some(v@),
                None => None,
            },
        ),
{
    let v = match content_type {
        Some(v) => v,
        None => return false,
    };
    let chars = chars_of(v);
    let parts = split_chars(chars.as_slice(), ';');
    proof {
        crate::text::lemma_split_all_nonempty(v@, ';');
    }
    let first = &parts[0];
    assert(first@ == split_all(v@, ';')[0]);
    let (a, b) = trim_bounds(first.as_slice());
    let lower = ascii_lower_chars(slice_subrange(first.as_slice(), a, b));
    let json = chars_of("application/json");
    let app = chars_of("application/");
    let plus = chars_of("+json");
    chars_eq(lower.as_slice(), json.as_slice()) || (starts_with_chars(lower.as_slice(), app.as_slice())
        && ends_with_chars(lower.as_slice(), plus.as_slice()))
}

/// The refusal of a body that is not JSON.
pub fn not_json() -> (e: AppError)
    ensures
        e matches AppError::Rejected { status, message } && status == UNSUPPORTED_MEDIA_TYPE
            && message@ == "请求体要是 JSON（Content-Type: application/json）"@,
{
    AppError::Rejected {
        status: UNSUPPORTED_MEDIA_TYPE,
        message: String::from_str("请求体要是 JSON（Content-Type: application/json）"),
    }
}

/// A body that could not be read (too large, ...), keeping its status.
pub fn body_rejected(status: u16, text: String) -> (e: AppError)
    ensures
        e matches AppError::Rejected { status: s, message } && s == status && message == text,
{
    AppError::Rejected { status, message: text }
}

/// The classes of JSON failure.
#[derive(Debug, Clone, Copy, PartialEq, Eq, Structural)]
pub enum JsonFailure {
    /// Input/output failed while reading.
    Io,
    /// Not syntactically JSON.
    Syntax,
    /// Valid JSON of the wrong shape (a type, a missing or unknown field).
    Data,
    /// The input ended early.
    Eof,
}

/// A body that did not deserialise. A wrong field is a 422 on its path
/// (the root path `.` reads as `body`); anything else is a 400.
pub fn json_error(failure: JsonFailure, path: &str, message: &str) -> (e: AppError)
    ensures
        failure == JsonFailure::Data ==> (e matches AppError::Validation(v) && v@.len() == 1
            && v@[0].field@ == (if path@ == "."@ {
            "body"@
        } else {
            path@
        }) && v@[0].code@ == "invalid"@ && v@[0].message@ == message@),
        failure != JsonFailure::Data ==> (e matches AppError::BadRequest(m) && m@ == "请求体不是合法的 JSON："@
            + message@),
{
    match failure {
        JsonFailure::Data => {
            let field = if str_eq(path, ".") {
                "body"
            } else {
                path
            };
            AppError::Validation(vec![FieldError::new(field, "invalid", message)])
        },
        _ => {
            let mut m = String::from_str("请求体不是合法的 JSON：");
            m.append(message);
            AppError::BadRequest(m)
        },
    }
}

/// A query string that did not deserialise: undeclared parameters are
/// refused, so a misspelt filter cannot turn into "everything".
pub fn query_rejected(text: String) -> (e: AppError)
    ensures
        e matches AppError::BadRequest(m) && m == text,
{
    AppError::BadRequest(text)
}

/// Path parameters that did not deserialise: the client's fault for a 4xx,
/// else a route table that does not fit its handler, the server's fault.
pub fn path_rejected(status: u16, text: String) -> (e: AppError)
    ensures
        400 <= status < 500 ==> (e matches AppError::BadRequest(m) && m == text),
        !(400 <= status < 500) ==> (e matches AppError::Internal(m) && m == text),
{
    if 400 <= status && status < 500 {
        AppError::BadRequest(text)
    } else {
        AppError::Internal(text)
    }
}

} // verus!
