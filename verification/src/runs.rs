//! Listing, cancelling and deleting runs.

use vstd::prelude::*;

use crate::engine::{status_debug, RunStatus};
use crate::error::AppError;
use crate::ids::{chrono_accepts_micros, format_uuid, micros_in_range, parse_uuid, uuid_char, uuid_parse, uuid_text};
use crate::text::{
    all_digits, chars_of, decimal, decimal_int, first_at, is_digit, lemma_decimal_digits,
    lemma_parse_i64_decimal, lemma_split_once_at, parse_i64, parse_i64_chars, push_i64,
    split_once, split_once_chars, string_of,
};

verus! {

/// Page size when none is asked for, and the largest one served.
pub const DEFAULT_LIMIT: u32 = 50;
pub const MAX_LIMIT: u32 = 200;

/// The page size of a listing: as asked, within 1 ..= 200, 50 by default.
pub fn list_limit(limit: Option<u32>) -> (l: i64)
    ensures
        l == (match limit {
            Some(x) => if x < 1 {
                1
            } else if x > MAX_LIMIT {
                MAX_LIMIT as int
            } else {
                x as int
            },
            None => DEFAULT_LIMIT as int,
        }),
        1 <= l <= 200,
{
    let x = match limit {
        Some(x) => x,
        None => DEFAULT_LIMIT,
    };
    if x < 1 {
        1
    } else if x > MAX_LIMIT {
        MAX_LIMIT as i64
    } else {
        x as i64
    }
}

/// A cursor is given only for a full page: a short page is the last one,
/// and a cursor would send the client on an empty round trip.
pub fn page_is_full(count: usize, limit: i64) -> (b: bool)
    ensures
        b == (count == limit),
{
    if limit < 0 {
        false
    } else {
        count as u64 == limit as u64
    }
}

/// The run cursor `(created_at, id)` as the client sees it: opaque.
pub open spec fn run_cursor_spec(micros: i64, id: u128) -> Seq<char> {
    decimal_int(micros as int) + "|"@ + uuid_text(id)
}

/// What a run cursor reads as: the instant and the id, when both parts
/// read and the instant is one chrono can hold.
pub open spec fn decode_run_cursor_spec(cursor: Seq<char>) -> Option<(i64, u128)> {
    match split_once(cursor, '|') {
        None => None,
        Some(parts) => match parse_i64(parts.0) {
            None => None,
            Some(micros) => if !chrono_accepts_micros(micros) {
                None
            } else {
                match uuid_parse(parts.1) {
                    None => None,
                    Some(id) => Some((micros, id)),
                }
            },
        },
    }
}

/// The cursor text splits at the `|` written between its parts: the
/// rendered number holds none.
proof fn lemma_cursor_split(micros: i64, rest: Seq<char>)
    ensures
        split_once(decimal_int(micros as int) + "|"@ + rest, '|') == Some((decimal_int(micros as int), rest)),
{
    let d = decimal_int(micros as int);
    let s = d + "|"@ + rest;
    reveal_strlit("|");
    if micros < 0 {
        lemma_decimal_digits((-micros) as nat);
        let digits = decimal((-micros) as nat);
        assert forall|j: int| 0 <= j < d.len() implies s[j] != '|' by {
            if j > 0 {
                assert(d[j] == digits[j - 1]);
                assert(is_digit(digits[j - 1]));
            }
        }
    } else {
        lemma_decimal_digits(micros as nat);
        assert forall|j: int| 0 <= j < d.len() implies s[j] != '|' by {
            assert(is_digit(d[j]));
        }
    }
    assert(s[d.len() as int] == '|');
    assert(first_at(s, '|', d.len() as int));
    lemma_split_once_at(s, '|', d.len() as int);
    assert(s.take(d.len() as int) =~= d);
    assert(s.skip(d.len() as int + 1) =~= rest);
}

/// Encodes a run cursor. Microsecond precision is kept: concurrent
/// inserts within one millisecond are told apart by it and the id.
pub fn encode_cursor(micros: i64, id: u128) -> (c: String)
    ensures
        c@ == run_cursor_spec(micros, id),
        chrono_accepts_micros(micros) ==> decode_run_cursor_spec(c@) == Some((micros, id)),
{
    let mut c = String::new();
    push_i64(&mut c, micros);
    c.append("|");
    let u = format_uuid(id);
    c.append(u.as_str());
    proof {
        assert(c@ =~= run_cursor_spec(micros, id));
        lemma_cursor_split(micros, uuid_text(id));
        lemma_parse_i64_decimal(micros);
    }
    c
}

/// The refusal of a cursor that did not come from a previous page.
pub open spec fn bad_cursor_message() -> Seq<char> {
    "cursor 不合法；它只应当来自上一页的 next_cursor"@
}

pub fn bad_cursor() -> (e: AppError)
    ensures
        e matches AppError::BadRequest(m) && m@ == bad_cursor_message(),
{
    AppError::BadRequest(String::from_str("cursor 不合法；它只应当来自上一页的 next_cursor"))
}

/// Decodes a run cursor; anything that is not one is a 400, never a panic.
pub fn decode_cursor(cursor: &str) -> (r: Result<(i64, u128), AppError>)
    ensures
        match decode_run_cursor_spec(cursor@) {
            Some(p) => r == Ok::<(i64, u128), AppError>(p),
            None => r matches Err(AppError::BadRequest(m)) && m@ == bad_cursor_message(),
        },
{
    let chars = chars_of(cursor);
    let (a, b) = match split_once_chars(chars.as_slice(), '|') {
        Some(p) => p,
        None => return Err(bad_cursor()),
    };
    let micros = match parse_i64_chars(a.as_slice()) {
        Some(m) => m,
        None => return Err(bad_cursor()),
    };
    if !micros_in_range(micros) {
        return Err(bad_cursor());
    }
    let id_text = string_of(b.as_slice());
    match parse_uuid(id_text.as_str()) {
        Some(id) => Ok((micros, id)),
        None => Err(bad_cursor()),
    }
}

/// The error a run summary shows: only for a run that ended and did not
/// succeed. While a run is running, the column may hold an earlier
/// attempt's error.
pub fn summary_error(status: RunStatus, error: Option<String>) -> (r: Option<String>)
    ensures
        r == (if status.spec_is_terminal() && status != RunStatus::Succeeded {
            error
        } else {
            None
        }),
{
    if status.is_terminal() && !status.is_success() {
        error
    } else {
        None
    }
}

/// A run that is not there (or belongs to another workspace).
pub fn run_not_found(id: &str) -> (e: AppError)
    ensures
        e matches AppError::NotFound(m) && m@ == "run "@ + id@ + " 不存在"@,
{
    let mut m = String::from_str("run ");
    m.append(id);
    m.append(" 不存在");
    AppError::NotFound(m)
}

/// A cancel needs a run that has not ended.
pub fn cancel_check(status: RunStatus) -> (r: Result<(), AppError>)
    ensures
        status.spec_is_terminal() ==> (r matches Err(AppError::Conflict(m)) && m@ == "run 已经是终态 "@
            + status_debug(status) + "，无法取消"@),
        !status.spec_is_terminal() ==> r is Ok,
{
    if status.is_terminal() {
        let mut m = String::from_str("run 已经是终态 ");
        m.append(status.debug_name());
        m.append("，无法取消");
        Err(AppError::Conflict(m))
    } else {
        Ok(())
    }
}

/// A cancel of a run that this replica does not execute.
pub fn not_on_this_replica() -> (e: AppError)
    ensures
        e matches AppError::Conflict(m) && m@ == "这个 run 不在当前副本上执行，暂时无法取消"@,
{
    AppError::Conflict(String::from_str("这个 run 不在当前副本上执行，暂时无法取消"))
}

/// The answer to a delete, from what the store did: gone already (someone
/// deleted it concurrently) and deleted are both a success; a run that
/// is still being written to is refused.
pub fn delete_outcome(removed: Option<bool>, status: RunStatus) -> (r: Result<(), AppError>)
    ensures
        match removed {
            Some(false) => r matches Err(AppError::Conflict(m)) && m@ == "run 还在 "@ + status_debug(
                status,
            ) + "，执行器仍在往它的事件流里写。先取消，跑完了再删"@,
            _ => r is Ok,
        },
{
    match removed {
        Some(false) => {
            let mut m = String::from_str("run 还在 ");
            m.append(status.debug_name());
            m.append("，执行器仍在往它的事件流里写。先取消，跑完了再删");
            Err(AppError::Conflict(m))
        },
        _ => Ok(()),
    }
}

} // verus!
