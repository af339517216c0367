//! Reading the audit trail: the query's rules and its cursor.

use vstd::prelude::*;
use vstd::slice::slice_subrange;

use crate::error::{AppError, FieldError};
use crate::ids::{chrono_accepts_micros, micros_in_range};
use crate::runs::{bad_cursor, bad_cursor_message};
use crate::text::{
    chars_of, decimal_int, first_at, is_blank, is_digit, lemma_decimal_digits, lemma_parse_i64_decimal,
    lemma_split_once_at, parse_i64, parse_i64_chars, push_i64, split_all, split_chars, split_once,
    split_once_chars, string_of, trim, trim_bounds, trim_str, decimal,
};

verus! {

/// The filters of `GET /api/v1/audit`.
pub struct AuditQuery {
    /// Only the history of one kind of object (`rule`, `host`, ...). An id
    /// needs its kind.
    pub target_kind: Option<String>,
    pub target_id: Option<String>,
    /// Free-text search.
    pub q: Option<String>,
    /// Only these actions, comma-separated.
    pub action: Option<String>,
    /// The previous page's `next_cursor`.
    pub cursor: Option<String>,
    pub limit: Option<i64>,
}

/// What the store is asked for.
pub struct AuditPlan {
    pub target_kind: Option<String>,
    pub target_id: Option<String>,
    pub actions: Option<Vec<String>>,
    pub search: Option<String>,
    pub cursor: Option<(i64, i64)>,
    /// The page size; the store is asked for one more row to learn whether
    /// another page follows.
    pub limit: i64,
}

/// The non-blank comma-separated entries, trimmed.
pub open spec fn action_list(parts: Seq<Seq<char>>) -> Seq<Seq<char>>
    decreases parts.len(),
{
    if parts.len() == 0 {
        Seq::empty()
    } else {
        let prev = action_list(parts.drop_last());
        let t = trim(parts.last());
        if t.len() == 0 {
            prev
        } else {
            prev.push(t)
        }
    }
}

/// The texts of a list of strings.
pub open spec fn string_views(v: Seq<String>) -> Seq<Seq<char>> {
    v.map_values(|s: String| s@)
}

pub fn split_actions(raw: &str) -> (v: Vec<String>)
    ensures
        string_views(v@) == action_list(split_all(raw@, ',')),
{
    let chars = chars_of(raw);
    let parts = split_chars(chars.as_slice(), ',');
    let ghost views = parts@.map_values(|p: Vec<char>| p@);
    let mut out: Vec<String> = Vec::new();
    let n = parts.len();
    let mut i: usize = 0;
    while i < n
        invariant
            n == parts@.len(),
            views == parts@.map_values(|p: Vec<char>| p@),
            views == split_all(raw@, ','),
            i <= n,
            string_views(out@) == action_list(views.take(i as int)),
        decreases n - i,
    {
        assert(views.take(i + 1).drop_last() =~= views.take(i as int));
        assert(views.take(i + 1).last() == parts@[i as int]@);
        let (a, b) = trim_bounds(parts[i].as_slice());
        if a < b {
            let ghost before = out@;
            let t = string_of(slice_subrange(parts[i].as_slice(), a, b));
            out.push(t);
            assert(string_views(out@) =~= string_views(before).push(trim(parts@[i as int]@)));
        }
        i += 1;
    }
    assert(views.take(n as int) =~= views);
    out
}

/// The audit page size: as asked within 1 ..= 200, 50 by default.
pub open spec fn audit_limit(limit: Option<i64>) -> i64 {
    match limit {
        Some(x) => if x < 1 {
            1
        } else if x > 200 {
            200
        } else {
            x
        },
        None => 50,
    }
}

/// The audit cursor `(ts, id)`; the id is a serial, stable within a
/// millisecond.
pub open spec fn audit_cursor_spec(micros: i64, id: i64) -> Seq<char> {
    decimal_int(micros as int) + "|"@ + decimal_int(id as int)
}

pub open spec fn decode_audit_cursor_spec(cursor: Seq<char>) -> Option<(i64, i64)> {
    match split_once(cursor, '|') {
        None => None,
        Some(parts) => match parse_i64(parts.0) {
            None => None,
            Some(micros) => if !chrono_accepts_micros(micros) {
                None
            } else {
                match parse_i64(parts.1) {
                    None => None,
                    Some(id) => Some((micros, id)),
                }
            },
        },
    }
}

pub fn encode_cursor(micros: i64, id: i64) -> (c: String)
    ensures
        c@ == audit_cursor_spec(micros, id),
{
    let mut c = String::new();
    push_i64(&mut c, micros);
    c.append("|");
    push_i64(&mut c, id);
    assert(c@ =~= audit_cursor_spec(micros, id));
    c
}

/// An audit cursor reads back as what was encoded, for every instant
/// chrono can hold.
pub proof fn lemma_audit_cursor_round_trip(micros: i64, id: i64)
    requires
        chrono_accepts_micros(micros),
    ensures
        decode_audit_cursor_spec(audit_cursor_spec(micros, id)) == Some((micros, id)),
{
    let d = decimal_int(micros as int);
    let rest = decimal_int(id as int);
    let s = d + "|"@ + rest;
    reveal_strlit("|");
    if micros < 0 {
        lemma_decimal_digits((-micros) as nat);
        let digits = decimal((-micros) as nat);
        assert forall|j: int| 0 <= j < d.len() implies s[j] != '|' by {
            if j > 0 {
                assert(d[j] == digits[j - 1]);
                assert(is_digit(digits[j - 1]));
            }
        }
    } else {
        lemma_decimal_digits(micros as nat);
        assert forall|j: int| 0 <= j < d.len() implies s[j] != '|' by {
            assert(is_digit(d[j]));
        }
    }
    assert(s[d.len() as int] == '|');
    assert(first_at(s, '|', d.len() as int));
    lemma_split_once_at(s, '|', d.len() as int);
    assert(s.take(d.len() as int) =~= d);
    assert(s.skip(d.len() as int + 1) =~= rest);
    lemma_parse_i64_decimal(micros);
    lemma_parse_i64_decimal(id);
}

pub fn decode_cursor(cursor: &str) -> (r: Result<(i64, i64), AppError>)
    ensures
        match decode_audit_cursor_spec(cursor@) {
            Some(p) => r == Ok::<(i64, i64), AppError>(p),
            None => r matches Err(AppError::BadRequest(m)) && m@ == bad_cursor_message(),
        },
{
    let chars = chars_of(cursor);
    let (a, b) = match split_once_chars(chars.as_slice(), '|') {
        Some(p) => p,
        None => return Err(bad_cursor()),
    };
    let micros = match parse_i64_chars(a.as_slice()) {
        Some(m) => m,
        None => return Err(bad_cursor()),
    };
    if !micros_in_range(micros) {
        return Err(bad_cursor());
    }
    match parse_i64_chars(b.as_slice()) {
        Some(id) => Ok((micros, id)),
        None => Err(bad_cursor()),
    }
}

/// The store query for an audit request. An id without its kind is a
/// mistake (an id alone cannot say what it names), refused rather than
/// quietly widened to everything; a kind alone is a fair filter.
pub fn plan(query: &AuditQuery) -> (r: Result<AuditPlan, AppError>)
    ensures
        query.target_id is Some && query.target_kind is None ==> (r matches Err(AppError::Validation(v))
            && v@.len() == 1 && v@[0].field@ == "target_kind"@ && v@[0].code@ == "required"@
            && v@[0].message@ == "给了 target_id 就必须同时给 target_kind"@),
        !(query.target_id is Some && query.target_kind is None) ==> match query.cursor {
            Some(c) => match decode_audit_cursor_spec(c@) {
                None => r matches Err(AppError::BadRequest(m)) && m@ == bad_cursor_message(),
                Some(p) => r matches Ok(pl) && pl.cursor == Some(p),
            },
            None => r matches Ok(pl) && pl.cursor is None,
        },
        r matches Ok(pl) ==> pl.target_kind == query.target_kind && pl.target_id == query.target_id
            && pl.limit == audit_limit(query.limit) && match query.action {
            Some(a) => pl.actions matches Some(v) && string_views(v@) == action_list(
                split_all(a@, ','),
            ),
            None => pl.actions is None,
        } && match query.q {
            Some(q) => if trim(q@).len() == 0 {
                pl.search is None
            } else {
                pl.search matches Some(s) && s@ == trim(q@)
            },
            None => pl.search is None,
        },
{
    if query.target_id.is_some() && query.target_kind.is_none() {
        return Err(
            AppError::Validation(
                vec![
                    FieldError::new(
                        "target_kind",
                        "required",
                        "给了 target_id 就必须同时给 target_kind",
                    ),
                ],
            ),
        );
    }
    let actions = match &query.action {
        Some(a) => Some(split_actions(a.as_str())),
        None => None,
    };
    let search = match &query.q {
        Some(q) => {
            let t = trim_str(q.as_str());
            if t.as_str().is_empty() {
                None
            } else {
                Some(t)
            }
        },
        None => None,
    };
    let cursor = match &query.cursor {
        Some(c) => match decode_cursor(c.as_str()) {
            Ok(p) => Some(p),
            Err(e) => return Err(e),
        },
        None => None,
    };
    let limit = match query.limit {
        Some(x) => if x < 1 {
            1
        } else if x > 200 {
            200
        } else {
            x
        },
        None => 50,
    };
    Ok(
        AuditPlan {
            target_kind: query.target_kind.clone(),
            target_id: query.target_id.clone(),
            actions,
            search,
            cursor,
            limit,
        },
    )
}

/// How many of the fetched rows make the page, and whether another page
/// follows (one row more than the page was asked for).
pub fn page_split(fetched: usize, limit: i64) -> (r: (usize, bool))
    requires
        1 <= limit <= 200,
    ensures
        r.1 == (fetched > limit),
        r.0 == (if fetched > limit {
            limit as int
        } else {
            fetched as int
        }),
{
    if (fetched as u64) > (limit as u64) {
        (limit as usize, true)
    } else {
        (fetched, false)
    }
}

} // verus!
