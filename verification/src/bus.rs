//! Wake-up hints for event streams.
//!
//! A hint carries only `(run_id, max_seq)`; the truth is always read back
//! from the store. Postgres `NOTIFY` payloads carry it as `<run_id>:<seq>`.

use vstd::prelude::*;

use crate::ids::{format_uuid, parse_uuid, uuid_char, uuid_parse, uuid_text};
use crate::text::{
    chars_of, decimal_int, first_at, is_digit, lemma_parse_i64_decimal, lemma_split_once_at, parse_i64,
    parse_i64_chars, push_i64, split_once, split_once_chars, string_of,
};

verus! {

/// One hint: the run has events up to `max_seq`.
#[derive(Debug, Clone, Copy, PartialEq, Eq, Structural)]
pub struct Wakeup {
    pub run_id: u128,
    pub max_seq: i64,
}

/// What a notification payload says, if it is one.
pub open spec fn parse_wakeup_spec(payload: Seq<char>) -> Option<Wakeup> {
    match split_once(payload, ':') {
        None => None,
        Some(parts) => match uuid_parse(parts.0) {
            None => None,
            Some(run_id) => match parse_i64(parts.1) {
                None => None,
                Some(max_seq) => Some(Wakeup { run_id, max_seq }),
            },
        },
    }
}

/// Reads a payload; anything malformed is refused, not guessed at.
pub fn parse_wakeup(payload: &str) -> (r: Option<Wakeup>)
    ensures
        r == parse_wakeup_spec(payload@),
{
    let chars = chars_of(payload);
    let (a, b) = match split_once_chars(chars.as_slice(), ':') {
        Some(p) => p,
        None => return None,
    };
    let run_text = string_of(a.as_slice());
    let run_id = match parse_uuid(run_text.as_str()) {
        Some(id) => id,
        None => return None,
    };
    match parse_i64_chars(b.as_slice()) {
        Some(max_seq) => Some(Wakeup { run_id, max_seq }),
        None => None,
    }
}

/// The payload of a hint; it reads back as the same hint.
pub fn wakeup_payload(w: Wakeup) -> (p: String)
    ensures
        p@ == uuid_text(w.run_id) + ":"@ + decimal_int(w.max_seq as int),
        parse_wakeup_spec(p@) == Some(w),
{
    let mut p = format_uuid(w.run_id);
    let ghost id = p@;
    p.append(":");
    push_i64(&mut p, w.max_seq);
    proof {
        reveal_strlit(":");
        assert(p@ =~= id + ":"@ + decimal_int(w.max_seq as int));
        assert forall|j: int| 0 <= j < id.len() implies p@[j] != ':' by {
            assert(p@[j] == id[j]);
            assert(uuid_char(id[j]));
        }
        assert(p@[id.len() as int] == ':');
        assert(first_at(p@, ':', id.len() as int));
        lemma_split_once_at(p@, ':', id.len() as int);
        assert(p@.take(id.len() as int) =~= id);
        assert(p@.skip(id.len() as int + 1) =~= decimal_int(w.max_seq as int));
        lemma_parse_i64_decimal(w.max_seq);
    }
    p
}

} // verus!
