//! Identifiers and instants as text.
//!
//! Ids are UUIDs, held as 128-bit integers; instants are microseconds
//! since the Unix epoch.

use vstd::prelude::*;

verus! {

/// What `uuid::Uuid::parse_str` makes of a text, as an integer.
pub uninterp spec fn uuid_parse(text: Seq<char>) -> Option<u128>;

/// The hyphenated lower-case form of a UUID (`Display`).
pub uninterp spec fn uuid_text(id: u128) -> Seq<char>;

/// Whether chrono has a `DateTime<Utc>` for this many microseconds.
pub uninterp spec fn chrono_accepts_micros(micros: i64) -> bool;

/// A character of the hyphenated UUID form.
pub open spec fn uuid_char(c: char) -> bool {
    ('0' <= c && c <= '9') || ('a' <= c && c <= 'f') || c == '-'
}

/// `uuid::Uuid::parse_str`, as an integer.
#[verifier::external_body]
pub(crate) fn parse_uuid(text: &str) -> (r: Option<u128>)
    ensures
        r == uuid_parse(text@),
{
    match uuid::Uuid::parse_str(text) {
        Ok(u) => Some(u.as_u128()),
        Err(_) => None,
    }
}

/// `uuid::Uuid::from_u128(id).to_string()`: 36 characters of lower-case
/// hex digits and hyphens (8-4-4-4-12), which `parse_str` reads back.
#[verifier::external_body]
pub(crate) fn format_uuid(id: u128) -> (s: String)
    ensures
        s@ == uuid_text(id),
        s@.len() == 36,
        forall|i: int| 0 <= i < s@.len() ==> uuid_char(#[trigger] s@[i]),
        uuid_parse(s@) == Some(id),
{
    uuid::Uuid::from_u128(id).to_string()
}

/// `chrono::DateTime::from_timestamp_micros(micros).is_some()`.
#[verifier::external_body]
pub(crate) fn micros_in_range(micros: i64) -> (b: bool)
    ensures
        b == chrono_accepts_micros(micros),
{
    chrono::DateTime::from_timestamp_micros(micros).is_some()
}

} // verus!
