//! The HTTP side of `Idempotency-Key`.
//!
//! The hash is taken over the **raw bytes** before deserialising: after
//! deserialising, differences in field order, whitespace and unknown fields
//! would be gone, and those differences say that the client did not send
//! the same request.

use sha2::Digest;
use vstd::prelude::*;

use crate::error::AppError;
use crate::text::{chars_of, decimal, hex, hex_of, push_decimal, trim, trim_str};

verus! {

/// The longest key accepted, in bytes: room for a UUID, too little to be
/// used as storage.
pub const MAX_KEY_LEN: usize = 200;

/// A JSON body together with its idempotency key and the hash of its raw
/// bytes.
pub struct IdempotentJson<T> {
    pub body: T,
    /// The client's key; the header is optional.
    pub key: Option<String>,
    /// SHA-256 of the raw body, in hex.
    pub hash: String,
}

/// The `Idempotency-Key` header as the web layer read it.
pub enum KeyHeader<'a> {
    /// No such header.
    Absent,
    /// The header holds something other than visible ASCII.
    NotAscii,
    /// The header's text.
    Text(&'a str),
}

/// The key of a request. A blank key counts as no key; an overlong key is
/// refused rather than cut.
pub fn read_key(header: KeyHeader) -> (r: Result<Option<String>, AppError>)
    ensures
        match header {
            KeyHeader::Absent => r matches Ok(None),
            KeyHeader::NotAscii => r matches Err(AppError::BadRequest(m)) && m@
                == "Idempotency-Key 不是合法的 ASCII"@,
            KeyHeader::Text(v) => if trim(v@).len() == 0 {
                r matches Ok(None)
            } else if vstd::utf8::encode_utf8(trim(v@)).len() > MAX_KEY_LEN {
                r matches Err(AppError::BadRequest(m)) && m@ == "Idempotency-Key 超过 "@ + decimal(
                    MAX_KEY_LEN as nat,
                ) + " 字符"@
            } else {
                r matches Ok(Some(k)) && k@ == trim(v@)
            },
        },
{
    match header {
        KeyHeader::Absent => Ok(None),
        KeyHeader::NotAscii => Err(
            AppError::BadRequest(String::from_str("Idempotency-Key 不是合法的 ASCII")),
        ),
        KeyHeader::Text(v) => {
            let t = trim_str(v);
            if t.as_str().is_empty() {
                return Ok(None);
            }
            let len = t.as_str().as_bytes().len();
            if len > MAX_KEY_LEN {
                let mut m = String::from_str("Idempotency-Key 超过 ");
                push_decimal(&mut m, MAX_KEY_LEN as u64);
                m.append(" 字符");
                return Err(AppError::BadRequest(m));
            }
            Ok(Some(t))
        },
    }
}

/// The SHA-256 digest of a byte string.
pub uninterp spec fn sha256(bytes: Seq<u8>) -> Seq<u8>;

/// `sha2::Sha256::digest`: the digest of the bytes, 32 bytes long.
#[verifier::external_body]
fn sha256_digest(bytes: &[u8]) -> (d: Vec<u8>)
    ensures
        d@ == sha256(bytes@),
        d@.len() == 32,
{
    sha2::Sha256::digest(bytes).to_vec()
}

/// The fingerprint of a request body: the SHA-256 of its raw bytes in
/// lower-case hex, 64 characters.
pub fn request_hash(body: &[u8]) -> (h: String)
    ensures
        h@ == hex(sha256(body@)),
        h@.len() == 64,
{
    let d = sha256_digest(body);
    hex_of(d.as_slice())
}

/// The bytes to deserialise: an empty body reads as `null` (a trigger
/// without a body is legal: all its fields are optional).
pub fn json_source(body: &[u8]) -> (r: Vec<u8>)
    ensures
        r@ == (if body@.len() == 0 {
            seq![110u8, 117u8, 108u8, 108u8]
        } else {
            body@
        }),
{
    if body.len() == 0 {
        vec![110u8, 117u8, 108u8, 108u8]
    } else {
        let mut r: Vec<u8> = Vec::new();
        r.extend_from_slice(body);
        r
    }
}

/// A body that did not deserialise.
pub fn parse_failure(error: &str) -> (e: AppError)
    ensures
        e matches AppError::BadRequest(m) && m@ == "报文解析失败："@ + error@,
{
    let mut m = String::from_str("报文解析失败：");
    m.append(error);
    AppError::BadRequest(m)
}

impl<T> IdempotentJson<T> {
    pub fn new(body: T, key: Option<String>, hash: String) -> (r: IdempotentJson<T>)
        ensures
            r.body == body,
            r.key == key,
            r.hash == hash,
    {
        IdempotentJson { body, key, hash }
    }
}

/// The status of a stored response as it is replayed: a valid status code
/// (100 to 999), else 200.
pub open spec fn replay_status_spec(status: i32) -> u16 {
    if 100 <= status <= 999 {
        status as u16
    } else {
        200
    }
}

pub fn replay_status(status: i32) -> (s: u16)
    ensures
        s == replay_status_spec(status),
{
    if 100 <= status && status <= 999 {
        status as u16
    } else {
        200
    }
}

/// The `Location` of a replayed run creation, rebuilt from the stored
/// body's `id` rather than stored as a header that could go stale.
pub fn replay_location(id: Option<&str>) -> (r: Option<String>)
    ensures
        match id {
            Some(i) => r matches Some(l) && l@ == "/api/v1/runs/"@ + i@,
            None => r is None,
        },
{
    match id {
        Some(i) => {
            let mut l = String::from_str("/api/v1/runs/");
            l.append(i);
            Some(l)
        },
        None => None,
    }
}

} // verus!
