//! Rules around tasks: the fingerprint of their rule texts, optimistic
//! locking with `If-Match`, and the answers of a trigger.

use vstd::prelude::*;
use vstd::slice::slice_subrange;

use crate::error::{AppError, FieldError};
use crate::text::{
    chars_of, hex, hex_of, lemma_lex_antisym, lemma_lex_total, lemma_lex_trans, lex_le, parse_i64,
    parse_i64_chars, push_i64, decimal_int, sort_strings, sorted_strs,
};

verus! {

// ------------------------------------------------------------------ fingerprint

/// The texts of a list of strings.
pub open spec fn texts(s: Seq<String>) -> Seq<Seq<char>> {
    s.map_values(|x: String| x@)
}

/// Sorted in the order of `str`.
pub open spec fn sorted_texts(s: Seq<Seq<char>>) -> bool {
    forall|i: int, j: int| 0 <= i < j < s.len() ==> lex_le(#[trigger] s[i], #[trigger] s[j])
}

/// The one sorted arrangement of a multiset of texts.
pub open spec fn canonical(m: vstd::multiset::Multiset<Seq<char>>) -> Seq<Seq<char>> {
    choose|s: Seq<Seq<char>>| sorted_texts(s) && s.to_multiset() == m
}

/// The bytes hashed for a list of rules: each rule's UTF-8 followed by a
/// newline.
pub open spec fn rules_bytes(rules: Seq<Seq<char>>) -> Seq<u8>
    decreases rules.len(),
{
    if rules.len() == 0 {
        Seq::empty()
    } else {
        rules_bytes(rules.drop_last()) + vstd::utf8::encode_utf8(rules.last()) + seq![10u8]
    }
}

/// The BLAKE3 hash of a byte string.
pub uninterp spec fn blake3(bytes: Seq<u8>) -> Seq<u8>;

/// `blake3::hash`: the 32-byte hash of the bytes. Hashing the bytes in
/// several `Hasher::update` calls gives the same hash as in one.
#[verifier::external_body]
fn blake3_digest(bytes: &[u8]) -> (d: Vec<u8>)
    ensures
        d@ == blake3(bytes@),
        d@.len() == 32,
{
    blake3::hash(bytes).as_bytes().to_vec()
}

/// The fingerprint of a task's rules: the first 32 hex characters of the
/// BLAKE3 hash of the sorted rule texts. Sorting first: swapping two rules
/// changes nothing, so it must not count as drift.
pub open spec fn rules_hash_spec(rules: Seq<Seq<char>>) -> Seq<char> {
    hex(blake3(rules_bytes(canonical(rules.to_multiset()))).take(16))
}

/// Rearranging rules does not change their fingerprint.
pub proof fn lemma_rules_hash_ignores_order(a: Seq<Seq<char>>, b: Seq<Seq<char>>)
    requires
        a.to_multiset() == b.to_multiset(),
    ensures
        rules_hash_spec(a) == rules_hash_spec(b),
{
}

proof fn lemma_views_permutation(a: Seq<String>, b: Seq<String>)
    requires
        a.to_multiset() == b.to_multiset(),
    ensures
        texts(a).to_multiset() == texts(b).to_multiset(),
    decreases a.len(),
{
    a.to_multiset_ensures();
    b.to_multiset_ensures();
    if a.len() == 0 {
        assert(texts(a) =~= Seq::<Seq<char>>::empty());
        assert(b.len() == 0);
        assert(texts(b) =~= Seq::<Seq<char>>::empty());
    } else {
        let x = a.last();
        let a2 = a.drop_last();
        assert(a =~= a2.push(x));
        assert(a.contains(x));
        assert(a.to_multiset().count(x) > 0);
        assert(b.to_multiset().count(x) > 0);
        assert(b.contains(x));
        let j = choose|j: int| 0 <= j < b.len() && b[j] == x;
        let b2 = b.remove(j);
        assert(b2.to_multiset() =~= b.to_multiset().remove(x));
        a2.to_multiset_ensures();
        assert(a2.to_multiset().insert(x) =~= a.to_multiset());
        assert(a2.to_multiset() =~= a.to_multiset().remove(x));
        lemma_views_permutation(a2, b2);
        assert(texts(a) =~= texts(a2).push(x@));
        texts(a2).to_multiset_ensures();
        assert(texts(b) =~= texts(b2).insert(j, x@));
        vstd::seq_lib::to_multiset_insert(texts(b2), j, x@);
    }
}

proof fn lemma_sorted_unique(a: Seq<Seq<char>>, b: Seq<Seq<char>>)
    requires
        sorted_texts(a),
        sorted_texts(b),
        a.to_multiset() == b.to_multiset(),
    ensures
        a == b,
    decreases a.len(),
{
    a.to_multiset_ensures();
    b.to_multiset_ensures();
    if a.len() == 0 {
        assert(b.len() == 0);
        assert(a =~= b);
    } else {
        assert(b.len() == a.len());
        assert(b.contains(b[0]));
        assert(b.to_multiset().count(b[0]) > 0);
        assert(a.to_multiset().count(b[0]) > 0);
        assert(a.contains(b[0]));
        assert(a.contains(a[0]));
        assert(a.to_multiset().count(a[0]) > 0);
        assert(b.to_multiset().count(a[0]) > 0);
        assert(b.contains(a[0]));
        let i = choose|i: int| 0 <= i < a.len() && a[i] == b[0];
        let j = choose|j: int| 0 <= j < b.len() && b[j] == a[0];
        if i > 0 {
        } else {
            lemma_lex_total(a[0], a[0]);
        }
        if j > 0 {
        } else {
            lemma_lex_total(b[0], b[0]);
        }
        assert(lex_le(a[0], a[i]));
        assert(lex_le(b[0], b[j]));
        lemma_lex_antisym(a[0], b[0]);
        let a2 = a.drop_first();
        let b2 = b.drop_first();
        assert(a2 =~= a.remove(0));
        assert(b2 =~= b.remove(0));
        assert(a2.to_multiset() =~= b2.to_multiset());
        assert(sorted_texts(a2)) by {
            assert forall|p: int, q: int| 0 <= p < q < a2.len() implies lex_le(#[trigger] a2[p], #[trigger] a2[q]) by {
                assert(a2[p] == a[p + 1] && a2[q] == a[q + 1]);
            }
        }
        assert(sorted_texts(b2)) by {
            assert forall|p: int, q: int| 0 <= p < q < b2.len() implies lex_le(#[trigger] b2[p], #[trigger] b2[q]) by {
                assert(b2[p] == b[p + 1] && b2[q] == b[q + 1]);
            }
        }
        lemma_sorted_unique(a2, b2);
        assert(a =~= seq![a[0]] + a2);
        assert(b =~= seq![b[0]] + b2);
    }
}

/// The fingerprint of a task's rule texts.
pub fn rules_hash(rules: &Vec<String>) -> (h: String)
    ensures
        h@ == rules_hash_spec(texts(rules@)),
        h@.len() == 32,
{
    let copy = crate::engine::copy_strings(rules);
    let sorted = sort_strings(copy);
    let ghost sv = texts(sorted@);
    proof {
        lemma_views_permutation(sorted@, rules@);
        assert(sorted_texts(sv));
        lemma_sorted_unique(sv, canonical(texts(rules@).to_multiset()));
    }
    let mut bytes: Vec<u8> = Vec::new();
    let n = sorted.len();
    let mut i: usize = 0;
    while i < n
        invariant
            n == sorted@.len(),
            sv == texts(sorted@),
            i <= n,
            bytes@ == rules_bytes(sv.take(i as int)),
        decreases n - i,
    {
        let b = sorted[i].as_str().as_bytes();
        bytes.extend_from_slice(b);
        bytes.push(10u8);
        assert(sv.take(i + 1).drop_last() =~= sv.take(i as int));
        assert(sv.take(i + 1).last() == sorted@[i as int]@);
        assert(bytes@ =~= rules_bytes(sv.take(i + 1)));
        i += 1;
    }
    assert(sv.take(n as int) =~= sv);
    let d = blake3_digest(bytes.as_slice());
    let mut head: Vec<u8> = Vec::new();
    let mut k: usize = 0;
    while k < 16
        invariant
            d@.len() == 32,
            k <= 16,
            head@ == d@.take(k as int),
        decreases 16 - k,
    {
        head.push(d[k]);
        assert(head@ =~= d@.take(k + 1));
        k += 1;
    }
    hex_of(head.as_slice())
}

// ------------------------------------------------------------------ If-Match

pub open spec fn tag_char(c: char) -> bool {
    c == '"' || c == 'W' || c == '/'
}

pub open spec fn strip_start(s: Seq<char>) -> Seq<char>
    decreases s.len(),
{
    if s.len() > 0 && tag_char(s[0]) {
        strip_start(s.drop_first())
    } else {
        s
    }
}

pub open spec fn strip_end(s: Seq<char>) -> Seq<char>
    decreases s.len(),
{
    if s.len() > 0 && tag_char(s.last()) {
        strip_end(s.drop_last())
    } else {
        s
    }
}

/// The version an `If-Match` header expects: the header with `"`, `W`
/// and `/` trimmed from both ends, read as a number. A header that does
/// not read as one expects nothing.
pub open spec fn expected_version(header: Option<Seq<char>>) -> Option<i64> {
    match header {
        Some(h) => parse_i64(strip_end(strip_start(h))),
        None => None,
    }
}

pub fn if_match_version(header: Option<&str>) -> (r: Option<i64>)
    ensures
        r == expected_version(
            match header {
                Some(h) => Some(h@),
                None => None,
            },
        ),
{
    let h = match header {
        Some(h) => h,
        None => return None,
    };
    let chars = chars_of(h);
    let n = chars.len();
    let mut start: usize = 0;
    assert(chars@.subrange(0, n as int) =~= chars@);
    while start < n && (chars[start] == '"' || chars[start] == 'W' || chars[start] == '/')
        invariant
            n == chars@.len(),
            chars@ == h@,
            start <= n,
            strip_start(h@) == strip_start(chars@.subrange(start as int, n as int)),
        decreases n - start,
    {
        assert(chars@.subrange(start as int, n as int).drop_first() =~= chars@.subrange(
            start + 1,
            n as int,
        ));
        start += 1;
    }
    let mut end: usize = n;
    while end > start && (chars[end - 1] == '"' || chars[end - 1] == 'W' || chars[end - 1] == '/')
        invariant
            n == chars@.len(),
            start <= end <= n,
            strip_end(strip_start(h@)) == strip_end(chars@.subrange(start as int, end as int)),
        decreases end,
    {
        assert(chars@.subrange(start as int, end as int).drop_last() =~= chars@.subrange(
            start as int,
            end - 1,
        ));
        end -= 1;
    }
    let body = slice_subrange(chars.as_slice(), start, end);
    parse_i64_chars(body)
}

/// The `ETag` of a task: its lock version, quoted.
pub fn version_etag(version: i64) -> (s: String)
    ensures
        s@ == "\""@ + decimal_int(version as int) + "\""@,
{
    let mut s = String::from_str("\"");
    push_i64(&mut s, version);
    s.append("\"");
    s
}

// ------------------------------------------------------------------ answers

/// A DAG that did not validate: every problem at once, all on `spec`.
pub fn invalid_dag(messages: &Vec<String>) -> (e: AppError)
    ensures
        e matches AppError::Validation(v) && v@.len() == messages@.len() && forall|i: int|
            0 <= i < v@.len() ==> (#[trigger] v@[i]).field@ == "spec"@ && v@[i].code@
                == "invalid_dag"@ && v@[i].message@ == messages@[i]@,
{
    let mut v: Vec<FieldError> = Vec::new();
    let n = messages.len();
    let mut i: usize = 0;
    while i < n
        invariant
            n == messages@.len(),
            i <= n,
            v@.len() == i,
            forall|k: int|
                0 <= k < i ==> (#[trigger] v@[k]).field@ == "spec"@ && v@[k].code@ == "invalid_dag"@
                    && v@[k].message@ == messages@[k]@,
        decreases n - i,
    {
        v.push(FieldError::new("spec", "invalid_dag", messages[i].as_str()));
        i += 1;
    }
    AppError::Validation(v)
}

/// A trigger of a disabled task.
pub fn task_disabled(name: &str) -> (e: AppError)
    ensures
        e matches AppError::Conflict(m) && m@ == "任务 "@ + name@ + " 已停用"@,
{
    let mut m = String::from_str("任务 ");
    m.append(name);
    m.append(" 已停用");
    AppError::Conflict(m)
}

/// A trigger whose baseline run does not exist: comparing against
/// nothing would read as "no drift".
pub fn baseline_missing(baseline: &str) -> (e: AppError)
    ensures
        e matches AppError::Validation(v) && v@.len() == 1 && v@[0].field@ == "compare_to"@
            && v@[0].code@ == "not_found"@ && v@[0].message@ == "基线 run "@ + baseline@ + " 不存在"@,
{
    let mut m = String::from_str("基线 run ");
    m.append(baseline);
    m.append(" 不存在");
    AppError::Validation(vec![FieldError::new("compare_to", "not_found", m.as_str())])
}

/// An update whose `If-Match` no longer holds: 412, not 409.
pub fn changed_meanwhile(id: &str) -> (e: AppError)
    ensures
        e matches AppError::PreconditionFailed(m) && m@ == "任务已被别人改过："@ + id@,
{
    let mut m = String::from_str("任务已被别人改过：");
    m.append(id);
    AppError::PreconditionFailed(m)
}

/// The checks of a trigger before any run is created, in order: a disabled
/// task does not run; a baseline to compare with must exist (`baseline`
/// is its id and whether the store found it), else "no drift reported"
/// would read as "no drift". They come before the idempotency key is
/// claimed, so a refusal is never stored as a replayable answer.
pub fn trigger_check(task_name: &str, enabled: bool, baseline: Option<(&str, bool)>) -> (r: Result<(), AppError>)
    ensures
        !enabled ==> (r matches Err(AppError::Conflict(m)) && m@ == "任务 "@ + task_name@ + " 已停用"@),
        enabled ==> match baseline {
            Some(b) => if b.1 {
                r is Ok
            } else {
                r matches Err(AppError::Validation(v)) && v@.len() == 1 && v@[0].field@ == "compare_to"@
                    && v@[0].code@ == "not_found"@ && v@[0].message@ == "基线 run "@ + b.0@ + " 不存在"@
            },
            None => r is Ok,
        },
{
    if !enabled {
        return Err(task_disabled(task_name));
    }
    match baseline {
        Some((id, found)) => if found {
            Ok(())
        } else {
            Err(baseline_missing(id))
        },
        None => Ok(()),
    }
}

/// What the idempotent run creation reported.
pub enum IdempotentRun {
    Created,
    Replayed,
    /// The key was used with a different body.
    Conflict,
    /// The first request with this key is still being handled.
    InFlight,
}

/// The refusals of a reused key; `None` where the trigger goes on.
pub fn idempotency_refusal(outcome: &IdempotentRun) -> (r: Option<AppError>)
    ensures
        match *outcome {
            IdempotentRun::Conflict => r matches Some(AppError::Conflict(m)) && m@
                == "同一个 Idempotency-Key 配了不同的请求体"@,
            IdempotentRun::InFlight => r matches Some(AppError::Conflict(m)) && m@
                == "同一个 Idempotency-Key 的上一次请求还在处理中"@,
            _ => r is None,
        },
{
    match outcome {
        IdempotentRun::Conflict => Some(
            AppError::Conflict(String::from_str("同一个 Idempotency-Key 配了不同的请求体")),
        ),
        IdempotentRun::InFlight => Some(
            AppError::Conflict(String::from_str("同一个 Idempotency-Key 的上一次请求还在处理中")),
        ),
        _ => None,
    }
}

/// Where a new run can be followed.
pub fn run_location(run_id: &str) -> (s: String)
    ensures
        s@ == "/api/v1/runs/"@ + run_id@,
{
    let mut s = String::from_str("/api/v1/runs/");
    s.append(run_id);
    s
}

} // verus!
