//! Drift: did the output change while the input stayed the same?

use vstd::prelude::*;

verus! {

/// The baseline of a comparison: the one asked for, else the run's own
/// `compare_to`; `None` leaves it to the previous comparable run.
pub fn explicit_baseline(asked: Option<u128>, compare_to: Option<u128>) -> (r: Option<u128>)
    ensures
        r == (match asked {
            Some(a) => Some(a),
            None => compare_to,
        }),
{
    match asked {
        Some(a) => Some(a),
        None => compare_to,
    }
}

/// Worth an alarm: the same input gave a different output. A changed input
/// with a changed output is a change taking effect, not drift.
pub fn alarming(same_fingerprint: bool, same_digest: bool) -> (b: bool)
    ensures
        b == (same_fingerprint && !same_digest),
{
    same_fingerprint && !same_digest
}

/// Why there is nothing to compare with.
pub fn no_baseline_reason() -> (s: String)
    ensures
        s@ == "同任务下没有更早的同指纹成功 run 可作基线。第一次跑、或者刚改过任务定义时都是这样。"@,
{
    String::from_str("同任务下没有更早的同指纹成功 run 可作基线。第一次跑、或者刚改过任务定义时都是这样。")
}

} // verus!
