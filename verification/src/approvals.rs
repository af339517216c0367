//! The rules of the approval endpoints.

use vstd::prelude::*;

use crate::error::AppError;

verus! {

/// A person's decision on an approval card.
pub struct Decision {
    pub approved: bool,
    /// A refusal's reason goes back to the model as the tool result.
    pub reason: Option<String>,
}

/// The answer to a decision.
pub struct DecisionResult {
    /// The conclusion in force. When two people decide at once, the first
    /// wins, and this may differ from what was submitted.
    pub approved: bool,
    /// Whether this submission was the one that counted.
    pub was_first: bool,
}

/// What the store did with a decision.
pub enum DecisionOutcome {
    Recorded { approved: bool },
    AlreadyDecided { approved: bool },
    NotFound,
}

/// The answer for each outcome. A card already decided is no error (two
/// people seeing it is normal), but the later one learns what stands.
pub fn decision_result(outcome: &DecisionOutcome, id: &str) -> (r: Result<DecisionResult, AppError>)
    ensures
        match *outcome {
            DecisionOutcome::Recorded { approved } => r matches Ok(d) && d.approved == approved
                && d.was_first,
            DecisionOutcome::AlreadyDecided { approved } => r matches Ok(d) && d.approved == approved
                && !d.was_first,
            DecisionOutcome::NotFound => r matches Err(AppError::NotFound(m)) && m@ == "审批 "@ + id@
                + " 不存在"@,
        },
{
    match outcome {
        DecisionOutcome::Recorded { approved } => Ok(DecisionResult { approved: *approved, was_first: true }),
        DecisionOutcome::AlreadyDecided { approved } => Ok(
            DecisionResult { approved: *approved, was_first: false },
        ),
        DecisionOutcome::NotFound => {
            let mut m = String::from_str("审批 ");
            m.append(id);
            m.append(" 不存在");
            Err(AppError::NotFound(m))
        },
    }
}

/// Seconds left before a card expires, 0 once expired: the client never
/// computes it, so a skewed client clock cannot show a live card as dead.
/// Whole seconds, rounded toward zero as `Duration::num_seconds` does.
pub open spec fn expires_in_spec(expires_at: i64, now: i64) -> int {
    let diff = expires_at - now;
    if diff <= 0 {
        0
    } else {
        diff / 1_000_000
    }
}

pub fn expires_in_s(expires_at_micros: i64, now_micros: i64) -> (s: i64)
    ensures
        s == expires_in_spec(expires_at_micros, now_micros),
        s >= 0,
{
    let diff: i128 = (expires_at_micros as i128) - (now_micros as i128);
    if diff <= 0 {
        0
    } else {
        let secs = diff / 1_000_000;
        assert(secs <= i64::MAX) by (nonlinear_arith)
            requires
                0 < diff <= 2 * (i64::MAX as int) + 1,
                secs == diff / 1_000_000,
        ;
        secs as i64
    }
}

} // verus!
