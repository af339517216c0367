//! The outcome of waiting for a person to approve something.
//!
//! `approval` nodes and policy decisions with `effect: ask` both end in a
//! [`Verdict`]. The default is refusal: nobody deciding in time is a "no".

use vstd::prelude::*;

use crate::text::{is_blank, is_blank_str};

verus! {

/// How long one poll of the approval table waits before looking again.
pub const POLL_INTERVAL_MS: u64 = 2000;

/// The conclusion of one approval.
#[derive(Debug, Clone)]
pub enum Verdict {
    Approved { by: Option<String>, reason: Option<String> },
    Denied { by: Option<String>, reason: Option<String> },
    /// Nobody decided in time. That counts as a refusal.
    TimedOut,
    /// The run was cancelled while waiting.
    Cancelled,
}

/// The sentence handed back to the model or the node for a verdict.
pub open spec fn describe_verdict(v: Verdict) -> Seq<char> {
    match v {
        Verdict::Approved { by, .. } => match by {
            Some(who) => "已由 "@ + who@ + " 批准"@,
            None => "已批准"@,
        },
        Verdict::Denied { by, reason } => {
            let who = match by {
                Some(w) => w@,
                None => "审批人"@,
            };
            match reason {
                Some(why) if !is_blank(why@) => who + " 拒绝："@ + why@,
                _ => who + " 拒绝了这次操作"@,
            }
        },
        Verdict::TimedOut => "等待审批超时，按拒绝处理"@,
        Verdict::Cancelled => "run 已取消，审批作废"@,
    }
}

impl Verdict {
    pub open spec fn spec_is_approved(&self) -> bool {
        self is Approved
    }

    /// Only an explicit approval lets the action through.
    pub fn is_approved(&self) -> (b: bool)
        ensures
            b == self.spec_is_approved(),
    {
        match self {
            Verdict::Approved { .. } => true,
            _ => false,
        }
    }

    /// The reason handed back to the model or the node.
    pub fn describe(&self) -> (s: String)
        ensures
            s@ == describe_verdict(*self),
    {
        match self {
            Verdict::Approved { by, .. } => match by {
                Some(who) => {
                    let mut s = String::from_str("已由 ");
                    s.append(who.as_str());
                    s.append(" 批准");
                    s
                },
                None => String::from_str("已批准"),
            },
            Verdict::Denied { by, reason } => {
                let mut s = match by {
                    Some(w) => w.clone(),
                    None => String::from_str("审批人"),
                };
                match reason {
                    Some(why) => {
                        if !is_blank_str(why.as_str()) {
                            s.append(" 拒绝：");
                            s.append(why.as_str());
                        } else {
                            s.append(" 拒绝了这次操作");
                        }
                    },
                    None => {
                        s.append(" 拒绝了这次操作");
                    },
                }
                s
            },
            Verdict::TimedOut => String::from_str("等待审批超时，按拒绝处理"),
            Verdict::Cancelled => String::from_str("run 已取消，审批作废"),
        }
    }

    /// What goes into the `approval_decided` event: whether it was approved,
    /// who decided, and the reason. Verdicts without a person carry their
    /// description as the reason.
    pub fn decision_record(&self) -> (r: (bool, Option<String>, Option<String>))
        ensures
            r.0 == self.spec_is_approved(),
            match *self {
                Verdict::Approved { by, reason } => r.1 == by && r.2 == reason,
                Verdict::Denied { by, reason } => r.1 == by && r.2 == reason,
                _ => r.1 is None && (r.2 matches Some(t) && t@ == describe_verdict(*self)),
            },
    {
        match self {
            Verdict::Approved { by, reason } => (true, by.clone(), reason.clone()),
            Verdict::Denied { by, reason } => (false, by.clone(), reason.clone()),
            _ => (false, None, Some(self.describe())),
        }
    }
}


/// The verdict of a decided approval, as the store records it: whether it
/// was approved, the reason, and the decider's display name.
pub fn verdict_from_row(approved: bool, reason: Option<String>, by: Option<String>) -> (v: Verdict)
    ensures
        approved ==> v == (Verdict::Approved { by, reason }),
        !approved ==> v == (Verdict::Denied { by, reason }),
{
    if approved {
        Verdict::Approved { by, reason }
    } else {
        Verdict::Denied { by, reason }
    }
}

/// An approval whose record is gone (its run was deleted): no verdict is
/// no approval.
pub fn approval_gone() -> (v: Verdict)
    ensures
        v matches Verdict::Denied { by, reason } && by is None && (reason matches Some(r) && r@
            == "审批记录已不存在"@),
{
    Verdict::Denied { by: None, reason: Some(String::from_str("审批记录已不存在")) }
}

/// The reason recorded when a run is cancelled while one of its approvals
/// waits.
pub const CANCELLED_REASON: &'static str = "run 已取消";

/// One look at an approval while waiting for it.
pub enum WaitStep {
    /// A person decided.
    Decided(Verdict),
    /// Nobody decided in time: record the expiry, then answer `TimedOut`.
    Expired,
    /// Look again after [`POLL_INTERVAL_MS`].
    Wait,
}

/// What one look at an approval means. A decision is taken even when it
/// arrived at the deadline; without one, the deadline passing is a
/// refusal.
pub fn wait_step(row: Option<(bool, Option<String>, Option<String>)>, now: i64, expires_at: i64) -> (s:
    WaitStep)
    ensures
        match row {
            Some(r) => s matches WaitStep::Decided(v) && v == (if r.0 {
                Verdict::Approved { by: r.2, reason: r.1 }
            } else {
                Verdict::Denied { by: r.2, reason: r.1 }
            }),
            None => if now >= expires_at {
                s is Expired
            } else {
                s is Wait
            },
        },
{
    match row {
        Some((approved, reason, by)) => WaitStep::Decided(verdict_from_row(approved, reason, by)),
        None => if now >= expires_at {
            WaitStep::Expired
        } else {
            WaitStep::Wait
        },
    }
}

} // verus!
