//! The decisions of the tool-call policy endpoint.
//!
//! Three rules hold throughout: whatever cannot be decided is refused;
//! every verdict goes into the event log; rules are read afresh each time.
//! Reading the run, the rules and the host from the store, opening the
//! approval and waiting for it are the web layer's work; what is answered
//! for each outcome is decided here.

use vstd::prelude::*;
use vstd::slice::slice_subrange;

use crate::access::InternalToken;
use crate::approval::{describe_verdict, Verdict};
use crate::error::AppError;
use crate::text::{chars_of, starts_with, str_starts_with, string_of};

verus! {

/// The header in which the hook proves that it speaks for the run.
pub const TOKEN_HEADER: &'static str = "x-ai-task-token";

/// How long a tool call held by an `ask` rule waits for a person, in
/// seconds. Shorter than an approval node's default: the model ran into
/// the rule unplanned, and the run's time budget is running.
pub const ASK_TIMEOUT_S: i64 = 600;

/// The longest single long-poll of `/internal/policy/await`, in seconds;
/// well below the caller's HTTP timeout.
pub const AWAIT_SLICE_S: u64 = 10;

/// The MCP server name under which the remote tools are registered.
pub const MCP_SERVER_NAME: &'static str = "ai_task_remote";

/// What to do when a call hits `ask`.
#[derive(Debug, Clone, Copy, PartialEq, Eq, Structural)]
pub enum AskMode {
    /// Wait in place for the verdict (the remote path, inside the server).
    Wait,
    /// Open the approval and return; the caller polls (the hook).
    Report,
}

/// What a policy says of one tool call.
#[derive(Debug, Clone, Copy, PartialEq, Eq, Structural)]
pub enum PolicyEffect {
    Allow,
    Deny,
    Ask,
}

/// `{:?}` of an effect.
pub open spec fn effect_name(e: PolicyEffect) -> Seq<char> {
    match e {
        PolicyEffect::Allow => "Allow"@,
        PolicyEffect::Deny => "Deny"@,
        PolicyEffect::Ask => "Ask"@,
    }
}

pub fn effect_debug_name(e: PolicyEffect) -> (s: &'static str)
    ensures
        s@ == effect_name(e),
{
    match e {
        PolicyEffect::Allow => "Allow",
        PolicyEffect::Deny => "Deny",
        PolicyEffect::Ask => "Ask",
    }
}

/// The answer to the hook or the remote proxy.
#[derive(Debug)]
pub struct PolicyResponse {
    pub allowed: bool,
    pub reason: String,
    pub rule_id: Option<String>,
    pub dry_run: bool,
    /// Set when an `ask` opened an approval that the caller must poll.
    pub pending_approval_id: Option<String>,
}

/// The entry that records a verdict in the run's event log, under the
/// node that made the call.
#[derive(Debug)]
pub struct PolicyDecided {
    pub node_key: String,
    pub tool_use_id: String,
    pub effect: PolicyEffect,
    pub rule_id: Option<String>,
    pub reason: String,
}

/// `e` records, for the call `tool_use_id` of node `node_key`, the verdict
/// `effect` with its rule and reason.
pub open spec fn records(
    e: PolicyDecided,
    node_key: Seq<char>,
    tool_use_id: Seq<char>,
    effect: PolicyEffect,
    rule_id: Option<String>,
    reason: Seq<char>,
) -> bool {
    &&& e.node_key@ == node_key
    &&& e.tool_use_id@ == tool_use_id
    &&& e.effect == effect
    &&& e.rule_id == rule_id
    &&& e.reason@ == reason
}

/// The log entry of a verdict.
pub fn decided_event(
    node_key: &str,
    tool_use_id: &str,
    effect: PolicyEffect,
    rule_id: Option<String>,
    reason: &str,
) -> (e: PolicyDecided)
    ensures
        records(e, node_key@, tool_use_id@, effect, rule_id, reason@),
{
    PolicyDecided {
        node_key: String::from_str(node_key),
        tool_use_id: String::from_str(tool_use_id),
        effect,
        rule_id,
        reason: String::from_str(reason),
    }
}

/// The internal token is required and must match; without it any process
/// on the machine could approve tool calls for a run.
pub fn verify_token(token: &InternalToken, presented: Option<&str>) -> (r: Result<(), AppError>)
    ensures
        r is Ok <==> token.value() == (match presented {
            Some(p) => p@,
            None => ""@,
        }),
        r matches Err(e) ==> (e matches AppError::Unauthorized(m) && m@ == "内部接口令牌不匹配"@),
{
    let p = match presented {
        Some(p) => p,
        None => "",
    };
    if token.verify_internal_token(p) {
        Ok(())
    } else {
        Err(AppError::Unauthorized(String::from_str("内部接口令牌不匹配")))
    }
}

/// The prefix under which an MCP client reports our remote tools.
pub open spec fn mcp_prefix() -> Seq<char> {
    "mcp__ai_task_remote__"@
}

/// The tool name as rules write it: the CLI reports our MCP tools as
/// `mcp__ai_task_remote__<tool>`, the proxy as `<tool>`. Only our own
/// server's prefix is stripped.
pub open spec fn normalize_tool_spec(tool: Seq<char>) -> Seq<char> {
    if starts_with(tool, mcp_prefix()) {
        tool.skip(mcp_prefix().len() as int)
    } else {
        tool
    }
}

pub fn normalize_tool(tool: &str) -> (s: String)
    ensures
        s@ == normalize_tool_spec(tool@),
{
    proof {
        reveal_strlit("mcp__ai_task_remote__");
    }
    if str_starts_with(tool, "mcp__ai_task_remote__") {
        let chars = chars_of(tool);
        let n = chars.len();
        let rest = slice_subrange(chars.as_slice(), 21, n);
        let s = string_of(rest);
        assert(s@ =~= tool@.skip(21));
        s
    } else {
        String::from_str(tool)
    }
}

/// A refusal.
pub fn deny(reason: &str, rule_id: Option<String>, dry_run: bool) -> (r: PolicyResponse)
    ensures
        !r.allowed,
        r.reason@ == reason@,
        r.rule_id == rule_id,
        r.dry_run == dry_run,
        r.pending_approval_id is None,
{
    PolicyResponse {
        allowed: false,
        reason: String::from_str(reason),
        rule_id,
        dry_run,
        pending_approval_id: None,
    }
}

/// A tool call for a run that has already ended: most likely a leftover
/// process of an earlier execution. Always refused.
pub fn finished_run_response() -> (r: PolicyResponse)
    ensures
        !r.allowed,
        r.reason@ == "这次执行已经结束，残留的工具调用一律拒绝"@,
        r.rule_id is None,
        !r.dry_run,
        r.pending_approval_id is None,
{
    deny("这次执行已经结束，残留的工具调用一律拒绝", None, false)
}

/// What looking up the target host's tags gave.
pub enum HostLookup {
    /// The call names no host.
    NoHost,
    /// The host and its tags.
    Tags(Vec<String>),
    /// The host does not exist; its id as text.
    Missing(String),
    /// The store could not be read.
    Unreadable,
}

/// The tags the policy sees. Rules apply by tag (writes on `prod` ask),
/// so tags that cannot be read are not "no tags": the call is refused.
pub fn host_scope(lookup: HostLookup, dry_run: bool) -> (r: Result<Vec<String>, PolicyResponse>)
    ensures
        match lookup {
            HostLookup::NoHost => r matches Ok(t) && t@.len() == 0,
            HostLookup::Tags(tags) => r matches Ok(t) && t == tags,
            HostLookup::Missing(id) => r matches Err(resp) && !resp.allowed && resp.reason@
                == "目标主机 "@ + id@ + " 不存在，无法判定它的策略范围"@ && resp.rule_id is None
                && resp.dry_run == dry_run && resp.pending_approval_id is None,
            HostLookup::Unreadable => r matches Err(resp) && !resp.allowed && resp.reason@
                == "读不到目标主机的 tag，无法判定策略范围，按拒绝处理"@ && resp.rule_id is None
                && resp.dry_run == dry_run && resp.pending_approval_id is None,
        },
{
    match lookup {
        HostLookup::NoHost => Ok(Vec::new()),
        HostLookup::Tags(tags) => Ok(tags),
        HostLookup::Missing(id) => {
            let mut m = String::from_str("目标主机 ");
            m.append(id.as_str());
            m.append(" 不存在，无法判定它的策略范围");
            Err(deny(m.as_str(), None, dry_run))
        },
        HostLookup::Unreadable => Err(
            deny("读不到目标主机的 tag，无法判定策略范围，按拒绝处理", None, dry_run),
        ),
    }
}

/// The checks of a tool call before any rule is consulted, in order: a
/// call for a run that has ended is refused (a leftover process of an
/// earlier execution must not touch anything), then the target host's tags
/// are looked up; tags that cannot be read refuse the call. A refusal here
/// is a verdict like any other: it comes with the one entry that records
/// it, a `Deny` with the answer's reason and no rule.
pub fn policy_preflight(
    run_terminal: bool,
    dry_run: bool,
    lookup: HostLookup,
    node_key: &str,
    tool_use_id: &str,
) -> (r: Result<Vec<String>, (PolicyResponse, PolicyDecided)>)
    ensures
        run_terminal ==> (r matches Err((resp, _)) && !resp.allowed && resp.reason@
            == "这次执行已经结束，残留的工具调用一律拒绝"@ && resp.rule_id is None && !resp.dry_run
            && resp.pending_approval_id is None),
        !run_terminal ==> match lookup {
            HostLookup::NoHost => r matches Ok(t) && t@.len() == 0,
            HostLookup::Tags(tags) => r matches Ok(t) && t == tags,
            HostLookup::Missing(id) => r matches Err((resp, _)) && !resp.allowed && resp.reason@
                == "目标主机 "@ + id@ + " 不存在，无法判定它的策略范围"@ && resp.rule_id is None
                && resp.dry_run == dry_run && resp.pending_approval_id is None,
            HostLookup::Unreadable => r matches Err((resp, _)) && !resp.allowed && resp.reason@
                == "读不到目标主机的 tag，无法判定策略范围，按拒绝处理"@ && resp.rule_id is None
                && resp.dry_run == dry_run && resp.pending_approval_id is None,
        },
        r matches Err((resp, e)) ==> records(e, node_key@, tool_use_id@, PolicyEffect::Deny, None, resp.reason@),
{
    let refused = if run_terminal {
        finished_run_response()
    } else {
        match host_scope(lookup, dry_run) {
            Ok(tags) => {
                return Ok(tags);
            },
            Err(resp) => resp,
        }
    };
    let e = decided_event(node_key, tool_use_id, PolicyEffect::Deny, None, refused.reason.as_str());
    Err((refused, e))
}

/// The effect that stands: in a shadow run a write tool only records its
/// intent, whatever the policy said.
pub open spec fn effective_effect(dry_run: bool, is_write: bool, decided: PolicyEffect) -> PolicyEffect {
    if dry_run && is_write {
        PolicyEffect::Deny
    } else {
        decided
    }
}

/// The reason recorded with the verdict.
pub open spec fn verdict_reason(
    dry_run: bool,
    is_write: bool,
    tool: Seq<char>,
    decided: PolicyEffect,
    decided_reason: Seq<char>,
) -> Seq<char> {
    if effective_effect(dry_run, is_write, decided) != decided {
        "影子执行：`"@ + tool + "` 是写类工具，只记录意图不执行（策略本身是 "@ + effect_name(decided)
            + "）"@
    } else if decided_reason.len() == 0 {
        "策略放行"@
    } else {
        decided_reason
    }
}

/// The effect and reason of one call, after the shadow-run override, with
/// the one entry that records the verdict; it is logged before anyone is
/// asked, so that a call held by an `ask` shows why in the event stream.
/// The override comes after the policy so that the audit shows both what
/// the policy allowed and that the shadow run held it back.
pub fn judge(
    dry_run: bool,
    is_write: bool,
    tool: &str,
    decided: PolicyEffect,
    decided_reason: &str,
    rule_id: &Option<String>,
    node_key: &str,
    tool_use_id: &str,
) -> (r: (PolicyEffect, String, PolicyDecided))
    ensures
        r.0 == effective_effect(dry_run, is_write, decided),
        r.1@ == verdict_reason(dry_run, is_write, tool@, decided, decided_reason@),
        records(r.2, node_key@, tool_use_id@, r.0, *rule_id, r.1@),
{
    let effect = if dry_run && is_write {
        PolicyEffect::Deny
    } else {
        decided
    };
    let reason = if effect != decided {
        let mut m = String::from_str("影子执行：`");
        m.append(tool);
        m.append("` 是写类工具，只记录意图不执行（策略本身是 ");
        m.append(effect_debug_name(decided));
        m.append("）");
        m
    } else if decided_reason.is_empty() {
        String::from_str("策略放行")
    } else {
        String::from_str(decided_reason)
    };
    let rule = match rule_id {
        Some(id) => Some(id.clone()),
        None => None,
    };
    let e = decided_event(node_key, tool_use_id, effect, rule, reason.as_str());
    (effect, reason, e)
}

/// How an `ask` was resolved.
pub enum AskResolution {
    /// The approval is open; the caller polls it by this id.
    Pending(String),
    /// A person (or the clock) decided.
    Decided(Verdict),
}

/// The response for a judged call. An `ask` answers with the verdict when
/// it was waited for, and with a refusal naming the open approval when
/// the caller polls; an `ask` without a resolution is refused.
pub fn respond(
    effect: PolicyEffect,
    reason: String,
    rule_id: Option<String>,
    dry_run: bool,
    ask: Option<AskResolution>,
) -> (r: PolicyResponse)
    ensures
        r.rule_id == rule_id,
        r.dry_run == dry_run,
        match effect {
            PolicyEffect::Allow => r.allowed && r.reason@ == reason@ && r.pending_approval_id is None,
            PolicyEffect::Deny => !r.allowed && r.reason@ == reason@ && r.pending_approval_id is None,
            PolicyEffect::Ask => match ask {
                Some(AskResolution::Decided(v)) => r.allowed == v.spec_is_approved() && r.reason@
                    == describe_verdict(v) && r.pending_approval_id is None,
                Some(AskResolution::Pending(id)) => !r.allowed && r.reason@ == reason@ + "（等待人工确认）"@
                    && r.pending_approval_id == Some(id),
                None => !r.allowed && r.reason@ == reason@ && r.pending_approval_id is None,
            },
        },
{
    match effect {
        PolicyEffect::Allow => PolicyResponse {
            allowed: true,
            reason,
            rule_id,
            dry_run,
            pending_approval_id: None,
        },
        PolicyEffect::Deny => PolicyResponse {
            allowed: false,
            reason,
            rule_id,
            dry_run,
            pending_approval_id: None,
        },
        PolicyEffect::Ask => match ask {
            Some(AskResolution::Decided(v)) => PolicyResponse {
                allowed: v.is_approved(),
                reason: v.describe(),
                rule_id,
                dry_run,
                pending_approval_id: None,
            },
            Some(AskResolution::Pending(id)) => {
                let mut m = reason;
                m.append("（等待人工确认）");
                PolicyResponse {
                    allowed: false,
                    reason: m,
                    rule_id,
                    dry_run,
                    pending_approval_id: Some(id),
                }
            },
            None => PolicyResponse {
                allowed: false,
                reason,
                rule_id,
                dry_run,
                pending_approval_id: None,
            },
        },
    }
}

/// The title of the approval card an `ask` opens.
pub fn approval_title(tool: &str) -> (s: String)
    ensures
        s@ == tool@ + " 需要确认"@,
{
    let mut s = String::from_str(tool);
    s.append(" 需要确认");
    s
}

/// The answer of one long-poll for an approval.
pub struct AwaitApprovalResponse {
    pub pending: bool,
    pub approved: bool,
    pub reason: String,
}

/// No verdict yet: the caller asks again.
pub fn still_pending() -> (r: AwaitApprovalResponse)
    ensures
        r.pending,
        !r.approved,
        r.reason@ == "等待人工确认"@,
{
    AwaitApprovalResponse { pending: true, approved: false, reason: String::from_str("等待人工确认") }
}

/// The verdict as the poll reports it: the decider's reason, or a plain
/// "approved" / "refused".
pub fn decided(approved: bool, reason: Option<String>) -> (r: AwaitApprovalResponse)
    ensures
        !r.pending,
        r.approved == approved,
        r.reason@ == (match reason {
            Some(t) => t@,
            None => if approved {
                "已批准"@
            } else {
                "已拒绝"@
            },
        }),
{
    let detail = match reason {
        Some(t) => t,
        None => if approved {
            String::from_str("已批准")
        } else {
            String::from_str("已拒绝")
        },
    };
    AwaitApprovalResponse { pending: false, approved, reason: detail }
}

/// What one pass of the approval long-poll does next.
pub enum AwaitStep {
    /// Reply with this (and, for a verdict, log it once on the run).
    Answer(AwaitApprovalResponse),
    /// Expire the overdue approvals, then plan again with whether any was.
    Expire,
    /// Something expired: look for the verdict again at once.
    Recheck,
    /// Wait a little, then look again.
    Sleep,
}

/// One pass of the bounded long-poll. A recorded verdict is answered at
/// once. Without one, overdue approvals are first expired as refusals (so
/// no card stays pending for ever), and if any was the verdict is looked up
/// again; otherwise the poll answers "still pending" once its slice is over
/// and waits before asking again while it is not.
pub fn await_step(verdict: Option<(bool, Option<String>)>, expired_any: Option<bool>, slice_over: bool) -> (s: AwaitStep)
    ensures
        verdict matches Some((approved, reason)) ==> (s matches AwaitStep::Answer(r) && !r.pending && r.approved
            == approved && r.reason@ == (match reason {
            Some(t) => t@,
            None => if approved {
                "已批准"@
            } else {
                "已拒绝"@
            },
        })),
        verdict is None && expired_any is None ==> s is Expire,
        verdict is None && expired_any == Some(true) ==> s is Recheck,
        verdict is None && expired_any == Some(false) && slice_over ==> (s matches AwaitStep::Answer(r)
            && r.pending && !r.approved && r.reason@ == "等待人工确认"@),
        verdict is None && expired_any == Some(false) && !slice_over ==> s is Sleep,
{
    match verdict {
        Some((approved, reason)) => AwaitStep::Answer(decided(approved, reason)),
        None => match expired_any {
            None => AwaitStep::Expire,
            Some(true) => AwaitStep::Recheck,
            Some(false) => if slice_over {
                AwaitStep::Answer(still_pending())
            } else {
                AwaitStep::Sleep
            },
        },
    }
}

} // verus!
