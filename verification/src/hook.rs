//! `ai-task policy-hook`, the `PreToolUse` hook of the model's CLI.
//!
//! **Every failure denies.** Unreachable server, timeout, an answer that
//! cannot be read: all of them refuse the call. The opposite would make
//! "knock the server over" the same as "switch every policy off".
//! Reading stdin, the HTTP calls and printing are the binary's work; the
//! verdict of each outcome is decided here.

use vstd::prelude::*;

use crate::text::{replace_all, replace_str};

verus! {

/// The hook's own HTTP timeout, in seconds.
pub const TIMEOUT_S: u64 = 20;

/// How long the hook waits for a person in all, in seconds: a little
/// longer than the server's ask timeout, so that the server, not the
/// hook, decides and records the timeout.
pub const APPROVAL_DEADLINE_S: u64 = 660;

/// What is printed when even the verdict cannot be serialised: a refusal.
pub const FALLBACK_OUTPUT: &'static str = "{\"hookSpecificOutput\":{\"hookEventName\":\"PreToolUse\",\"permissionDecision\":\"deny\",\"permissionDecisionReason\":\"策略层响应无法序列化\"}}";

/// The arguments of the hook command.
pub struct HookArgs {
    /// The decision endpoint.
    pub endpoint: String,
    /// The current run.
    pub run_id: String,
    /// The caller's token.
    pub token: String,
    /// The node the events belong to.
    pub node_key: String,
}

/// The `hookSpecificOutput` of a `PreToolUse` hook.
pub struct PreToolUseOutput {
    pub hook_event_name: String,
    pub permission_decision: String,
    pub permission_decision_reason: String,
}

/// The output the CLI reads from the hook.
pub struct HookOutput {
    pub hook_specific_output: PreToolUseOutput,
}

impl HookOutput {
    /// Lets the call through.
    pub fn allow(reason: String) -> (o: HookOutput)
        ensures
            o.hook_specific_output.hook_event_name@ == "PreToolUse"@,
            o.hook_specific_output.permission_decision@ == "allow"@,
            o.hook_specific_output.permission_decision_reason == reason,
    {
        HookOutput::new("allow", reason)
    }

    /// Refuses the call; the reason reaches the model as the tool result.
    pub fn deny(reason: String) -> (o: HookOutput)
        ensures
            o.hook_specific_output.hook_event_name@ == "PreToolUse"@,
            o.hook_specific_output.permission_decision@ == "deny"@,
            o.hook_specific_output.permission_decision_reason == reason,
    {
        HookOutput::new("deny", reason)
    }

    pub fn new(decision: &str, reason: String) -> (o: HookOutput)
        ensures
            o.hook_specific_output.hook_event_name@ == "PreToolUse"@,
            o.hook_specific_output.permission_decision@ == decision@,
            o.hook_specific_output.permission_decision_reason == reason,
    {
        HookOutput {
            hook_specific_output: PreToolUseOutput {
                hook_event_name: String::from_str("PreToolUse"),
                permission_decision: String::from_str(decision),
                permission_decision_reason: reason,
            },
        }
    }
}

/// What the CLI hands a `PreToolUse` hook: the fields that are used. A
/// missing input is `null`, a missing call id empty.
pub struct HookInput {
    pub tool_name: String,
    pub tool_input: serde_json::Value,
    pub tool_use_id: String,
}

/// The decision endpoint's answer.
pub struct DecideResponse {
    pub allowed: bool,
    pub reason: String,
    /// Set when an `ask` opened an approval to poll.
    pub pending_approval_id: Option<String>,
}

/// One poll's answer.
pub struct AwaitResponse {
    pub pending: bool,
    pub approved: bool,
    pub reason: String,
}

/// What to do after the decision.
pub enum HookStep {
    Answer(HookOutput),
    /// Poll this approval until it is decided or the deadline passes.
    Await(String),
}

/// An allowed call passes; a call waiting for a person is polled in short
/// requests, so that a failing server means a refusal within seconds
/// rather than minutes; anything else is refused with the server's reason.
pub fn after_decide(response: DecideResponse) -> (s: HookStep)
    ensures
        response.allowed ==> (s matches HookStep::Answer(o) && o.hook_specific_output.permission_decision@
            == "allow"@ && o.hook_specific_output.permission_decision_reason == response.reason),
        !response.allowed ==> match response.pending_approval_id {
            Some(id) => s matches HookStep::Await(x) && x == id,
            None => s matches HookStep::Answer(o) && o.hook_specific_output.permission_decision@
                == "deny"@ && o.hook_specific_output.permission_decision_reason == response.reason,
        },
{
    if response.allowed {
        return HookStep::Answer(HookOutput::allow(response.reason));
    }
    match response.pending_approval_id {
        Some(id) => HookStep::Await(id),
        None => HookStep::Answer(HookOutput::deny(response.reason)),
    }
}

/// One poll's outcome: the verdict once decided; `None` to ask again; a
/// failed request is a refusal at once instead of more waiting.
pub fn after_poll(result: Result<AwaitResponse, String>) -> (r: Option<HookOutput>)
    ensures
        match result {
            Ok(resp) => if resp.pending {
                r is None
            } else {
                r matches Some(o) && o.hook_specific_output.permission_decision@ == (if resp.approved {
                    "allow"@
                } else {
                    "deny"@
                }) && o.hook_specific_output.permission_decision_reason == resp.reason
            },
            Err(e) => r matches Some(o) && o.hook_specific_output.permission_decision@ == "deny"@
                && o.hook_specific_output.permission_decision_reason@ == "等待审批时失败（"@ + e@
                + "），按拒绝处理"@,
        },
{
    match result {
        Ok(resp) => {
            if resp.pending {
                None
            } else if resp.approved {
                Some(HookOutput::allow(resp.reason))
            } else {
                Some(HookOutput::deny(resp.reason))
            }
        },
        Err(e) => {
            let mut m = String::from_str("等待审批时失败（");
            m.append(e.as_str());
            m.append("），按拒绝处理");
            Some(HookOutput::deny(m))
        },
    }
}

/// Nobody decided before the hook's deadline.
pub fn timed_out() -> (o: HookOutput)
    ensures
        o.hook_specific_output.permission_decision@ == "deny"@,
        o.hook_specific_output.permission_decision_reason@ == "等待人工确认超时，按拒绝处理"@,
{
    HookOutput::deny(String::from_str("等待人工确认超时，按拒绝处理"))
}

/// The polling endpoint next to the decision endpoint.
pub fn await_endpoint(endpoint: &str) -> (s: String)
    ensures
        s@ == replace_all(endpoint@, "/policy/decide"@, "/policy/await"@),
{
    proof {
        reveal_strlit("/policy/decide");
    }
    replace_str(endpoint, "/policy/decide", "/policy/await")
}

/// The ways one request to the policy layer fails.
pub enum CallFailure {
    /// The request did not get through.
    Unreachable(String),
    /// A status other than success, as text (`500 Internal Server Error`).
    Status(String),
    /// The body did not read as the expected answer.
    Unreadable(String),
}

/// The refusal for a failed decision request.
pub fn decide_failure(f: &CallFailure) -> (s: String)
    ensures
        s@ == (match *f {
            CallFailure::Unreachable(e) => "连不上策略层（"@ + e@ + "），按拒绝处理"@,
            CallFailure::Status(st) => "策略层返回 "@ + st@ + "，按拒绝处理"@,
            CallFailure::Unreadable(e) => "策略层响应无法解析（"@ + e@ + "），按拒绝处理"@,
        }),
{
    match f {
        CallFailure::Unreachable(e) => {
            let mut s = String::from_str("连不上策略层（");
            s.append(e.as_str());
            s.append("），按拒绝处理");
            s
        },
        CallFailure::Status(st) => {
            let mut s = String::from_str("策略层返回 ");
            s.append(st.as_str());
            s.append("，按拒绝处理");
            s
        },
        CallFailure::Unreadable(e) => {
            let mut s = String::from_str("策略层响应无法解析（");
            s.append(e.as_str());
            s.append("），按拒绝处理");
            s
        },
    }
}

/// The error of a failed poll request (the poll adds the refusal).
pub fn poll_failure(f: &CallFailure) -> (s: String)
    ensures
        s@ == (match *f {
            CallFailure::Unreachable(e) => "连不上策略层（"@ + e@ + "）"@,
            CallFailure::Status(st) => "策略层返回 "@ + st@,
            CallFailure::Unreadable(e) => "响应无法解析（"@ + e@ + "）"@,
        }),
{
    match f {
        CallFailure::Unreachable(e) => {
            let mut s = String::from_str("连不上策略层（");
            s.append(e.as_str());
            s.append("）");
            s
        },
        CallFailure::Status(st) => {
            let mut s = String::from_str("策略层返回 ");
            s.append(st.as_str());
            s
        },
        CallFailure::Unreadable(e) => {
            let mut s = String::from_str("响应无法解析（");
            s.append(e.as_str());
            s.append("）");
            s
        },
    }
}

/// The refusal when the hook's input could not be read.
pub fn input_unreadable(error: &str) -> (s: String)
    ensures
        s@ == "读取 hook 输入失败："@ + error@,
{
    let mut s = String::from_str("读取 hook 输入失败：");
    s.append(error);
    s
}

/// The refusal when the hook's input is not the expected JSON: garbage in
/// must never get a call through.
pub fn input_malformed(error: &str) -> (s: String)
    ensures
        s@ == "hook 输入不是预期的 JSON："@ + error@,
{
    let mut s = String::from_str("hook 输入不是预期的 JSON：");
    s.append(error);
    s
}

/// The refusal when no HTTP client could be built.
pub fn client_failed(error: &str) -> (s: String)
    ensures
        s@ == "构造 HTTP 客户端失败："@ + error@,
{
    let mut s = String::from_str("构造 HTTP 客户端失败：");
    s.append(error);
    s
}

} // verus!
