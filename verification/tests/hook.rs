use ai_task::hook::{
    after_decide, after_poll, await_endpoint, client_failed, decide_failure, input_malformed,
    input_unreadable, poll_failure, timed_out, AwaitResponse, CallFailure, DecideResponse,
    HookOutput, HookStep,
};

#[test]
fn allow_and_deny_differ_only_in_the_decision_field() {
    let a = HookOutput::allow("ok".into()).hook_specific_output;
    let d = HookOutput::deny("ok".into()).hook_specific_output;
    assert_eq!(a.hook_event_name, "PreToolUse");
    assert_eq!(d.hook_event_name, "PreToolUse");
    assert_eq!(a.permission_decision, "allow");
    assert_eq!(d.permission_decision, "deny");
    assert_eq!(a.permission_decision_reason, d.permission_decision_reason);
}

#[test]
fn a_pending_ask_is_polled_and_anything_else_answered() {
    match after_decide(DecideResponse { allowed: true, reason: "r".into(), pending_approval_id: None }) {
        HookStep::Answer(o) => assert_eq!(o.hook_specific_output.permission_decision, "allow"),
        HookStep::Await(_) => panic!(),
    }
    match after_decide(DecideResponse {
        allowed: false,
        reason: "r".into(),
        pending_approval_id: Some("a1".into()),
    }) {
        HookStep::Await(id) => assert_eq!(id, "a1"),
        HookStep::Answer(_) => panic!("an open approval is polled"),
    }
    match after_decide(DecideResponse { allowed: false, reason: "no".into(), pending_approval_id: None }) {
        HookStep::Answer(o) => {
            assert_eq!(o.hook_specific_output.permission_decision, "deny");
            assert_eq!(o.hook_specific_output.permission_decision_reason, "no");
        }
        HookStep::Await(_) => panic!(),
    }
}

#[test]
fn an_unreachable_policy_layer_denies_instead_of_crashing() {
    let o = after_poll(Err(poll_failure(&CallFailure::Unreachable("refused".into()))))
        .expect("an answer");
    assert_eq!(o.hook_specific_output.permission_decision, "deny");
    assert_eq!(
        o.hook_specific_output.permission_decision_reason,
        "等待审批时失败（连不上策略层（refused）），按拒绝处理"
    );
    assert_eq!(
        decide_failure(&CallFailure::Unreachable("refused".into())),
        "连不上策略层（refused），按拒绝处理"
    );
    assert_eq!(
        decide_failure(&CallFailure::Status("500 Internal Server Error".into())),
        "策略层返回 500 Internal Server Error，按拒绝处理"
    );
    assert!(after_poll(Ok(AwaitResponse { pending: true, approved: false, reason: String::new() })).is_none());
    let ok = after_poll(Ok(AwaitResponse { pending: false, approved: true, reason: "yes".into() }))
        .expect("an answer");
    assert_eq!(ok.hook_specific_output.permission_decision, "allow");
}

#[test]
fn malformed_input_and_timeouts_deny() {
    assert_eq!(input_malformed("expected value"), "hook 输入不是预期的 JSON：expected value");
    assert_eq!(input_unreadable("eof"), "读取 hook 输入失败：eof");
    assert_eq!(client_failed("tls"), "构造 HTTP 客户端失败：tls");
    assert_eq!(timed_out().hook_specific_output.permission_decision, "deny");
}

#[test]
fn the_poll_endpoint_sits_next_to_the_decision_endpoint() {
    assert_eq!(
        await_endpoint("http://127.0.0.1:8930/api/v1/internal/policy/decide"),
        "http://127.0.0.1:8930/api/v1/internal/policy/await"
    );
}
