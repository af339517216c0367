use ai_task::access::InternalToken;
use ai_task::approval::Verdict;
use ai_task::error::AppError;
use ai_task::policy::{
    approval_title, decided, policy_preflight, finished_run_response, host_scope, judge, normalize_tool, respond,
    still_pending, verify_token, await_step, AwaitStep, AskResolution, HostLookup, PolicyEffect,
};

#[test]
fn both_gates_match_the_same_rule_for_one_action() {
    assert_eq!(normalize_tool("mcp__ai_task_remote__remote_write"), "remote_write");
    assert_eq!(normalize_tool("remote_write"), "remote_write");
}

#[test]
fn only_our_own_server_prefix_is_stripped() {
    assert_eq!(
        normalize_tool("mcp__somebody_else__remote_write"),
        "mcp__somebody_else__remote_write"
    );
    assert_eq!(normalize_tool("Bash"), "Bash");
    assert_eq!(normalize_tool(""), "");
}

#[test]
fn a_shadow_run_holds_back_writes_whatever_the_policy_said() {
    let (effect, reason, _) = judge(true, true, "remote_write", PolicyEffect::Allow, "", &None, "n", "t1");
    assert_eq!(effect, PolicyEffect::Deny);
    assert_eq!(
        reason,
        "影子执行：`remote_write` 是写类工具，只记录意图不执行（策略本身是 Allow）"
    );
    let (effect, reason, _) = judge(true, false, "remote_read", PolicyEffect::Allow, "", &None, "n", "t2");
    assert_eq!(effect, PolicyEffect::Allow);
    assert_eq!(reason, "策略放行");
    let (effect, reason, _) = judge(false, true, "remote_write", PolicyEffect::Ask, "prod 写需确认", &None, "n", "t3");
    assert_eq!(effect, PolicyEffect::Ask);
    assert_eq!(reason, "prod 写需确认");
}

#[test]
fn an_ask_answers_with_the_verdict_or_the_open_approval() {
    let r = respond(
        PolicyEffect::Ask,
        "要确认".into(),
        Some("r1".into()),
        false,
        Some(AskResolution::Decided(Verdict::TimedOut)),
    );
    assert!(!r.allowed);
    assert_eq!(r.reason, "等待审批超时，按拒绝处理");
    let r = respond(
        PolicyEffect::Ask,
        "要确认".into(),
        None,
        false,
        Some(AskResolution::Pending("a1".into())),
    );
    assert!(!r.allowed);
    assert_eq!(r.reason, "要确认（等待人工确认）");
    assert_eq!(r.pending_approval_id.as_deref(), Some("a1"));
    assert!(respond(PolicyEffect::Allow, "ok".into(), None, false, None).allowed);
    assert!(!respond(PolicyEffect::Ask, "x".into(), None, false, None).allowed);
}

#[test]
fn unreadable_host_tags_are_a_refusal_not_an_empty_scope() {
    assert!(host_scope(HostLookup::NoHost, false).expect("scope").is_empty());
    assert_eq!(
        host_scope(HostLookup::Tags(vec!["prod".into()]), false).expect("scope"),
        vec!["prod".to_string()]
    );
    let r = host_scope(HostLookup::Unreadable, true).err().expect("refused");
    assert!(!r.allowed && r.dry_run);
    let r = host_scope(HostLookup::Missing("h1".into()), false).err().expect("refused");
    assert_eq!(r.reason, "目标主机 h1 不存在，无法判定它的策略范围");
}

#[test]
fn the_internal_token_is_required() {
    let t = InternalToken::new("tok".into());
    assert!(verify_token(&t, Some("tok")).is_ok());
    match verify_token(&t, None) {
        Err(AppError::Unauthorized(m)) => assert_eq!(m, "内部接口令牌不匹配"),
        _ => panic!("a missing token is refused"),
    }
    assert!(verify_token(&t, Some("tok2")).is_err());
}

#[test]
fn poll_answers_and_leftover_calls() {
    let p = still_pending();
    assert!(p.pending && !p.approved);
    let d = decided(false, None);
    assert_eq!(d.reason, "已拒绝");
    assert_eq!(decided(true, Some("ok".into())).reason, "ok");
    assert!(!finished_run_response().allowed);
    assert_eq!(approval_title("remote_write"), "remote_write 需要确认");
}

#[test]
fn a_call_for_a_finished_run_is_refused_before_anything_else() {
    let (r, _) = policy_preflight(true, false, HostLookup::Tags(vec!["prod".into()]), "n", "t").err().expect("refused");
    assert!(!r.allowed);
    assert_eq!(r.reason, "这次执行已经结束，残留的工具调用一律拒绝");
    assert_eq!(
        policy_preflight(false, false, HostLookup::Tags(vec!["prod".into()]), "n", "t").expect("scope"),
        vec!["prod".to_string()]
    );
    assert!(policy_preflight(false, true, HostLookup::Unreadable, "n", "t").is_err());
}

#[test]
fn the_long_poll_answers_a_verdict_expires_overdue_ones_and_ends_its_slice() {
    match await_step(Some((false, None)), None, false) {
        AwaitStep::Answer(r) => {
            assert!(!r.pending && !r.approved);
            assert_eq!(r.reason, "已拒绝");
        }
        _ => panic!("a verdict is answered at once"),
    }
    assert!(matches!(await_step(None, None, true), AwaitStep::Expire));
    assert!(matches!(await_step(None, Some(true), true), AwaitStep::Recheck));
    assert!(matches!(await_step(None, Some(false), false), AwaitStep::Sleep));
    match await_step(None, Some(false), true) {
        AwaitStep::Answer(r) => {
            assert!(r.pending);
            assert_eq!(r.reason, "等待人工确认");
        }
        _ => panic!("the slice is over"),
    }
}

#[test]
fn every_verdict_enters_the_event_log_early_refusals_included() {
    let (resp, e) = policy_preflight(true, false, HostLookup::NoHost, "deploy", "toolu_1").err().expect("refused");
    assert_eq!(e.node_key, "deploy");
    assert_eq!(e.tool_use_id, "toolu_1");
    assert_eq!(e.effect, PolicyEffect::Deny);
    assert_eq!(e.rule_id, None);
    assert_eq!(e.reason, resp.reason);
    let (resp, e) = policy_preflight(false, true, HostLookup::Missing("h9".into()), "deploy", "toolu_2").err().expect("refused");
    assert_eq!(e.reason, "目标主机 h9 不存在，无法判定它的策略范围");
    assert_eq!(e.reason, resp.reason);
    assert_eq!(e.tool_use_id, "toolu_2");
    let (effect, reason, e) = judge(false, true, "remote_write", PolicyEffect::Ask, "prod 写需确认", &Some("r7".into()), "deploy", "toolu_3");
    assert_eq!(e.effect, effect);
    assert_eq!(e.reason, reason);
    assert_eq!(e.rule_id.as_deref(), Some("r7"));
    assert_eq!(e.tool_use_id, "toolu_3");
}
