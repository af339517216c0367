use ai_task::approval::Verdict;
use ai_task::dag::NodeStatus;
use ai_task::engine::{
    ai_launch, ai_result, approval_step, reap_orphans, final_output_node, proxied_nodes, shell_step, ApprovalStep, ShellStep,
    ai_outcome, ai_tools, approval_result, approval_window_s, needs_remote_tools, parse_output,
    shell_cwd, shell_timeout_ms, suppressed_by_dry_run, terminal_status, translate, AiProgress,
    ExecEvent, ExecOutcome, HostSelector, NodeKind, RunEventBody, RunStatus,
    MAX_APPROVAL_WINDOW_S,
};
use ai_task::policy::PolicyEffect;
use ai_task::remote::RemoteAction;

#[test]
fn a_shadow_run_touches_nothing_outside_the_model() {
    assert!(suppressed_by_dry_run(true, NodeKind::Shell));
    assert!(suppressed_by_dry_run(true, NodeKind::Approval));
    assert!(!suppressed_by_dry_run(false, NodeKind::Shell));
    assert!(!suppressed_by_dry_run(false, NodeKind::Approval));
}

#[test]
fn a_shadow_run_still_asks_the_model() {
    assert!(!suppressed_by_dry_run(true, NodeKind::Ai));
    assert!(!suppressed_by_dry_run(true, NodeKind::Assert));
    assert!(!suppressed_by_dry_run(true, NodeKind::FanOut));
}

#[test]
fn a_remote_ai_node_loses_every_local_filesystem_tool() {
    let remote: Vec<String> = [
        RemoteAction::RemoteBash { command: String::new(), working_dir: None, timeout_s: None },
        RemoteAction::RemoteRead { path: String::new() },
        RemoteAction::RemoteWrite { path: String::new(), content: String::new() },
        RemoteAction::RemoteGlob { pattern: String::new() },
    ]
    .iter()
    .map(|a| format!("mcp__ai_task_remote__{}", a.tool()))
    .collect();
    let declared = vec!["Bash".to_string(), "Read".to_string()];
    let tools = ai_tools(Some(remote.clone()), &declared).expect("a whitelist");
    assert!(remote.iter().all(|t| t.starts_with("mcp__ai_task_remote__")));
    for local in ["Bash", "Read", "Write", "Edit", "Glob", "Grep", "NotebookEdit"] {
        assert!(
            !tools.iter().any(|t| t == local),
            "a local tool {local} slipped into the remote tool set"
        );
    }
    assert_eq!(tools.last().map(String::as_str), Some("Task"));
    assert_eq!(ai_tools(None, &Vec::new()), None);
    assert_eq!(ai_tools(None, &declared), Some(declared.clone()));
}

#[test]
fn only_ai_nodes_pinned_to_a_host_need_the_remote_proxy() {
    assert!(!needs_remote_tools(NodeKind::Ai, &None));
    assert!(!needs_remote_tools(NodeKind::Ai, &Some(HostSelector::Local)));
    assert!(needs_remote_tools(NodeKind::Ai, &Some(HostSelector::Host(7))));
    assert!(!needs_remote_tools(NodeKind::Shell, &Some(HostSelector::Host(7))));
}

#[test]
fn free_text_and_json_output_both_land_in_jsonb() {
    let mut obj = serde_json::Map::new();
    obj.insert("lines".to_string(), serde_json::Value::from(4));
    assert_eq!(parse_output(r#"{"lines": 4}"#), Some(serde_json::Value::Object(obj)));
    assert_eq!(parse_output("4"), Some(serde_json::Value::from(4)), "a bare number is JSON");
    assert_eq!(
        parse_output("一共 4 行"),
        Some(serde_json::Value::String("一共 4 行".into()))
    );
    assert_eq!(parse_output(""), None);
}

#[test]
fn terminal_exec_events_do_not_translate_to_run_events() {
    assert!(translate(ExecEvent::Finished(ExecOutcome::Cancelled)).is_empty());
}

#[test]
fn cli_permission_denials_land_in_the_audit_trail() {
    let events = translate(ExecEvent::PermissionDenied {
        tool_use_id: "t1".into(),
        tool: "Bash".into(),
        reason: "Contains command_substitution".into(),
    });
    assert_eq!(events.len(), 1);
    match &events[0] {
        RunEventBody::PolicyDecided { effect, reason, rule_id, tool_use_id } => {
            assert_eq!(*effect, PolicyEffect::Deny);
            assert_eq!(reason, "Contains command_substitution");
            assert_eq!(*rule_id, None);
            assert_eq!(tool_use_id, "t1");
        }
        _ => panic!("a permission denial must become a policy decision"),
    }
}

#[test]
fn a_budget_overrun_reports_what_was_spent() {
    let (status, error) = ai_outcome(&ExecOutcome::BudgetExceeded, "0.20");
    assert_eq!(status, NodeStatus::Failed);
    assert_eq!(error.as_deref(), Some("成本超出节点预算（已花 $0.20）"));
    let (status, error) = ai_outcome(&ExecOutcome::Cancelled, "0");
    assert_eq!(status, NodeStatus::Cancelled);
    assert_eq!(error, None);
}

#[test]
fn progress_keeps_the_final_outcome_and_the_latest_cost() {
    let mut p = AiProgress::new();
    assert!(matches!(p.outcome, ExecOutcome::Failed { .. }));
    let logged = p.absorb(ExecEvent::Usage {
        model: "m".into(),
        input_tokens: 1,
        output_tokens: 2,
        cache_read_tokens: 0,
        cache_creation_tokens: 0,
        cost_usd: 1500,
    });
    assert_eq!(logged.len(), 1);
    assert_eq!(p.cost, 1500);
    assert!(p.absorb(ExecEvent::Finished(ExecOutcome::Success { result: "ok".into() })).is_empty());
    assert!(matches!(p.outcome, ExecOutcome::Success { .. }));
}

#[test]
fn cancellation_wins_over_every_other_terminal_reason() {
    assert_eq!(terminal_status(true, true, true, true), RunStatus::Cancelled);
    assert_eq!(terminal_status(false, true, true, true), RunStatus::BudgetExceeded);
    assert_eq!(terminal_status(false, false, true, true), RunStatus::ResourceExceeded);
    assert_eq!(terminal_status(false, false, false, true), RunStatus::Failed);
    assert_eq!(terminal_status(false, false, false, false), RunStatus::Succeeded);
}

#[test]
fn shell_defaults_and_approval_windows() {
    assert_eq!(shell_cwd(None, true, "/srv/run"), ".");
    assert_eq!(shell_cwd(None, false, "/srv/run"), "/srv/run");
    assert_eq!(shell_cwd(Some("/tmp".into()), true, "/srv/run"), "/tmp");
    assert_eq!(shell_timeout_ms(Some(5)), 5000);
    assert_eq!(shell_timeout_ms(None), 30 * 60 * 1000);
    assert_eq!(approval_window_s(0), 1);
    assert_eq!(approval_window_s(600), 600);
    assert_eq!(approval_window_s(u32::MAX), MAX_APPROVAL_WINDOW_S);
}

#[test]
fn an_approval_timeout_fails_the_node() {
    let r = approval_result(&Verdict::TimedOut);
    assert_eq!(r.status, NodeStatus::Failed);
    assert!(r.error.expect("reason").contains("拒绝"));
    let ok = approval_result(&Verdict::Approved { by: Some("alice".into()), reason: None });
    assert_eq!(ok.status, NodeStatus::Succeeded);
    let out = ok.output.expect("an output");
    assert_eq!(out["approved"], serde_json::Value::Bool(true));
    assert_eq!(out["decided_by"], serde_json::Value::String("alice".into()));
    assert_eq!(out["reason"], serde_json::Value::Null);
    let c = approval_result(&Verdict::Cancelled);
    assert_eq!(c.status, NodeStatus::Cancelled);
}

#[test]
fn a_shadow_run_executes_no_shell_and_asks_nobody() {
    match shell_step(true, true, "rm -rf /", None, true, "/srv/run", None, serde_json::Value::Null) {
        ShellStep::Shadow { log, output } => {
            assert_eq!(log, "影子执行：不会真的运行 `rm -rf /`");
            assert_eq!(output["dry_run"], serde_json::Value::Bool(true));
            assert_eq!(output["executed"], serde_json::Value::Bool(false));
            assert_eq!(output["command"], serde_json::Value::String("rm -rf /".into()));
            assert_eq!(output["host"], serde_json::Value::Null);
        }
        _ => panic!("a shadow run must not execute"),
    }
    match shell_step(false, true, "ls", None, true, "/srv/run", Some(5), serde_json::Value::Null) {
        ShellStep::Execute { cwd, timeout_ms } => {
            assert_eq!(cwd, ".");
            assert_eq!(timeout_ms, 5000);
        }
        _ => panic!("a real run executes"),
    }
    match shell_step(true, false, "ls", None, false, "/srv/run", None, serde_json::Value::Null) {
        ShellStep::Fail(e) => assert!(e.starts_with("这个部署没有配置 agent 二进制")),
        _ => panic!("no agent, no shell node"),
    }
    match approval_step(true, "确认", 60, 0) {
        ApprovalStep::Shadow { log, output } => {
            assert_eq!(log, "影子执行：跳过审批门「确认」");
            assert_eq!(output["skipped"], serde_json::Value::Bool(true));
            assert_eq!(output["approved"], serde_json::Value::Bool(false));
            assert_eq!(output["dry_run"], serde_json::Value::Bool(true));
        }
        ApprovalStep::Request { .. } => panic!("a shadow run asks nobody"),
    }
    match approval_step(false, "确认", 0, 1_000) {
        ApprovalStep::Request { expires_at } => assert_eq!(expires_at, 1_000 + 1_000_000),
        ApprovalStep::Shadow { .. } => panic!(),
    }
}

#[test]
fn an_ai_node_result_carries_output_cost_and_version() {
    let mut p = AiProgress::new();
    p.absorb(ExecEvent::Finished(ExecOutcome::Success { result: "{\"n\": 1}".into() }));
    p.cost = 42;
    let r = ai_result(p, "0.00");
    assert_eq!(r.status, NodeStatus::Succeeded);
    assert_eq!(r.cost, 42);
    assert_eq!(r.output.expect("output")["n"], serde_json::Value::from(1));
    let mut p = AiProgress::new();
    p.grace_expired();
    assert_eq!(ai_result(p, "0").status, NodeStatus::Cancelled);
}

#[test]
fn the_run_output_is_that_of_the_last_node_with_one() {
    assert_eq!(final_output_node(&vec![2, 0, 1], &vec![true, false, true]), Some(0));
    assert_eq!(final_output_node(&vec![0, 1], &vec![false, false]), None);
    let nodes = vec![
        (NodeKind::Ai, Some(HostSelector::Host(1))),
        (NodeKind::Shell, Some(HostSelector::Host(1))),
        (NodeKind::Ai, None),
        (NodeKind::Ai, Some(HostSelector::Host(2))),
    ];
    assert_eq!(proxied_nodes(&nodes, true), vec![0, 3]);
    assert!(proxied_nodes(&nodes, false).is_empty());
}

#[test]
fn the_command_is_on_the_record_even_when_the_cli_never_starts() {
    let command = "agent-cli -p --node probe --output-format stream-json";
    let l = ai_launch(command, Some("spawn failed: no such file".to_string()));
    match &l.record {
        RunEventBody::AgentInvoked { command: c, ran_on } => {
            assert!(c.contains("--node probe"));
            assert_eq!(*ran_on, None);
        }
        _ => panic!("the first record is the invocation"),
    }
    let r = l.failed.expect("an unstartable CLI fails the attempt");
    assert_eq!(r.status, NodeStatus::Failed);
    assert_eq!(r.error.as_deref(), Some("spawn failed: no such file"));
}

#[test]
fn the_recorded_command_is_the_one_that_actually_ran() {
    let l = ai_launch("cli --node probe", None);
    assert!(l.failed.is_none());
    assert!(matches!(&l.record, RunEventBody::AgentInvoked { command, ran_on: None } if command == "cli --node probe"));
}

#[test]
fn restart_reaps_orphaned_runs_and_preserves_their_spend() {
    let closed = reap_orphans("new-worker", &vec![(1, Some(7_000), 0), (2, None, 300)]);
    assert_eq!(closed.len(), 2);
    assert_eq!(closed[0].run_id, 1);
    assert_eq!(closed[0].status, RunStatus::Failed);
    assert!(closed[0].error.contains("无法续跑"));
    assert!(closed[0].error.starts_with("new-worker"));
    assert_eq!(closed[0].cost, 7_000);
    assert_eq!(closed[1].cost, 300, "a failed replay keeps the recorded cost");
    assert!(reap_orphans("new-worker", &vec![]).is_empty());
}
