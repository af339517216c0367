use ai_task::engine::HostSelector;
use ai_task::host_exec::{CgroupMode, ExecResult, HostExecOutcome};
use ai_task::policy::{deny, respond, PolicyEffect};
use ai_task::remote::{
    remote_step, RemoteStep, command_for, completed_ok, heredoc_tag, no_agent, policy_refusal, preview, shell_quote,
    target_host, timeout_ms, to_response, truncate, RemoteAction, MAX_OUTPUT_CHARS,
};

fn ran(exit_code: Option<i32>, stdout: &str, stderr: &str) -> HostExecOutcome {
    HostExecOutcome {
        result: ExecResult { exit_code, killed_by_signal: None, timed_out: false, oom_killed: false },
        stdout: stdout.into(),
        stderr: stderr.into(),
        cgroup_mode: CgroupMode::Systemd,
        cgroup_detail: None,
        limits: None,
    }
}

#[test]
fn a_path_cannot_break_out_of_its_quoting() {
    for hostile in [
        "/tmp/a b",
        "'; rm -rf / #",
        "$(whoami)",
        "`id`",
        "a'b'c",
        "\\'; touch /tmp/pwned; '",
    ] {
        let quoted = shell_quote(hostile);
        assert!(quoted.starts_with('\'') && quoted.ends_with('\''));
        let inner = &quoted[1..quoted.len() - 1];
        assert!(
            !inner.contains('\'') || inner.contains(r"'\''"),
            "unsafe quoting of {hostile}: {quoted}"
        );
    }
    assert_eq!(shell_quote("a'b"), r"'a'\''b'");
}

#[test]
fn a_heredoc_tag_never_collides_with_the_content() {
    let content = "line\nAI_TASK_EOF_0\nmore";
    let tag = heredoc_tag(content);
    assert_ne!(tag, "0");
    assert!(!content.contains(&format!("AI_TASK_EOF_{tag}")));
    assert_eq!(tag, "1");
    assert_eq!(heredoc_tag("plain"), "0");
}

#[test]
fn the_tool_names_match_the_serde_tags() {
    let names: Vec<&str> = [
        RemoteAction::RemoteBash { command: "ls".into(), working_dir: None, timeout_s: None },
        RemoteAction::RemoteRead { path: "/x".into() },
        RemoteAction::RemoteWrite { path: "/x".into(), content: String::new() },
        RemoteAction::RemoteGlob { pattern: "*".into() },
    ]
    .iter()
    .map(|a| a.tool())
    .collect();
    assert_eq!(names, ["remote_bash", "remote_read", "remote_write", "remote_glob"]);
}

#[test]
fn commands_quote_every_path() {
    let (cmd, t) = command_for(&RemoteAction::RemoteRead { path: "/tmp/a b".into() });
    assert_eq!(cmd, "cat -- '/tmp/a b'");
    assert_eq!(t, 60);
    let (cmd, t) = command_for(&RemoteAction::RemoteBash {
        command: "ls".into(),
        working_dir: Some("/srv/x y".into()),
        timeout_s: None,
    });
    assert_eq!(cmd, "cd '/srv/x y' && ls");
    assert_eq!(t, 300);
    let (cmd, t) = command_for(&RemoteAction::RemoteWrite {
        path: "/etc/x".into(),
        content: "AI_TASK_EOF_0".into(),
    });
    assert_eq!(cmd, "cat > '/etc/x' <<'AI_TASK_EOF_1'\nAI_TASK_EOF_0\nAI_TASK_EOF_1");
    assert_eq!(t, 120);
    let (cmd, _) = command_for(&RemoteAction::RemoteGlob { pattern: "*.log".into() });
    assert_eq!(cmd, "ls -d -- '*.log' 2>/dev/null | head -n 500");
    assert_eq!(timeout_ms(7), 7000);
}

#[test]
fn only_a_node_pinned_to_a_host_can_act_remotely() {
    assert_eq!(target_host("n", &Some(HostSelector::Host(9))).ok(), Some(9));
    let r = target_host("n", &None).err().expect("refused");
    assert!(!r.executed);
    assert!(r.content.contains("没有声明目标主机"));
    let r = target_host("n", &Some(HostSelector::Tag("prod".into()))).err().expect("refused");
    assert!(r.content.contains("tag `prod`"));
}

#[test]
fn answers_name_what_happened() {
    let action = RemoteAction::RemoteRead { path: "/x".into() };
    let ok = to_response(&action, &ran(Some(0), "  hello \n", ""));
    assert!(ok.executed);
    assert_eq!(ok.content, "hello");
    assert_eq!(ok.exit_code, Some(0));
    let empty = to_response(&action, &ran(Some(0), " \n", ""));
    assert_eq!(empty.content, "（无输出）");
    let failed = to_response(&action, &ran(Some(1), "out", " no such file "));
    assert_eq!(failed.content, "退出码 1\nno such file");
    let write = RemoteAction::RemoteWrite { path: "/x".into(), content: "中a".into() };
    assert_eq!(to_response(&write, &ran(Some(0), "", "")).content, "已写入 /x（4 字节）");
    let mut oom = ran(None, "", "");
    oom.result.oom_killed = true;
    let r = to_response(&action, &oom);
    assert_eq!(r.exit_code, None);
    assert!(r.content.contains("内存上限"));
    assert!(completed_ok(&ran(Some(0), "", "")));
    assert!(!completed_ok(&ran(Some(2), "", "")));
}

#[test]
fn long_output_is_cut_with_a_note() {
    let long = "x".repeat(MAX_OUTPUT_CHARS + 5);
    let cut = truncate(&long);
    assert!(cut.starts_with(&"x".repeat(MAX_OUTPUT_CHARS)));
    assert!(cut.ends_with(&format!("共 {} 字符）", MAX_OUTPUT_CHARS + 5)));
    assert_eq!(truncate("short"), "short");
    assert_eq!(preview("  ", " err "), "err");
    assert_eq!(preview(&"y".repeat(300), "").chars().count(), 200);
}

#[test]
fn refusals_are_not_executions() {
    let r = policy_refusal("禁止写 /etc", Some("r1".into()));
    assert!(!r.executed);
    assert_eq!(r.content, "被策略拒绝：禁止写 /etc");
    assert_eq!(r.rule_id.as_deref(), Some("r1"));
    assert!(!no_agent().executed);
}

#[test]
fn every_remote_call_passes_the_policy_first() {
    let action = RemoteAction::RemoteRead { path: "/etc/hosts".into() };
    let host = Some(HostSelector::Host(7));
    assert!(matches!(
        remote_step("n", &host, None, true, &action),
        RemoteStep::AskPolicy { host_id: 7 }
    ));
    let refused = deny("写 /etc 需要确认", Some("r1".into()), false);
    match remote_step("n", &host, Some(&refused), true, &action) {
        RemoteStep::Refuse(r) => {
            assert!(!r.executed);
            assert_eq!(r.content, "被策略拒绝：写 /etc 需要确认");
            assert_eq!(r.rule_id.as_deref(), Some("r1"));
        }
        _ => panic!("a refused action is not executed"),
    }
    let allowed = respond(PolicyEffect::Allow, "ok".into(), None, false, None);
    match remote_step("n", &host, Some(&allowed), false, &action) {
        RemoteStep::Refuse(r) => assert_eq!(r.content, "这个部署没有配置 agent 二进制，远端动作不可用"),
        _ => panic!("no agent, nothing runs"),
    }
    match remote_step("n", &host, Some(&allowed), true, &action) {
        RemoteStep::Execute { host_id, command, timeout_ms } => {
            assert_eq!(host_id, 7);
            assert_eq!(command, "cat -- '/etc/hosts'");
            assert_eq!(timeout_ms, 60_000);
        }
        _ => panic!("an allowed action runs"),
    }
    match remote_step("n", &None, Some(&allowed), true, &action) {
        RemoteStep::Refuse(r) => assert!(r.content.contains("没有声明目标主机")),
        _ => panic!("a node without a host never acts remotely"),
    }
}
