use ai_task::dag::NodeStatus;
use ai_task::host_exec::{
    degraded_record, first_line, host_degraded, is_resource_exceeded, shell_node_result, shell_result,
    to_agent_limits, to_node_result, CgroupMode, ExecResult, HostExecOutcome, ResourceLimits,
    ShellVerdict, closing_sample, exec_target, ExecTarget, MetricSample, ResourceUsage,
};
use ai_task::engine::HostSelector;

fn outcome(exec: ExecResult) -> HostExecOutcome {
    HostExecOutcome {
        result: exec,
        stdout: String::new(),
        stderr: String::new(),
        cgroup_mode: CgroupMode::Systemd,
        cgroup_detail: None,
        limits: None,
    }
}

fn exec(exit_code: Option<i32>) -> ExecResult {
    ExecResult {
        exit_code,
        killed_by_signal: None,
        timed_out: false,
        oom_killed: false,
    }
}

fn failure(o: &HostExecOutcome) -> String {
    match to_node_result(o) {
        ShellVerdict::Failed(e) => e,
        ShellVerdict::Succeeded { .. } => panic!("expected a failure"),
    }
}

#[test]
fn an_oom_kill_is_not_reported_as_an_ordinary_command_failure() {
    let mut killed = exec(None);
    killed.oom_killed = true;
    let mut killed = outcome(killed);
    killed.limits = Some(ResourceLimits {
        memory_mib: Some(512),
        cpu_percent: None,
        pids_max: None,
    });
    assert!(is_resource_exceeded(&killed));
    let result = shell_node_result(to_node_result(&killed));
    assert_eq!(result.status, NodeStatus::Failed);
    let error = result.error.expect("has a reason");
    assert!(error.contains("512 MiB"), "reports the declared limit: {error}");
    assert!(!error.contains("13"), "no sampled peak in the reason: {error}");
    assert!(!is_resource_exceeded(&outcome(exec(Some(1)))));
}

#[test]
fn an_oom_kill_without_a_declared_limit_still_says_what_happened() {
    let mut killed = exec(None);
    killed.oom_killed = true;
    let error = failure(&outcome(killed));
    assert!(error.contains("内存上限"), "{error}");
}

#[test]
fn a_timeout_says_it_also_killed_the_children() {
    let mut timed = exec(None);
    timed.timed_out = true;
    let error = failure(&outcome(timed));
    assert!(error.contains("子进程"), "{error}");
}

#[test]
fn a_successful_command_exposes_stdout_to_downstream_nodes() {
    let mut ok = outcome(exec(Some(0)));
    ok.stdout = "  42\n".into();
    match to_node_result(&ok) {
        ShellVerdict::Succeeded { stdout, stderr } => {
            assert_eq!(stdout, "42");
            assert_eq!(stderr, "");
            let result = shell_result(&ok);
            assert_eq!(result.status, NodeStatus::Succeeded);
            let output = result.output.expect("has output");
            assert_eq!(output["stdout"], serde_json::Value::String("42".into()));
            assert_eq!(output["stderr"], serde_json::Value::String(String::new()));
            assert_eq!(output["exit_code"], serde_json::Value::from(0));
            assert_eq!(output.as_object().expect("an object").len(), 3);
        }
        ShellVerdict::Failed(e) => panic!("exit 0 is a success: {e}"),
    }
}

#[test]
fn a_failing_command_surfaces_the_first_line_of_stderr() {
    let mut failed = outcome(exec(Some(2)));
    failed.stderr = "\n\ncp: cannot stat '/nope': No such file\nmore noise\n".into();
    let error = failure(&failed);
    assert!(error.contains("退出码 2"), "{error}");
    assert!(error.contains("cannot stat"), "{error}");
    assert!(!error.contains("more noise"), "first line only: {error}");
}

#[test]
fn limits_are_converted_to_bytes() {
    let limits = to_agent_limits(ResourceLimits {
        memory_mib: Some(512),
        cpu_percent: Some(200),
        pids_max: Some(64),
    });
    assert_eq!(limits.memory_max_bytes, Some(512 * 1024 * 1024));
    assert_eq!(limits.cpu_quota_percent, Some(200));
    assert_eq!(limits.pids_max, Some(64));
}

#[test]
fn a_signal_kill_names_the_signal() {
    let mut killed = exec(None);
    killed.killed_by_signal = Some(9);
    assert_eq!(failure(&outcome(killed)), "命令被信号 9 终止");
}

#[test]
fn stdout_stands_in_when_stderr_is_blank() {
    let mut failed = outcome(exec(Some(1)));
    failed.stdout = "  \nfirst\nsecond".into();
    assert_eq!(failure(&failed), "命令退出码 1：first");
    assert_eq!(first_line("\n  \n"), None);
}

#[test]
fn degraded_attribution_is_recorded_once() {
    let mut o = outcome(exec(Some(0)));
    o.cgroup_mode = CgroupMode::Absent;
    o.cgroup_detail = Some("no cgroup v2".into());
    assert_eq!(
        degraded_record(&o, 1),
        Some(("none".to_string(), Some("no cgroup v2".to_string())))
    );
    assert_eq!(degraded_record(&o, 2), None);
    o.cgroup_mode = CgroupMode::Systemd;
    assert_eq!(degraded_record(&o, 1), None);
}

#[test]
fn a_host_that_was_never_probed_is_not_reported_as_healthy() {
    assert!(!host_degraded(Some("systemd")));
    assert!(host_degraded(Some("proc")));
    assert!(!host_degraded(None));
}

#[test]
fn a_command_runs_locally_or_on_its_host_and_a_tag_is_refused() {
    assert_eq!(exec_target(&None), Ok(ExecTarget::Local));
    assert_eq!(exec_target(&Some(HostSelector::Local)), Ok(ExecTarget::Local));
    assert_eq!(exec_target(&Some(HostSelector::Host(7))), Ok(ExecTarget::Remote(7)));
    assert_eq!(
        exec_target(&Some(HostSelector::Tag("prod".into()))),
        Err("按 tag 选主机（tag=prod）在 M4 里还没实现，先用 host_id 指定".to_string())
    );
}

#[test]
fn a_closing_point_is_added_only_when_nothing_was_sampled() {
    let u = ResourceUsage { cpu_usec: 1_500, rss_bytes: 4 << 20, peak_rss_bytes: 9 << 20, pids: 3 };
    assert_eq!(
        closing_sample(0, Some(u), 1_000),
        Some(MetricSample { at: 1_000, cpu_usec: 1_500, rss_bytes: 9 << 20, pids: 3 })
    );
    assert_eq!(closing_sample(2, Some(u), 1_000), None, "real samples get no false drop at the end");
    assert_eq!(closing_sample(0, None, 1_000), None);
    let huge = ResourceUsage { cpu_usec: u64::MAX, rss_bytes: u64::MAX, peak_rss_bytes: 0, pids: u64::MAX };
    assert_eq!(
        closing_sample(0, Some(huge), 5),
        Some(MetricSample { at: 5, cpu_usec: i64::MAX, rss_bytes: i64::MAX, pids: i32::MAX })
    );
}
