use ai_task::dag::{
    after_attempt, apply_output_contract, assert_missing_input, assert_node_result,
    assertion_failed, batch_end, cancel_reason, cancelled_attempt, input_error_message,
    join_strings, map_over_error, map_slot, map_status, max_attempts, plan_map, schema_violations,
    after_batch, dag_step, DagRun, stop_on_cancel, DagAction, MapRun, RetryState, map_output, AttemptStep, Cmp, DagEdge, DagGraph, DagNode, DagTally, MapSlot, NodeResult, NodeStatus,
    RunState,
};

fn graph() -> DagGraph {
    // probe -> recover (on failure), probe -> report, sink has no edges
    DagGraph {
        nodes: vec![
            DagNode { key: "probe".into(), fail_fast: true },
            DagNode { key: "recover".into(), fail_fast: false },
            DagNode { key: "report".into(), fail_fast: false },
            DagNode { key: "audit".into(), fail_fast: false },
        ],
        edges: vec![
            DagEdge { from: 0, to: 1, on_failure: true },
            DagEdge { from: 0, to: 2, on_failure: false },
        ],
    }
}

#[test]
fn roots_are_ready_first_and_successors_wait_for_their_upstream() {
    let g = graph();
    let mut st = RunState::new(&g);
    let round = st.take_ready(&g, &vec![false, false]);
    assert_eq!(round.ready, vec![0, 3]);
    assert!(round.skipped.is_empty());
    let again = st.take_ready(&g, &vec![false, false]);
    assert!(again.ready.is_empty(), "started nodes are not handed out twice");
    assert!(again.skipped.is_empty(), "upstream is still running");
}

#[test]
fn a_failure_edge_routes_around_the_failed_node() {
    let g = graph();
    let mut st = RunState::new(&g);
    st.take_ready(&g, &vec![false, false]);
    st.finish(0, NodeStatus::Failed);
    st.finish(3, NodeStatus::Succeeded);
    assert!(!st.should_stop(&g), "a failure edge handles the failure");
    let round = st.take_ready(&g, &vec![true, false]);
    assert_eq!(round.ready, vec![1]);
    assert_eq!(round.skipped.len(), 1);
    assert_eq!(round.skipped[0].0, 2);
    assert_eq!(round.skipped[0].1, "入边条件全部不满足：probe(Failed)");
    assert_eq!(st.status_of(2), NodeStatus::Skipped);
}

#[test]
fn fail_fast_without_a_failure_edge_stops_the_run() {
    let g = DagGraph {
        nodes: vec![
            DagNode { key: "b".into(), fail_fast: true },
            DagNode { key: "a".into(), fail_fast: false },
        ],
        edges: vec![DagEdge { from: 0, to: 1, on_failure: false }],
    };
    let mut st = RunState::new(&g);
    st.take_ready(&g, &vec![false]);
    st.finish(0, NodeStatus::Failed);
    assert!(st.should_stop(&g));
    let skipped = st.cancel_pending(&g);
    assert_eq!(skipped, vec![1]);
    assert_eq!(st.status_of(1), NodeStatus::Skipped);
    assert_eq!(cancel_reason(false, false), "上游失败，按 fail_fast 停止");
    assert_eq!(cancel_reason(true, true), "run 已被取消");
    assert_eq!(cancel_reason(false, true), "预算已用尽，未启动");
}

#[test]
fn cancelling_leaves_no_node_pending_and_orders_by_key() {
    let g = graph();
    let mut st = RunState::new(&g);
    let skipped = st.cancel_pending(&g);
    assert_eq!(skipped, vec![3, 0, 1, 2], "audit < probe < recover < report");
    for i in 0..4 {
        assert_eq!(st.status_of(i), NodeStatus::Skipped);
    }
}

#[test]
fn a_shell_node_retry_does_not_claim_to_have_fed_a_model() {
    match after_attempt(1, 3, NodeStatus::Failed, &Some("boom".into()), true, false) {
        AttemptStep::Retry { reason, feeds_model } => {
            assert_eq!(reason, "boom");
            assert!(!feeds_model);
        }
        AttemptStep::Finish => panic!("attempts are left"),
    }
    match after_attempt(1, 3, NodeStatus::Failed, &None, true, true) {
        AttemptStep::Retry { reason, feeds_model } => {
            assert_eq!(reason, "未给出原因");
            assert!(feeds_model);
        }
        AttemptStep::Finish => panic!(),
    }
    assert!(matches!(after_attempt(3, 3, NodeStatus::Failed, &None, true, true), AttemptStep::Finish));
    assert!(matches!(after_attempt(1, 3, NodeStatus::Succeeded, &None, true, true), AttemptStep::Finish));
    assert_eq!(max_attempts(0), 1);
    assert_eq!(max_attempts(4), 4);
}

#[test]
fn a_schema_violation_fails_a_successful_node() {
    let ok = NodeResult::succeeded(Some(serde_json::Value::from(1)));
    let r = apply_output_contract(ok, Some(vec!["缺少 total".into(), "count 不是整数".into()]));
    assert_eq!(r.status, NodeStatus::Failed);
    assert_eq!(r.error.as_deref(), Some("输出不符合契约：缺少 total；count 不是整数"));
    let failed = NodeResult::failed("x".into());
    let r = apply_output_contract(failed, Some(vec!["y".into()]));
    assert_eq!(r.error.as_deref(), Some("x"));
}

#[test]
fn map_caps_the_item_count_and_says_so() {
    let p = plan_map(25, 10, 4);
    assert_eq!(p.taken, 10);
    assert_eq!(p.available, 25);
    assert!(p.over_limit);
    assert_eq!(p.parallel, 4);
    assert_eq!(batch_end(8, 4, 10), 10);
    assert_eq!(batch_end(0, 4, 10), 4);
    let p = plan_map(0, 10, 0);
    assert_eq!(p.parallel, 1);
    assert!(!p.over_limit);
    assert_eq!(
        ai_task::dag::map_over_limit_message(&plan_map(25, 10, 4), 10),
        "上游给了 25 项，超过 max_items=10，只处理前 10 项"
    );
}

#[test]
fn a_non_array_over_fails_the_map_node_with_a_readable_reason() {
    assert_eq!(map_over_error(&serde_json::Value::Array(Vec::new())), None);
    assert_eq!(
        map_over_error(&serde_json::Value::from(3)).as_deref(),
        Some("map 的 over 必须求值成数组，实际得到 数字")
    );
    assert_eq!(
        map_over_error(&serde_json::Value::Null).as_deref(),
        Some("map 的 over 必须求值成数组，实际得到 null")
    );
}

#[test]
fn a_failed_branch_keeps_its_slot() {
    let failed = NodeResult::failed("分支挂了".into());
    match map_slot(Some(&failed)) {
        MapSlot::Failed(e) => assert_eq!(e, "分支挂了"),
        MapSlot::Output => panic!(),
    }
    match map_slot(None) {
        MapSlot::Failed(e) => assert_eq!(e, "未执行（run 已取消）"),
        MapSlot::Output => panic!(),
    }
    assert!(matches!(map_slot(Some(&NodeResult::succeeded(None))), MapSlot::Output));
    assert_eq!(map_status(false, &Some("x".into())), NodeStatus::Failed);
    assert_eq!(map_status(true, &Some("x".into())), NodeStatus::Cancelled);
    assert_eq!(map_status(false, &None), NodeStatus::Succeeded);
}

#[test]
fn an_assert_without_its_input_is_a_spec_error_not_an_assertion_failure() {
    let r = assert_node_result(Err(assert_missing_input()));
    assert_eq!(r.status, NodeStatus::Failed);
    assert!(r.error.expect("reason").contains("value"));
}

#[test]
fn assertion_messages_show_both_sides() {
    assert_eq!(
        assertion_failed(&serde_json::Value::from(2), Cmp::Gt, &serde_json::Value::from(3)),
        "断言不成立：2 > 3"
    );
    assert_eq!(
        assertion_failed(&serde_json::Value::String("a".into()), Cmp::NotExists, &serde_json::Value::Null),
        "断言不成立：\"a\" not exists null"
    );
    let ok = assert_node_result(Ok(Ok(())));
    assert_eq!(ok.status, NodeStatus::Succeeded);
    let out = ok.output.expect("an output");
    assert_eq!(out["passed"], serde_json::Value::Bool(true));
    assert_eq!(out.as_object().expect("an object").len(), 1);
    assert_eq!(schema_violations(&vec!["a".into(), "b".into()]), "a；b");
    assert_eq!(join_strings(&Vec::new(), ","), "");
    assert_eq!(input_error_message("x", "missing"), "输入 `x` 求值失败：missing");
}

#[test]
fn a_run_stops_starting_nodes_once_the_budget_is_spent() {
    let mut t = DagTally::new();
    t.record(NodeStatus::Succeeded, None, 100_000, Some("1.0".into()));
    assert!(!t.budget_spent(Some(150_000)));
    t.record(NodeStatus::Failed, Some("first".into()), 100_000, None);
    t.record(NodeStatus::Failed, Some("second".into()), 0, None);
    assert_eq!(t.total_cost, 200_000);
    assert!(t.budget_spent(Some(150_000)));
    assert!(!t.budget_spent(None));
    assert_eq!(t.failure.as_deref(), Some("first"));
    assert_eq!(t.cli_version.as_deref(), Some("1.0"));
    let c = cancelled_attempt(7, None);
    assert_eq!(c.status, NodeStatus::Cancelled);
    assert_eq!(c.cost, 7);
}

#[test]
fn the_budget_stops_new_nodes_and_skips_the_rest() {
    let g = graph();
    let mut st = RunState::new(&g);
    st.take_ready(&g, &vec![false, false]);
    st.finish(0, NodeStatus::Succeeded);
    st.finish(3, NodeStatus::Succeeded);
    let mut t = DagTally::new();
    t.record(NodeStatus::Succeeded, None, 200_000, None);
    let report = after_batch(&mut st, &g, &mut t, Some(150_000), "0.20", "0.15").expect("stops");
    assert_eq!(report.reason, "预算已用尽，未启动");
    assert_eq!(report.log.as_deref(), Some("已花费 $0.20 达到预算上限 $0.15，不再启动新节点"));
    assert_eq!(report.skipped, vec![1, 2]);
    assert!(t.budget_exceeded);
    assert_eq!(t.failure.as_deref(), Some("预算 $0.15 已用尽（实际花费 $0.20），剩余节点未执行"));
    assert_eq!(st.status_of(1), NodeStatus::Skipped);
}

#[test]
fn a_run_under_budget_finishes_normally() {
    let g = graph();
    let mut st = RunState::new(&g);
    st.take_ready(&g, &vec![false, false]);
    st.finish(0, NodeStatus::Succeeded);
    let mut t = DagTally::new();
    t.record(NodeStatus::Succeeded, None, 1_000, None);
    assert!(after_batch(&mut st, &g, &mut t, Some(1_000_000), "0.001", "1").is_none());
    assert!(!t.budget_exceeded);
    assert_eq!(st.status_of(2), NodeStatus::Pending);
}

#[test]
fn cancelling_stops_starting_new_nodes_and_skips_the_rest() {
    let g = graph();
    let mut st = RunState::new(&g);
    let mut t = DagTally::new();
    let report = stop_on_cancel(&mut st, &g, &mut t);
    assert!(t.cancelled);
    assert_eq!(report.reason, "run 已被取消");
    assert_eq!(report.skipped.len(), 4);
}

#[test]
fn map_batches_cover_every_item_once_in_order() {
    let mut m = MapRun::new(&plan_map(10, 10, 4));
    let mut seen = Vec::new();
    while let Some((a, b)) = m.next_batch(false) {
        seen.push((a, b));
        for _ in a..b {
            m.record(NodeStatus::Succeeded, None, 1, None);
        }
    }
    assert_eq!(seen, vec![(0, 4), (4, 8), (8, 10)]);
    assert_eq!(m.tally.total_cost, 10);
    assert_eq!(m.status(false), NodeStatus::Succeeded);
    let mut c = MapRun::new(&plan_map(10, 10, 4));
    assert_eq!(c.next_batch(true), None, "no batch starts after a cancellation");
    c.record(NodeStatus::Failed, Some("x".into()), 0, None);
    assert_eq!(c.status(false), NodeStatus::Failed);
}

#[test]
fn a_failed_ai_attempt_is_retried_with_its_error_fed_back() {
    let mut st = RetryState::new(2);
    assert!(st.before_attempt(false).is_none());
    let step = st.after_attempt(NodeStatus::Failed, &Some("boom".to_string()), 7, Some("1.0".to_string()), true, true);
    match step {
        AttemptStep::Retry { reason, feeds_model } => {
            assert_eq!(reason, "boom");
            assert!(feeds_model);
        }
        AttemptStep::Finish => panic!("a first failure with attempts left retries"),
    }
    assert_eq!(st.attempt, 2);
    assert_eq!(st.feedback.as_deref(), Some("boom"));
    let last = st.after_attempt(NodeStatus::Failed, &None, 3, None, true, true);
    assert!(matches!(last, AttemptStep::Finish));
    assert_eq!(st.attempt, 2);
    assert_eq!(st.last_cost, 3);
}

#[test]
fn a_cancelled_run_starts_no_further_attempt() {
    let mut st = RetryState::new(3);
    let _ = st.after_attempt(NodeStatus::Failed, &None, 5, Some("2.1".to_string()), false, false);
    assert_eq!(st.feedback, None);
    let r = st.before_attempt(true).expect("cancelled");
    assert_eq!(r.status, NodeStatus::Cancelled);
    assert_eq!(r.cost, 5);
    assert_eq!(r.cli_version.as_deref(), Some("2.1"));
}

#[test]
fn a_dag_runs_round_by_round_until_nothing_is_left() {
    let g = graph();
    let mut st = RunState::new(&g);
    let mut tally = DagTally::new();
    match dag_step(&mut st, &g, &mut tally, false, &vec![false, false]) {
        DagAction::Run(r) => assert_eq!(r.ready, vec![0, 3]),
        _ => panic!("the roots start first"),
    }
    st.finish(0, NodeStatus::Succeeded);
    st.finish(3, NodeStatus::Succeeded);
    match dag_step(&mut st, &g, &mut tally, false, &vec![false, true]) {
        DagAction::Run(r) => {
            assert_eq!(r.ready, vec![2]);
            assert_eq!(r.skipped.len(), 1);
            assert_eq!(r.skipped[0].0, 1);
        }
        _ => panic!("the success edge passes"),
    }
    st.finish(2, NodeStatus::Succeeded);
    assert!(matches!(dag_step(&mut st, &g, &mut tally, false, &vec![false, true]), DagAction::Done));
    assert!(!tally.cancelled);
}

#[test]
fn a_cancelled_dag_starts_nothing_more() {
    let g = graph();
    let mut st = RunState::new(&g);
    let mut tally = DagTally::new();
    match dag_step(&mut st, &g, &mut tally, true, &vec![false, false]) {
        DagAction::Stop(rep) => {
            assert_eq!(rep.skipped.len(), 4);
            assert_eq!(rep.reason, "run 已被取消");
        }
        _ => panic!("a cancelled run stops"),
    }
    assert!(tally.cancelled);
    assert_eq!(st.status_of(0), NodeStatus::Skipped);
}

#[test]
fn once_the_budget_is_spent_no_node_ever_starts_again() {
    let g = graph();
    let mut run = DagRun::new(&g);
    match run.round(&g, false, &vec![false, false]) {
        DagAction::Run(r) => {
            for i in r.ready {
                run.finish(&g, i, NodeStatus::Succeeded, None, 100_000, None);
            }
        }
        _ => panic!("the roots start"),
    }
    let rep = run.after_batch(&g, Some(150_000), "0.20", "0.15").expect("over budget");
    assert_eq!(rep.skipped, vec![1, 2]);
    assert!(run.stopped);
    assert!(run.tally.budget_exceeded);
    // whatever the edges say now, nothing starts
    assert!(matches!(run.round(&g, false, &vec![true, true]), DagAction::Done));
    assert!(matches!(run.round(&g, true, &vec![true, true]), DagAction::Done));
    assert!(run.after_batch(&g, Some(150_000), "0.20", "0.15").is_none());
}

#[test]
fn a_failed_branch_does_not_lose_the_other_branches_results() {
    let results = vec![
        Some(NodeResult::failed("分支挂了".into())),
        Some(NodeResult::succeeded(Some(serde_json::Value::from(7)))),
        Some(NodeResult::succeeded(None)),
        None,
    ];
    let out = map_output(results);
    let array = out.as_array().expect("an array");
    assert_eq!(array.len(), 4, "a failed branch keeps its slot");
    assert_eq!(array[0]["__failed"], serde_json::Value::Bool(true));
    assert_eq!(array[0]["error"], serde_json::Value::String("分支挂了".into()));
    assert_eq!(array[1], serde_json::Value::from(7));
    assert_eq!(array[2], serde_json::Value::Null);
    assert_eq!(array[3]["error"], serde_json::Value::String("未执行（run 已取消）".into()));
}
