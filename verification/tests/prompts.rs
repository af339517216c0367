use ai_task::engine::{
    collect_skill_names, compose_node_prompt, compose_prompt, compose_rules, drift_paths,
    orphan_cost, orphan_reason, shadow_shell_message, skills_message, unsupported_node,
    PromptRule, SkillSource,
};
use ai_task::dag::NodeStatus;

#[test]
fn a_node_prompt_lays_out_item_inputs_and_feedback_in_order() {
    let p = compose_prompt(
        "检查磁盘",
        Some("\"h1\""),
        &vec![("probe".to_string(), "{}".to_string())],
        Some("超时"),
    );
    assert_eq!(
        p,
        "检查磁盘\n\n## 本次处理的元素\n\n```json\n\"h1\"\n```\n\n## 上游输入\n\n### probe\n\n```json\n{}\n```\n\n\n## 上一次尝试失败了\n\n超时\n\n             请针对这个原因调整做法，不要原样重来。"
    );
    assert_eq!(compose_prompt("only", None, &Vec::new(), None), "only");
}

#[test]
fn node_prompt_values_are_pretty_printed() {
    let mut obj = serde_json::Map::new();
    obj.insert("lines".to_string(), serde_json::Value::from(4));
    let p = compose_node_prompt(
        "x",
        None,
        &vec![("count".to_string(), serde_json::Value::Object(obj))],
        None,
    );
    assert_eq!(p, "x\n\n## 上游输入\n\n### count\n\n```json\n{\n  \"lines\": 4\n}\n```\n");
}

#[test]
fn soft_rules_are_numbered_and_blank_ones_dropped() {
    let rules = vec![
        PromptRule { name: "只读".into(), text: " 不要写文件 ".into() },
        PromptRule { name: "空".into(), text: "   ".into() },
        PromptRule { name: "慢".into(), text: "先确认".into() },
    ];
    let block = compose_rules(&rules).expect("two rules have text");
    assert!(block.starts_with("以下是本次执行必须遵守的规则，按优先级排列：\n1. [只读] 不要写文件\n2. [慢] 先确认\n\n"));
    assert_eq!(compose_rules(&vec![PromptRule { name: "空".into(), text: "".into() }]), None);
}

#[test]
fn skill_names_are_sorted_and_deduplicated() {
    let nodes = vec![
        SkillSource { skills: vec!["b".into(), "a".into()], template: None },
        SkillSource {
            skills: vec![],
            template: Some(Box::new(SkillSource { skills: vec!["b".into(), "c".into()], template: None })),
        },
    ];
    assert_eq!(collect_skill_names(&nodes), vec!["a", "b", "c"]);
    assert_eq!(
        skills_message(&vec!["a".into(), "b".into()], 1, 0).as_deref(),
        Some("已装载 skills：a, b")
    );
    assert_eq!(skills_message(&vec!["a".into()], 2, 0), None);
}

#[test]
fn interrupted_runs_keep_what_they_spent() {
    assert_eq!(orphan_cost(Some(30), 10), 30);
    assert_eq!(orphan_cost(None, 10), 10);
    assert_eq!(orphan_reason("worker-1"), "worker-1 重启时发现这个 run 的执行进程已消失，无法续跑");
    assert_eq!(shadow_shell_message("rm -rf /"), "影子执行：不会真的运行 `rm -rf /`");
    let r = unsupported_node("judge");
    assert_eq!(r.status, NodeStatus::Failed);
    let paths: Vec<String> = (0..25).map(|i| format!("$.a[{i}]")).collect();
    assert_eq!(drift_paths(&paths).len(), 20);
    assert_eq!(drift_paths(&paths[..3].to_vec()), paths[..3].to_vec());
}
