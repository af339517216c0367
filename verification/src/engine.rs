//! Decisions of the run engine: how a run ends, which nodes a shadow run
//! holds back, which tools a node gets, and the text a node is given.
//!
//! Reading the run from the store, preparing the work directory and driving
//! the executor are the caller's work.

use vstd::prelude::*;

use crate::approval::{describe_verdict, Verdict};
use crate::dag::{NodeResult, NodeStatus};
use crate::json::{
    entry, entry_views, json_bool, json_bool_of, json_object, json_object_of, json_opt_string, json_string,
    json_string_of, opt_string_json,
};
use crate::text::{
    decimal, is_blank, is_blank_str, join, lex_le, lemma_lex_antisym, push_decimal, sort_strings,
    sorted_strs, str_le, trim, trim_str,
};

verus! {

/// How long a cancelled executor gets to wind down before the node is
/// closed anyway (milliseconds).
pub const CANCEL_GRACE_MS: u64 = 10_000;

/// Default shell timeout: 30 minutes.
pub const DEFAULT_SHELL_TIMEOUT_MS: u64 = 30 * 60 * 1000;

/// The longest an approval node waits: one day.
pub const MAX_APPROVAL_WINDOW_S: i64 = 24 * 3600;

/// How runs reach the policy hook.
#[derive(Debug, Clone)]
pub struct HookSettings {
    /// The hook program (usually this binary's absolute path).
    pub program: String,
    /// The decision endpoint.
    pub endpoint: String,
    /// The remote-action endpoint.
    pub remote_endpoint: String,
    /// The internal token.
    pub token: String,
}

/// The state of a run.
#[derive(Debug, Clone, Copy, PartialEq, Eq, Structural)]
pub enum RunStatus {
    Queued,
    Running,
    Succeeded,
    Failed,
    Cancelled,
    BudgetExceeded,
    ResourceExceeded,
}

pub open spec fn status_debug(s: RunStatus) -> Seq<char> {
    match s {
        RunStatus::Queued => "Queued"@,
        RunStatus::Running => "Running"@,
        RunStatus::Succeeded => "Succeeded"@,
        RunStatus::Failed => "Failed"@,
        RunStatus::Cancelled => "Cancelled"@,
        RunStatus::BudgetExceeded => "BudgetExceeded"@,
        RunStatus::ResourceExceeded => "ResourceExceeded"@,
    }
}

impl RunStatus {
    pub open spec fn spec_is_terminal(self) -> bool {
        !(self == RunStatus::Queued || self == RunStatus::Running)
    }

    /// Finished one way or another.
    pub fn is_terminal(&self) -> (b: bool)
        ensures
            b == self.spec_is_terminal(),
    {
        match self {
            RunStatus::Queued | RunStatus::Running => false,
            _ => true,
        }
    }

    /// The name `{:?}` gives the status.
    pub fn debug_name(&self) -> (s: &'static str)
        ensures
            s@ == status_debug(*self),
    {
        match self {
            RunStatus::Queued => "Queued",
            RunStatus::Running => "Running",
            RunStatus::Succeeded => "Succeeded",
            RunStatus::Failed => "Failed",
            RunStatus::Cancelled => "Cancelled",
            RunStatus::BudgetExceeded => "BudgetExceeded",
            RunStatus::ResourceExceeded => "ResourceExceeded",
        }
    }

    /// Finished well.
    pub fn is_success(&self) -> (b: bool)
        ensures
            b == (*self == RunStatus::Succeeded),
    {
        match self {
            RunStatus::Succeeded => true,
            _ => false,
        }
    }
}

/// How a run ends. Cancellation wins; a spent budget and a resource kill
/// are kept apart from ordinary failure because they call for different
/// fixes (raise the budget or split the task; change the limits or the
/// machine; fix the task).
pub fn terminal_status(cancelled: bool, budget_exceeded: bool, resource_exceeded: bool, failed: bool) -> (s:
    RunStatus)
    ensures
        s == (if cancelled {
            RunStatus::Cancelled
        } else if budget_exceeded {
            RunStatus::BudgetExceeded
        } else if resource_exceeded {
            RunStatus::ResourceExceeded
        } else if failed {
            RunStatus::Failed
        } else {
            RunStatus::Succeeded
        }),
        s.spec_is_terminal(),
{
    if cancelled {
        RunStatus::Cancelled
    } else if budget_exceeded {
        RunStatus::BudgetExceeded
    } else if resource_exceeded {
        RunStatus::ResourceExceeded
    } else if failed {
        RunStatus::Failed
    } else {
        RunStatus::Succeeded
    }
}

/// The status a run falls back to when the engine itself failed.
pub fn fallback_status(cancelled: bool) -> (s: RunStatus)
    ensures
        s == (if cancelled {
            RunStatus::Cancelled
        } else {
            RunStatus::Failed
        }),
{
    if cancelled {
        RunStatus::Cancelled
    } else {
        RunStatus::Failed
    }
}

/// The kinds of node.
#[derive(Debug, Clone, Copy, PartialEq, Eq, Structural)]
pub enum NodeKind {
    Ai,
    Shell,
    Approval,
    Assert,
    FanOut,
}

/// Where a node runs.
#[derive(Debug, Clone)]
pub enum HostSelector {
    Local,
    /// A host by id (a UUID as an integer).
    Host(u128),
    Tag(String),
}

/// In a shadow (dry) run, nodes the engine would execute itself are
/// replaced by a record of the intent. The policy layer only sees tool
/// calls made by a model, so shell and approval nodes would bypass it. AI
/// nodes still run (the point is to see what the model concludes); assert
/// and map are pure computation.
pub fn suppressed_by_dry_run(dry_run: bool, kind: NodeKind) -> (b: bool)
    ensures
        b == (dry_run && (kind == NodeKind::Shell || kind == NodeKind::Approval)),
{
    if !dry_run {
        return false;
    }
    match kind {
        NodeKind::Shell => true,
        NodeKind::Approval => true,
        NodeKind::Ai => false,
        NodeKind::Assert | NodeKind::FanOut => false,
    }
}

/// Only AI nodes pinned to a host by id need the remote tool proxy.
pub fn needs_remote_tools(kind: NodeKind, host: &Option<HostSelector>) -> (b: bool)
    ensures
        b == (kind == NodeKind::Ai && host matches Some(HostSelector::Host(_))),
{
    kind == NodeKind::Ai && match host {
        Some(HostSelector::Host(_)) => true,
        _ => false,
    }
}

/// The tool whitelist of an AI node. A node with remote tools gets those
/// and `Task` and nothing local: left with local tools, the model would run
/// them on the central machine believing it works on the target. Otherwise
/// the node's own list, or no restriction when it declares none.
pub fn ai_tools(remote: Option<Vec<String>>, declared: &Vec<String>) -> (r: Option<Vec<String>>)
    ensures
        remote is Some ==> r is Some && r->0@.len() == remote->0@.len() + 1,
        remote is Some ==> r->0@.take(remote->0@.len() as int) == remote->0@,
        remote is Some ==> r->0@.last()@ == "Task"@,
        remote is None ==> if declared@.len() == 0 {
            r is None
        } else {
            r is Some && r->0@ == declared@
        },
{
    match remote {
        Some(tools) => {
            let mut tools = tools;
            let ghost before = tools@;
            let task = String::from_str("Task");
            tools.push(task);
            assert(tools@.take(before.len() as int) =~= before);
            assert(tools@.last() == task);
            Some(tools)
        },
        None => if declared.len() == 0 {
            None
        } else {
            Some(copy_strings(declared))
        },
    }
}

/// A copy of a list of strings.
pub fn copy_strings(v: &Vec<String>) -> (r: Vec<String>)
    ensures
        r@ == v@,
{
    let mut r: Vec<String> = Vec::new();
    let n = v.len();
    let mut i: usize = 0;
    while i < n
        invariant
            n == v@.len(),
            i <= n,
            r@ == v@.take(i as int),
        decreases n - i,
    {
        r.push(v[i].clone());
        assert(r@ =~= v@.take(i + 1));
        i += 1;
    }
    assert(v@.take(n as int) =~= v@);
    r
}

/// The working directory of a shell node: as declared, else `.` on a remote
/// host (the login directory; the central run directory does not exist
/// there), else the run's work directory.
pub fn shell_cwd(working_dir: Option<String>, remote: bool, workdir: &str) -> (s: String)
    ensures
        s@ == (match working_dir {
            Some(d) => d@,
            None => if remote {
                "."@
            } else {
                workdir@
            },
        }),
{
    match working_dir {
        Some(d) => d,
        None => if remote {
            String::from_str(".")
        } else {
            String::from_str(workdir)
        },
    }
}

/// A shell node's timeout in milliseconds: as declared (saturating), else
/// 30 minutes.
pub fn shell_timeout_ms(timeout_s: Option<u32>) -> (ms: u64)
    ensures
        ms == (match timeout_s {
            Some(s) => (s * 1000) as u64,
            None => DEFAULT_SHELL_TIMEOUT_MS,
        }),
{
    match timeout_s {
        Some(s) => (s as u64) * 1000,
        None => DEFAULT_SHELL_TIMEOUT_MS,
    }
}

/// How long an approval node waits, in seconds: as configured, clamped to
/// one second .. one day.
pub fn approval_window_s(timeout_s: u32) -> (w: i64)
    ensures
        w == (if timeout_s < 1 {
            1
        } else if timeout_s > MAX_APPROVAL_WINDOW_S {
            MAX_APPROVAL_WINDOW_S as int
        } else {
            timeout_s as int
        }),
        1 <= w <= MAX_APPROVAL_WINDOW_S,
{
    let t = timeout_s as i64;
    if t < 1 {
        1
    } else if t > MAX_APPROVAL_WINDOW_S {
        MAX_APPROVAL_WINDOW_S
    } else {
        t
    }
}

/// How an approval node ends. Refusal is the default: a gate that lets
/// things through on timeout is a fifteen-minute no-op.
pub fn approval_result(verdict: &Verdict) -> (r: NodeResult)
    ensures
        match *verdict {
            Verdict::Cancelled => r.status == NodeStatus::Cancelled && (r.error matches Some(e) && e@
                == describe_verdict(*verdict)) && r.output is None,
            Verdict::Approved { by, reason } => r.status == NodeStatus::Succeeded && (r.output matches Some(
                o,
            ) && approved_output_json(o, by, reason)) && r.error is None,
            _ => r.status == NodeStatus::Failed && (r.error matches Some(e) && e@ == describe_verdict(
                *verdict,
            )) && r.output is None,
        },
        r.cost == 0,
        r.cli_version is None,
{
    match verdict {
        Verdict::Cancelled => NodeResult {
            status: NodeStatus::Cancelled,
            output: None,
            error: Some(verdict.describe()),
            cost: 0,
            cli_version: None,
        },
        Verdict::Approved { by, reason } => NodeResult::succeeded(Some(approved_output(by, reason))),
        _ => NodeResult::failed(verdict.describe()),
    }
}

/// How an executor run ended.
pub enum ExecOutcome {
    Success { result: String },
    Failed { reason: String },
    BudgetExceeded,
    Cancelled,
}

/// The status and error of an AI node. `cost_text` is what was spent, as
/// the budget message shows it.
pub fn ai_outcome(outcome: &ExecOutcome, cost_text: &str) -> (r: (NodeStatus, Option<String>))
    ensures
        match *outcome {
            ExecOutcome::Success { .. } => r.0 == NodeStatus::Succeeded && r.1 is None,
            ExecOutcome::Failed { reason } => r.0 == NodeStatus::Failed && r.1 == Some(reason),
            ExecOutcome::BudgetExceeded => r.0 == NodeStatus::Failed && (r.1 matches Some(e) && e@
                == "成本超出节点预算（已花 $"@ + cost_text@ + "）"@),
            ExecOutcome::Cancelled => r.0 == NodeStatus::Cancelled && r.1 is None,
        },
{
    match outcome {
        ExecOutcome::Success { .. } => (NodeStatus::Succeeded, None),
        ExecOutcome::Failed { reason } => (NodeStatus::Failed, Some(reason.clone())),
        ExecOutcome::BudgetExceeded => {
            let mut e = String::from_str("成本超出节点预算（已花 $");
            e.append(cost_text);
            e.append("）");
            (NodeStatus::Failed, Some(e))
        },
        ExecOutcome::Cancelled => (NodeStatus::Cancelled, None),
    }
}

/// What `serde_json::from_str::<Value>` makes of a text: the value, or
/// `None` where the text is not one JSON document.
pub uninterp spec fn json_parse(text: Seq<char>) -> Option<serde_json::Value>;

/// `serde_json::from_str::<Value>`, with the error dropped.
#[verifier::external_body]
fn parse_json_value(text: &str) -> (r: Option<serde_json::Value>)
    ensures
        r == json_parse(text@),
{
    match serde_json::from_str::<serde_json::Value>(text) {
        Ok(v) => Some(v),
        Err(_) => None,
    }
}

/// The output of an AI node: nothing for an empty result, the parsed JSON
/// when the result is JSON (a node with an output schema produces JSON),
/// else the text itself as a JSON string (free text).
pub fn parse_output(result: &str) -> (r: Option<serde_json::Value>)
    ensures
        r == (if result@.len() == 0 {
            None
        } else {
            match json_parse(result@) {
                Some(v) => Some(v),
                None => Some(json_string_of(result@)),
            }
        }),
{
    if result.is_empty() {
        return None;
    }
    match parse_json_value(result) {
        Some(v) => Some(v),
        None => Some(json_string(result)),
    }
}

/// The pretty-printed JSON text of a value.
pub uninterp spec fn json_pretty(v: serde_json::Value) -> Seq<char>;

/// `serde_json::to_string_pretty`, falling back to the compact text.
#[verifier::external_body]
fn pretty_json(v: &serde_json::Value) -> (s: String)
    ensures
        s@ == json_pretty(*v),
{
    match serde_json::to_string_pretty(v) {
        Ok(s) => s,
        Err(_) => v.to_string(),
    }
}

/// The views of name/text pairs.
pub open spec fn pair_views(v: Seq<(String, String)>) -> Seq<(Seq<char>, Seq<char>)> {
    v.map_values(|x: (String, String)| (x.0@, x.1@))
}

/// Named values with each value pretty printed.
pub open spec fn pretty_inputs(v: Seq<(String, serde_json::Value)>) -> Seq<(Seq<char>, Seq<char>)> {
    v.map_values(|x: (String, serde_json::Value)| (x.0@, json_pretty(x.1)))
}

/// A node prompt from the node's inputs as values: each value is pretty
/// printed, then [`compose_prompt`] lays the parts out.
pub fn compose_node_prompt(
    base: &str,
    map_item: Option<&serde_json::Value>,
    inputs: &Vec<(String, serde_json::Value)>,
    feedback: Option<&str>,
) -> (p: String)
    ensures
        p@ == prompt_spec(
            base@,
            match map_item {
                Some(m) => Some(json_pretty(*m)),
                None => None,
            },
            pretty_inputs(inputs@),
            match feedback {
                Some(f) => Some(f@),
                None => None,
            },
        ),
{
    let item_text = match map_item {
        Some(m) => Some(pretty_json(m)),
        None => None,
    };
    let mut rendered: Vec<(String, String)> = Vec::new();
    let n = inputs.len();
    let mut i: usize = 0;
    while i < n
        invariant
            n == inputs@.len(),
            i <= n,
            rendered@.len() == i,
            pair_views(rendered@) == pretty_inputs(inputs@.take(i as int)),
        decreases n - i,
    {
        let name = inputs[i].0.clone();
        let text = pretty_json(&inputs[i].1);
        let ghost before = rendered@;
        rendered.push((name, text));
        assert forall|k: int| 0 <= k < i + 1 implies #[trigger] pair_views(rendered@)[k]
            == pretty_inputs(inputs@.take(i + 1))[k] by {
            if k < i {
                assert(rendered@[k] == before[k]);
                assert(pair_views(before)[k] == pretty_inputs(inputs@.take(i as int))[k]);
            }
        }
        assert(pair_views(rendered@) =~= pretty_inputs(inputs@.take(i + 1)));
        i += 1;
    }
    assert(inputs@.take(n as int) =~= inputs@);
    let item_ref: Option<&str> = match &item_text {
        Some(t) => Some(t.as_str()),
        None => None,
    };
    compose_prompt(base, item_ref, &rendered, feedback)
}

// ------------------------------------------------------------------ rules

/// A soft rule as it is injected into the system prompt.
#[derive(Debug, Clone)]
pub struct PromptRule {
    pub name: String,
    pub text: String,
}

/// The numbered lines of the non-blank rules.
pub open spec fn rule_lines(rules: Seq<PromptRule>) -> Seq<Seq<char>>
    decreases rules.len(),
{
    if rules.len() == 0 {
        Seq::empty()
    } else {
        let prev = rule_lines(rules.drop_last());
        let r = rules.last();
        if is_blank(r.text@) {
            prev
        } else {
            prev.push(decimal((prev.len() + 1) as nat) + ". ["@ + r.name@ + "] "@ + trim(r.text@))
        }
    }
}

pub open spec fn rules_header() -> Seq<char> {
    "以下是本次执行必须遵守的规则，按优先级排列：\n"@
}

pub open spec fn rules_footer() -> Seq<char> {
    "\n\n这些是软约束。另有一层硬策略在工具调用边界强制执行，\n被它拒绝时会收到明确原因，请据此调整做法，不要反复重试同一个动作。"@
}

/// The soft rules as one block for the system prompt, numbered in priority
/// order (models follow a structured list better, and a post-mortem can
/// name the rule). `None` when no rule has text: no empty CLI argument.
pub fn compose_rules(rules: &Vec<PromptRule>) -> (r: Option<String>)
    ensures
        rule_lines(rules@).len() == 0 ==> r is None,
        rule_lines(rules@).len() > 0 ==> (r matches Some(t) && t@ == rules_header() + join(
            rule_lines(rules@),
            "\n"@,
        ) + rules_footer()),
{
    let n = rules.len();
    let mut body = String::new();
    let mut count: usize = 0;
    let mut i: usize = 0;
    while i < n
        invariant
            n == rules@.len(),
            i <= n,
            count == rule_lines(rules@.take(i as int)).len(),
            count <= i,
            body@ == join(rule_lines(rules@.take(i as int)), "\n"@),
        decreases n - i,
    {
        proof {
            assert(rules@.take(i + 1).drop_last() =~= rules@.take(i as int));
        }
        let r = &rules[i];
        if !is_blank_str(r.text.as_str()) {
            let ghost prev = rule_lines(rules@.take(i as int));
            let mut line = String::new();
            push_decimal(&mut line, (count + 1) as u64);
            line.append(". [");
            line.append(r.name.as_str());
            line.append("] ");
            let t = trim_str(r.text.as_str());
            line.append(t.as_str());
            if count > 0 {
                body.append("\n");
            }
            body.append(line.as_str());
            proof {
                let x = decimal((prev.len() + 1) as nat) + ". ["@ + r.name@ + "] "@ + trim(r.text@);
                assert(line@ =~= x);
                assert(rule_lines(rules@.take(i + 1)) =~= prev.push(x));
                assert(prev.push(x).drop_last() =~= prev);
                if prev.len() == 0 {
                    assert(body@ =~= x);
                } else {
                    assert(join(prev.push(x), "\n"@) == join(prev, "\n"@) + "\n"@ + x);
                }
            }
            count += 1;
        }
        i += 1;
    }
    assert(rules@.take(n as int) =~= rules@);
    if count == 0 {
        return None;
    }
    let mut out = String::from_str("以下是本次执行必须遵守的规则，按优先级排列：\n");
    out.append(body.as_str());
    out.append("\n\n这些是软约束。另有一层硬策略在工具调用边界强制执行，\n被它拒绝时会收到明确原因，请据此调整做法，不要反复重试同一个动作。");
    Some(out)
}

// ------------------------------------------------------------------ prompts

/// The parts of a node prompt after the base text, rendered.
pub open spec fn prompt_spec(
    base: Seq<char>,
    map_item: Option<Seq<char>>,
    inputs: Seq<(Seq<char>, Seq<char>)>,
    feedback: Option<Seq<char>>,
) -> Seq<char> {
    base + match map_item {
        Some(item) => "\n\n## 本次处理的元素\n\n```json\n"@ + item + "\n```"@,
        None => Seq::empty(),
    } + if inputs.len() == 0 {
        Seq::empty()
    } else {
        "\n\n## 上游输入\n"@ + input_blocks(inputs)
    } + match feedback {
        Some(f) => "\n\n## 上一次尝试失败了\n\n"@ + f + "\n\n             请针对这个原因调整做法，不要原样重来。"@,
        None => Seq::empty(),
    }
}

/// One block per input, in order.
pub open spec fn input_blocks(inputs: Seq<(Seq<char>, Seq<char>)>) -> Seq<char>
    decreases inputs.len(),
{
    if inputs.len() == 0 {
        Seq::empty()
    } else {
        input_blocks(inputs.drop_last()) + "\n### "@ + inputs.last().0 + "\n\n```json\n"@
            + inputs.last().1 + "\n```\n"@
    }
}

/// The block an upstream input adds to a prompt.
pub open spec fn input_block(input: (Seq<char>, Seq<char>)) -> Seq<char> {
    "\n### "@ + input.0 + "\n\n```json\n"@ + input.1 + "\n```\n"@
}

/// Every upstream input reaches the model: a single input gives the
/// inputs section with its block, and one more input appends exactly its
/// block, so the section holds one block per input, in order.
pub proof fn lemma_every_input_reaches_the_prompt(
    base: Seq<char>,
    inputs: Seq<(Seq<char>, Seq<char>)>,
    x: (Seq<char>, Seq<char>),
)
    ensures
        prompt_spec(base, None, seq![x], None) == base + "\n\n## 上游输入\n"@ + input_block(x),
        inputs.len() > 0 ==> prompt_spec(base, None, inputs.push(x), None) == prompt_spec(base, None, inputs, None)
            + input_block(x),
        prompt_spec(base, None, inputs.push(x), None).len() > prompt_spec(base, None, inputs, None).len(),
{
    reveal_strlit("\n### ");
    assert(input_block(x).len() > 0);
    let one = seq![x];
    assert(one.drop_last() =~= Seq::<(Seq<char>, Seq<char>)>::empty());
    assert(input_blocks(one.drop_last()) =~= Seq::<char>::empty());
    assert(input_blocks(one) =~= input_block(x));
    assert(prompt_spec(base, None, one, None) =~= base + "\n\n## 上游输入\n"@ + input_block(x));
    let more = inputs.push(x);
    assert(more.drop_last() =~= inputs);
    assert(input_blocks(more) =~= input_blocks(inputs) + input_block(x));
    if inputs.len() > 0 {
        assert(prompt_spec(base, None, more, None) =~= prompt_spec(base, None, inputs, None) + input_block(x));
    } else {
        assert(inputs =~= Seq::<(Seq<char>, Seq<char>)>::empty());
        assert(more =~= one);
        assert(prompt_spec(base, None, inputs, None) =~= base);
    }
}

/// The parts of a prompt compose in a fixed order whatever else is there:
/// the base and map item first, then the inputs section exactly as it is
/// without them, then the feedback. So what holds of the inputs with no map
/// item and no feedback holds with them too.
pub proof fn lemma_prompt_parts_compose(
    base: Seq<char>,
    map_item: Option<Seq<char>>,
    inputs: Seq<(Seq<char>, Seq<char>)>,
    feedback: Option<Seq<char>>,
)
    ensures
        prompt_spec(base, map_item, inputs, feedback) == prompt_spec(
            prompt_spec(base, map_item, Seq::empty(), None),
            None,
            inputs,
            None,
        ) + prompt_spec(Seq::empty(), None, Seq::empty(), feedback),
{
    let e = Seq::<(Seq<char>, Seq<char>)>::empty();
    assert(prompt_spec(Seq::empty(), None, e, feedback) =~= match feedback {
        Some(f) => "\n\n## 上一次尝试失败了\n\n"@ + f + "\n\n             请针对这个原因调整做法，不要原样重来。"@,
        None => Seq::<char>::empty(),
    });
    assert(prompt_spec(base, map_item, e, None) =~= base + match map_item {
        Some(item) => "\n\n## 本次处理的元素\n\n```json\n"@ + item + "\n```"@,
        None => Seq::<char>::empty(),
    });
    assert(prompt_spec(base, map_item, inputs, feedback) =~= prompt_spec(
        prompt_spec(base, map_item, e, None),
        None,
        inputs,
        None,
    ) + prompt_spec(Seq::empty(), None, e, feedback));
}

/// A node prompt: the base text, then the map item, then the resolved
/// inputs (name and rendered JSON, in name order), then the previous
/// failure. The feedback goes last: models weigh instructions near the end
/// more, and it is the most pressing information of the attempt.
pub fn compose_prompt(
    base: &str,
    map_item: Option<&str>,
    inputs: &Vec<(String, String)>,
    feedback: Option<&str>,
) -> (p: String)
    ensures
        p@ == prompt_spec(
            base@,
            match map_item {
                Some(m) => Some(m@),
                None => None,
            },
            inputs@.map_values(|x: (String, String)| (x.0@, x.1@)),
            match feedback {
                Some(f) => Some(f@),
                None => None,
            },
        ),
{
    let mut p = String::from_str(base);
    let ghost after_base = p@;
    match map_item {
        Some(item) => {
            p.append("\n\n## 本次处理的元素\n\n```json\n");
            p.append(item);
            p.append("\n```");
        },
        None => {},
    }
    let ghost after_item = p@;
    let ghost views = inputs@.map_values(|x: (String, String)| (x.0@, x.1@));
    if inputs.len() > 0 {
        p.append("\n\n## 上游输入\n");
        let ghost head = p@;
        let n = inputs.len();
        let mut i: usize = 0;
        while i < n
            invariant
                n == inputs@.len(),
                i <= n,
                views == inputs@.map_values(|x: (String, String)| (x.0@, x.1@)),
                p@ == head + input_blocks(views.take(i as int)),
            decreases n - i,
        {
            proof {
                assert(views.take(i + 1).drop_last() =~= views.take(i as int));
                assert(views.take(i + 1).last() == views[i as int]);
            }
            p.append("\n### ");
            p.append(inputs[i].0.as_str());
            p.append("\n\n```json\n");
            p.append(inputs[i].1.as_str());
            p.append("\n```\n");
            proof {
                assert(p@ =~= head + input_blocks(views.take(i + 1)));
            }
            i += 1;
        }
        assert(views.take(n as int) =~= views);
    } else {
        assert(views.len() == 0);
    }
    let ghost after_inputs = p@;
    match feedback {
        Some(f) => {
            p.append("\n\n## 上一次尝试失败了\n\n");
            p.append(f);
            p.append("\n\n             请针对这个原因调整做法，不要原样重来。");
        },
        None => {},
    }
    proof {
        let item_part = match map_item {
            Some(m) => "\n\n## 本次处理的元素\n\n```json\n"@ + m@ + "\n```"@,
            None => Seq::<char>::empty(),
        };
        assert(after_item =~= base@ + item_part);
        let input_part = if views.len() == 0 {
            Seq::<char>::empty()
        } else {
            "\n\n## 上游输入\n"@ + input_blocks(views)
        };
        assert(after_inputs =~= base@ + item_part + input_part);
    }
    p
}

// ------------------------------------------------------------------ skills

/// Where skill names are declared: an AI node's list, and inside a map
/// node, its template.
#[derive(Debug)]
pub struct SkillSource {
    pub skills: Vec<String>,
    pub template: Option<Box<SkillSource>>,
}

/// Every skill name a node declares, its map template included.
pub open spec fn skills_of(node: SkillSource) -> Seq<String>
    decreases node,
{
    node.skills@ + match node.template {
        Some(t) => skills_of(*t),
        None => Seq::empty(),
    }
}

fn gather(node: &SkillSource, out: &mut Vec<String>)
    ensures
        final(out)@ == old(out)@ + skills_of(*node),
    decreases node,
{
    let n = node.skills.len();
    let mut i: usize = 0;
    while i < n
        invariant
            n == node.skills@.len(),
            i <= n,
            out@ == old(out)@ + node.skills@.take(i as int),
        decreases n - i,
    {
        out.push(node.skills[i].clone());
        assert(out@ =~= old(out)@ + node.skills@.take(i + 1));
        i += 1;
    }
    assert(node.skills@.take(n as int) =~= node.skills@);
    match &node.template {
        Some(t) => {
            gather(t, out);
            assert(out@ =~= old(out)@ + skills_of(*node));
        },
        None => {
            assert(out@ =~= old(out)@ + skills_of(*node));
        },
    }
}

/// Strictly increasing in the order of `str`: sorted, no duplicates.
pub open spec fn strictly_sorted(s: Seq<String>) -> bool {
    forall|i: int, j: int|
        0 <= i < j < s.len() ==> lex_le(#[trigger] s[i]@, #[trigger] s[j]@) && s[i]@ != s[j]@
}

/// The texts that occur in a sequence of strings.
pub open spec fn text_set(s: Seq<String>) -> Set<Seq<char>> {
    Set::new(|x: Seq<char>| exists|k: int| 0 <= k < s.len() && #[trigger] s[k]@ == x)
}

/// The skill names of a list of nodes, in node order.
pub open spec fn all_skills(nodes: Seq<SkillSource>) -> Seq<String>
    decreases nodes.len(),
{
    if nodes.len() == 0 {
        Seq::empty()
    } else {
        all_skills(nodes.drop_last()) + skills_of(nodes.last())
    }
}

proof fn lemma_text_set_permutation(a: Seq<String>, b: Seq<String>)
    requires
        a.to_multiset() == b.to_multiset(),
    ensures
        text_set(a) == text_set(b),
{
    a.to_multiset_ensures();
    b.to_multiset_ensures();
    assert forall|x: Seq<char>| text_set(a).contains(x) implies text_set(b).contains(x) by {
        let k = choose|k: int| 0 <= k < a.len() && #[trigger] a[k]@ == x;
        assert(a.contains(a[k]));
        assert(a.to_multiset().count(a[k]) > 0);
        assert(b.contains(a[k]));
        let j = choose|j: int| 0 <= j < b.len() && b[j] == a[k];
        assert(b[j]@ == x);
    }
    assert forall|x: Seq<char>| text_set(b).contains(x) implies text_set(a).contains(x) by {
        let k = choose|k: int| 0 <= k < b.len() && #[trigger] b[k]@ == x;
        assert(b.contains(b[k]));
        assert(b.to_multiset().count(b[k]) > 0);
        assert(a.contains(b[k]));
        let j = choose|j: int| 0 <= j < a.len() && a[j] == b[k];
        assert(a[j]@ == x);
    }
    assert(text_set(a) =~= text_set(b));
}

/// The skill names of all nodes, sorted and without duplicates.
pub fn collect_skill_names(nodes: &Vec<SkillSource>) -> (r: Vec<String>)
    ensures
        strictly_sorted(r@),
        text_set(r@) == text_set(all_skills(nodes@)),
{
    let mut all: Vec<String> = Vec::new();
    let n = nodes.len();
    let mut i: usize = 0;
    while i < n
        invariant
            n == nodes@.len(),
            i <= n,
            all@ == all_skills(nodes@.take(i as int)),
        decreases n - i,
    {
        gather(&nodes[i], &mut all);
        proof {
            assert(nodes@.take(i + 1).drop_last() =~= nodes@.take(i as int));
        }
        i += 1;
    }
    assert(nodes@.take(n as int) =~= nodes@);
    sorted_unique(all)
}

/// The texts of `all`, sorted in the order of `str`, each once.
pub fn sorted_unique(all: Vec<String>) -> (r: Vec<String>)
    ensures
        strictly_sorted(r@),
        text_set(r@) == text_set(all@),
{
    let ghost all_view = all@;
    let sorted = sort_strings(all);
    let ghost sv = sorted@;
    proof {
        lemma_text_set_permutation(sv, all_view);
    }
    // drop adjacent duplicates
    let mut out: Vec<String> = Vec::new();
    let m = sorted.len();
    let mut j: usize = 0;
    while j < m
        invariant
            m == sv.len(),
            sorted@ == sv,
            sorted_strs(sv),
            j <= m,
            strictly_sorted(out@),
            out@.len() > 0 ==> j > 0 && out@.last()@ == sv[j - 1]@,
            j > 0 ==> out@.len() > 0,
            text_set(out@) == text_set(sv.take(j as int)),
            forall|k: int| 0 <= k < out@.len() ==> lex_le(#[trigger] out@[k]@, sv[j - 1]@),
        decreases m - j,
    {
        let keep = if out.len() == 0 {
            true
        } else {
            !(str_le(sorted[j].as_str(), out[out.len() - 1].as_str()) && str_le(
                out[out.len() - 1].as_str(),
                sorted[j].as_str(),
            ))
        };
        let ghost old_out = out@;
        let ghost next = sv.take(j + 1);
        proof {
            assert(next =~= sv.take(j as int).push(sv[j as int]));
        }
        if keep {
            proof {
                if old_out.len() > 0 {
                    assert(lex_le(old_out.last()@, sv[j as int]@));
                    if old_out.last()@ == sv[j as int]@ {
                        crate::text::lemma_lex_total(sv[j as int]@, old_out.last()@);
                    }
                }
            }
            out.push(sorted[j].clone());
            proof {
                assert(out@.last() == sorted@[j as int]);
                assert forall|a: int, b: int| 0 <= a < b < out@.len() implies lex_le(
                    #[trigger] out@[a]@,
                    #[trigger] out@[b]@,
                ) && out@[a]@ != out@[b]@ by {
                    if b == out@.len() - 1 {
                        assert(out@[a] == old_out[a]);
                        if j > 0 {
                            crate::text::lemma_lex_trans(old_out[a]@, sv[j - 1]@, sv[j as int]@);
                            if old_out[a]@ == sv[j as int]@ {
                                crate::text::lemma_lex_trans(old_out.last()@, old_out[a]@, sv[j as int]@);
                                lemma_lex_antisym(old_out.last()@, sv[j as int]@);
                            }
                        }
                    } else {
                        assert(out@[a] == old_out[a] && out@[b] == old_out[b]);
                    }
                }
                assert forall|k: int| 0 <= k < out@.len() implies lex_le(#[trigger] out@[k]@, sv[j as int]@) by {
                    if k < old_out.len() {
                        assert(out@[k] == old_out[k]);
                        if j > 0 {
                            crate::text::lemma_lex_trans(old_out[k]@, sv[j - 1]@, sv[j as int]@);
                        }
                    } else {
                        crate::text::lemma_lex_total(sv[j as int]@, sv[j as int]@);
                    }
                }
                assert forall|x: Seq<char>| text_set(out@).contains(x) <==> text_set(next).contains(x) by {
                    if text_set(out@).contains(x) {
                        let k = choose|k: int| 0 <= k < out@.len() && #[trigger] out@[k]@ == x;
                        if k < old_out.len() {
                            assert(old_out[k]@ == x);
                            assert(text_set(old_out).contains(x));
                            let q = choose|q: int| 0 <= q < j && #[trigger] sv.take(j as int)[q]@ == x;
                            assert(next[q]@ == x);
                        } else {
                            assert(next[j as int]@ == x);
                        }
                    }
                    if text_set(next).contains(x) {
                        let q = choose|q: int| 0 <= q < j + 1 && #[trigger] next[q]@ == x;
                        if q < j {
                            assert(sv.take(j as int)[q]@ == x);
                            assert(text_set(sv.take(j as int)).contains(x));
                            let k = choose|k: int| 0 <= k < old_out.len() && #[trigger] old_out[k]@ == x;
                            assert(out@[k]@ == x);
                        } else {
                            assert(out@[out@.len() - 1]@ == x);
                        }
                    }
                }
                assert(text_set(out@) =~= text_set(next));
            }
        } else {
            proof {
                lemma_lex_antisym(sv[j as int]@, old_out.last()@);
                assert forall|k: int| 0 <= k < out@.len() implies lex_le(#[trigger] out@[k]@, sv[j as int]@) by {
                    crate::text::lemma_lex_trans(out@[k]@, sv[j - 1]@, sv[j as int]@);
                }
                assert forall|x: Seq<char>| text_set(out@).contains(x) <==> text_set(next).contains(x) by {
                    if text_set(out@).contains(x) {
                        let q = choose|q: int| 0 <= q < j && #[trigger] sv.take(j as int)[q]@ == x;
                        assert(next[q]@ == x);
                    }
                    if text_set(next).contains(x) {
                        let q = choose|q: int| 0 <= q < j + 1 && #[trigger] next[q]@ == x;
                        if q < j {
                            assert(sv.take(j as int)[q]@ == x);
                            assert(text_set(sv.take(j as int)).contains(x));
                        } else {
                            assert(out@[out@.len() - 1]@ == x);
                        }
                    }
                }
                assert(text_set(out@) =~= text_set(next));
            }
        }
        j += 1;
    }
    assert(sv.take(m as int) =~= sv);
    out
}


// ------------------------------------------------------------------ executor events

/// How a tool call requested by the model ended.
#[derive(Debug, Clone, Copy, PartialEq, Eq, Structural)]
pub enum ToolOutcome {
    Success,
    Error,
}

/// What the executor reports while a model works.
pub enum ExecEvent {
    Started { session_id: String, model: String, tools: Vec<String>, cli_version: Option<String> },
    Thinking { text: String },
    Text { text: String },
    ToolRequested { tool_use_id: String, tool: String, input: serde_json::Value },
    ToolCompleted { tool_use_id: String, outcome: ToolOutcome, output_preview: String },
    /// The CLI's own permission layer refused a call.
    PermissionDenied { tool_use_id: String, tool: String, reason: String },
    Usage {
        model: String,
        input_tokens: u64,
        output_tokens: u64,
        cache_read_tokens: u64,
        cache_creation_tokens: u64,
        /// Micro-dollars spent so far.
        cost_usd: u64,
    },
    Warning { message: String },
    Finished(ExecOutcome),
}

/// Log levels of run events.
#[derive(Debug, Clone, Copy, PartialEq, Eq, Structural)]
pub enum LogLevel {
    Info,
    Warn,
}

/// The run events an executor event becomes.
pub enum RunEventBody {
    Log { level: LogLevel, message: String },
    /// The command line an attempt runs, and the host it runs on (`None`:
    /// driven from the centre).
    AgentInvoked { command: String, ran_on: Option<u128> },
    AgentThinking { text: String },
    AgentText { text: String },
    ToolRequested { tool_use_id: String, tool: String, input: serde_json::Value },
    ToolCompleted { tool_use_id: String, ok: bool, output_preview: String, duration_ms: u64 },
    PolicyDecided {
        tool_use_id: String,
        effect: crate::policy::PolicyEffect,
        rule_id: Option<String>,
        reason: String,
    },
    Usage {
        model: String,
        input_tokens: u64,
        output_tokens: u64,
        cache_read_tokens: u64,
        cache_creation_tokens: u64,
        cost_usd: u64,
    },
}

/// The log line of a started executor.
pub open spec fn started_message(session_id: Seq<char>, model: Seq<char>, tools: Seq<Seq<char>>, cli: Option<
    Seq<char>,
>) -> Seq<char> {
    "执行器就绪：model="@ + model + " session="@ + session_id + " cli="@ + match cli {
        Some(v) => v,
        None => "?"@,
    } + " tools=["@ + join(tools, ","@) + "]"@
}

/// `r` is what `event` becomes in the run's log (see [`translate`]).
pub open spec fn translated(event: ExecEvent, r: Seq<RunEventBody>) -> bool {
    match event {
        ExecEvent::Started { session_id, model, tools, cli_version } => r.len() == 1 && (
        r[0] matches RunEventBody::Log { level, message } && level == LogLevel::Info && message@
            == started_message(
            session_id@,
            model@,
            tools@.map_values(|t: String| t@),
            match cli_version {
                Some(v) => Some(v@),
                None => None,
            },
        )),
        ExecEvent::Thinking { text } => r.len() == 1 && (r[0] matches RunEventBody::AgentThinking {
            text: t,
        } && t == text),
        ExecEvent::Text { text } => r.len() == 1 && (r[0] matches RunEventBody::AgentText { text: t }
            && t == text),
        ExecEvent::ToolRequested { tool_use_id, tool, input } => r.len() == 1 && (
        r[0] matches RunEventBody::ToolRequested { tool_use_id: a, tool: b, input: c } && a
            == tool_use_id && b == tool && c == input),
        ExecEvent::ToolCompleted { tool_use_id, outcome, output_preview } => r.len() == 1 && (
        r[0] matches RunEventBody::ToolCompleted { tool_use_id: a, ok, output_preview: p, duration_ms }
            && a == tool_use_id && ok == (outcome == ToolOutcome::Success) && p == output_preview
            && duration_ms == 0),
        ExecEvent::PermissionDenied { tool_use_id, reason, .. } => r.len() == 1 && (
        r[0] matches RunEventBody::PolicyDecided { tool_use_id: a, effect, rule_id, reason: why }
            && a == tool_use_id && effect == crate::policy::PolicyEffect::Deny && rule_id is None
            && why == reason),
        ExecEvent::Usage {
            model,
            input_tokens,
            output_tokens,
            cache_read_tokens,
            cache_creation_tokens,
            cost_usd,
        } => r.len() == 1 && (r[0] matches RunEventBody::Usage {
            model: m,
            input_tokens: i,
            output_tokens: o,
            cache_read_tokens: cr,
            cache_creation_tokens: cc,
            cost_usd: c,
        } && m == model && i == input_tokens && o == output_tokens && cr == cache_read_tokens
            && cc == cache_creation_tokens && c == cost_usd),
        ExecEvent::Warning { message } => r.len() == 1 && (r[0] matches RunEventBody::Log {
            level,
            message: m,
        } && level == LogLevel::Warn && m == message),
        ExecEvent::Finished(_) => r.len() == 0,
    }
}

/// A completed tool call is logged as successful exactly when the
/// executor reported success: an error is never recorded as `ok`. The
/// call's id and preview are kept as they came.
pub proof fn lemma_tool_outcome_is_kept(tool_use_id: String, outcome: ToolOutcome, output_preview: String, r: Seq<
    RunEventBody,
>)
    requires
        translated(ExecEvent::ToolCompleted { tool_use_id, outcome, output_preview }, r),
    ensures
        r.len() == 1,
        r[0] matches RunEventBody::ToolCompleted { tool_use_id: a, ok, output_preview: p, .. } && a == tool_use_id
            && p == output_preview && (ok <==> outcome == ToolOutcome::Success),
        outcome == ToolOutcome::Error ==> (r[0] matches RunEventBody::ToolCompleted { ok, .. } && !ok),
{
}

/// An executor event as run events. No `agent_turn_started` is invented:
/// the CLI's stream has no reliable turn boundary. The final event yields
/// nothing here: only the caller knows the attempt to record it under.
/// A refusal by the CLI's own permission layer lands in the audit trail as
/// a policy denial.
pub fn translate(event: ExecEvent) -> (r: Vec<RunEventBody>)
    ensures
        translated(event, r@),
{
    match event {
        ExecEvent::Started { session_id, model, tools, cli_version } => {
            let mut m = String::from_str("执行器就绪：model=");
            m.append(model.as_str());
            m.append(" session=");
            m.append(session_id.as_str());
            m.append(" cli=");
            match &cli_version {
                Some(v) => m.append(v.as_str()),
                None => m.append("?"),
            }
            m.append(" tools=[");
            let joined = crate::dag::join_strings(&tools, ",");
            m.append(joined.as_str());
            m.append("]");
            vec![RunEventBody::Log { level: LogLevel::Info, message: m }]
        },
        ExecEvent::Thinking { text } => vec![RunEventBody::AgentThinking { text }],
        ExecEvent::Text { text } => vec![RunEventBody::AgentText { text }],
        ExecEvent::ToolRequested { tool_use_id, tool, input } => vec![
            RunEventBody::ToolRequested { tool_use_id, tool, input },
        ],
        ExecEvent::ToolCompleted { tool_use_id, outcome, output_preview } => {
            let ok = outcome == ToolOutcome::Success;
            vec![RunEventBody::ToolCompleted { tool_use_id, ok, output_preview, duration_ms: 0 }]
        },
        ExecEvent::PermissionDenied { tool_use_id, reason, .. } => vec![
            RunEventBody::PolicyDecided {
                tool_use_id,
                effect: crate::policy::PolicyEffect::Deny,
                rule_id: None,
                reason,
            },
        ],
        ExecEvent::Usage {
            model,
            input_tokens,
            output_tokens,
            cache_read_tokens,
            cache_creation_tokens,
            cost_usd,
        } => vec![
            RunEventBody::Usage {
                model,
                input_tokens,
                output_tokens,
                cache_read_tokens,
                cache_creation_tokens,
                cost_usd,
            },
        ],
        ExecEvent::Warning { message } => vec![RunEventBody::Log { level: LogLevel::Warn, message }],
        ExecEvent::Finished(_) => Vec::new(),
    }
}

/// What an AI node has seen of its executor so far.
pub struct AiProgress {
    /// The final outcome once reported; a stream that ends without one is
    /// a failure.
    pub outcome: ExecOutcome,
    /// Micro-dollars spent, as last reported.
    pub cost: u64,
    pub cli_version: Option<String>,
}

impl AiProgress {
    /// Before any event: no outcome reported yet.
    pub fn new() -> (p: AiProgress)
        ensures
            p.outcome matches ExecOutcome::Failed { reason } && reason@ == "执行器没有给出终态"@,
            p.cost == 0,
            p.cli_version is None,
    {
        AiProgress {
            outcome: ExecOutcome::Failed { reason: String::from_str("执行器没有给出终态") },
            cost: 0,
            cli_version: None,
        }
    }

    /// Takes one event into account and returns the run events to record:
    /// the final outcome, the latest cost and the CLI version are kept.
    pub fn absorb(&mut self, event: ExecEvent) -> (r: Vec<RunEventBody>)
        ensures
            match event {
                ExecEvent::Finished(o) => final(self).outcome == o && final(self).cost == old(self).cost
                    && final(self).cli_version == old(self).cli_version && r@.len() == 0,
                ExecEvent::Usage { cost_usd, .. } => final(self).cost == cost_usd && final(self).outcome
                    == old(self).outcome && final(self).cli_version == old(self).cli_version
                    && r@.len() == 1,
                ExecEvent::Started { cli_version, .. } => final(self).cli_version == cli_version
                    && final(self).outcome == old(self).outcome && final(self).cost == old(self).cost
                    && r@.len() == 1,
                _ => final(self).outcome == old(self).outcome && final(self).cost == old(self).cost
                    && final(self).cli_version == old(self).cli_version && r@.len() == 1,
            },
            translated(event, r@),
    {
        match event {
            ExecEvent::Finished(o) => {
                self.outcome = o;
                Vec::new()
            },
            ExecEvent::Usage { cost_usd, .. } => {
                self.cost = cost_usd;
                translate(event)
            },
            ExecEvent::Started { session_id, model, tools, cli_version } => {
                self.cli_version = cli_version.clone();
                translate(ExecEvent::Started { session_id, model, tools, cli_version })
            },
            other => translate(other),
        }
    }
}

// ------------------------------------------------------------------ node texts

/// A shell node in a deployment without an agent binary.
pub fn no_agent_for_shell() -> (s: String)
    ensures
        s@ == "这个部署没有配置 agent 二进制，shell 节点不可用（见 --local-agent / --remote-agent）"@,
{
    String::from_str("这个部署没有配置 agent 二进制，shell 节点不可用（见 --local-agent / --remote-agent）")
}

/// The log line of a shell node held back by a shadow run.
pub fn shadow_shell_message(command: &str) -> (s: String)
    ensures
        s@ == "影子执行：不会真的运行 `"@ + command@ + "`"@,
{
    let mut s = String::from_str("影子执行：不会真的运行 `");
    s.append(command);
    s.append("`");
    s
}

/// The log line of an approval gate skipped by a shadow run.
pub fn shadow_approval_message(title: &str) -> (s: String)
    ensures
        s@ == "影子执行：跳过审批门「"@ + title@ + "」"@,
{
    let mut s = String::from_str("影子执行：跳过审批门「");
    s.append(title);
    s.append("」");
    s
}

/// A node cancelled while its command ran.
pub fn cancelled_node() -> (r: NodeResult)
    ensures
        r.status == NodeStatus::Cancelled,
        r.output is None,
        r.error matches Some(e) && e@ == "run 已取消"@,
        r.cost == 0,
        r.cli_version is None,
{
    NodeResult {
        status: NodeStatus::Cancelled,
        output: None,
        error: Some(String::from_str("run 已取消")),
        cost: 0,
        cli_version: None,
    }
}

/// A command the target could not run: an environment problem, so the
/// node fails and the retry policy decides.
pub fn target_failed(error: &str) -> (r: NodeResult)
    ensures
        r.status == NodeStatus::Failed,
        r.error matches Some(e) && e@ == "目标机执行失败："@ + error@,
        r.output is None,
        r.cost == 0,
{
    let mut e = String::from_str("目标机执行失败：");
    e.append(error);
    NodeResult::failed(e)
}

/// An approval that could not even be created: no gate means no approval.
pub fn approval_not_created(error: &str) -> (r: NodeResult)
    ensures
        r.status == NodeStatus::Failed,
        r.error matches Some(e) && e@ == "创建审批失败，按未批准处理："@ + error@,
        r.output is None,
{
    let mut e = String::from_str("创建审批失败，按未批准处理：");
    e.append(error);
    NodeResult::failed(e)
}

/// The log line naming the loaded skills, written once per node: on the
/// first attempt of the first instance, and only when there are skills.
pub fn skills_message(skills: &Vec<String>, attempt: u32, instance: u32) -> (r: Option<String>)
    ensures
        (skills@.len() > 0 && attempt == 1 && instance == 0) ==> (r matches Some(m) && m@ == "已装载 skills："@
            + join(skills@.map_values(|s: String| s@), ", "@)),
        !(skills@.len() > 0 && attempt == 1 && instance == 0) ==> r is None,
{
    if skills.len() > 0 && attempt == 1 && instance == 0 {
        let mut m = String::from_str("已装载 skills：");
        let joined = crate::dag::join_strings(skills, ", ");
        m.append(joined.as_str());
        Some(m)
    } else {
        None
    }
}

/// A node type the engine does not run: said plainly, never faked as a
/// success.
pub fn unsupported_node(kind: &str) -> (r: NodeResult)
    ensures
        r.status == NodeStatus::Failed,
        r.error matches Some(e) && e@ == "节点类型 `"@ + kind@ + "` 尚未实现"@,
{
    let mut e = String::from_str("节点类型 `");
    e.append(kind);
    e.append("` 尚未实现");
    NodeResult::failed(e)
}

/// Why an interrupted run is closed after a restart. It is not resumed:
/// the model process went with the server.
pub fn orphan_reason(worker_id: &str) -> (s: String)
    ensures
        s@ == worker_id@ + " 重启时发现这个 run 的执行进程已消失，无法续跑"@,
{
    let mut s = String::from_str(worker_id);
    s.append(" 重启时发现这个 run 的执行进程已消失，无法续跑");
    s
}

/// The cost booked for an interrupted run: what replaying its events
/// adds up to, else what the run row holds. Money spent is not lost.
pub fn orphan_cost(replayed: Option<u64>, recorded: u64) -> (c: u64)
    ensures
        c == (match replayed {
            Some(x) => x,
            None => recorded,
        }),
{
    match replayed {
        Some(x) => x,
        None => recorded,
    }
}

/// How an interrupted run is closed.
#[derive(Debug)]
pub struct OrphanClose {
    /// The run (a UUID as an integer).
    pub run_id: u128,
    pub status: RunStatus,
    pub error: String,
    pub cost: u64,
}

/// Closing every interrupted run found at start-up, in the order found:
/// each one fails (it cannot be resumed) with [`orphan_reason`], and keeps
/// the cost its events replay to, else the cost its row holds. `orphans`
/// lists each run with what its replay added up to (`None` where the
/// replay failed) and its recorded cost. The number reaped is the length.
pub fn reap_orphans(worker_id: &str, orphans: &Vec<(u128, Option<u64>, u64)>) -> (r: Vec<OrphanClose>)
    ensures
        r@.len() == orphans@.len(),
        forall|i: int| 0 <= i < r@.len() ==> {
            let o = #[trigger] orphans@[i];
            &&& r@[i].run_id == o.0
            &&& r@[i].status == RunStatus::Failed
            &&& r@[i].error@ == worker_id@ + " 重启时发现这个 run 的执行进程已消失，无法续跑"@
            &&& r@[i].cost == (match o.1 {
                Some(x) => x,
                None => o.2,
            })
        },
{
    let mut r: Vec<OrphanClose> = Vec::new();
    let mut i: usize = 0;
    while i < orphans.len()
        invariant
            i <= orphans@.len(),
            r@.len() == i,
            forall|j: int| 0 <= j < i ==> {
                let o = #[trigger] orphans@[j];
                &&& r@[j].run_id == o.0
                &&& r@[j].status == RunStatus::Failed
                &&& r@[j].error@ == worker_id@ + " 重启时发现这个 run 的执行进程已消失，无法续跑"@
                &&& r@[j].cost == (match o.1 {
                    Some(x) => x,
                    None => o.2,
                })
            },
        decreases orphans@.len() - i,
    {
        let (run_id, replayed, recorded) = orphans[i];
        r.push(
            OrphanClose {
                run_id,
                status: RunStatus::Failed,
                error: orphan_reason(worker_id),
                cost: orphan_cost(replayed, recorded),
            },
        );
        i += 1;
    }
    r
}

/// The changed paths a drift event lists: the first twenty.
pub fn drift_paths(paths: &Vec<String>) -> (r: Vec<String>)
    ensures
        r@ == (if paths@.len() <= 20 {
            paths@
        } else {
            paths@.take(20)
        }),
{
    let mut r: Vec<String> = Vec::new();
    let n = if paths.len() <= 20 {
        paths.len()
    } else {
        20
    };
    let mut i: usize = 0;
    while i < n
        invariant
            n <= paths@.len(),
            n == (if paths@.len() <= 20 {
                paths@.len()
            } else {
                20
            }),
            i <= n,
            r@ == paths@.take(i as int),
        decreases n - i,
    {
        r.push(paths[i].clone());
        assert(r@ =~= paths@.take(i + 1));
        i += 1;
    }
    assert(paths@.len() <= 20 ==> paths@.take(n as int) =~= paths@);
    r
}


// ------------------------------------------------------------------ node steps

/// How a shell node starts.
pub enum ShellStep {
    /// The node fails with this reason before anything runs.
    Fail(String),
    /// A shadow run: log this line, run nothing, succeed with this output.
    Shadow { log: String, output: serde_json::Value },
    /// Run the command in `cwd` with this timeout.
    Execute { cwd: String, timeout_ms: u64 },
}

/// The first step of a shell node: without an agent binary it cannot run
/// at all; in a shadow run it only records its intent (the policy layer
/// never sees a shell node, so the engine holds it back itself); otherwise
/// it runs in its working directory with its timeout. A shadow run never
/// executes anything; its output says so, with the command and the node's
/// host declaration (`host`, as JSON).
pub fn shell_step(
    dry_run: bool,
    agent_configured: bool,
    command: &str,
    working_dir: Option<String>,
    remote: bool,
    workdir: &str,
    timeout_s: Option<u32>,
    host: serde_json::Value,
) -> (s: ShellStep)
    ensures
        dry_run ==> !(s is Execute),
        !agent_configured ==> (s matches ShellStep::Fail(e) && e@
            == "这个部署没有配置 agent 二进制，shell 节点不可用（见 --local-agent / --remote-agent）"@),
        agent_configured && dry_run ==> (s matches ShellStep::Shadow { log, output } && log@ == "影子执行：不会真的运行 `"@
            + command@ + "`"@ && output == shadow_shell_output_spec(command@, host)),
        agent_configured && !dry_run ==> (s matches ShellStep::Execute { cwd, timeout_ms } && cwd@ == (
        match working_dir {
            Some(d) => d@,
            None => if remote {
                "."@
            } else {
                workdir@
            },
        }) && timeout_ms == (match timeout_s {
            Some(t) => (t * 1000) as u64,
            None => DEFAULT_SHELL_TIMEOUT_MS,
        })),
{
    if !agent_configured {
        return ShellStep::Fail(no_agent_for_shell());
    }
    if suppressed_by_dry_run(dry_run, NodeKind::Shell) {
        return ShellStep::Shadow { log: shadow_shell_message(command), output: shadow_shell_output(command, host) };
    }
    ShellStep::Execute { cwd: shell_cwd(working_dir, remote, workdir), timeout_ms: shell_timeout_ms(timeout_s) }
}

/// The output of a shell node in a shadow run.
pub open spec fn shadow_shell_output_spec(command: Seq<char>, host: serde_json::Value) -> serde_json::Value {
    json_object_of(
        seq![
            ("dry_run"@, json_bool_of(true)),
            ("executed"@, json_bool_of(false)),
            ("command"@, json_string_of(command)),
            ("host"@, host),
        ],
    )
}

/// `{"dry_run": true, "executed": false, "command": .., "host": ..}`.
pub fn shadow_shell_output(command: &str, host: serde_json::Value) -> (v: serde_json::Value)
    ensures
        v == shadow_shell_output_spec(command@, host),
{
    let mut entries: Vec<(String, serde_json::Value)> = Vec::new();
    entries.push(entry("dry_run", json_bool(true)));
    entries.push(entry("executed", json_bool(false)));
    entries.push(entry("command", json_string(command)));
    entries.push(entry("host", host));
    proof {
        reveal_strlit("dry_run");
        reveal_strlit("executed");
        reveal_strlit("command");
        reveal_strlit("host");
        assert(entry_views(entries@) =~= seq![
            ("dry_run"@, json_bool_of(true)),
            ("executed"@, json_bool_of(false)),
            ("command"@, json_string_of(command@)),
            ("host"@, host),
        ]);
    }
    json_object(entries)
}

/// The output of an approval node in a shadow run.
pub open spec fn shadow_approval_output_spec() -> serde_json::Value {
    json_object_of(
        seq![("dry_run"@, json_bool_of(true)), ("approved"@, json_bool_of(false)), ("skipped"@, json_bool_of(true))],
    )
}

/// `{"dry_run": true, "approved": false, "skipped": true}`.
pub fn shadow_approval_output() -> (v: serde_json::Value)
    ensures
        v == shadow_approval_output_spec(),
{
    let mut entries: Vec<(String, serde_json::Value)> = Vec::new();
    entries.push(entry("dry_run", json_bool(true)));
    entries.push(entry("approved", json_bool(false)));
    entries.push(entry("skipped", json_bool(true)));
    proof {
        reveal_strlit("dry_run");
        reveal_strlit("approved");
        reveal_strlit("skipped");
        assert(entry_views(entries@) =~= seq![
            ("dry_run"@, json_bool_of(true)),
            ("approved"@, json_bool_of(false)),
            ("skipped"@, json_bool_of(true)),
        ]);
    }
    json_object(entries)
}

/// The output of an approved approval node: who decided and why (`null`
/// where not given).
pub open spec fn approved_output_json(v: serde_json::Value, by: Option<String>, reason: Option<String>) -> bool {
    exists|d: serde_json::Value, r: serde_json::Value|
        opt_string_json(d, by) && opt_string_json(r, reason) && v == json_object_of(
            seq![("approved"@, json_bool_of(true)), ("decided_by"@, d), ("reason"@, r)],
        )
}

/// `{"approved": true, "decided_by": .., "reason": ..}`.
pub fn approved_output(by: &Option<String>, reason: &Option<String>) -> (v: serde_json::Value)
    ensures
        approved_output_json(v, *by, *reason),
{
    let d = json_opt_string(by);
    let r = json_opt_string(reason);
    let ghost (gd, gr) = (d, r);
    let mut entries: Vec<(String, serde_json::Value)> = Vec::new();
    entries.push(entry("approved", json_bool(true)));
    entries.push(entry("decided_by", d));
    entries.push(entry("reason", r));
    proof {
        reveal_strlit("approved");
        reveal_strlit("decided_by");
        reveal_strlit("reason");
        assert(entry_views(entries@) =~= seq![
            ("approved"@, json_bool_of(true)),
            ("decided_by"@, gd),
            ("reason"@, gr),
        ]);
    }
    let v = json_object(entries);
    assert(opt_string_json(gd, *by) && opt_string_json(gr, *reason) && v == json_object_of(
        seq![("approved"@, json_bool_of(true)), ("decided_by"@, gd), ("reason"@, gr)],
    ));
    v
}

/// How an approval node starts.
pub enum ApprovalStep {
    /// A shadow run: log this line, ask nobody, succeed unapproved with
    /// this output.
    Shadow { log: String, output: serde_json::Value },
    /// Open an approval that expires at this instant (microseconds).
    Request { expires_at: i64 },
}

/// The first step of an approval node: a shadow run asks nobody (waking a
/// person for an action that will not happen wastes their time); otherwise
/// an approval opens that expires after the node's window, one second to
/// one day.
pub fn approval_step(dry_run: bool, title: &str, timeout_s: u32, now: i64) -> (s: ApprovalStep)
    requires
        now + MAX_APPROVAL_WINDOW_S * 1_000_000 <= i64::MAX,
    ensures
        dry_run ==> (s matches ApprovalStep::Shadow { log, output } && log@ == "影子执行：跳过审批门「"@ + title@
            + "」"@ && output == shadow_approval_output_spec()),
        !dry_run ==> (s matches ApprovalStep::Request { expires_at } && expires_at == now + (if timeout_s
            < 1 {
            1
        } else if timeout_s > MAX_APPROVAL_WINDOW_S {
            MAX_APPROVAL_WINDOW_S as int
        } else {
            timeout_s as int
        }) * 1_000_000),
{
    if suppressed_by_dry_run(dry_run, NodeKind::Approval) {
        return ApprovalStep::Shadow { log: shadow_approval_message(title), output: shadow_approval_output() };
    }
    let w = approval_window_s(timeout_s);
    assert(w * 1_000_000 <= MAX_APPROVAL_WINDOW_S * 1_000_000) by (nonlinear_arith)
        requires
            1 <= w <= MAX_APPROVAL_WINDOW_S,
    ;
    ApprovalStep::Request { expires_at: now + w * 1_000_000 }
}


/// The output of an AI node for a result text, as [`parse_output`] gives it.
pub open spec fn output_spec(result: Seq<char>) -> Option<serde_json::Value> {
    if result.len() == 0 {
        None
    } else {
        match json_parse(result) {
            Some(v) => Some(v),
            None => Some(json_string_of(result)),
        }
    }
}

impl AiProgress {
    /// The executor did not wind down within [`CANCEL_GRACE_MS`] of a
    /// cancellation: the node ends as cancelled, whatever it said so far.
    pub fn grace_expired(&mut self)
        ensures
            final(self).outcome == ExecOutcome::Cancelled,
            final(self).cost == old(self).cost,
            final(self).cli_version == old(self).cli_version,
    {
        self.outcome = ExecOutcome::Cancelled;
    }
}

/// The result of an AI node once its executor stream has ended: the status
/// and error [`ai_outcome`] reads from the final outcome, the parsed output
/// of a success, and what was spent with the CLI version reported.
pub fn ai_result(progress: AiProgress, cost_text: &str) -> (r: NodeResult)
    ensures
        r.cost == progress.cost,
        r.cli_version == progress.cli_version,
        match progress.outcome {
            ExecOutcome::Success { result } => r.status == NodeStatus::Succeeded && r.error is None
                && r.output == output_spec(result@),
            ExecOutcome::Failed { reason } => r.status == NodeStatus::Failed && r.error == Some(reason)
                && r.output is None,
            ExecOutcome::BudgetExceeded => r.status == NodeStatus::Failed && r.output is None && (
            r.error matches Some(e) && e@ == "成本超出节点预算（已花 $"@ + cost_text@ + "）"@),
            ExecOutcome::Cancelled => r.status == NodeStatus::Cancelled && r.error is None
                && r.output is None,
        },
{
    let (status, error) = ai_outcome(&progress.outcome, cost_text);
    let output = match &progress.outcome {
        ExecOutcome::Success { result } => parse_output(result.as_str()),
        _ => None,
    };
    NodeResult { status, output, error, cost: progress.cost, cli_version: progress.cli_version }
}


/// How an AI attempt begins.
pub struct AiLaunch {
    /// Recorded first, before the executor is asked to start anything: a
    /// CLI that never starts is exactly when its command line is needed.
    pub record: RunEventBody,
    /// The attempt's result when the executor could not start it.
    pub failed: Option<NodeResult>,
}

/// The start of an AI attempt, given the command line the executor will
/// run and, once it was asked, whether it could not start (`spawn_error`).
/// Exactly one `AgentInvoked` is recorded per attempt, whatever happens
/// next; the model runs in the centre, so it names no host. A CLI that
/// cannot start fails the attempt with the executor's error.
pub fn ai_launch(command_line: &str, spawn_error: Option<String>) -> (l: AiLaunch)
    ensures
        l.record matches RunEventBody::AgentInvoked { command, ran_on } && command@ == command_line@
            && ran_on is None,
        spawn_error is None ==> l.failed is None,
        spawn_error matches Some(e) ==> (l.failed matches Some(r) && r.status == NodeStatus::Failed
            && r.error == Some(e) && r.output is None && r.cost == 0 && r.cli_version is None),
{
    let record = RunEventBody::AgentInvoked { command: String::from_str(command_line), ran_on: None };
    let failed = match spawn_error {
        Some(e) => Some(NodeResult::failed(e)),
        None => None,
    };
    AiLaunch { record, failed }
}

/// The run's output: the output of the last node, in topological order,
/// that has one. `topo` lists node indices in topological order;
/// `has_output[i]` says whether node `i` produced an output.
pub fn final_output_node(topo: &Vec<usize>, has_output: &Vec<bool>) -> (r: Option<usize>)
    requires
        forall|k: int| 0 <= k < topo@.len() ==> (#[trigger] topo@[k]) < has_output@.len(),
    ensures
        match r {
            Some(i) => exists|k: int|
                0 <= k < topo@.len() && topo@[k] == i && has_output@[i as int] && forall|q: int|
                    k < q < topo@.len() ==> !has_output@[#[trigger] topo@[q] as int],
            None => forall|q: int| 0 <= q < topo@.len() ==> !has_output@[#[trigger] topo@[q] as int],
        },
{
    let mut k = topo.len();
    while k > 0
        invariant
            k <= topo@.len(),
            forall|j: int| 0 <= j < topo@.len() ==> (#[trigger] topo@[j]) < has_output@.len(),
            forall|q: int| k <= q < topo@.len() ==> !has_output@[#[trigger] topo@[q] as int],
        decreases k,
    {
        let i = topo[k - 1];
        if has_output[i] {
            assert(topo@[k - 1] == i);
            return Some(i);
        }
        k -= 1;
    }
    None
}

/// The nodes that get a remote tool proxy, in node order: the AI nodes
/// pinned to a host by id. Without a policy hook there is none: remote
/// tools would then act unchecked, so they are withheld altogether.
pub fn proxied_nodes(nodes: &Vec<(NodeKind, Option<HostSelector>)>, hook_configured: bool) -> (r: Vec<usize>)
    ensures
        !hook_configured ==> r@.len() == 0,
        hook_configured ==> forall|j: int|
            0 <= j < nodes@.len() ==> (r@.contains(j as usize) <==> (nodes@[j].0 == NodeKind::Ai
                && nodes@[j].1 matches Some(HostSelector::Host(_)))),
        forall|a: int, b: int| 0 <= a < b < r@.len() ==> r@[a] < r@[b],
        forall|a: int| 0 <= a < r@.len() ==> r@[a] < nodes@.len(),
{
    let mut out: Vec<usize> = Vec::new();
    if !hook_configured {
        return out;
    }
    let n = nodes.len();
    let mut i: usize = 0;
    while i < n
        invariant
            n == nodes@.len(),
            i <= n,
            forall|j: int|
                0 <= j < n ==> (out@.contains(j as usize) <==> (j < i && nodes@[j].0 == NodeKind::Ai
                    && nodes@[j].1 matches Some(HostSelector::Host(_)))),
            forall|a: int, b: int| 0 <= a < b < out@.len() ==> out@[a] < out@[b],
            forall|a: int| 0 <= a < out@.len() ==> out@[a] < i,
        decreases n - i,
    {
        let ghost before = out@;
        if needs_remote_tools(nodes[i].0, &nodes[i].1) {
            out.push(i);
        }
        proof {
            assert forall|j: int| 0 <= j < n implies (out@.contains(j as usize) <==> (j < i + 1
                && nodes@[j].0 == NodeKind::Ai && nodes@[j].1 matches Some(HostSelector::Host(_)))) by {
                if out@.contains(j as usize) {
                    let q = choose|q: int| 0 <= q < out@.len() && out@[q] == j as usize;
                    if q < before.len() {
                        assert(before[q] == j as usize);
                        assert(before.contains(j as usize));
                    }
                }
                if j < i && nodes@[j].0 == NodeKind::Ai && nodes@[j].1 matches Some(HostSelector::Host(_)) {
                    assert(before.contains(j as usize));
                    let q = choose|q: int| 0 <= q < before.len() && before[q] == j as usize;
                    assert(out@[q] == j as usize);
                }
                if j == i && nodes@[j].0 == NodeKind::Ai && nodes@[j].1 matches Some(HostSelector::Host(_)) {
                    assert(out@[out@.len() - 1] == j as usize);
                }
            }
        }
        i += 1;
    }
    out
}

} // verus!
