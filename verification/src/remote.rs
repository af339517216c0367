//! Remote actions requested by the MCP proxy.
//!
//! The order is fixed: policy first, then execution, both in the event
//! log. The target host comes from the task definition, never from the
//! caller: otherwise a model could pick another host and step around every
//! tag-based rule. Calling the policy, the agent and the store is the web
//! layer's work; which host, which command line and which answer are
//! decided here.

use vstd::prelude::*;
use vstd::slice::slice_subrange;

use crate::engine::HostSelector;
use crate::host_exec::HostExecOutcome;
use crate::policy::PolicyResponse;
use crate::text::{
    all_digits, chars_of, contains, decimal, decimal_int, is_blank, is_digit, lemma_decimal_digits,
    lemma_decimal_injective, occurs_at, push_decimal, push_i64, replace_char, string_of,
    str_contains, string_push, trim, trim_str, is_blank_str, push_all,
};

verus! {

/// The most characters of output one remote action hands back; more is
/// cut and the text says so.
pub const MAX_OUTPUT_CHARS: usize = 32 * 1024;

/// Characters of output kept in the event log's preview.
pub const PREVIEW_CHARS: usize = 200;

/// The remote tools a model can call.
pub enum RemoteAction {
    RemoteBash { command: String, working_dir: Option<String>, timeout_s: Option<u32> },
    RemoteRead { path: String },
    RemoteWrite { path: String, content: String },
    RemoteGlob { pattern: String },
}

pub open spec fn tool_name(a: RemoteAction) -> Seq<char> {
    match a {
        RemoteAction::RemoteBash { .. } => "remote_bash"@,
        RemoteAction::RemoteRead { .. } => "remote_read"@,
        RemoteAction::RemoteWrite { .. } => "remote_write"@,
        RemoteAction::RemoteGlob { .. } => "remote_glob"@,
    }
}

impl RemoteAction {
    /// The tool name, as policy rules match it and as it is tagged on the
    /// wire.
    pub fn tool(&self) -> (s: &'static str)
        ensures
            s@ == tool_name(*self),
    {
        match self {
            RemoteAction::RemoteBash { .. } => "remote_bash",
            RemoteAction::RemoteRead { .. } => "remote_read",
            RemoteAction::RemoteWrite { .. } => "remote_write",
            RemoteAction::RemoteGlob { .. } => "remote_glob",
        }
    }
}

/// The answer handed back to the model as the tool result.
#[derive(Debug)]
pub struct RemoteCallResponse {
    pub executed: bool,
    pub content: String,
    pub exit_code: Option<i32>,
    pub rule_id: Option<String>,
}

/// A refusal by the server itself (not by a policy).
pub fn refused(reason: String) -> (r: RemoteCallResponse)
    ensures
        !r.executed,
        r.content == reason,
        r.exit_code is None,
        r.rule_id is None,
{
    RemoteCallResponse { executed: false, content: reason, exit_code: None, rule_id: None }
}

/// The host a node's remote actions go to: only a node pinned to a host
/// by id has one. A node without a host must not quietly act on the
/// central machine; selection by tag is not supported.
pub fn target_host(node_key: &str, selector: &Option<HostSelector>) -> (r: Result<u128, RemoteCallResponse>)
    ensures
        match *selector {
            Some(HostSelector::Host(id)) => r == Ok::<u128, RemoteCallResponse>(id),
            Some(HostSelector::Tag(tag)) => r matches Err(resp) && !resp.executed && resp.content@
                == "节点 `"@ + node_key@ + "` 按 tag `"@ + tag@ + "` 选主机，这条路径还没实现"@
                && resp.exit_code is None && resp.rule_id is None,
            _ => r matches Err(resp) && !resp.executed && resp.content@ == "节点 `"@ + node_key@
                + "` 没有声明目标主机，不能执行远端动作。在任务定义里给它加 host 才能用 remote_* 工具"@
                && resp.exit_code is None && resp.rule_id is None,
        },
{
    match selector {
        Some(HostSelector::Host(id)) => Ok(*id),
        Some(HostSelector::Tag(tag)) => {
            let mut m = String::from_str("节点 `");
            m.append(node_key);
            m.append("` 按 tag `");
            m.append(tag.as_str());
            m.append("` 选主机，这条路径还没实现");
            Err(refused(m))
        },
        _ => {
            let mut m = String::from_str("节点 `");
            m.append(node_key);
            m.append("` 没有声明目标主机，不能执行远端动作。在任务定义里给它加 host 才能用 remote_* 工具");
            Err(refused(m))
        },
    }
}

/// The answer when the policy refused the action.
pub fn policy_refusal(reason: &str, rule_id: Option<String>) -> (r: RemoteCallResponse)
    ensures
        !r.executed,
        r.content@ == "被策略拒绝："@ + reason@,
        r.exit_code is None,
        r.rule_id == rule_id,
{
    let mut m = String::from_str("被策略拒绝：");
    m.append(reason);
    RemoteCallResponse { executed: false, content: m, exit_code: None, rule_id }
}

/// The answer when this deployment has no agent binary to run with.
pub fn no_agent() -> (r: RemoteCallResponse)
    ensures
        !r.executed,
        r.content@ == "这个部署没有配置 agent 二进制，远端动作不可用"@,
        r.exit_code is None,
        r.rule_id is None,
{
    refused(String::from_str("这个部署没有配置 agent 二进制，远端动作不可用"))
}

/// The answer when the target could not run the command at all. That is
/// a fact for the model, not an error of its call.
pub fn execution_failed(error: &str) -> (r: RemoteCallResponse)
    ensures
        !r.executed,
        r.content@ == "目标机执行失败："@ + error@,
        r.exit_code is None,
        r.rule_id is None,
{
    let mut m = String::from_str("目标机执行失败：");
    m.append(error);
    refused(m)
}

// ------------------------------------------------------------------ command lines

/// POSIX single quoting: inside single quotes nothing is special but the
/// quote itself, which is closed, escaped and reopened.
pub open spec fn shell_quote_spec(value: Seq<char>) -> Seq<char> {
    "'"@ + replace_char(value, '\'', "'\\''"@) + "'"@
}

pub fn shell_quote(value: &str) -> (s: String)
    ensures
        s@ == shell_quote_spec(value@),
{
    let chars = chars_of(value);
    let mut s = String::from_str("'");
    let ghost start = s@;
    let n = chars.len();
    let mut i: usize = 0;
    while i < n
        invariant
            n == chars@.len(),
            chars@ == value@,
            i <= n,
            s@ == "'"@ + replace_char(chars@.take(i as int), '\'', "'\\''"@),
        decreases n - i,
    {
        assert(chars@.take(i + 1).drop_last() =~= chars@.take(i as int));
        assert(chars@.take(i + 1).last() == chars@[i as int]);
        if chars[i] == '\'' {
            s.append("'\\''");
        } else {
            string_push(&mut s, chars[i]);
        }
        assert(s@ =~= "'"@ + replace_char(chars@.take(i + 1), '\'', "'\\''"@));
        i += 1;
    }
    assert(chars@.take(n as int) =~= value@);
    s.append("'");
    s
}

/// The end marker of a here-document with tag `n`.
pub open spec fn eof_marker(n: nat) -> Seq<char> {
    "AI_TASK_EOF_"@ + decimal(n)
}

/// The position right after the occurrence of marker `m` that `choose`
/// picks.
spec fn marker_end(content: Seq<char>, m: int) -> int {
    let p = choose|p: int| #[trigger] occurs_at(content, eof_marker(m as nat), p);
    p + eof_marker(m as nat).len()
}

/// Two different markers never end at the same position: where the
/// shorter one has its `_`, the longer one has a digit.
proof fn lemma_marker_ends_differ(content: Seq<char>, m1: nat, m2: nat, p1: int, p2: int)
    requires
        occurs_at(content, eof_marker(m1), p1),
        occurs_at(content, eof_marker(m2), p2),
        p1 + eof_marker(m1).len() == p2 + eof_marker(m2).len(),
    ensures
        m1 == m2,
{
    reveal_strlit("AI_TASK_EOF_");
    lemma_decimal_digits(m1);
    lemma_decimal_digits(m2);
    let d1 = decimal(m1);
    let d2 = decimal(m2);
    let k1 = eof_marker(m1);
    let k2 = eof_marker(m2);
    assert(content.subrange(p1, p1 + k1.len()) == k1);
    assert(content.subrange(p2, p2 + k2.len()) == k2);
    if d1.len() == d2.len() {
        assert(p1 == p2);
        assert(k1 == k2);
        assert(k1.skip(12) =~= d1);
        assert(k2.skip(12) =~= d2);
        lemma_decimal_injective(m1, m2);
    } else if d1.len() < d2.len() {
        let q = p1 + 11;
        assert(content[q] == content.subrange(p1, p1 + k1.len())[11]);
        assert(k1[11] == '_');
        let j = q - p2 - 12;
        assert(0 <= j < d2.len());
        assert(content[q] == content.subrange(p2, p2 + k2.len())[q - p2]);
        assert(k2[q - p2] == d2[j]);
        assert(is_digit(d2[j]));
    } else {
        let q = p2 + 11;
        assert(content[q] == content.subrange(p2, p2 + k2.len())[11]);
        assert(k2[11] == '_');
        let j = q - p1 - 12;
        assert(0 <= j < d1.len());
        assert(content[q] == content.subrange(p1, p1 + k1.len())[q - p1]);
        assert(k1[q - p1] == d1[j]);
        assert(is_digit(d1[j]));
    }
}

/// If the markers `0 .. n` all occur, the content has room for `n`
/// distinct end positions after the shortest marker: `n + 12 <= len`.
proof fn lemma_markers_bounded(content: Seq<char>, n: nat)
    requires
        n > 0,
        forall|m: nat| m < n ==> #[trigger] contains(content, eof_marker(m)),
    ensures
        n + 12 <= content.len(),
{
    reveal_strlit("AI_TASK_EOF_");
    let x = vstd::set_lib::set_int_range(0, n as int);
    let f = |m: int| marker_end(content, m);
    assert forall|m: int| x.contains(m) implies {
        let p = choose|p: int| #[trigger] occurs_at(content, eof_marker(m as nat), p);
        occurs_at(content, eof_marker(m as nat), p)
    } by {
        assert(contains(content, eof_marker(m as nat)));
    }
    assert(vstd::relations::injective_on(f, x)) by {
        assert forall|a: int, b: int| x.contains(a) && x.contains(b) && #[trigger] f(a) == #[trigger] f(b) implies a == b by {
            let pa = choose|p: int| #[trigger] occurs_at(content, eof_marker(a as nat), p);
            let pb = choose|p: int| #[trigger] occurs_at(content, eof_marker(b as nat), p);
            lemma_marker_ends_differ(content, a as nat, b as nat, pa, pb);
        }
    }
    let y = x.map(f);
    let hi = content.len() as int + 1;
    assert(contains(content, eof_marker(0)));
    lemma_decimal_digits(0);
    assert(eof_marker(0).len() == 13);
    assert(13 <= content.len());
    let range = vstd::set_lib::set_int_range(13, hi);
    assert(y.subset_of(range)) by {
        assert forall|e: int| y.contains(e) implies range.contains(e) by {
            let m = choose|m: int| x.contains(m) && f(m) == e;
            lemma_decimal_digits(m as nat);
            let p = choose|p: int| #[trigger] occurs_at(content, eof_marker(m as nat), p);
            assert(occurs_at(content, eof_marker(m as nat), p));
        }
    }
    vstd::set_lib::lemma_int_range(0, n as int);
    vstd::set_lib::lemma_int_range(13, hi);
    vstd::set_lib::lemma_map_size(x, y, f);
    vstd::set_lib::lemma_len_subset(y, range);
}

/// A here-document tag that does not occur in the content as a marker:
/// the smallest `n` whose `AI_TASK_EOF_<n>` the content does not contain.
/// Content that happened to hold the marker would cut the file short.
pub fn heredoc_tag(content: &str) -> (tag: String)
    ensures
        exists|k: nat|
            tag@ == decimal(k) && !contains(content@, #[trigger] eof_marker(k)) && forall|m: nat|
                m < k ==> contains(content@, #[trigger] eof_marker(m)),
{
    proof {
        reveal_strlit("AI_TASK_EOF_");
    }
    let chars = chars_of(content);
    let len = chars.len();
    let mut n: usize = 0;
    loop
        invariant
            chars@ == content@,
            len == content@.len(),
            n <= len,
            forall|m: nat| m < n ==> contains(content@, #[trigger] eof_marker(m)),
        decreases len - n,
    {
        let mut marker = String::from_str("AI_TASK_EOF_");
        push_decimal(&mut marker, n as u64);
        let tag_chars = chars_of(marker.as_str());
        let found = crate::text::contains_chars(chars.as_slice(), tag_chars.as_slice());
        if !found {
            let mut tag = String::new();
            push_decimal(&mut tag, n as u64);
            assert(tag@ =~= decimal(n as nat));
            assert(marker@ == eof_marker(n as nat));
            return tag;
        }
        proof {
            assert(marker@ == eof_marker(n as nat));
            assert forall|m: nat| m < n + 1 implies contains(content@, #[trigger] eof_marker(m)) by {
                if m < n {
                } else {
                    assert(m == n);
                }
            }
            lemma_markers_bounded(content@, (n + 1) as nat);
        }
        n = n + 1;
    }
}

/// The command line of an action and its timeout in seconds.
pub open spec fn command_spec(a: RemoteAction, tag: Seq<char>) -> (Seq<char>, u32) {
    match a {
        RemoteAction::RemoteBash { command, working_dir, timeout_s } => (
            match working_dir {
                Some(dir) => "cd "@ + shell_quote_spec(dir@) + " && "@ + command@,
                None => command@,
            },
            match timeout_s {
                Some(t) => t,
                None => 300,
            },
        ),
        RemoteAction::RemoteRead { path } => ("cat -- "@ + shell_quote_spec(path@), 60),
        RemoteAction::RemoteWrite { path, content } => (
            "cat > "@ + shell_quote_spec(path@) + " <<'AI_TASK_EOF_"@ + tag + "'\n"@ + content@
                + "\nAI_TASK_EOF_"@ + tag,
            120,
        ),
        RemoteAction::RemoteGlob { pattern } => (
            "ls -d -- "@ + shell_quote_spec(pattern@) + " 2>/dev/null | head -n 500"@,
            60,
        ),
    }
}

/// A shell action runs with the timeout the model asked for, and 300 s
/// only when it asked for none; the step that executes it waits that long
/// in milliseconds.
pub proof fn lemma_requested_timeout_is_kept(
    command: String,
    working_dir: Option<String>,
    timeout_s: Option<u32>,
    tag: Seq<char>,
    cmd: Seq<char>,
    t: u32,
)
    ensures
        timeout_s matches Some(x) ==> command_spec(
            RemoteAction::RemoteBash { command, working_dir, timeout_s },
            tag,
        ).1 == x,
        timeout_s is None ==> command_spec(RemoteAction::RemoteBash { command, working_dir, timeout_s }, tag).1
            == 300,
        command_fits(RemoteAction::RemoteBash { command, working_dir, timeout_s }, cmd, t) ==> t == (match timeout_s {
            Some(x) => x,
            None => 300,
        }),
        working_dir is None ==> command_spec(RemoteAction::RemoteBash { command, working_dir, timeout_s }, tag).0
            == command@,
{
}

/// The shell command for an action. The working directory and every path
/// are quoted: they are plain strings and must not take part in parsing.
/// A write sends its content through a here-document on stdin: tens of
/// kilobytes would overflow the command line, and no quoting can be fooled
/// by content there. `tag` is what [`heredoc_tag`] picked for the content.
pub fn command_for(action: &RemoteAction) -> (r: (String, u32))
    ensures
        match *action {
            RemoteAction::RemoteWrite { content, .. } => exists|k: nat|
                r.0@ == command_spec(*action, decimal(k)).0 && r.1 == 120 && !contains(content@, #[trigger] eof_marker(k))
                    && forall|m: nat| m < k ==> contains(content@, #[trigger] eof_marker(m)),
            _ => r.0@ == command_spec(*action, Seq::empty()).0 && r.1 == command_spec(*action, Seq::empty()).1,
        },
{
    match action {
        RemoteAction::RemoteBash { command, working_dir, timeout_s } => {
            let line = match working_dir {
                Some(dir) => {
                    let mut s = String::from_str("cd ");
                    let q = shell_quote(dir.as_str());
                    s.append(q.as_str());
                    s.append(" && ");
                    s.append(command.as_str());
                    s
                },
                None => command.clone(),
            };
            let t = match timeout_s {
                Some(t) => *t,
                None => 300,
            };
            (line, t)
        },
        RemoteAction::RemoteRead { path } => {
            let mut s = String::from_str("cat -- ");
            let q = shell_quote(path.as_str());
            s.append(q.as_str());
            (s, 60)
        },
        RemoteAction::RemoteWrite { path, content } => {
            let tag = heredoc_tag(content.as_str());
            let mut s = String::from_str("cat > ");
            let q = shell_quote(path.as_str());
            s.append(q.as_str());
            s.append(" <<'AI_TASK_EOF_");
            s.append(tag.as_str());
            s.append("'\n");
            s.append(content.as_str());
            s.append("\nAI_TASK_EOF_");
            s.append(tag.as_str());
            proof {
                let k = choose|k: nat|
                    tag@ == decimal(k) && !contains(content@, #[trigger] eof_marker(k)) && forall|
                        m: nat,
                    | m < k ==> contains(content@, #[trigger] eof_marker(m));
                assert(s@ =~= command_spec(*action, decimal(k)).0);
            }
            (s, 120)
        },
        RemoteAction::RemoteGlob { pattern } => {
            let mut s = String::from_str("ls -d -- ");
            let q = shell_quote(pattern.as_str());
            s.append(q.as_str());
            s.append(" 2>/dev/null | head -n 500");
            (s, 60)
        },
    }
}

/// The execution timeout in milliseconds for a timeout in seconds.
pub fn timeout_ms(timeout_s: u32) -> (ms: u64)
    ensures
        ms == timeout_s * 1000,
{
    (timeout_s as u64) * 1000
}

// ------------------------------------------------------------------ answers

/// Output cut to [`MAX_OUTPUT_CHARS`] characters, with a note of the full
/// length when cut.
pub open spec fn truncate_spec(text: Seq<char>) -> Seq<char> {
    if text.len() <= MAX_OUTPUT_CHARS {
        text
    } else {
        text.take(MAX_OUTPUT_CHARS as int) + "\n…（输出已截断，共 "@ + decimal(text.len()) + " 字符）"@
    }
}

pub fn truncate(text: &str) -> (s: String)
    ensures
        s@ == truncate_spec(text@),
{
    let chars = chars_of(text);
    let n = chars.len();
    if n <= MAX_OUTPUT_CHARS {
        return String::from_str(text);
    }
    let head = slice_subrange(chars.as_slice(), 0, MAX_OUTPUT_CHARS);
    let mut s = string_of(head);
    s.append("\n…（输出已截断，共 ");
    push_decimal(&mut s, n as u64);
    s.append(" 字符）");
    assert(head@ =~= text@.take(MAX_OUTPUT_CHARS as int));
    s
}

/// The event log's preview of an action's output: stdout unless it is
/// blank, then stderr, trimmed, at most [`PREVIEW_CHARS`] characters.
pub open spec fn preview_spec(stdout: Seq<char>, stderr: Seq<char>) -> Seq<char> {
    let source = if is_blank(stdout) {
        stderr
    } else {
        stdout
    };
    let t = trim(source);
    if t.len() <= PREVIEW_CHARS {
        t
    } else {
        t.take(PREVIEW_CHARS as int)
    }
}

pub fn preview(stdout: &str, stderr: &str) -> (s: String)
    ensures
        s@ == preview_spec(stdout@, stderr@),
{
    let source = if is_blank_str(stdout) {
        stderr
    } else {
        stdout
    };
    let t = trim_str(source);
    let chars = chars_of(t.as_str());
    if chars.len() <= PREVIEW_CHARS {
        t
    } else {
        let head = slice_subrange(chars.as_slice(), 0, PREVIEW_CHARS);
        let s = string_of(head);
        assert(s@ =~= trim(if is_blank(stdout@) {
            stderr@
        } else {
            stdout@
        }).take(PREVIEW_CHARS as int));
        s
    }
}

/// The tool result for an executed action.
pub open spec fn response_content(a: RemoteAction, o: HostExecOutcome) -> Seq<char> {
    if o.result.oom_killed {
        "命中内存上限，整个进程组被内核终止。换个占用更小的做法。"@
    } else if o.result.timed_out {
        "命令超时，已连同其子进程一并终止。"@
    } else {
        match o.result.exit_code {
            Some(code) => if code == 0 {
                match a {
                    RemoteAction::RemoteWrite { path, content } => "已写入 "@ + path@ + "（"@ + decimal(
                        vstd::utf8::encode_utf8(content@).len(),
                    ) + " 字节）"@,
                    _ => if trim(o.stdout@).len() == 0 {
                        "（无输出）"@
                    } else {
                        truncate_spec(trim(o.stdout@))
                    },
                }
            } else {
                "退出码 "@ + decimal_int(code as int) + "\n"@ + truncate_spec(
                    if trim(o.stderr@).len() == 0 {
                        trim(o.stdout@)
                    } else {
                        trim(o.stderr@)
                    },
                )
            },
            None => "被信号 "@ + decimal_int(
                match o.result.killed_by_signal {
                    Some(s) => s as int,
                    None => 0,
                },
            ) + " 终止"@,
        }
    }
}

/// The answer for an action that ran. A kill by the memory limit and a
/// timeout are named as such; a successful write confirms the byte count
/// (its stdout is empty); other output is trimmed and cut.
pub fn to_response(action: &RemoteAction, outcome: &HostExecOutcome) -> (r: RemoteCallResponse)
    ensures
        r.executed,
        r.content@ == response_content(*action, *outcome),
        r.exit_code == (if outcome.result.oom_killed || outcome.result.timed_out {
            None
        } else {
            outcome.result.exit_code
        }),
        r.rule_id is None,
{
    let exec = outcome.result;
    if exec.oom_killed {
        return RemoteCallResponse {
            executed: true,
            content: String::from_str("命中内存上限，整个进程组被内核终止。换个占用更小的做法。"),
            exit_code: None,
            rule_id: None,
        };
    }
    if exec.timed_out {
        return RemoteCallResponse {
            executed: true,
            content: String::from_str("命令超时，已连同其子进程一并终止。"),
            exit_code: None,
            rule_id: None,
        };
    }
    let body = match exec.exit_code {
        Some(code) => if code == 0 {
            match action {
                RemoteAction::RemoteWrite { path, content } => {
                    let mut s = String::from_str("已写入 ");
                    s.append(path.as_str());
                    s.append("（");
                    let bytes = content.as_str().as_bytes().len();
                    push_decimal(&mut s, bytes as u64);
                    s.append(" 字节）");
                    s
                },
                _ => {
                    let out = trim_str(outcome.stdout.as_str());
                    if out.as_str().is_empty() {
                        String::from_str("（无输出）")
                    } else {
                        truncate(out.as_str())
                    }
                },
            }
        } else {
            let err = trim_str(outcome.stderr.as_str());
            let source = if err.as_str().is_empty() {
                trim_str(outcome.stdout.as_str())
            } else {
                err
            };
            let mut s = String::from_str("退出码 ");
            push_i64(&mut s, code as i64);
            s.append("\n");
            let t = truncate(source.as_str());
            s.append(t.as_str());
            s
        },
        None => {
            let mut s = String::from_str("被信号 ");
            let sig: i32 = match exec.killed_by_signal {
                Some(sig) => sig,
                None => 0,
            };
            push_i64(&mut s, sig as i64);
            s.append(" 终止");
            s
        },
    };
    RemoteCallResponse { executed: true, content: body, exit_code: exec.exit_code, rule_id: None }
}

/// Whether the tool-completed event reports success: exit code 0.
pub fn completed_ok(outcome: &HostExecOutcome) -> (b: bool)
    ensures
        b == (outcome.result.exit_code == Some(0i32)),
{
    match outcome.result.exit_code {
        Some(c) => c == 0,
        None => false,
    }
}


// ------------------------------------------------------------------ steps

/// `cmd` and `t` are a command line and timeout that [`command_for`] gives
/// for `a`: for a write, with the smallest here-document tag whose marker
/// the content does not contain.
pub open spec fn command_fits(a: RemoteAction, cmd: Seq<char>, t: u32) -> bool {
    match a {
        RemoteAction::RemoteWrite { content, .. } => exists|k: nat|
            cmd == command_spec(a, decimal(k)).0 && t == 120 && !contains(content@, #[trigger] eof_marker(k))
                && forall|m: nat| m < k ==> contains(content@, #[trigger] eof_marker(m)),
        _ => cmd == command_spec(a, Seq::empty()).0 && t == command_spec(a, Seq::empty()).1,
    }
}

/// What happens next with a remote action.
pub enum RemoteStep {
    /// Answer the model with this, nothing is executed.
    Refuse(RemoteCallResponse),
    /// Ask the policy layer about the action on this host first.
    AskPolicy { host_id: u128 },
    /// Run this command line on the host.
    Execute { host_id: u128, command: String, timeout_ms: u64 },
}

/// The next step of a remote action: the host comes from the node's
/// declaration (none, or one chosen by tag, is a refusal); then the policy
/// decides (`verdict` is its answer, `None` before it was asked); only an
/// allowed action in a deployment with an agent is executed. Nothing runs
/// before the policy has allowed it.
pub fn remote_step(
    node_key: &str,
    selector: &Option<HostSelector>,
    verdict: Option<&PolicyResponse>,
    agent_configured: bool,
    action: &RemoteAction,
) -> (s: RemoteStep)
    ensures
        s is Execute ==> (verdict matches Some(v) && v.allowed && agent_configured),
        !(*selector matches Some(HostSelector::Host(_))) ==> (s matches RemoteStep::Refuse(r)
            && !r.executed && r.exit_code is None && r.rule_id is None && r.content@ == match *selector {
            Some(HostSelector::Tag(tag)) => "节点 `"@ + node_key@ + "` 按 tag `"@ + tag@
                + "` 选主机，这条路径还没实现"@,
            _ => "节点 `"@ + node_key@
                + "` 没有声明目标主机，不能执行远端动作。在任务定义里给它加 host 才能用 remote_* 工具"@,
        }),
        *selector matches Some(HostSelector::Host(h)) ==> (verdict is None ==> s == (RemoteStep::AskPolicy {
            host_id: h,
        })),
        (*selector matches Some(HostSelector::Host(_)) && verdict matches Some(v) && !v.allowed) ==> (
        s matches RemoteStep::Refuse(r) && !r.executed && r.content@ == "被策略拒绝："@ + verdict->0.reason@
            && r.exit_code is None && r.rule_id == verdict->0.rule_id),
        (*selector matches Some(HostSelector::Host(_)) && verdict matches Some(v) && v.allowed
            && !agent_configured) ==> (s matches RemoteStep::Refuse(r) && !r.executed && r.content@
            == "这个部署没有配置 agent 二进制，远端动作不可用"@ && r.exit_code is None && r.rule_id is None),
        *selector matches Some(HostSelector::Host(h)) ==> ((verdict matches Some(v) && v.allowed
            && agent_configured) ==> (s matches RemoteStep::Execute { host_id, command, timeout_ms }
            && host_id == h && exists|t: u32| #[trigger] command_fits(*action, command@, t) && timeout_ms == t * 1000)),
{
    let host_id = match target_host(node_key, selector) {
        Ok(h) => h,
        Err(r) => {
            return RemoteStep::Refuse(r);
        },
    };
    let v = match verdict {
        None => {
            return RemoteStep::AskPolicy { host_id };
        },
        Some(v) => v,
    };
    if !v.allowed {
        let rule_id = match &v.rule_id {
            Some(id) => Some(id.clone()),
            None => None,
        };
        assert(rule_id == v.rule_id);
        return RemoteStep::Refuse(policy_refusal(v.reason.as_str(), rule_id));
    }
    if !agent_configured {
        return RemoteStep::Refuse(no_agent());
    }
    let (command, t) = command_for(action);
    let tm = timeout_ms(t);
    assert(command_fits(*action, command@, t) && tm == t * 1000);
    let ghost cv = command@;
    assert(exists|t2: u32| #[trigger] command_fits(*action, cv, t2) && tm == t2 * 1000);
    assert(*selector == Some(HostSelector::Host(host_id)));
    let st = RemoteStep::Execute { host_id, command, timeout_ms: tm };
    assert(st matches RemoteStep::Execute { host_id: a, command: c, timeout_ms: b } && c@ == cv && b == tm && a == host_id);
    st
}

} // verus!
