//! Reading the result of a command run on a target host.
//!
//! Local and remote execution go through the same agent and protocol; the
//! connection, the agent and the metrics pipeline are the caller's work. What
//! is decided here is how an execution result becomes a node result. A
//! resource kill must stay apart from an ordinary failure: "the task is
//! wrong" and "the machine cannot take it" need different fixes.

use vstd::prelude::*;
use vstd::slice::slice_subrange;

use crate::dag::{NodeResult, NodeStatus};
use crate::engine::HostSelector;
use crate::json::{entry, entry_views, json_int, json_int_of, json_object, json_object_of, json_string, json_string_of};
use crate::text::{chars_of, decimal, decimal_int, is_blank, is_whitespace, push_decimal, push_i64, string_of, trim, trim_bounds};

verus! {

/// Output kept per stream by the agent.
pub const MAX_OUTPUT_BYTES: u64 = 256 * 1024;

/// How many characters of a line make it into an error message.
pub const FIRST_LINE_CHARS: usize = 200;

/// Resource limits declared on a node.
#[derive(Debug, Clone, Copy)]
pub struct ResourceLimits {
    pub memory_mib: Option<u32>,
    pub cpu_percent: Option<u32>,
    pub pids_max: Option<u32>,
}

/// Limits in the agent's units.
#[derive(Debug, Clone, Copy)]
pub struct AgentLimits {
    pub memory_max_bytes: Option<u64>,
    pub cpu_quota_percent: Option<u32>,
    pub pids_max: Option<u32>,
}

/// Converts declared limits to the agent's units (MiB to bytes).
pub fn to_agent_limits(limits: ResourceLimits) -> (a: AgentLimits)
    ensures
        a.memory_max_bytes == (match limits.memory_mib {
            Some(m) => Some((m * 1024 * 1024) as u64),
            None => None,
        }),
        a.cpu_quota_percent == limits.cpu_percent,
        a.pids_max == limits.pids_max,
{
    AgentLimits {
        memory_max_bytes: match limits.memory_mib {
            Some(m) => Some((m as u64) * 1024 * 1024),
            None => None,
        },
        cpu_quota_percent: limits.cpu_percent,
        pids_max: limits.pids_max,
    }
}

/// What the agent reports about a finished command.
#[derive(Debug, Clone, Copy)]
pub struct ExecResult {
    pub exit_code: Option<i32>,
    pub killed_by_signal: Option<i32>,
    pub timed_out: bool,
    pub oom_killed: bool,
}

/// How well the target host attributes and limits resources.
#[derive(Debug, Clone, Copy, PartialEq, Eq, Structural)]
pub enum CgroupMode {
    /// A systemd scope per command: attribution and enforced limits.
    Systemd,
    /// Attribution by process tree only; limits are not enforced.
    Proc,
    /// No attribution at all.
    Absent,
}

/// The mode as hosts and events name it.
pub open spec fn cgroup_mode_name(m: CgroupMode) -> Seq<char> {
    match m {
        CgroupMode::Systemd => "systemd"@,
        CgroupMode::Proc => "proc"@,
        CgroupMode::Absent => "none"@,
    }
}

pub fn mode_name(m: CgroupMode) -> (s: &'static str)
    ensures
        s@ == cgroup_mode_name(m),
{
    match m {
        CgroupMode::Systemd => "systemd",
        CgroupMode::Proc => "proc",
        CgroupMode::Absent => "none",
    }
}

/// One execution as the node sees it.
#[derive(Debug, Clone)]
pub struct HostExecOutcome {
    pub result: ExecResult,
    pub stdout: String,
    pub stderr: String,
    /// The attribution mode the target actually had.
    pub cgroup_mode: CgroupMode,
    pub cgroup_detail: Option<String>,
    /// The limits declared for this execution. A kill reports these, not
    /// the sampled peak.
    pub limits: Option<ResourceLimits>,
}

/// The run ends as `resource_exceeded` when a command was OOM-killed.
pub fn is_resource_exceeded(outcome: &HostExecOutcome) -> (b: bool)
    ensures
        b == outcome.result.oom_killed,
{
    outcome.result.oom_killed
}

/// The first non-blank line of `s` at or after `start`, scanning from `i`
/// where the current line began at `start`.
pub open spec fn first_nonblank_from(s: Seq<char>, start: int, i: int) -> Option<Seq<char>>
    decreases s.len() - i,
{
    if i >= s.len() || i < start || start < 0 {
        let l = s.subrange(start, s.len() as int);
        if 0 <= start <= s.len() && !is_blank(l) {
            Some(l)
        } else {
            None
        }
    } else if s[i] == '\n' {
        let l = s.subrange(start, i);
        if !is_blank(l) {
            Some(l)
        } else {
            first_nonblank_from(s, i + 1, i + 1)
        }
    } else {
        first_nonblank_from(s, start, i + 1)
    }
}

/// The first line with something on it, trimmed and cut to 200 characters
/// (`str::lines` splits on `\n`; a trailing `\r` is whitespace anyway).
pub open spec fn first_line_spec(s: Seq<char>) -> Option<Seq<char>> {
    match first_nonblank_from(s, 0, 0) {
        Some(l) => Some(
            if trim(l).len() <= FIRST_LINE_CHARS {
                trim(l)
            } else {
                trim(l).take(FIRST_LINE_CHARS as int)
            },
        ),
        None => None,
    }
}

/// The line `s[start..end]` trimmed and cut to 200 characters, or `None`
/// when it is blank.
fn cut_line(s: &[char], start: usize, end: usize) -> (r: Option<String>)
    requires
        start <= end <= s@.len(),
    ensures
        is_blank(s@.subrange(start as int, end as int)) ==> r is None,
        !is_blank(s@.subrange(start as int, end as int)) ==> (r matches Some(l) && l@ == {
            let t = trim(s@.subrange(start as int, end as int));
            if t.len() <= FIRST_LINE_CHARS {
                t
            } else {
                t.take(FIRST_LINE_CHARS as int)
            }
        }),
{
    let line = slice_subrange(s, start, end);
    let (a, b) = trim_bounds(line);
    proof {
        crate::text::lemma_trim_empty_iff_blank(line@);
    }
    if a < b {
        let t = slice_subrange(line, a, b);
        let k: usize = if b - a <= FIRST_LINE_CHARS {
            b - a
        } else {
            FIRST_LINE_CHARS
        };
        let cut = slice_subrange(t, 0, k);
        proof {
            assert(t@.take(k as int) =~= cut@);
            if b - a <= FIRST_LINE_CHARS {
                assert(cut@ =~= t@);
            }
        }
        Some(string_of(cut))
    } else {
        None
    }
}

/// The first non-blank line of `text`, trimmed, at most 200 characters.
pub fn first_line(text: &str) -> (r: Option<String>)
    ensures
        r matches Some(l) ==> first_line_spec(text@) == Some(l@),
        r is None ==> first_line_spec(text@) is None,
{
    let s = chars_of(text);
    let n = s.len();
    let mut start: usize = 0;
    let mut i: usize = 0;
    while i < n
        invariant
            n == s@.len(),
            s@ == text@,
            start <= i <= n,
            first_nonblank_from(s@, 0, 0) == first_nonblank_from(s@, start as int, i as int),
        decreases n - i,
    {
        if s[i] == '\n' {
            let r = cut_line(s.as_slice(), start, i);
            if r.is_some() {
                assert(!is_blank(s@.subrange(start as int, i as int)));
                assert(first_nonblank_from(s@, start as int, i as int) == Some(
                    s@.subrange(start as int, i as int),
                ));
                return r;
            }
            i += 1;
            start = i;
        } else {
            i += 1;
        }
    }
    cut_line(s.as_slice(), start, n)
}

/// The text of an OOM kill. It reports the declared limit: the sampled peak
/// may be far lower when the process hit the limit between two samples.
pub open spec fn oom_message(limits: Option<ResourceLimits>) -> Seq<char> {
    let limit = match limits {
        Some(l) => match l.memory_mib {
            Some(mib) => decimal(mib as nat) + " MiB 内存上限"@,
            None => "内存上限"@,
        },
        None => "内存上限"@,
    };
    "命中 "@ + limit + "，整个进程组已被内核终止。调高 limits.memory_mib，或让任务分批处理"@
}

fn oom_text(limits: Option<ResourceLimits>) -> (e: String)
    ensures
        e@ == oom_message(limits),
{
    let mut e = String::from_str("命中 ");
    let mib: Option<u32> = match limits {
        Some(l) => l.memory_mib,
        None => None,
    };
    match mib {
        Some(m) => {
            push_decimal(&mut e, m as u64);
            e.append(" MiB 内存上限");
        },
        None => e.append("内存上限"),
    }
    e.append("，整个进程组已被内核终止。调高 limits.memory_mib，或让任务分批处理");
    e
}

/// How a shell node ends.
pub enum ShellVerdict {
    /// Exit code 0: the node's output carries both streams, trimmed.
    Succeeded { stdout: String, stderr: String },
    Failed(String),
}

/// The node-level reading of an execution.
pub open spec fn shell_verdict_spec(o: HostExecOutcome) -> Result<(Seq<char>, Seq<char>), Seq<char>> {
    if o.result.oom_killed {
        Err(oom_message(o.limits))
    } else if o.result.timed_out {
        Err("命令超时，已连同其子进程一并终止"@)
    } else {
        match o.result.exit_code {
            Some(code) => if code == 0 {
                Ok((trim(o.stdout@), trim(o.stderr@)))
            } else {
                Err("命令退出码 "@ + decimal_int(code as int) + "："@ + match first_line_spec(o.stderr@) {
                    Some(l) => l,
                    None => match first_line_spec(o.stdout@) {
                        Some(l) => l,
                        None => Seq::empty(),
                    },
                })
            },
            None => Err("命令被信号 "@ + decimal_int(
                match o.result.killed_by_signal {
                    Some(sig) => sig as int,
                    None => 0,
                },
            ) + " 终止"@),
        }
    }
}

/// Reads an execution as a node result. An OOM kill and a timeout are
/// named as such; a non-zero exit reports its code and the first line of
/// stderr (or stdout); a kill by signal reports the signal.
pub fn to_node_result(outcome: &HostExecOutcome) -> (v: ShellVerdict)
    ensures
        match v {
            ShellVerdict::Succeeded { stdout, stderr } => shell_verdict_spec(*outcome) == Ok::<
                (Seq<char>, Seq<char>),
                Seq<char>,
            >((stdout@, stderr@)),
            ShellVerdict::Failed(e) => shell_verdict_spec(*outcome) == Err::<
                (Seq<char>, Seq<char>),
                Seq<char>,
            >(e@),
        },
{
    let exec = outcome.result;
    if exec.oom_killed {
        return ShellVerdict::Failed(oom_text(outcome.limits));
    }
    if exec.timed_out {
        return ShellVerdict::Failed(String::from_str("命令超时，已连同其子进程一并终止"));
    }
    match exec.exit_code {
        Some(code) => if code == 0 {
            ShellVerdict::Succeeded {
                stdout: crate::text::trim_str(outcome.stdout.as_str()),
                stderr: crate::text::trim_str(outcome.stderr.as_str()),
            }
        } else {
            let mut e = String::from_str("命令退出码 ");
            push_i64(&mut e, code as i64);
            e.append("：");
            match first_line(outcome.stderr.as_str()) {
                Some(l) => e.append(l.as_str()),
                None => match first_line(outcome.stdout.as_str()) {
                    Some(l) => e.append(l.as_str()),
                    None => {},
                },
            }
            proof {
                let tail = match first_line_spec(outcome.stderr@) {
                    Some(l) => l,
                    None => match first_line_spec(outcome.stdout@) {
                        Some(l) => l,
                        None => Seq::empty(),
                    },
                };
                assert(e@ =~= "命令退出码 "@ + decimal_int(code as int) + "："@ + tail);
            }
            ShellVerdict::Failed(e)
        },
        None => {
            let mut e = String::from_str("命令被信号 ");
            let sig: i32 = match exec.killed_by_signal {
                Some(sig) => sig,
                None => 0,
            };
            push_i64(&mut e, sig as i64);
            e.append(" 终止");
            ShellVerdict::Failed(e)
        },
    }
}

/// The output of a successful command: both streams, trimmed, and the
/// exit code, for downstream nodes to read.
pub open spec fn shell_output_spec(stdout: Seq<char>, stderr: Seq<char>) -> serde_json::Value {
    json_object_of(
        seq![("stdout"@, json_string_of(stdout)), ("stderr"@, json_string_of(stderr)), ("exit_code"@, json_int_of(0))],
    )
}

/// `{"stdout": .., "stderr": .., "exit_code": 0}`.
pub fn shell_output(stdout: &str, stderr: &str) -> (v: serde_json::Value)
    ensures
        v == shell_output_spec(stdout@, stderr@),
{
    let mut entries: Vec<(String, serde_json::Value)> = Vec::new();
    entries.push(entry("stdout", json_string(stdout)));
    entries.push(entry("stderr", json_string(stderr)));
    entries.push(entry("exit_code", json_int(0)));
    proof {
        reveal_strlit("stdout");
        reveal_strlit("stderr");
        reveal_strlit("exit_code");
        assert(entry_views(entries@) =~= seq![
            ("stdout"@, json_string_of(stdout@)),
            ("stderr"@, json_string_of(stderr@)),
            ("exit_code"@, json_int_of(0)),
        ]);
    }
    json_object(entries)
}

/// The node result of a verdict. On success the node's value holds both
/// trimmed streams and exit code zero; on failure, the reason.
pub fn shell_node_result(verdict: ShellVerdict) -> (r: NodeResult)
    ensures
        match verdict {
            ShellVerdict::Succeeded { stdout, stderr } => r.status == NodeStatus::Succeeded && r.output == Some(
                shell_output_spec(stdout@, stderr@),
            ) && r.error is None,
            ShellVerdict::Failed(e) => r.status == NodeStatus::Failed && r.error == Some(e)
                && r.output is None,
        },
        r.cost == 0,
        r.cli_version is None,
{
    match verdict {
        ShellVerdict::Succeeded { stdout, stderr } => NodeResult::succeeded(
            Some(shell_output(stdout.as_str(), stderr.as_str())),
        ),
        ShellVerdict::Failed(e) => NodeResult::failed(e),
    }
}

/// How a shell node ends, from what the agent reported: exit code 0
/// succeeds with `{"stdout", "stderr", "exit_code": 0}` (streams trimmed);
/// everything else fails with the reason [`to_node_result`] gives.
pub fn shell_result(outcome: &HostExecOutcome) -> (r: NodeResult)
    ensures
        r.cost == 0,
        r.cli_version is None,
        match shell_verdict_spec(*outcome) {
            Ok((out, err)) => r.status == NodeStatus::Succeeded && r.output == Some(shell_output_spec(out, err))
                && r.error is None,
            Err(m) => r.status == NodeStatus::Failed && (r.error matches Some(e) && e@ == m) && r.output is None,
        },
{
    shell_node_result(to_node_result(outcome))
}

/// An unsigned counter reported by the agent, as the metrics table stores
/// it (`i64`, saturating).
pub fn counter_to_i64(v: u64) -> (r: i64)
    ensures
        r == (if v > i64::MAX as u64 {
            i64::MAX as int
        } else {
            v as int
        }),
{
    if v > i64::MAX as u64 {
        i64::MAX
    } else {
        v as i64
    }
}

/// A process count as the metrics table stores it (`i32`, saturating).
pub fn count_to_i32(v: u64) -> (r: i32)
    ensures
        r == (if v > i32::MAX as u64 {
            i32::MAX as int
        } else {
            v as int
        }),
{
    if v > i32::MAX as u64 {
        i32::MAX
    } else {
        v as i32
    }
}

/// Where a command runs.
#[derive(Debug, Clone, Copy, PartialEq, Eq, Structural)]
pub enum ExecTarget {
    /// A local agent in the centre.
    Local,
    /// The agent on this host.
    Remote(u128),
}

/// The refusal of a host chosen by tag.
pub open spec fn tag_unsupported(tag: Seq<char>) -> Seq<char> {
    "按 tag 选主机（tag="@ + tag + "）在 M4 里还没实现，先用 host_id 指定"@
}

/// Where a node's command runs: without a selector, or with `Local`, on a
/// local agent; on the named host otherwise. Choosing a host by tag is not
/// implemented and is refused before anything starts.
pub fn exec_target(selector: &Option<HostSelector>) -> (r: Result<ExecTarget, String>)
    ensures
        match *selector {
            None => r == Ok::<ExecTarget, String>(ExecTarget::Local),
            Some(HostSelector::Local) => r == Ok::<ExecTarget, String>(ExecTarget::Local),
            Some(HostSelector::Host(h)) => r == Ok::<ExecTarget, String>(ExecTarget::Remote(h)),
            Some(HostSelector::Tag(t)) => r matches Err(m) && m@ == tag_unsupported(t@),
        },
{
    match selector {
        None => Ok(ExecTarget::Local),
        Some(HostSelector::Local) => Ok(ExecTarget::Local),
        Some(HostSelector::Host(h)) => Ok(ExecTarget::Remote(*h)),
        Some(HostSelector::Tag(t)) => {
            let mut m = String::from_str("按 tag 选主机（tag=");
            m.append(t.as_str());
            m.append("）在 M4 里还没实现，先用 host_id 指定");
            Err(m)
        },
    }
}

/// What the agent measured of a whole execution.
#[derive(Debug, Clone, Copy)]
pub struct ResourceUsage {
    pub cpu_usec: u64,
    pub rss_bytes: u64,
    pub peak_rss_bytes: u64,
    pub pids: u64,
}

/// One point of a node's resource curve, as the metrics table stores it.
#[derive(Debug, Clone, Copy, PartialEq, Eq)]
pub struct MetricSample {
    /// Microseconds since the epoch.
    pub at: i64,
    pub cpu_usec: i64,
    pub rss_bytes: i64,
    pub pids: i32,
}

pub open spec fn saturate_i64(v: u64) -> i64 {
    if v > i64::MAX as u64 {
        i64::MAX
    } else {
        v as i64
    }
}

pub open spec fn saturate_i32(v: u64) -> i32 {
    if v > i32::MAX as u64 {
        i32::MAX
    } else {
        v as i32
    }
}

/// The point added once an execution is over. A command shorter than one
/// sampling period leaves no point at all, so then (and only then) the
/// final measurement becomes the curve's one point, with the larger of
/// the peak and the last resident size. Adding it after real samples would
/// end every curve in a false drop: the process has exited, and its CPU
/// since the last sample is zero. A failed execution measured nothing.
pub fn closing_sample(sampled: usize, usage: Option<ResourceUsage>, now: i64) -> (r: Option<MetricSample>)
    ensures
        (sampled > 0 || usage is None) ==> r is None,
        sampled == 0 ==> (usage matches Some(u) ==> r == Some(MetricSample {
            at: now,
            cpu_usec: saturate_i64(u.cpu_usec),
            rss_bytes: saturate_i64(if u.peak_rss_bytes >= u.rss_bytes {
                u.peak_rss_bytes
            } else {
                u.rss_bytes
            }),
            pids: saturate_i32(u.pids),
        })),
{
    if sampled > 0 {
        return None;
    }
    match usage {
        None => None,
        Some(u) => {
            let rss = if u.peak_rss_bytes >= u.rss_bytes {
                u.peak_rss_bytes
            } else {
                u.rss_bytes
            };
            Some(
                MetricSample {
                    at: now,
                    cpu_usec: counter_to_i64(u.cpu_usec),
                    rss_bytes: counter_to_i64(rss),
                    pids: count_to_i32(u.pids),
                },
            )
        },
    }
}

/// The `resource_degraded` record of an execution: the mode's name and
/// its detail, when the host attributed resources less than fully. A node
/// records it on its first attempt only.
pub fn degraded_record(outcome: &HostExecOutcome, attempt: u32) -> (r: Option<(String, Option<String>)>)
    ensures
        match r {
            Some(rec) => outcome.cgroup_mode != CgroupMode::Systemd && attempt == 1 && rec.0@
                == cgroup_mode_name(outcome.cgroup_mode) && rec.1 == outcome.cgroup_detail,
            None => outcome.cgroup_mode == CgroupMode::Systemd || attempt != 1,
        },
{
    if outcome.cgroup_mode != CgroupMode::Systemd && attempt == 1 {
        Some((String::from_str(mode_name(outcome.cgroup_mode)), outcome.cgroup_detail.clone()))
    } else {
        None
    }
}

/// Whether a host is shown as degraded: its probed mode is known and is
/// not systemd. A host never probed is not known to be healthy, but it is
/// not reported as degraded either.
pub fn host_degraded(probed_mode: Option<&str>) -> (b: bool)
    ensures
        b == (match probed_mode {
            Some(m) => m@ != "systemd"@,
            None => false,
        }),
{
    match probed_mode {
        Some(m) => !crate::text::str_eq(m, "systemd"),
        None => false,
    }
}

} // verus!
