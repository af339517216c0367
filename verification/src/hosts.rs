//! The rules of the host endpoints. A private key goes in and never comes
//! out: no read endpoint returns it.

use vstd::prelude::*;
use vstd::slice::slice_subrange;

use crate::engine::{sorted_unique, strictly_sorted, text_set};
use crate::error::{invalid, AppError};
use crate::text::{
    chars_of, contains, is_blank, is_blank_str, str_contains, str_eq, string_of, trim,
    trim_str,
};

verus! {

/// The body of `POST /api/v1/hosts`.
pub struct CreateHost {
    pub name: String,
    /// Host name or IP.
    pub address: String,
    pub port: u16,
    pub username: String,
    /// Policies apply by tag (writes on `prod` ask).
    pub tags: Vec<String>,
    /// An OpenSSH private key.
    pub private_key: String,
}

/// The answer of a created host.
pub struct HostCreated {
    pub id: String,
}

/// The SSH port when none is given.
pub fn default_port() -> (p: u16)
    ensures
        p == 22,
{
    22
}

/// A new host as it is stored: the texts trimmed.
pub struct NewHost {
    pub name: String,
    pub address: String,
    pub port: u16,
    pub username: String,
    pub tags: Vec<String>,
    pub private_key: String,
}

pub open spec fn key_hint() -> Seq<char> {
    "看起来不是 OpenSSH 私钥。要的是私钥文件的内容（-----BEGIN ... PRIVATE KEY-----），不是公钥、也不是路径"@
}

/// The checks of a new host, in order, each naming its field. The key's
/// shape is checked here: a connection failure later could not tell a
/// bad key from a bad network.
pub fn validate_create(body: CreateHost) -> (r: Result<NewHost, AppError>)
    ensures
        ({
            let bad_tag = exists|i: int| 0 <= i < body.tags@.len() && is_blank(#[trigger] body.tags@[i]@);
            if is_blank(body.name@) {
                r matches Err(AppError::Validation(v)) && v@[0].field@ == "name"@ && v@[0].message@
                    == "主机名不能为空"@
            } else if is_blank(body.address@) {
                r matches Err(AppError::Validation(v)) && v@[0].field@ == "address"@ && v@[0].message@
                    == "地址不能为空"@
            } else if is_blank(body.username@) {
                r matches Err(AppError::Validation(v)) && v@[0].field@ == "username"@ && v@[0].message@
                    == "登录用户名不能为空"@
            } else if !contains(body.private_key@, "PRIVATE KEY"@) {
                r matches Err(AppError::Validation(v)) && v@[0].field@ == "private_key"@
                    && v@[0].message@ == key_hint()
            } else if bad_tag {
                r matches Err(AppError::Validation(v)) && v@[0].field@ == "tags"@ && v@[0].message@
                    == "tag 不能是空字符串"@
            } else {
                r matches Ok(h) && h.name@ == trim(body.name@) && h.address@ == trim(body.address@)
                    && h.username@ == trim(body.username@) && h.port == body.port && h.tags
                    == body.tags && h.private_key == body.private_key
            }
        }),
{
    if is_blank_str(body.name.as_str()) {
        return Err(invalid("name", "主机名不能为空"));
    }
    if is_blank_str(body.address.as_str()) {
        return Err(invalid("address", "地址不能为空"));
    }
    if is_blank_str(body.username.as_str()) {
        return Err(invalid("username", "登录用户名不能为空"));
    }
    if !str_contains(body.private_key.as_str(), "PRIVATE KEY") {
        return Err(
            invalid(
                "private_key",
                "看起来不是 OpenSSH 私钥。要的是私钥文件的内容（-----BEGIN ... PRIVATE KEY-----），不是公钥、也不是路径",
            ),
        );
    }
    let n = body.tags.len();
    let mut i: usize = 0;
    while i < n
        invariant
            n == body.tags@.len(),
            i <= n,
            !is_blank(body.name@),
            !is_blank(body.address@),
            !is_blank(body.username@),
            contains(body.private_key@, "PRIVATE KEY"@),
            forall|k: int| 0 <= k < i ==> !is_blank(#[trigger] body.tags@[k]@),
        decreases n - i,
    {
        if is_blank_str(body.tags[i].as_str()) {
            assert(is_blank(body.tags@[i as int]@));
            return Err(invalid("tags", "tag 不能是空字符串"));
        }
        i += 1;
    }
    let name = trim_str(body.name.as_str());
    let address = trim_str(body.address.as_str());
    let username = trim_str(body.username.as_str());
    Ok(NewHost { name, address, port: body.port, username, tags: body.tags, private_key: body.private_key })
}

/// A host name that is taken.
pub fn host_exists(name: &str) -> (e: AppError)
    ensures
        e matches AppError::Conflict(m) && m@ == "主机 `"@ + trim(name@) + "` 已存在"@,
{
    let mut m = String::from_str("主机 `");
    let t = trim_str(name);
    m.append(t.as_str());
    m.append("` 已存在");
    AppError::Conflict(m)
}

/// The agent version shown for a host: the first 16 characters of the
/// deployed binary's hash; `None` for a host never connected.
pub fn agent_version(sha256: Option<&str>) -> (r: Option<String>)
    ensures
        match sha256 {
            Some(s) => r matches Some(v) && v@ == (if s@.len() <= 16 {
                s@
            } else {
                s@.take(16)
            }),
            None => r is None,
        },
{
    match sha256 {
        Some(s) => {
            let chars = chars_of(s);
            if chars.len() <= 16 {
                Some(String::from_str(s))
            } else {
                let v = string_of(slice_subrange(chars.as_slice(), 0, 16));
                assert(v@ =~= s@.take(16));
                Some(v)
            }
        },
        None => None,
    }
}


/// A host as the API shows it. There is no field that could carry a
/// credential, and there will not be one: a leaked key is leaked for good.
#[derive(Debug)]
pub struct HostSummary {
    pub id: String,
    pub name: String,
    pub address: String,
    pub port: i32,
    pub username: String,
    pub tags: Vec<String>,
    /// The first 16 characters of the deployed agent's hash; `None` for a
    /// host never connected.
    pub agent_version: Option<String>,
    /// `systemd`, `proc` or `none`; `None` for a host never probed.
    pub cgroup_mode: Option<String>,
    /// Attribution is incomplete and limits are not enforced.
    pub degraded: bool,
    /// Microseconds since the Unix epoch.
    pub last_seen_at: Option<i64>,
}

/// The summary of a stored host. A host never probed is not known to be
/// healthy, and it is not shown as degraded either.
pub fn host_summary(
    id: String,
    name: String,
    address: String,
    port: i32,
    username: String,
    tags: Vec<String>,
    agent_sha256: Option<&str>,
    cgroup_mode: Option<String>,
    last_seen_at: Option<i64>,
) -> (h: HostSummary)
    ensures
        h.id == id && h.name == name && h.address == address && h.port == port,
        h.username == username && h.tags == tags && h.last_seen_at == last_seen_at,
        h.cgroup_mode == cgroup_mode,
        h.degraded == (match cgroup_mode {
            Some(m) => m@ != "systemd"@,
            None => false,
        }),
        match agent_sha256 {
            Some(s) => h.agent_version matches Some(v) && v@ == (if s@.len() <= 16 {
                s@
            } else {
                s@.take(16)
            }),
            None => h.agent_version is None,
        },
{
    let degraded = match &cgroup_mode {
        Some(m) => crate::host_exec::host_degraded(Some(m.as_str())),
        None => crate::host_exec::host_degraded(None),
    };
    HostSummary {
        id,
        name,
        address,
        port,
        username,
        tags,
        agent_version: agent_version(agent_sha256),
        cgroup_mode,
        degraded,
        last_seen_at,
    }
}

// ------------------------------------------------------------------ metrics

/// One resource sample of a node.
#[derive(Debug, Clone, Copy, PartialEq, Eq, Structural)]
pub struct MetricPoint {
    /// When it was taken (microseconds since the Unix epoch).
    pub at: i64,
    /// Cumulative CPU microseconds: a usage curve is the difference of
    /// neighbouring points over their interval.
    pub cpu_usec: i64,
    pub rss_bytes: i64,
    pub pids: i32,
}

/// The resource curve of one node.
#[derive(Debug)]
pub struct NodeMetrics {
    pub node_key: String,
    pub points: Vec<MetricPoint>,
}

/// The samples of node `key` among `rows`, in row order.
pub open spec fn points_of(rows: Seq<(String, MetricPoint)>, key: Seq<char>) -> Seq<MetricPoint>
    decreases rows.len(),
{
    if rows.len() == 0 {
        Seq::empty()
    } else {
        points_of(rows.drop_last(), key) + if rows.last().0@ == key {
            seq![rows.last().1]
        } else {
            Seq::empty()
        }
    }
}

pub open spec fn row_keys(rows: Seq<(String, MetricPoint)>) -> Seq<String> {
    rows.map_values(|r: (String, MetricPoint)| r.0)
}

pub open spec fn curve_keys(curves: Seq<NodeMetrics>) -> Seq<String> {
    curves.map_values(|c: NodeMetrics| c.node_key)
}

/// The samples of one node, in the order the store returned them.
fn samples_of(rows: &Vec<(String, MetricPoint)>, key: &str) -> (r: Vec<MetricPoint>)
    ensures
        r@ == points_of(rows@, key@),
{
    let mut out: Vec<MetricPoint> = Vec::new();
    let n = rows.len();
    let mut j: usize = 0;
    while j < n
        invariant
            n == rows@.len(),
            j <= n,
            out@ == points_of(rows@.take(j as int), key@),
        decreases n - j,
    {
        proof {
            assert(rows@.take(j + 1).drop_last() =~= rows@.take(j as int));
        }
        if str_eq(rows[j].0.as_str(), key) {
            out.push(rows[j].1);
        }
        proof {
            assert(out@ =~= points_of(rows@.take(j + 1), key@));
        }
        j += 1;
    }
    assert(rows@.take(n as int) =~= rows@);
    out
}

/// The samples of a run grouped into one curve per node: the nodes in key
/// order, each once, every sample of a node in its curve in the order the
/// store returned them.
pub fn group_metrics(rows: &Vec<(String, MetricPoint)>) -> (r: Vec<NodeMetrics>)
    ensures
        strictly_sorted(curve_keys(r@)),
        text_set(curve_keys(r@)) == text_set(row_keys(rows@)),
        forall|i: int| 0 <= i < r@.len() ==> (#[trigger] r@[i]).points@ == points_of(rows@, r@[i].node_key@),
{
    let mut keys: Vec<String> = Vec::new();
    let n = rows.len();
    let mut i: usize = 0;
    while i < n
        invariant
            n == rows@.len(),
            i <= n,
            keys@ == row_keys(rows@.take(i as int)),
        decreases n - i,
    {
        keys.push(rows[i].0.clone());
        assert(keys@ =~= row_keys(rows@.take(i + 1)));
        i += 1;
    }
    assert(rows@.take(n as int) =~= rows@);
    let uniq = sorted_unique(keys);
    let mut out: Vec<NodeMetrics> = Vec::new();
    let m = uniq.len();
    let mut k: usize = 0;
    while k < m
        invariant
            m == uniq@.len(),
            k <= m,
            out@.len() == k,
            curve_keys(out@) == uniq@.take(k as int),
            forall|t: int| 0 <= t < out@.len() ==> (#[trigger] out@[t]).points@ == points_of(rows@, out@[t].node_key@),
        decreases m - k,
    {
        let key = uniq[k].clone();
        let points = samples_of(rows, key.as_str());
        let ghost before = out@;
        let ghost key_view = key;
        assert(key_view == uniq@[k as int]);
        out.push(NodeMetrics { node_key: key, points });
        proof {
            assert(out@.last().node_key == key_view);
            assert(curve_keys(before) == uniq@.take(k as int));
            assert forall|t: int| 0 <= t < k + 1 implies #[trigger] curve_keys(out@)[t] == uniq@.take(k + 1)[t] by {
                if t < k {
                    assert(out@[t] == before[t]);
                    assert(curve_keys(before)[t] == uniq@.take(k as int)[t]);
                }
            }
            assert(curve_keys(out@) =~= uniq@.take(k + 1));
            assert forall|t: int| 0 <= t < out@.len() implies (#[trigger] out@[t]).points@ == points_of(
                rows@,
                out@[t].node_key@,
            ) by {
                if t < before.len() {
                    assert(out@[t] == before[t]);
                }
            }
        }
        k += 1;
    }
    assert(uniq@.take(m as int) =~= uniq@);
    out
}

} // verus!
