//! Process configuration: the checks and derived values. Command line and
//! environment are read by the binary; the values are judged here.

use vstd::prelude::*;

use crate::text::{decimal, push_decimal};

verus! {

/// The password floor by default, and the floor an exposed deployment can
/// never go below.
pub const DEFAULT_MIN_PASSWORD_LEN: usize = 12;

/// The log filter used when the configured one does not parse.
pub const FALLBACK_LOG_FILTER: &'static str = "info,ai_task=debug,tower_http=warn,sqlx=warn";

/// The configuration as the library needs it.
pub struct AppConfig {
    /// The listen address, as written.
    pub listen: String,
    /// Whether the listen address is a loopback address.
    pub listen_is_loopback: bool,
    pub database_url: String,
    pub db_max_connections: Option<u32>,
    pub max_concurrent_runs: Option<usize>,
    pub auto_migrate: bool,
    pub log_filter: String,
    pub shutdown_timeout_s: u64,
    pub claude_binary: String,
    pub workdir_root: String,
    pub worker_id: String,
    pub scheduler_interval_ms: u64,
    pub encryption_key: Option<String>,
    pub local_agent: String,
    pub remote_agent: Option<String>,
    pub known_hosts: Option<String>,
    pub ssh_accept_new: bool,
    pub require_auth: bool,
    pub min_password_len: usize,
}

/// How unknown SSH host keys are treated. A changed key is refused under
/// either policy; only a never-seen host can be accepted.
#[derive(Debug, Clone, Copy, PartialEq, Eq, Structural)]
pub enum HostKeyPolicy {
    AcceptNew,
    Strict,
}

pub open spec fn password_floor_message(listen: Seq<char>, floor: usize) -> Seq<char> {
    "监听在 "@ + listen + " 却把口令下限调到了 "@ + decimal(floor as nat)
        + "。放宽下限的理由只在本机开发时成立，\n对外暴露时不成立。"@
}

pub open spec fn no_auth_message(listen: Seq<char>) -> Seq<char> {
    "监听在 "@ + listen + " 却没开认证。这个服务能 SSH 到任意机器执行命令，\n对外暴露必须配合 AI_TASK_REQUIRE_AUTH=true。"@
}

impl AppConfig {
    /// The connection pool size when overridden: at least one.
    pub fn pool_size_override(&self) -> (r: Option<u32>)
        ensures
            r == (match self.db_max_connections {
                Some(m) => Some(if m < 1 {
                    1u32
                } else {
                    m
                }),
                None => None,
            }),
    {
        match self.db_max_connections {
            Some(m) => Some(if m < 1 {
                1
            } else {
                m
            }),
            None => None,
        }
    }

    /// How many runs may execute at once: as configured, else the number
    /// of cores (`available`, 4 when unknown), always within 1 ..= 32.
    /// Zero would queue every run forever; hundreds would be hundreds of
    /// model processes spending money at once.
    pub fn max_concurrent_runs(&self, available: Option<usize>) -> (n: usize)
        ensures
            1 <= n <= 32,
            ({
                let wanted = match self.max_concurrent_runs {
                    Some(m) => m,
                    None => match available {
                        Some(a) => a,
                        None => 4,
                    },
                };
                n == (if wanted < 1 {
                    1
                } else if wanted > 32 {
                    32
                } else {
                    wanted
                })
            }),
    {
        let wanted = match self.max_concurrent_runs {
            Some(m) => m,
            None => match available {
                Some(a) => a,
                None => 4,
            },
        };
        if wanted < 1 {
            1
        } else if wanted > 32 {
            32
        } else {
            wanted
        }
    }

    /// The scheduler's polling interval in milliseconds, at least 100.
    pub fn scheduler_interval_ms(&self) -> (ms: u64)
        ensures
            ms == (if self.scheduler_interval_ms < 100 {
                100
            } else {
                self.scheduler_interval_ms
            }),
    {
        if self.scheduler_interval_ms < 100 {
            100
        } else {
            self.scheduler_interval_ms
        }
    }

    /// The host-key policy of SSH connections.
    pub fn host_key_policy(&self) -> (p: HostKeyPolicy)
        ensures
            p == (if self.ssh_accept_new {
                HostKeyPolicy::AcceptNew
            } else {
                HostKeyPolicy::Strict
            }),
    {
        if self.ssh_accept_new {
            HostKeyPolicy::AcceptNew
        } else {
            HostKeyPolicy::Strict
        }
    }

    /// What does not add up, checked at start-up: listening beyond
    /// loopback requires authentication and the default password floor.
    /// Refusing to start beats starting unsafe.
    pub fn validate(&self) -> (r: Result<(), String>)
        ensures
            (!self.listen_is_loopback && self.min_password_len < DEFAULT_MIN_PASSWORD_LEN) ==> (r matches Err(
                m,
            ) && m@ == password_floor_message(self.listen@, self.min_password_len)),
            !(!self.listen_is_loopback && self.min_password_len < DEFAULT_MIN_PASSWORD_LEN) && (
            !self.listen_is_loopback && !self.require_auth) ==> (r matches Err(m) && m@ == no_auth_message(
                self.listen@,
            )),
            (self.listen_is_loopback || (self.min_password_len >= DEFAULT_MIN_PASSWORD_LEN
                && self.require_auth)) ==> r is Ok,
    {
        if !self.listen_is_loopback && self.min_password_len < DEFAULT_MIN_PASSWORD_LEN {
            let mut m = String::from_str("监听在 ");
            m.append(self.listen.as_str());
            m.append(" 却把口令下限调到了 ");
            push_decimal(&mut m, self.min_password_len as u64);
            m.append("。放宽下限的理由只在本机开发时成立，\n对外暴露时不成立。");
            return Err(m);
        }
        if !self.listen_is_loopback && !self.require_auth {
            let mut m = String::from_str("监听在 ");
            m.append(self.listen.as_str());
            m.append(" 却没开认证。这个服务能 SSH 到任意机器执行命令，\n对外暴露必须配合 AI_TASK_REQUIRE_AUTH=true。");
            return Err(m);
        }
        Ok(())
    }

    /// The credential key, required before anything touches the database:
    /// host private keys are stored encrypted, and there is no safe
    /// fallback without a key. A missing key refuses to start.
    pub fn encryption_key_check(&self) -> (r: Result<String, String>)
        ensures
            self.encryption_key matches Some(k) ==> r == Ok::<String, String>(k),
            self.encryption_key is None ==> (r matches Err(m) && m@ == missing_key_message()),
    {
        match &self.encryption_key {
            Some(k) => Ok(k.clone()),
            None => Err(String::from_str(
                "缺少 AI_TASK_ENCRYPTION_KEY（64 位十六进制）。\n主机私钥必须加密落库，没有密钥就没有安全的降级选项。\n生成一个：openssl rand -hex 32",
            )),
        }
    }
}

/// The refusal to start without a credential key.
pub open spec fn missing_key_message() -> Seq<char> {
    "缺少 AI_TASK_ENCRYPTION_KEY（64 位十六进制）。\n主机私钥必须加密落库，没有密钥就没有安全的降级选项。\n生成一个：openssl rand -hex 32"@
}

} // verus!
