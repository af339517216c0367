use ai_task::config::{AppConfig, HostKeyPolicy, DEFAULT_MIN_PASSWORD_LEN};
use ai_task::drift::{alarming, explicit_baseline, no_baseline_reason};
use ai_task::health::{latency_ms, readiness, HealthStatus};

/// The configuration with every default, as the command line gives it.
fn defaults() -> AppConfig {
    AppConfig {
        listen: "127.0.0.1:8930".into(),
        listen_is_loopback: true,
        database_url: "postgres://ai_task@127.0.0.1:55432/ai_task".into(),
        db_max_connections: None,
        max_concurrent_runs: None,
        auto_migrate: true,
        log_filter: "info,ai_task=debug,tower_http=warn,sqlx=warn".into(),
        shutdown_timeout_s: 20,
        claude_binary: "model-cli".into(),
        workdir_root: "/tmp/ai-task/runs".into(),
        worker_id: "worker-1".into(),
        scheduler_interval_ms: 1000,
        encryption_key: None,
        local_agent: "ai-task-agent".into(),
        remote_agent: None,
        known_hosts: None,
        ssh_accept_new: true,
        require_auth: false,
        min_password_len: DEFAULT_MIN_PASSWORD_LEN,
    }
}

fn exposed() -> AppConfig {
    let mut c = defaults();
    c.listen = "0.0.0.0:8930".into();
    c.listen_is_loopback = false;
    c
}

#[test]
fn the_run_concurrency_cap_stays_in_a_sane_range() {
    let mut config = defaults();
    assert!((1..=32).contains(&config.max_concurrent_runs(Some(8))));
    assert_eq!(config.max_concurrent_runs(None), 4);
    assert_eq!(config.max_concurrent_runs(Some(64)), 32);
    config.max_concurrent_runs = Some(0);
    assert_eq!(config.max_concurrent_runs(Some(8)), 1, "0 would never start a run");
    config.max_concurrent_runs = Some(9999);
    assert_eq!(config.max_concurrent_runs(Some(8)), 32);
}

#[test]
fn a_new_host_is_trusted_on_first_sight_but_a_changed_key_never_is() {
    assert_eq!(defaults().host_key_policy(), HostKeyPolicy::AcceptNew);
    let mut strict = defaults();
    strict.ssh_accept_new = false;
    assert_eq!(strict.host_key_policy(), HostKeyPolicy::Strict);
}

#[test]
fn binding_beyond_loopback_without_auth_is_refused_at_startup() {
    let err = exposed().validate().expect_err("must refuse");
    assert!(err.contains("AI_TASK_REQUIRE_AUTH"), "{err}");
    let mut guarded = exposed();
    guarded.require_auth = true;
    assert!(guarded.validate().is_ok());
    assert!(defaults().validate().is_ok());
}

#[test]
fn the_password_floor_can_only_be_lowered_on_loopback() {
    let mut dev = defaults();
    dev.min_password_len = 5;
    assert!(dev.validate().is_ok(), "allowed on loopback");
    let mut ex = exposed();
    ex.require_auth = true;
    ex.min_password_len = 5;
    let err = ex.validate().expect_err("refused when exposed");
    assert!(err.contains("口令下限"), "{err}");
    ex.min_password_len = DEFAULT_MIN_PASSWORD_LEN;
    assert!(ex.validate().is_ok());
}

#[test]
fn pool_size_override_is_floored_at_one() {
    let mut c = defaults();
    c.db_max_connections = Some(0);
    assert_eq!(c.pool_size_override(), Some(1));
    c.db_max_connections = None;
    assert_eq!(c.pool_size_override(), None);
    c.scheduler_interval_ms = 5;
    assert_eq!(c.scheduler_interval_ms(), 100);
}

#[test]
fn readiness_follows_the_database() {
    assert_eq!(readiness(true), (200, HealthStatus::Up));
    assert_eq!(readiness(false), (503, HealthStatus::Down));
    assert_eq!(latency_ms(12), 12);
    assert_eq!(latency_ms(u128::MAX), u64::MAX);
}

#[test]
fn only_an_unchanged_input_with_a_changed_output_is_drift() {
    assert!(alarming(true, false));
    assert!(!alarming(false, false));
    assert!(!alarming(true, true));
    assert_eq!(explicit_baseline(Some(1), Some(2)), Some(1));
    assert_eq!(explicit_baseline(None, Some(2)), Some(2));
    assert!(no_baseline_reason().starts_with("同任务下没有更早的同指纹成功 run"));
}

#[test]
fn a_missing_encryption_key_refuses_to_start() {
    let mut c = defaults();
    let e = c.encryption_key_check().expect_err("no key, no start");
    assert!(e.starts_with("缺少 AI_TASK_ENCRYPTION_KEY"), "{e}");
    assert!(e.contains("openssl rand -hex 32"), "{e}");
    c.encryption_key = Some("ab".repeat(32));
    assert_eq!(c.encryption_key_check(), Ok("ab".repeat(32)));
}
