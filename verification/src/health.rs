//! Liveness and readiness. `healthz` only says the process lives;
//! `readyz` says whether traffic can be taken, and fails without
//! triggering a restart when a dependency is down.

use vstd::prelude::*;

verus! {

/// The state of the service or of one dependency.
#[derive(Debug, Clone, Copy, PartialEq, Eq, Structural)]
pub enum HealthStatus {
    Up,
    Down,
}

/// The detail shown for a failed database probe: the class only, never a
/// connection string or host name.
pub const DB_DOWN_DETAIL: &'static str = "连接或查询失败";

/// The readiness answer: 200 when the database answers, 503 otherwise.
pub fn readiness(db_ok: bool) -> (r: (u16, HealthStatus))
    ensures
        db_ok ==> r == (200u16, HealthStatus::Up),
        !db_ok ==> r == (503u16, HealthStatus::Down),
{
    if db_ok {
        (200, HealthStatus::Up)
    } else {
        (503, HealthStatus::Down)
    }
}

/// Elapsed milliseconds as reported, saturating at `u64::MAX`.
pub fn latency_ms(elapsed_ms: u128) -> (ms: u64)
    ensures
        ms == (if elapsed_ms > u64::MAX as u128 {
            u64::MAX as int
        } else {
            elapsed_ms as int
        }),
{
    if elapsed_ms > u64::MAX as u128 {
        u64::MAX
    } else {
        elapsed_ms as u64
    }
}

} // verus!
