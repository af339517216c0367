//! Execution control plane for AI runs: schedules, DAG orchestration and the
//! HTTP-side rules around them.

pub mod access;
pub mod approval;
pub mod approvals;
pub mod assets;
pub mod audit;
pub mod auth;
pub mod bus;
pub mod config;
pub mod cron;
pub mod dag;
pub mod drift;
pub mod engine;
pub mod error;
pub mod extract;
pub mod health;
pub mod hook;
pub mod host_exec;
pub mod hosts;
pub mod idempotency;
pub mod ids;
pub mod json;
pub mod overview;
pub mod policy;
pub mod remote;
pub mod rules;
pub mod runs;
pub mod scheduler;
pub mod schedules;
pub mod sink;
pub mod sse;
pub mod tasks;
pub mod text;
pub mod users;
