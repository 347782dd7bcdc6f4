//! Control plane for supervising network-tunnel processes: a runtime
//! registry of running tunnel entities, lifecycle managers for the server
//! and client sides, webhook notification with anti-SSRF validation and
//! retry policy, a status broadcaster for dashboard subscribers, and an
//! auto-start orchestrator.

pub mod auth;
pub mod config;
pub mod error;
pub mod middleware;
pub mod models;
pub mod net;
pub mod orchestrator;
pub mod registry;
pub mod text;
pub mod tunnel;
pub mod webhook;
pub mod ws;

pub use config::Config;
pub use error::AppError;

use vstd::prelude::*;

verus! {

/// Number of milliseconds a stop operation allows the aborted task to
/// release its resources before the caller proceeds.
pub const STOP_GRACE_MILLIS: u64 = 100;

pub fn stop_grace_millis() -> (r: u64)
    ensures
        r == STOP_GRACE_MILLIS,
{
    STOP_GRACE_MILLIS
}

} // verus!
