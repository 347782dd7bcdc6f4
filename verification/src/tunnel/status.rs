//! Status snapshots: the live state of one running entity, computed fresh
//! on every query from its runtime handle.

use vstd::prelude::*;

verus! {

/// The live state of one running server entity.
#[derive(Debug)]
pub struct ServerStatusInfo {
    pub id: i64,
    pub status: String,
    /// Connection counting is not wired up; the field always reads zero.
    pub active_connections: u64,
    pub uptime_seconds: u64,
}

/// The live state of one running client entity.
#[derive(Debug)]
pub struct ClientStatusInfo {
    pub id: i64,
    pub status: String,
    pub assigned_port: Option<u16>,
    pub uptime_seconds: u64,
}

/// Whole seconds elapsed between a start instant and now, zero when the
/// clock reads earlier than the start.
pub open spec fn spec_uptime_seconds(started_at_millis: u64, now_millis: u64) -> u64 {
    if now_millis >= started_at_millis {
        (((now_millis - started_at_millis) as u64) / 1000) as u64
    } else {
        0
    }
}

pub fn uptime_seconds(started_at_millis: u64, now_millis: u64) -> (r: u64)
    ensures
        r == spec_uptime_seconds(started_at_millis, now_millis),
{
    if now_millis >= started_at_millis {
        (now_millis - started_at_millis) / 1000
    } else {
        0
    }
}

} // verus!
