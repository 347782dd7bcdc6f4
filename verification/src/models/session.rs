//! Records describing one run of a tunnel entity, as the persistent store
//! keeps them.

use vstd::prelude::*;

verus! {

#[derive(Clone, Copy, Debug, PartialEq, Eq, Structural)]
pub enum SessionType {
    Server,
    Client,
}

#[derive(Debug)]
pub struct Session {
    pub id: i64,
    pub session_type: SessionType,
    pub entity_id: i64,
    pub started_at: String,
    pub last_heartbeat: String,
    pub connection_count: i64,
    pub bytes_sent: i64,
    pub bytes_received: i64,
}

#[derive(Debug)]
pub struct SessionStats {
    pub connection_count: i64,
    pub bytes_sent: i64,
    pub bytes_received: i64,
    pub uptime_seconds: i64,
}

} // verus!
