//! Configuration records for the server side of a tunnel: the persisted
//! entity, its creation and update forms, and the persisted status values.

use vstd::prelude::*;

verus! {

/// The persisted coarse state of a server entity.
#[derive(Clone, Copy, Debug, PartialEq, Eq, Structural)]
pub enum ServerStatus {
    Stopped,
    Starting,
    Running,
    Error,
}

/// A persisted server entity: identity, bind parameters, the port range
/// offered to tunnel clients, an optional shared secret, and bookkeeping.
#[derive(Debug)]
pub struct Server {
    pub id: i64,
    pub name: String,
    pub description: Option<String>,
    pub bind_addr: String,
    pub bind_tunnels: String,
    pub port_range_start: i64,
    pub port_range_end: i64,
    pub secret: Option<String>,
    pub status: ServerStatus,
    pub auto_start: bool,
    pub created_at: String,
    pub updated_at: String,
    pub last_started_at: Option<String>,
    pub error_message: Option<String>,
}

/// Input for creating a server entity.
#[derive(Debug)]
pub struct CreateServer {
    pub name: String,
    pub description: Option<String>,
    pub bind_addr: String,
    pub bind_tunnels: String,
    pub port_range_start: i64,
    pub port_range_end: i64,
    pub secret: Option<String>,
    pub auto_start: bool,
}

/// Input for updating a server entity; absent fields stay as they are.
#[derive(Debug)]
pub struct UpdateServer {
    pub name: Option<String>,
    pub description: Option<String>,
    pub bind_addr: Option<String>,
    pub bind_tunnels: Option<String>,
    pub port_range_start: Option<i64>,
    pub port_range_end: Option<i64>,
    pub secret: Option<String>,
    pub auto_start: Option<bool>,
}

pub fn default_bind_addr() -> (r: String)
    ensures
        r@ == "0.0.0.0"@,
{
    "0.0.0.0".to_owned()
}

pub fn default_bind_tunnels() -> (r: String)
    ensures
        r@ == "0.0.0.0"@,
{
    "0.0.0.0".to_owned()
}

pub fn default_port_start() -> (r: i64)
    ensures
        r == 1024,
{
    1024
}

pub fn default_port_end() -> (r: i64)
    ensures
        r == 65535,
{
    65535
}

} // verus!
