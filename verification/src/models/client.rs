//! Configuration records for the client side of a tunnel: the persisted
//! entity, its creation and update forms, and the persisted status values.

use vstd::prelude::*;

verus! {

/// The persisted coarse state of a client entity.
#[derive(Clone, Copy, Debug, PartialEq, Eq, Structural)]
pub enum ClientStatus {
    Stopped,
    Starting,
    Connected,
    Error,
}

/// A persisted client entity: identity, the local service it maps outward,
/// the remote tunnel server, webhook settings, and bookkeeping.
#[derive(Debug)]
pub struct Client {
    pub id: i64,
    pub name: String,
    pub description: Option<String>,
    pub local_host: String,
    pub local_port: i64,
    pub remote_server: String,
    pub remote_port: i64,
    pub assigned_port: Option<i64>,
    pub secret: Option<String>,
    pub status: ClientStatus,
    pub auto_start: bool,
    pub webhook_url: Option<String>,
    pub webhook_format: String,
    pub webhook_template: Option<String>,
    pub created_at: String,
    pub updated_at: String,
    pub last_connected_at: Option<String>,
    pub error_message: Option<String>,
}

/// Input for creating a client entity.
#[derive(Debug)]
pub struct CreateClient {
    pub name: String,
    pub description: Option<String>,
    pub local_host: String,
    pub local_port: i64,
    pub remote_server: String,
    pub remote_port: i64,
    pub secret: Option<String>,
    pub auto_start: bool,
    pub webhook_url: Option<String>,
    pub webhook_format: String,
    pub webhook_template: Option<String>,
}

/// Input for updating a client entity; absent fields stay as they are.
#[derive(Debug)]
pub struct UpdateClient {
    pub name: Option<String>,
    pub description: Option<String>,
    pub local_host: Option<String>,
    pub local_port: Option<i64>,
    pub remote_server: Option<String>,
    pub remote_port: Option<i64>,
    pub secret: Option<String>,
    pub auto_start: Option<bool>,
    pub webhook_url: Option<String>,
    pub webhook_format: Option<String>,
    pub webhook_template: Option<String>,
}

pub fn default_local_host() -> (r: String)
    ensures
        r@ == "localhost"@,
{
    "localhost".to_owned()
}

pub fn default_webhook_format() -> (r: String)
    ensures
        r@ == "json"@,
{
    "json".to_owned()
}

} // verus!
