//! The lifecycle manager for server entities. The same two-step start as the
//! client manager: `prepare_start` validates the bind addresses and the port
//! range offered to tunnel clients, the surrounding service builds and
//! spawns the listener, and `register_started` records the handle in one
//! atomic step. The port range must be non-empty: the listener refuses an
//! empty range outright, so an inverted range is a configuration error.

use vstd::prelude::*;
use vstd::string::StringExecFns;
use crate::error::AppError;
use crate::models::server::Server;
use crate::net::{IpAddress, parse_ip, spec_parse_ip};
use crate::registry::{HandleData, Registry, RuntimeHandle};
use crate::text::{opt_string_view, spec_i64_dec, i64_to_string};
use crate::tunnel::status::{ServerStatusInfo, spec_uptime_seconds, uptime_seconds};

verus! {

/// The message refusing a second start for a running server.
pub open spec fn spec_server_already_running_msg(id: i64) -> Seq<char> {
    "Server "@ + spec_i64_dec(id as int) + " is already running"@
}

/// The message refusing a stop for a server that has no handle.
pub open spec fn spec_server_not_running_msg(id: i64) -> Seq<char> {
    "Server "@ + spec_i64_dec(id as int) + " not running"@
}

/// Why a server configuration cannot be handed to the tunnel capability,
/// or nothing if it can: both bind addresses must be literal IP addresses,
/// and the offered port range must fit transport ports and be non-empty.
pub open spec fn spec_server_config_error(s: Server) -> Option<Seq<char>> {
    if spec_parse_ip(s.bind_addr@) is None {
        Some("Invalid bind_addr: invalid IP address syntax"@)
    } else if spec_parse_ip(s.bind_tunnels@) is None {
        Some("Invalid bind_tunnels: invalid IP address syntax"@)
    } else if !(0 <= s.port_range_start <= 65535) {
        Some("Invalid port_range_start: out of range 0-65535"@)
    } else if !(0 <= s.port_range_end <= 65535) {
        Some("Invalid port_range_end: out of range 0-65535"@)
    } else if s.port_range_start > s.port_range_end {
        Some("Invalid port_range: start exceeds end"@)
    } else {
        None
    }
}

/// What the tunnel capability needs to open a server: plain values
/// validated out of the entity's configuration.
#[derive(Debug)]
pub struct ServerStartParams {
    pub bind_addr: IpAddress,
    pub bind_tunnels: IpAddress,
    pub port_range_start: u16,
    pub port_range_end: u16,
    pub secret: Option<String>,
}

pub struct ServerManager {
    registry: Registry,
}

impl View for ServerManager {
    type V = Map<i64, HandleData>;

    closed spec fn view(&self) -> Map<i64, HandleData> {
        self.registry@
    }
}

impl ServerManager {
    pub closed spec fn wf(&self) -> bool {
        self.registry.wf()
    }

    /// Every key of the manager's view names the entity its handle carries.
    pub proof fn lemma_view_key(&self, id: i64)
        requires
            self.wf(),
            self@.contains_key(id),
        ensures
            self@[id].id == id,
    {
        self.registry.lemma_view_key(id);
    }

    pub fn new() -> (r: ServerManager)
        ensures
            r.wf(),
            r@ =~= Map::<i64, HandleData>::empty(),
    {
        ServerManager { registry: Registry::new() }
    }

    /// Validates a server configuration for a start: the entity must not
    /// already hold a runtime handle, both bind addresses must parse, and
    /// the port range must be well-formed. On success the returned
    /// parameters are exactly the entity's network parameters.
    pub fn prepare_start(&self, server: &Server) -> (r: Result<ServerStartParams, AppError>)
        requires
            self.wf(),
        ensures
            self@.contains_key(server.id) ==> (r matches Err(AppError::BadRequest(m)) && m@
                == spec_server_already_running_msg(server.id)),
            (!self@.contains_key(server.id) && spec_server_config_error(*server) is Some) ==> (
            r matches Err(AppError::BadRequest(m)) && m@ == spec_server_config_error(*server)->0),
            !self@.contains_key(server.id) && spec_server_config_error(*server) is None ==> (
            r matches Ok(p) && {
                &&& Some(p.bind_addr) == spec_parse_ip(server.bind_addr@)
                &&& Some(p.bind_tunnels) == spec_parse_ip(server.bind_tunnels@)
                &&& p.port_range_start == server.port_range_start as u16
                &&& p.port_range_end == server.port_range_end as u16
                &&& opt_string_view(p.secret) == opt_string_view(server.secret)
            }),
    {
        if let Some(_) = self.registry.get(server.id) {
            let mut m = "Server ".to_owned();
            m.append(i64_to_string(server.id).as_str());
            m.append(" is already running");
            return Err(AppError::BadRequest(m));
        }
        let bind_addr = match parse_ip(server.bind_addr.as_str()) {
            Some(ip) => ip,
            None => {
                return Err(
                    AppError::BadRequest("Invalid bind_addr: invalid IP address syntax".to_owned()),
                );
            },
        };
        let bind_tunnels = match parse_ip(server.bind_tunnels.as_str()) {
            Some(ip) => ip,
            None => {
                return Err(
                    AppError::BadRequest(
                        "Invalid bind_tunnels: invalid IP address syntax".to_owned(),
                    ),
                );
            },
        };
        if server.port_range_start < 0 || server.port_range_start > 65535 {
            return Err(
                AppError::BadRequest("Invalid port_range_start: out of range 0-65535".to_owned()),
            );
        }
        if server.port_range_end < 0 || server.port_range_end > 65535 {
            return Err(
                AppError::BadRequest("Invalid port_range_end: out of range 0-65535".to_owned()),
            );
        }
        if server.port_range_start > server.port_range_end {
            return Err(AppError::BadRequest("Invalid port_range: start exceeds end".to_owned()));
        }
        let secret: Option<String> = match &server.secret {
            Some(s) => Some(s.clone()),
            None => None,
        };
        Ok(
            ServerStartParams {
                bind_addr,
                bind_tunnels,
                port_range_start: server.port_range_start as u16,
                port_range_end: server.port_range_end as u16,
                secret,
            },
        )
    }

    /// Records the handle of a server whose listener was spawned, in one
    /// atomic check-and-insert; `now_millis` is the caller's clock reading
    /// and becomes the handle's start instant. If the entity acquired a
    /// handle in the meantime, the freshly spawned task is cancelled and
    /// the start reports the conflict.
    pub fn register_started(
        &mut self,
        id: i64,
        task: tokio::task::JoinHandle<()>,
        now_millis: u64,
    ) -> (r: Result<(), AppError>)
        requires
            old(self).wf(),
        ensures
            final(self).wf(),
            !old(self)@.contains_key(id) ==> r is Ok && final(self)@ == old(self)@.insert(
                id,
                (HandleData { id, assigned_port: None, started_at_millis: now_millis }),
            ),
            old(self)@.contains_key(id) ==> (r matches Err(AppError::BadRequest(m)) && m@
                == spec_server_already_running_msg(id)) && final(self)@ == old(self)@,
    {
        let handle = RuntimeHandle {
            data: HandleData { id, assigned_port: None, started_at_millis: now_millis },
            task,
        };
        match self.registry.insert(handle) {
            Ok(()) => Ok(()),
            Err(loser) => {
                loser.task.abort();
                let mut m = "Server ".to_owned();
                m.append(i64_to_string(id).as_str());
                m.append(" is already running");
                Err(AppError::BadRequest(m))
            },
        }
    }

    /// Removes the entity's handle and cancels its task; reports "not
    /// running" when there is no handle. Afterwards the entity holds no
    /// handle either way; the caller owes the cancelled task a short grace
    /// interval before reusing its resources.
    pub fn stop_server(&mut self, id: i64) -> (r: Result<(), AppError>)
        requires
            old(self).wf(),
        ensures
            final(self).wf(),
            final(self)@ == old(self)@.remove(id),
            old(self)@.contains_key(id) ==> r is Ok,
            !old(self)@.contains_key(id) ==> (r matches Err(AppError::NotFound(m)) && m@
                == spec_server_not_running_msg(id)),
    {
        match self.registry.remove(id) {
            Some(h) => {
                h.task.abort();
                Ok(())
            },
            None => {
                let mut m = "Server ".to_owned();
                m.append(i64_to_string(id).as_str());
                m.append(" not running");
                Err(AppError::NotFound(m))
            },
        }
    }

    /// The status snapshot for one handle's facts, given whether its task
    /// has terminated. A terminated task is absent, whatever else the
    /// handle says.
    pub fn server_status_snapshot(h: &HandleData, finished: bool, now_millis: u64) -> (r: Option<
        ServerStatusInfo,
    >)
        ensures
            finished ==> r is None,
            !finished ==> (r matches Some(s) && {
                &&& s.id == h.id
                &&& s.status@ == "running"@
                &&& s.active_connections == 0
                &&& s.uptime_seconds == spec_uptime_seconds(h.started_at_millis, now_millis)
            }),
    {
        if finished {
            None
        } else {
            Some(
                ServerStatusInfo {
                    id: h.id,
                    status: "running".to_owned(),
                    active_connections: 0,
                    uptime_seconds: uptime_seconds(h.started_at_millis, now_millis),
                },
            )
        }
    }

    /// A fresh status snapshot for the entity, computed from the live
    /// handle against the caller's clock reading: absent when the entity
    /// has no handle or its task has already terminated, even before any
    /// reaping.
    pub fn get_status(&self, id: i64, now_millis: u64) -> (r: Option<ServerStatusInfo>)
        requires
            self.wf(),
        ensures
            !self@.contains_key(id) ==> r is None,
            r matches Some(s) ==> self@.contains_key(id) && {
                &&& s.id == id
                &&& s.status@ == "running"@
                &&& s.active_connections == 0
                &&& s.uptime_seconds == spec_uptime_seconds(self@[id].started_at_millis, now_millis)
            },
    {
        match self.registry.get(id) {
            None => None,
            Some(h) => {
                proof {
                    self.registry.lemma_view_key(id);
                }
                let finished = h.task.is_finished();
                Self::server_status_snapshot(&h.data, finished, now_millis)
            },
        }
    }

    /// The IDs of servers whose task has terminated but whose handle is
    /// still registered; every returned ID is registered.
    pub fn get_finished_servers(&self) -> (r: Vec<i64>)
        requires
            self.wf(),
        ensures
            forall|k: int| 0 <= k < r@.len() ==> self@.contains_key(#[trigger] r@[k]),
    {
        self.registry.finished_ids()
    }

    /// Removes the entity's handle without cancelling its task, for the
    /// cleanup of tasks that have already terminated.
    pub fn remove_finished_server(&mut self, id: i64) -> (r: Option<()>)
        requires
            old(self).wf(),
        ensures
            final(self).wf(),
            final(self)@ == old(self)@.remove(id),
            r is Some <==> old(self)@.contains_key(id),
    {
        match self.registry.remove(id) {
            Some(_) => Some(()),
            None => None,
        }
    }
}

} // verus!
