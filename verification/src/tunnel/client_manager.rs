//! The lifecycle manager for client entities. A start is two steps around
//! the tunnel capability: `prepare_start` validates the configuration
//! against the registry and the port ranges, the surrounding service
//! performs the handshake and spawns the forwarding task, and
//! `register_started` records the handle in one atomic step, cancelling the
//! task if the entity got a handle in the meantime. Stop, status and reaping
//! work on the registry alone.

use vstd::prelude::*;
use vstd::string::StringExecFns;
use crate::error::AppError;
use crate::models::client::Client;
use crate::registry::{HandleData, Registry, RuntimeHandle};
use crate::text::{opt_string_view, spec_i64_dec, i64_to_string};
use crate::tunnel::status::{ClientStatusInfo, spec_uptime_seconds, uptime_seconds};

verus! {

/// The message refusing a second start for a running client.
pub open spec fn spec_client_already_running_msg(id: i64) -> Seq<char> {
    "Client "@ + spec_i64_dec(id as int) + " is already running"@
}

/// The message refusing a stop for a client that has no handle.
pub open spec fn spec_client_not_running_msg(id: i64) -> Seq<char> {
    "Client "@ + spec_i64_dec(id as int) + " not running"@
}

/// Why a client configuration cannot be handed to the tunnel capability,
/// or nothing if it can.
pub open spec fn spec_client_config_error(c: Client) -> Option<Seq<char>> {
    if !(0 <= c.local_port <= 65535) {
        Some("Invalid local_port: out of range 0-65535"@)
    } else if !(0 <= c.remote_port <= 65535) {
        Some("Invalid remote_port: out of range 0-65535"@)
    } else {
        None
    }
}

/// What the tunnel capability needs to connect a client: plain values
/// validated out of the entity's configuration.
#[derive(Debug)]
pub struct ClientStartParams {
    pub local_host: String,
    pub local_port: u16,
    pub remote_server: String,
    pub remote_port: u16,
    pub secret: Option<String>,
}

pub struct ClientManager {
    registry: Registry,
}

impl View for ClientManager {
    type V = Map<i64, HandleData>;

    closed spec fn view(&self) -> Map<i64, HandleData> {
        self.registry@
    }
}

impl ClientManager {
    pub closed spec fn wf(&self) -> bool {
        self.registry.wf()
    }

    /// Every key of the manager's view names the entity its handle carries.
    pub proof fn lemma_view_key(&self, id: i64)
        requires
            self.wf(),
            self@.contains_key(id),
        ensures
            self@[id].id == id,
    {
        self.registry.lemma_view_key(id);
    }

    pub fn new() -> (r: ClientManager)
        ensures
            r.wf(),
            r@ =~= Map::<i64, HandleData>::empty(),
    {
        ClientManager { registry: Registry::new() }
    }

    /// Validates a client configuration for a start: the entity must not
    /// already hold a runtime handle, and both ports must fit a transport
    /// port. On success the returned parameters are exactly the entity's
    /// network parameters; on failure nothing has changed.
    pub fn prepare_start(&self, client: &Client) -> (r: Result<ClientStartParams, AppError>)
        requires
            self.wf(),
        ensures
            self@.contains_key(client.id) ==> (r matches Err(AppError::BadRequest(m)) && m@
                == spec_client_already_running_msg(client.id)),
            (!self@.contains_key(client.id) && spec_client_config_error(*client) is Some) ==> (
            r matches Err(AppError::BadRequest(m)) && m@ == spec_client_config_error(*client)->0),
            !self@.contains_key(client.id) && spec_client_config_error(*client) is None ==> (
            r matches Ok(p) && {
                &&& p.local_host@ == client.local_host@
                &&& p.local_port == client.local_port as u16
                &&& p.remote_server@ == client.remote_server@
                &&& p.remote_port == client.remote_port as u16
                &&& opt_string_view(p.secret) == opt_string_view(client.secret)
            }),
    {
        if let Some(_) = self.registry.get(client.id) {
            let mut m = "Client ".to_owned();
            m.append(i64_to_string(client.id).as_str());
            m.append(" is already running");
            return Err(AppError::BadRequest(m));
        }
        if client.local_port < 0 || client.local_port > 65535 {
            return Err(AppError::BadRequest("Invalid local_port: out of range 0-65535".to_owned()));
        }
        if client.remote_port < 0 || client.remote_port > 65535 {
            return Err(
                AppError::BadRequest("Invalid remote_port: out of range 0-65535".to_owned()),
            );
        }
        let secret: Option<String> = match &client.secret {
            Some(s) => Some(s.clone()),
            None => None,
        };
        Ok(
            ClientStartParams {
                local_host: client.local_host.clone(),
                local_port: client.local_port as u16,
                remote_server: client.remote_server.clone(),
                remote_port: client.remote_port as u16,
                secret,
            },
        )
    }

    /// Records the handle of a client whose tunnel handshake succeeded, in
    /// one atomic check-and-insert; `now_millis` is the caller's clock
    /// reading and becomes the handle's start instant. If the entity
    /// acquired a handle between validation and now, the freshly spawned
    /// task is cancelled, the registry keeps its state, and the start
    /// reports the conflict.
    pub fn register_started(
        &mut self,
        id: i64,
        assigned_port: u16,
        task: tokio::task::JoinHandle<()>,
        now_millis: u64,
    ) -> (r: Result<(), AppError>)
        requires
            old(self).wf(),
        ensures
            final(self).wf(),
            !old(self)@.contains_key(id) ==> r is Ok && final(self)@ == old(self)@.insert(
                id,
                (HandleData {
                    id,
                    assigned_port: Some(assigned_port),
                    started_at_millis: now_millis,
                }),
            ),
            old(self)@.contains_key(id) ==> (r matches Err(AppError::BadRequest(m)) && m@
                == spec_client_already_running_msg(id)) && final(self)@ == old(self)@,
    {
        let handle = RuntimeHandle {
            data: HandleData { id, assigned_port: Some(assigned_port), started_at_millis: now_millis },
            task,
        };
        match self.registry.insert(handle) {
            Ok(()) => Ok(()),
            Err(loser) => {
                loser.task.abort();
                let mut m = "Client ".to_owned();
                m.append(i64_to_string(id).as_str());
                m.append(" is already running");
                Err(AppError::BadRequest(m))
            },
        }
    }

    /// Removes the entity's handle and cancels its task; reports "not
    /// running" when there is no handle. Afterwards the entity holds no
    /// handle either way; the caller owes the cancelled task a short grace
    /// interval before reusing its resources.
    pub fn stop_client(&mut self, id: i64) -> (r: Result<(), AppError>)
        requires
            old(self).wf(),
        ensures
            final(self).wf(),
            final(self)@ == old(self)@.remove(id),
            old(self)@.contains_key(id) ==> r is Ok,
            !old(self)@.contains_key(id) ==> (r matches Err(AppError::NotFound(m)) && m@
                == spec_client_not_running_msg(id)),
    {
        match self.registry.remove(id) {
            Some(h) => {
                h.task.abort();
                Ok(())
            },
            None => {
                let mut m = "Client ".to_owned();
                m.append(i64_to_string(id).as_str());
                m.append(" not running");
                Err(AppError::NotFound(m))
            },
        }
    }

    /// The status snapshot for one handle's facts, given whether its task
    /// has terminated. A terminated task is absent, whatever else the
    /// handle says; otherwise the snapshot reports the connected state, the
    /// assigned port, and whole seconds of uptime.
    pub fn client_status_snapshot(h: &HandleData, finished: bool, now_millis: u64) -> (r: Option<
        ClientStatusInfo,
    >)
        ensures
            finished ==> r is None,
            !finished ==> (r matches Some(s) && {
                &&& s.id == h.id
                &&& s.status@ == "connected"@
                &&& s.assigned_port == h.assigned_port
                &&& s.uptime_seconds == spec_uptime_seconds(h.started_at_millis, now_millis)
            }),
    {
        if finished {
            None
        } else {
            Some(
                ClientStatusInfo {
                    id: h.id,
                    status: "connected".to_owned(),
                    assigned_port: h.assigned_port,
                    uptime_seconds: uptime_seconds(h.started_at_millis, now_millis),
                },
            )
        }
    }

    /// A fresh status snapshot for the entity, computed from the live
    /// handle against the caller's clock reading: absent when the entity
    /// has no handle or its task has already terminated, even before any
    /// reaping.
    pub fn get_status(&self, id: i64, now_millis: u64) -> (r: Option<ClientStatusInfo>)
        requires
            self.wf(),
        ensures
            !self@.contains_key(id) ==> r is None,
            r matches Some(s) ==> self@.contains_key(id) && {
                &&& s.id == id
                &&& s.status@ == "connected"@
                &&& s.assigned_port == self@[id].assigned_port
                &&& s.uptime_seconds == spec_uptime_seconds(self@[id].started_at_millis, now_millis)
            },
    {
        match self.registry.get(id) {
            None => None,
            Some(h) => {
                proof {
                    self.registry.lemma_view_key(id);
                }
                let finished = h.task.is_finished();
                Self::client_status_snapshot(&h.data, finished, now_millis)
            },
        }
    }

    /// The IDs of clients whose task has terminated but whose handle is
    /// still registered; every returned ID is registered.
    pub fn get_finished_clients(&self) -> (r: Vec<i64>)
        requires
            self.wf(),
        ensures
            forall|k: int| 0 <= k < r@.len() ==> self@.contains_key(#[trigger] r@[k]),
    {
        self.registry.finished_ids()
    }

    /// Removes the entity's handle without cancelling its task, for the
    /// cleanup of tasks that have already terminated.
    pub fn remove_finished_client(&mut self, id: i64) -> (r: Option<()>)
        requires
            old(self).wf(),
        ensures
            final(self).wf(),
            final(self)@ == old(self)@.remove(id),
            r is Some <==> old(self)@.contains_key(id),
    {
        match self.registry.remove(id) {
            Some(_) => Some(()),
            None => None,
        }
    }
}

} // verus!
