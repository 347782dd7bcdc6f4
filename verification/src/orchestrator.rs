//! The auto-start orchestrator's decisions. At boot the surrounding service
//! walks all persisted entities sequentially: the selection of what to
//! start and the status transition each outcome persists are decided here,
//! so that one entity's failure is recorded and the walk goes on.

use vstd::prelude::*;
use crate::error::AppError;
use crate::models::client::{Client, ClientStatus};
use crate::models::server::{Server, ServerStatus};

verus! {

/// A server entity is started at boot when it is flagged for automatic
/// start and is not already in its desired running state.
pub open spec fn spec_server_wants_auto_start(s: Server) -> bool {
    s.auto_start && s.status != ServerStatus::Running
}

/// A client entity is started at boot when it is flagged for automatic
/// start and is not already connected.
pub open spec fn spec_client_wants_auto_start(c: Client) -> bool {
    c.auto_start && c.status != ClientStatus::Connected
}

/// Selects, in order, the servers to start at boot.
pub fn auto_start_server_candidates(servers: Vec<Server>) -> (r: Vec<Server>)
    ensures
        r@ == servers@.filter(|s: Server| spec_server_wants_auto_start(s)),
{
    let ghost orig = servers@;
    let mut v = servers;
    let mut out: Vec<Server> = Vec::new();
    let ghost mut done: int = 0;
    proof {
        reveal(Seq::filter);
        assert(orig.take(0).filter(|s: Server| spec_server_wants_auto_start(s)) =~= Seq::empty());
    }
    while v.len() > 0
        invariant
            0 <= done <= orig.len(),
            v@ == orig.skip(done),
            out@ == orig.take(done).filter(|s: Server| spec_server_wants_auto_start(s)),
        decreases v@.len(),
    {
        let s = v.remove(0);
        proof {
            assert(s == orig[done]);
            assert(v@ =~= orig.skip(done + 1));
        }
        let wanted = s.auto_start && match s.status {
            ServerStatus::Running => false,
            _ => true,
        };
        if wanted {
            out.push(s);
        }
        proof {
            reveal(Seq::filter);
            assert(orig.take(done + 1).drop_last() =~= orig.take(done));
            assert(orig.take(done + 1).last() == orig[done]);
            let pred = |x: Server| spec_server_wants_auto_start(x);
            if wanted {
                assert(orig.take(done + 1).filter(pred) == orig.take(done).filter(pred).push(s));
            } else {
                assert(orig.take(done + 1).filter(pred) == orig.take(done).filter(pred));
            }
            done = done + 1;
        }
    }
    proof {
        assert(orig.take(done) =~= orig);
    }
    out
}

/// Selects, in order, the clients to start at boot.
pub fn auto_start_client_candidates(clients: Vec<Client>) -> (r: Vec<Client>)
    ensures
        r@ == clients@.filter(|c: Client| spec_client_wants_auto_start(c)),
{
    let ghost orig = clients@;
    let mut v = clients;
    let mut out: Vec<Client> = Vec::new();
    let ghost mut done: int = 0;
    proof {
        reveal(Seq::filter);
        assert(orig.take(0).filter(|c: Client| spec_client_wants_auto_start(c)) =~= Seq::empty());
    }
    while v.len() > 0
        invariant
            0 <= done <= orig.len(),
            v@ == orig.skip(done),
            out@ == orig.take(done).filter(|c: Client| spec_client_wants_auto_start(c)),
        decreases v@.len(),
    {
        let c = v.remove(0);
        proof {
            assert(c == orig[done]);
            assert(v@ =~= orig.skip(done + 1));
        }
        let wanted = c.auto_start && match c.status {
            ClientStatus::Connected => false,
            _ => true,
        };
        if wanted {
            out.push(c);
        }
        proof {
            reveal(Seq::filter);
            assert(orig.take(done + 1).drop_last() =~= orig.take(done));
            assert(orig.take(done + 1).last() == orig[done]);
            let pred = |x: Client| spec_client_wants_auto_start(x);
            if wanted {
                assert(orig.take(done + 1).filter(pred) == orig.take(done).filter(pred).push(c));
            } else {
                assert(orig.take(done + 1).filter(pred) == orig.take(done).filter(pred));
            }
            done = done + 1;
        }
    }
    proof {
        assert(orig.take(done) =~= orig);
    }
    out
}

/// The status transition a start outcome persists for a server entity:
/// running on success, error with the failure's display text otherwise.
pub fn server_start_outcome(outcome: &Result<(), AppError>) -> (r: (ServerStatus, Option<String>))
    ensures
        outcome is Ok ==> r.0 == ServerStatus::Running && r.1 is None,
        outcome matches Err(e) ==> r.0 == ServerStatus::Error && (r.1 matches Some(m) && m@
            == e.spec_display()),
{
    match outcome {
        Ok(_) => (ServerStatus::Running, None),
        Err(e) => (ServerStatus::Error, Some(e.display_string())),
    }
}

/// The status transition a start outcome persists for a client entity:
/// connected with the tunnel-assigned port on success, error with the
/// failure's display text otherwise.
pub fn client_start_outcome(outcome: &Result<u16, AppError>) -> (r: (
    ClientStatus,
    Option<i64>,
    Option<String>,
))
    ensures
        outcome matches Ok(p) ==> r.0 == ClientStatus::Connected && r.1 == Some(p as i64) && r.2
            is None,
        outcome matches Err(e) ==> r.0 == ClientStatus::Error && r.1 is None && (r.2 matches Some(m)
            && m@ == e.spec_display()),
{
    match outcome {
        Ok(p) => (ClientStatus::Connected, Some(*p as i64), None),
        Err(e) => (ClientStatus::Error, None, Some(e.display_string())),
    }
}

} // verus!
