//! The status broadcaster: fans a message out to every live dashboard
//! subscriber, and prunes, in the same call, every subscriber whose channel
//! is gone, so the set never accumulates dead entries. The broadcaster's
//! view is the map from connection ID to the subscriber's channel.

use vstd::prelude::*;
use crate::text::{spec_contains_seq, str_contains};

verus! {

#[verifier::external_type_specification]
#[verifier::external_body]
#[verifier::reject_recursive_types(T)]
pub struct ExUnboundedSender<T>(tokio::sync::mpsc::UnboundedSender<T>);

/// An outbound dashboard message; the payload is the JSON text of the
/// status or event it carries. The broadcaster knows nothing of the
/// connection's framing beyond "accepts a message, or is dead".
#[derive(Debug)]
pub enum WsMessage {
    ServerStatus(String),
    ClientStatus(String),
    ConnectionEvent(String),
    Error(String),
    Pong,
}

/// The query parameters of a dashboard connection request.
#[derive(Debug)]
pub struct WsQuery {
    pub token: Option<String>,
}

/// Relies on tokio's `UnboundedSender::send`: succeeds while the receiving
/// half is open; the answer depends on the channel's state.
#[verifier::external_body]
fn try_send(tx: &tokio::sync::mpsc::UnboundedSender<WsMessage>, m: WsMessage) -> bool {
    tx.send(m).is_ok()
}

/// An inbound dashboard text frame asking for a pong reply.
pub fn text_requests_pong(text: &str) -> (r: bool)
    ensures
        r == spec_contains_seq(text@, "\"ping\""@),
{
    str_contains(text, "\"ping\"")
}

type Subscriber = (u128, tokio::sync::mpsc::UnboundedSender<WsMessage>);

/// The entry at `i` carries connection ID `id`.
pub open spec fn subs_has_id_at(s: Seq<Subscriber>, id: u128, i: int) -> bool {
    0 <= i < s.len() && s[i].0 == id
}

/// Some entry carries connection ID `id`.
pub open spec fn subs_contains_id(s: Seq<Subscriber>, id: u128) -> bool {
    exists|i: int| subs_has_id_at(s, id, i)
}

/// The position of the entry carrying `id`; meaningful under uniqueness.
pub open spec fn subs_idx_of(s: Seq<Subscriber>, id: u128) -> int {
    choose|i: int| subs_has_id_at(s, id, i)
}

/// No two entries carry the same connection ID.
pub open spec fn subs_ids_unique(s: Seq<Subscriber>) -> bool {
    forall|i: int, j: int| 0 <= i < j < s.len() ==> (#[trigger] s[i]).0 != (#[trigger] s[j]).0
}

proof fn lemma_subs_unique_idx(s: Seq<Subscriber>, id: u128, i: int)
    requires
        subs_ids_unique(s),
        subs_has_id_at(s, id, i),
    ensures
        subs_idx_of(s, id) == i,
{
    let w = subs_idx_of(s, id);
    assert(subs_has_id_at(s, id, w));
    if w < i {
        assert(s[w].0 != s[i].0);
    } else if i < w {
        assert(s[i].0 != s[w].0);
    }
}

proof fn lemma_push_to_set(s: Seq<u128>, x: u128)
    ensures
        s.push(x).to_set() =~= s.to_set().insert(x),
{
    assert forall|y: u128| #[trigger] s.push(x).contains(y) implies s.contains(y) || y == x by {
        let i = choose|i: int| 0 <= i < s.push(x).len() && s.push(x)[i] == y;
        if i < s.len() {
            assert(s[i] == y);
        }
    }
    assert forall|y: u128| #[trigger] s.contains(y) implies s.push(x).contains(y) by {
        let i = choose|i: int| 0 <= i < s.len() && s[i] == y;
        assert(s.push(x)[i] == y);
    }
    assert(s.push(x)[s.len() as int] == x);
    assert(s.push(x).contains(x));
}

/// Law: a subscriber pruned by one broadcast is absent from the set the
/// next broadcast works on.
pub proof fn lemma_pruned_subscriber_absent(
    m: Map<u128, tokio::sync::mpsc::UnboundedSender<WsMessage>>,
    pruned: Set<u128>,
    id: u128,
)
    requires
        pruned.contains(id),
    ensures
        !m.remove_keys(pruned).contains_key(id),
{
}

pub struct WsBroadcaster {
    clients: Vec<Subscriber>,
}

impl View for WsBroadcaster {
    type V = Map<u128, tokio::sync::mpsc::UnboundedSender<WsMessage>>;

    closed spec fn view(&self) -> Map<u128, tokio::sync::mpsc::UnboundedSender<WsMessage>> {
        Map::new(
            |id: u128| subs_contains_id(self.clients@, id),
            |id: u128| self.clients@[subs_idx_of(self.clients@, id)].1,
        )
    }
}

impl WsBroadcaster {
    pub closed spec fn wf(&self) -> bool {
        subs_ids_unique(self.clients@)
    }

    pub fn new() -> (r: WsBroadcaster)
        ensures
            r.wf(),
            r@ =~= Map::<u128, tokio::sync::mpsc::UnboundedSender<WsMessage>>::empty(),
    {
        WsBroadcaster { clients: Vec::new() }
    }

    fn index_of(&self, id: u128) -> (r: Option<usize>)
        ensures
            match r {
                Some(i) => subs_has_id_at(self.clients@, id, i as int),
                None => !subs_contains_id(self.clients@, id),
            },
    {
        let mut i: usize = 0;
        let len = self.clients.len();
        while i < len
            invariant
                len == self.clients@.len(),
                i <= len,
                forall|j: int| 0 <= j < i ==> (#[trigger] self.clients@[j]).0 != id,
            decreases len - i,
        {
            if self.clients[i].0 == id {
                return Some(i);
            }
            i += 1;
        }
        proof {
            assert forall|j: int| !subs_has_id_at(self.clients@, id, j) by {
                if 0 <= j < self.clients@.len() {
                    assert(self.clients@[j].0 != id);
                }
            }
        }
        None
    }

    /// Removes the entry of `id`, leaving the view without that key.
    fn take_entry(&mut self, id: u128)
        requires
            old(self).wf(),
        ensures
            final(self).wf(),
            final(self)@ == old(self)@.remove(id),
            !subs_contains_id(final(self).clients@, id),
            old(self)@.contains_key(id) ==> final(self).clients@.len() == old(
                self,
            ).clients@.len() - 1,
            !old(self)@.contains_key(id) ==> *final(self) == *old(self),
    {
        let ghost s0 = self.clients@;
        match self.index_of(id) {
            Some(i) => {
                proof {
                    lemma_subs_unique_idx(s0, id, i as int);
                }
                let _ = self.clients.remove(i);
                proof {
                    let s1 = self.clients@;
                    assert(s1 == s0.remove(i as int));
                    assert forall|a: int, b: int| 0 <= a < b < s1.len() implies (
                    #[trigger] s1[a]).0 != (#[trigger] s1[b]).0 by {
                        let a0: int = if a < i {
                            a
                        } else {
                            a + 1
                        };
                        let b0: int = if b < i {
                            b
                        } else {
                            b + 1
                        };
                        assert(s1[a] == s0[a0]);
                        assert(s1[b] == s0[b0]);
                    }
                    assert forall|k: u128| #[trigger]
                        subs_contains_id(s1, k) implies subs_contains_id(s0, k) && k != id by {
                        let a = choose|a: int| subs_has_id_at(s1, k, a);
                        let a0: int = if a < i {
                            a
                        } else {
                            a + 1
                        };
                        assert(s1[a] == s0[a0]);
                        assert(subs_has_id_at(s0, k, a0));
                        if k == id {
                            lemma_subs_unique_idx(s0, id, a0);
                        }
                    }
                    assert forall|k: u128|
                        k != id && subs_contains_id(s0, k) implies subs_contains_id(s1, k)
                        && s1[subs_idx_of(s1, k)].1 == s0[subs_idx_of(s0, k)].1 by {
                        let a0 = choose|a0: int| subs_has_id_at(s0, k, a0);
                        let a: int = if a0 < i {
                            a0
                        } else {
                            a0 - 1
                        };
                        assert(a0 != i);
                        assert(s1[a] == s0[a0]);
                        assert(subs_has_id_at(s1, k, a));
                        lemma_subs_unique_idx(s1, k, a);
                        lemma_subs_unique_idx(s0, k, a0);
                    }
                    assert(self@ =~= old(self)@.remove(id));
                }
            },
            None => {
                proof {
                    assert(self@ =~= old(self)@.remove(id));
                }
            },
        }
    }

    /// Adds a subscriber channel under its connection ID, replacing any
    /// channel already recorded for that ID.
    pub fn add_client(&mut self, id: u128, tx: tokio::sync::mpsc::UnboundedSender<WsMessage>)
        requires
            old(self).wf(),
        ensures
            final(self).wf(),
            final(self)@ == old(self)@.insert(id, tx),
    {
        self.take_entry(id);
        let ghost s0 = self.clients@;
        self.clients.push((id, tx));
        proof {
            let s1 = self.clients@;
            assert(s1 == s0.push((id, tx)));
            assert(!subs_contains_id(s0, id));
            assert forall|a: int, b: int| 0 <= a < b < s1.len() implies (#[trigger] s1[a]).0 != (
            #[trigger] s1[b]).0 by {
                if b == s1.len() - 1 {
                    assert(subs_has_id_at(s0, s1[a].0, a));
                }
            }
            assert(subs_has_id_at(s1, id, s1.len() - 1));
            lemma_subs_unique_idx(s1, id, s1.len() - 1);
            assert forall|k: u128| k != id implies subs_contains_id(s1, k) == subs_contains_id(
                s0,
                k,
            ) by {
                if subs_contains_id(s1, k) {
                    let a = choose|a: int| subs_has_id_at(s1, k, a);
                    assert(a < s1.len() - 1);
                    assert(subs_has_id_at(s0, k, a));
                }
                if subs_contains_id(s0, k) {
                    let a = choose|a: int| subs_has_id_at(s0, k, a);
                    assert(subs_has_id_at(s1, k, a));
                }
            }
            assert forall|k: u128| k != id && subs_contains_id(s0, k) implies s1[subs_idx_of(
                s1,
                k,
            )].1 == s0[subs_idx_of(s0, k)].1 by {
                let a = choose|a: int| subs_has_id_at(s0, k, a);
                assert(subs_has_id_at(s1, k, a));
                lemma_subs_unique_idx(s1, k, a);
                lemma_subs_unique_idx(s0, k, a);
            }
            assert(self@ =~= old(self)@.remove(id).insert(id, tx));
            assert(old(self)@.remove(id).insert(id, tx) =~= old(self)@.insert(id, tx));
        }
    }

    /// Removes a subscriber on disconnect.
    pub fn remove_client(&mut self, id: u128)
        requires
            old(self).wf(),
        ensures
            final(self).wf(),
            final(self)@ == old(self)@.remove(id),
    {
        self.take_entry(id);
    }

    /// Delivers the message to every live subscriber. A subscriber whose
    /// channel refuses the message is pruned in this same call: afterwards
    /// the set holds exactly the subscribers that were present and not
    /// pruned, each under its old channel. The returned IDs are the pruned
    /// ones, each of which was present.
    pub fn broadcast(&mut self, message: &WsMessage) -> (pruned: Vec<u128>)
        requires
            old(self).wf(),
        ensures
            final(self).wf(),
            final(self)@ == old(self)@.remove_keys(pruned@.to_set()),
            forall|id: u128| #[trigger]
                pruned@.contains(id) ==> old(self)@.contains_key(id)
                    && !final(self)@.contains_key(id),
    {
        let mut pruned: Vec<u128> = Vec::new();
        let mut i: usize = 0;
        proof {
            assert(pruned@.to_set() =~= Set::<u128>::empty());
            assert(self@ =~= old(self)@.remove_keys(pruned@.to_set()));
        }
        while i < self.clients.len()
            invariant
                self.wf(),
                i <= self.clients@.len(),
                self@ == old(self)@.remove_keys(pruned@.to_set()),
                forall|id: u128| #[trigger]
                    pruned@.contains(id) ==> old(self)@.contains_key(id) && !self@.contains_key(id),
            decreases self.clients@.len() - i,
        {
            let body = clone_message(message);
            let ok = try_send(&self.clients[i].1, body);
            if ok {
                i += 1;
            } else {
                let id = self.clients[i].0;
                proof {
                    assert(subs_has_id_at(self.clients@, id, i as int));
                    lemma_subs_unique_idx(self.clients@, id, i as int);
                    assert(self@.contains_key(id));
                }
                let ghost pruned0 = pruned@;
                self.take_entry(id);
                pruned.push(id);
                proof {
                    lemma_push_to_set(pruned0, id);
                    assert(pruned@.to_set() =~= pruned0.to_set().insert(id));
                    assert(self@ =~= old(self)@.remove_keys(pruned@.to_set()));
                    assert(old(self)@.contains_key(id));
                    assert forall|y: u128| #[trigger]
                        pruned@.contains(y) implies pruned0.contains(y) || y == id by {
                        assert(pruned@.to_set().contains(y));
                        if y != id {
                            assert(pruned0.to_set().contains(y));
                        }
                    }
                }
            }
        }
        pruned
    }
}

/// A fresh copy of a message, one per subscriber.
fn clone_message(m: &WsMessage) -> (r: WsMessage)
    ensures
        r == *m,
{
    match m {
        WsMessage::ServerStatus(s) => WsMessage::ServerStatus(s.clone()),
        WsMessage::ClientStatus(s) => WsMessage::ClientStatus(s.clone()),
        WsMessage::ConnectionEvent(s) => WsMessage::ConnectionEvent(s.clone()),
        WsMessage::Error(s) => WsMessage::Error(s.clone()),
        WsMessage::Pong => WsMessage::Pong,
    }
}

} // verus!
