//! The runtime registry: a mapping from entity ID to the runtime handle of
//! its supervised task. Check-and-insert and check-and-remove are single
//! operations here, so that under one lock no two handles for the same
//! entity can ever coexist. The registry's view is the map from entity ID to
//! the plain facts of its handle.

use vstd::prelude::*;

verus! {

#[verifier::external_type_specification]
#[verifier::external_body]
#[verifier::reject_recursive_types(T)]
pub struct ExJoinHandle<T>(tokio::task::JoinHandle<T>);

#[verifier::external_type_specification]
#[verifier::external_body]
pub struct ExJoinError(tokio::task::JoinError);

/// Relies on tokio's `JoinHandle::abort`: asks the runtime to cancel the
/// task; cancellation is not observed here.
pub assume_specification<T>[ tokio::task::JoinHandle::<T>::abort ](
    h: &tokio::task::JoinHandle<T>,
);

/// Relies on tokio's `JoinHandle::is_finished`: whether the task has run to
/// completion or been cancelled; the answer depends on the runtime's state.
pub assume_specification<T>[ tokio::task::JoinHandle::<T>::is_finished ](
    h: &tokio::task::JoinHandle<T>,
) -> bool;

/// The plain facts a runtime handle carries besides the task itself: the
/// entity, the tunnel-assigned remote port where one exists (client
/// entities), and the process-relative start instant.
#[derive(Clone, Copy, Debug)]
pub struct HandleData {
    pub id: i64,
    pub assigned_port: Option<u16>,
    pub started_at_millis: u64,
}

/// A live runtime handle: the plain facts and the supervised task.
pub struct RuntimeHandle {
    pub data: HandleData,
    pub task: tokio::task::JoinHandle<()>,
}

/// The entry at `i` carries entity ID `id`.
pub open spec fn seq_has_id_at(s: Seq<RuntimeHandle>, id: i64, i: int) -> bool {
    0 <= i < s.len() && s[i].data.id == id
}

/// Some entry carries entity ID `id`.
pub open spec fn seq_contains_id(s: Seq<RuntimeHandle>, id: i64) -> bool {
    exists|i: int| seq_has_id_at(s, id, i)
}

/// The position of the entry carrying `id`; meaningful under uniqueness.
pub open spec fn seq_idx_of(s: Seq<RuntimeHandle>, id: i64) -> int {
    choose|i: int| seq_has_id_at(s, id, i)
}

/// No two entries carry the same entity ID.
pub open spec fn seq_ids_unique(s: Seq<RuntimeHandle>) -> bool {
    forall|i: int, j: int|
        0 <= i < j < s.len() ==> (#[trigger] s[i].data).id != (#[trigger] s[j].data).id
}

proof fn lemma_unique_idx(s: Seq<RuntimeHandle>, id: i64, i: int)
    requires
        seq_ids_unique(s),
        seq_has_id_at(s, id, i),
    ensures
        seq_idx_of(s, id) == i,
{
    let w = seq_idx_of(s, id);
    assert(seq_has_id_at(s, id, w));
    if w != i {
        if w < i {
            assert(s[w].data.id != s[i].data.id);
        } else {
            assert(s[i].data.id != s[w].data.id);
        }
    }
}

/// One atomic check-and-insert step against a registry state, as
/// `Registry::insert` performs it: refused without change when the entity
/// already holds a handle, recorded otherwise.
pub open spec fn spec_register(m: Map<i64, HandleData>, h: HandleData) -> (bool, Map<
    i64,
    HandleData,
>) {
    if m.contains_key(h.id) {
        (false, m)
    } else {
        (true, m.insert(h.id, h))
    }
}

/// A sequence of check-and-insert steps, one per start attempt, in the
/// order the registry serialized them: how many succeeded, and the state
/// they leave.
pub open spec fn spec_register_all(m: Map<i64, HandleData>, hs: Seq<HandleData>) -> (nat, Map<
    i64,
    HandleData,
>)
    decreases hs.len(),
{
    if hs.len() == 0 {
        (0, m)
    } else {
        let (ok, m1) = spec_register(m, hs[0]);
        let (n, m2) = spec_register_all(m1, hs.drop_first());
        (if ok {
            (n + 1) as nat
        } else {
            n
        }, m2)
    }
}

proof fn lemma_register_all_blocked(m: Map<i64, HandleData>, hs: Seq<HandleData>, id: i64)
    requires
        m.contains_key(id),
        forall|i: int| 0 <= i < hs.len() ==> (#[trigger] hs[i]).id == id,
    ensures
        spec_register_all(m, hs) == (0nat, m),
    decreases hs.len(),
{
    if hs.len() > 0 {
        lemma_register_all_blocked(m, hs.drop_first(), id);
    }
}

/// Law: of any number of start attempts for one entity, serialized by the
/// registry's atomic check-and-insert against a state that does not yet
/// hold the entity, exactly the first succeeds and the rest are refused,
/// and afterwards exactly the first attempt's handle is registered.
pub proof fn lemma_concurrent_start_exclusive(
    m0: Map<i64, HandleData>,
    hs: Seq<HandleData>,
    id: i64,
)
    requires
        hs.len() >= 1,
        forall|i: int| 0 <= i < hs.len() ==> (#[trigger] hs[i]).id == id,
        !m0.contains_key(id),
    ensures
        spec_register_all(m0, hs).0 == 1,
        spec_register_all(m0, hs).1 == m0.insert(id, hs[0]),
        spec_register_all(m0, hs).1.contains_key(id),
{
    let m1 = m0.insert(id, hs[0]);
    lemma_register_all_blocked(m1, hs.drop_first(), id);
}

/// Law: a stop for an entity leaves a registry state that holds no handle
/// for it, so an immediately following status query reports it absent.
pub proof fn lemma_stop_then_status_absent(m: Map<i64, HandleData>, id: i64)
    ensures
        !m.remove(id).contains_key(id),
{
}

pub struct Registry {
    entries: Vec<RuntimeHandle>,
}

impl View for Registry {
    type V = Map<i64, HandleData>;

    closed spec fn view(&self) -> Map<i64, HandleData> {
        Map::new(
            |id: i64| seq_contains_id(self.entries@, id),
            |id: i64| s_data(self.entries@, id),
        )
    }
}

/// The plain facts of the entry carrying `id`.
pub open spec fn s_data(s: Seq<RuntimeHandle>, id: i64) -> HandleData {
    s[seq_idx_of(s, id)].data
}

impl Registry {
    /// The registry never holds two handles for one entity.
    pub closed spec fn wf(&self) -> bool {
        seq_ids_unique(self.entries@)
    }

    /// Every key of the view names the entity its handle carries.
    pub proof fn lemma_view_key(&self, id: i64)
        requires
            self.wf(),
            self@.contains_key(id),
        ensures
            self@[id].id == id,
    {
        let i = seq_idx_of(self.entries@, id);
        assert(seq_has_id_at(self.entries@, id, i));
    }

    pub fn new() -> (r: Registry)
        ensures
            r.wf(),
            r@ =~= Map::<i64, HandleData>::empty(),
    {
        Registry { entries: Vec::new() }
    }

    fn index_of(&self, id: i64) -> (r: Option<usize>)
        ensures
            match r {
                Some(i) => seq_has_id_at(self.entries@, id, i as int),
                None => !seq_contains_id(self.entries@, id),
            },
    {
        let mut i: usize = 0;
        let len = self.entries.len();
        while i < len
            invariant
                len == self.entries@.len(),
                i <= len,
                forall|j: int| 0 <= j < i ==> (#[trigger] self.entries@[j].data).id != id,
            decreases len - i,
        {
            if self.entries[i].data.id == id {
                return Some(i);
            }
            i += 1;
        }
        proof {
            assert forall|j: int| !seq_has_id_at(self.entries@, id, j) by {
                if 0 <= j < self.entries@.len() {
                    assert(self.entries@[j].data.id != id);
                }
            }
        }
        None
    }

    /// Atomic check-and-insert: refuses a handle whose entity already has
    /// one, without any change; otherwise records the handle. The refused
    /// handle travels back to the caller so its task can be cancelled.
    pub fn insert(&mut self, h: RuntimeHandle) -> (r: Result<(), RuntimeHandle>)
        requires
            old(self).wf(),
        ensures
            final(self).wf(),
            old(self)@.contains_key(h.data.id) ==> {
                &&& r matches Err(h2) && h2.data == h.data
                &&& final(self)@ == old(self)@
            },
            !old(self)@.contains_key(h.data.id) ==> {
                &&& r is Ok
                &&& final(self)@ == old(self)@.insert(h.data.id, h.data)
            },
            (r is Ok) == spec_register(old(self)@, h.data).0,
            final(self)@ == spec_register(old(self)@, h.data).1,
    {
        let ghost s0 = self.entries@;
        let ghost id = h.data.id;
        match self.index_of(h.data.id) {
            Some(_) => Err(h),
            None => {
                let ghost hd = h.data;
                self.entries.push(h);
                proof {
                    let s1 = self.entries@;
                    assert(s1 == s0.push(h));
                    assert forall|i: int, j: int| 0 <= i < j < s1.len() implies (
                    #[trigger] s1[i].data).id != (#[trigger] s1[j].data).id by {
                        if j == s1.len() - 1 {
                            assert(seq_has_id_at(s0, s1[i].data.id, i));
                        }
                    }
                    assert(seq_has_id_at(s1, id, s1.len() - 1));
                    lemma_unique_idx(s1, id, s1.len() - 1);
                    assert forall|k: i64| k != id implies seq_contains_id(s1, k)
                        == seq_contains_id(s0, k) by {
                        if seq_contains_id(s1, k) {
                            let i = choose|i: int| seq_has_id_at(s1, k, i);
                            assert(i < s1.len() - 1);
                            assert(seq_has_id_at(s0, k, i));
                        }
                        if seq_contains_id(s0, k) {
                            let i = choose|i: int| seq_has_id_at(s0, k, i);
                            assert(seq_has_id_at(s1, k, i));
                        }
                    }
                    assert forall|k: i64| k != id && seq_contains_id(s0, k) implies s_data(s1, k)
                        == s_data(s0, k) by {
                        let i = choose|i: int| seq_has_id_at(s0, k, i);
                        assert(seq_has_id_at(s1, k, i));
                        lemma_unique_idx(s1, k, i);
                        lemma_unique_idx(s0, k, i);
                    }
                    assert(self@ =~= old(self)@.insert(id, hd));
                }
                Ok(())
            },
        }
    }

    /// Atomic check-and-remove: takes the handle of `id` out of the
    /// registry, or reports that there is none.
    pub fn remove(&mut self, id: i64) -> (r: Option<RuntimeHandle>)
        requires
            old(self).wf(),
        ensures
            final(self).wf(),
            final(self)@ == old(self)@.remove(id),
            old(self)@.contains_key(id) ==> (r matches Some(h) && h.data == old(self)@[id]),
            !old(self)@.contains_key(id) ==> r is None && final(self)@ == old(self)@,
    {
        let ghost s0 = self.entries@;
        match self.index_of(id) {
            Some(i) => {
                proof {
                    lemma_unique_idx(s0, id, i as int);
                }
                let h = self.entries.remove(i);
                proof {
                    let s1 = self.entries@;
                    assert(s1 == s0.remove(i as int));
                    assert forall|a: int, b: int| 0 <= a < b < s1.len() implies (
                    #[trigger] s1[a].data).id != (#[trigger] s1[b].data).id by {
                        let a0: int = if a < i { a } else { a + 1 };
                        let b0: int = if b < i { b } else { b + 1 };
                        assert(s1[a] == s0[a0]);
                        assert(s1[b] == s0[b0]);
                    }
                    assert forall|k: i64| #[trigger]
                        seq_contains_id(s1, k) implies seq_contains_id(s0, k) && k != id by {
                        let a = choose|a: int| seq_has_id_at(s1, k, a);
                        let a0: int = if a < i { a } else { a + 1 };
                        assert(s1[a] == s0[a0]);
                        assert(seq_has_id_at(s0, k, a0));
                        if k == id {
                            lemma_unique_idx(s0, id, a0);
                        }
                    }
                    assert forall|k: i64| k != id && seq_contains_id(s0, k) implies
                        seq_contains_id(s1, k) && s_data(s1, k) == s_data(s0, k) by {
                        let a0 = choose|a0: int| seq_has_id_at(s0, k, a0);
                        let a: int = if a0 < i { a0 } else { a0 - 1 };
                        assert(a0 != i);
                        assert(s1[a] == s0[a0]);
                        assert(seq_has_id_at(s1, k, a));
                        lemma_unique_idx(s1, k, a);
                        lemma_unique_idx(s0, k, a0);
                    }
                    assert(self@ =~= old(self)@.remove(id));
                }
                Some(h)
            },
            None => {
                proof {
                    assert(self@ =~= old(self)@.remove(id));
                }
                None
            },
        }
    }

    /// A read-only view of the handle of `id`, if one is present.
    pub fn get(&self, id: i64) -> (r: Option<&RuntimeHandle>)
        requires
            self.wf(),
        ensures
            match r {
                Some(h) => self@.contains_key(id) && h.data == self@[id],
                None => !self@.contains_key(id),
            },
    {
        match self.index_of(id) {
            Some(i) => {
                proof {
                    lemma_unique_idx(self.entries@, id, i as int);
                }
                Some(&self.entries[i])
            },
            None => None,
        }
    }

    /// The IDs of registered entities whose task has terminated but whose
    /// handle has not yet been removed. Which tasks count as terminated is
    /// the runtime's answer at the moment of the call; every returned ID is
    /// registered.
    pub fn finished_ids(&self) -> (r: Vec<i64>)
        requires
            self.wf(),
        ensures
            forall|k: int| 0 <= k < r@.len() ==> self@.contains_key(#[trigger] r@[k]),
    {
        let mut out: Vec<i64> = Vec::new();
        let len = self.entries.len();
        let mut i: usize = 0;
        while i < len
            invariant
                self.wf(),
                len == self.entries@.len(),
                i <= len,
                forall|k: int| 0 <= k < out@.len() ==> self@.contains_key(#[trigger] out@[k]),
            decreases len - i,
        {
            if self.entries[i].task.is_finished() {
                proof {
                    assert(seq_has_id_at(self.entries@, self.entries@[i as int].data.id, i as int));
                }
                out.push(self.entries[i].data.id);
            }
            i += 1;
        }
        out
    }
}

} // verus!
