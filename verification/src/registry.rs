//! Registry of live executions, keyed by execution id. Lookups do not
//! remove: an execution can be attached many times until it is reaped.

use vstd::prelude::*;

use crate::keyed::KeyedStore;

verus! {

/// Executions by id.
pub struct ExecRegistry<V> {
    inner: KeyedStore<V>,
}

impl<V> View for ExecRegistry<V> {
    type V = Map<Seq<char>, V>;

    closed spec fn view(&self) -> Map<Seq<char>, V> {
        self.inner@
    }
}

impl<V> ExecRegistry<V> {
    pub closed spec fn wf(&self) -> bool {
        self.inner.wf()
    }

    pub fn new() -> (r: Self)
        ensures
            r.wf(),
            r@ == Map::<Seq<char>, V>::empty(),
    {
        ExecRegistry { inner: KeyedStore::new() }
    }

    /// Register an execution under its id; returns the id.
    pub fn insert(&mut self, id: String, session: V) -> (r: String)
        requires
            old(self).wf(),
        ensures
            final(self).wf(),
            final(self)@ == old(self)@.insert(id@, session),
            r@ == id@,
    {
        let key = id.clone();
        self.inner.insert(key, session);
        id
    }

    /// The execution with this id; the registry is left as it is.
    pub fn get(&self, id: &str) -> (r: Option<&V>)
        requires
            self.wf(),
        ensures
            match r {
                Some(v) => self@.contains_key(id@) && self@[id@] == *v,
                None => !self@.contains_key(id@),
            },
    {
        let key = id.to_owned();
        self.inner.get(&key)
    }

    /// Drop the execution with this id (reaping after the linger window).
    pub fn remove(&mut self, id: &str) -> (r: Option<V>)
        requires
            old(self).wf(),
        ensures
            final(self).wf(),
            final(self)@ == old(self)@.remove(id@),
            match r {
                Some(v) => old(self)@.contains_key(id@) && old(self)@[id@] == v,
                None => !old(self)@.contains_key(id@),
            },
    {
        let key = id.to_owned();
        self.inner.remove(&key)
    }
}

/// Re-attach: once registered, an execution is found under its id by every
/// lookup until it is removed, whatever other executions come and go.
pub proof fn lemma_registered_execution_stays_attachable<V>(
    reg: Map<Seq<char>, V>,
    id: Seq<char>,
    session: V,
    other: Seq<char>,
    other_session: V,
)
    requires
        other != id,
    ensures
        reg.insert(id, session).contains_key(id),
        reg.insert(id, session)[id] == session,
        reg.insert(id, session).insert(other, other_session)[id] == session,
        reg.insert(id, session).remove(other)[id] == session,
        !reg.insert(id, session).remove(id).contains_key(id),
{
}

} // verus!
