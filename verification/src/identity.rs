//! The identity map: which local handle stands for which server handle.

use std::collections::HashMap;
use vstd::prelude::*;
use crate::message::{LocalEntityId, ServerEntityId};

verus! {

broadcast use vstd::std_specs::hash::group_hash_axioms;

/// One client's translation table from the server's entity handles to the
/// handles of its own world. A server handle has at most one local handle.
#[derive(Debug)]
pub struct NetworkMapping(HashMap<ServerEntityId, LocalEntityId>);

impl View for NetworkMapping {
    type V = Map<ServerEntityId, LocalEntityId>;

    closed spec fn view(&self) -> Map<ServerEntityId, LocalEntityId> {
        self.0@
    }
}

impl NetworkMapping {
    /// The empty table.
    pub fn new() -> (m: NetworkMapping)
        ensures
            m@ == Map::<ServerEntityId, LocalEntityId>::empty(),
    {
        NetworkMapping(HashMap::new())
    }

    /// The number of server handles that have a local handle.
    pub fn len(&self) -> (n: usize)
        ensures
            n == self@.len(),
            self@.dom().finite(),
    {
        self.0.len()
    }

    /// Whether `server` has a local handle.
    pub fn contains(&self, server: ServerEntityId) -> (b: bool)
        ensures
            b == self@.contains_key(server),
    {
        self.0.contains_key(&server)
    }

    /// The local handle that stands for `server`, if there is one.
    pub fn get(&self, server: ServerEntityId) -> (local: Option<LocalEntityId>)
        ensures
            local == (if self@.contains_key(server) {
                Some(self@[server])
            } else {
                None
            }),
    {
        match self.0.get(&server) {
            Some(local) => Some(*local),
            None => None,
        }
    }

    /// Lets `local` stand for `server` from now on, and returns the handle
    /// that stood for it before.
    pub fn insert(&mut self, server: ServerEntityId, local: LocalEntityId) -> (previous: Option<
        LocalEntityId,
    >)
        ensures
            final(self)@ == old(self)@.insert(server, local),
            previous == (if old(self)@.contains_key(server) {
                Some(old(self)@[server])
            } else {
                None
            }),
    {
        self.0.insert(server, local)
    }

    /// Forgets `server`, and returns the handle that stood for it.
    pub fn remove(&mut self, server: ServerEntityId) -> (removed: Option<LocalEntityId>)
        ensures
            final(self)@ == old(self)@.remove(server),
            removed == (if old(self)@.contains_key(server) {
                Some(old(self)@[server])
            } else {
                None
            }),
    {
        self.0.remove(&server)
    }
}

impl Default for NetworkMapping {
    fn default() -> (m: NetworkMapping)
        ensures
            m@ == Map::<ServerEntityId, LocalEntityId>::empty(),
    {
        NetworkMapping::new()
    }
}

} // verus!
