//! The routing table: the in-memory projection of the handler resources,
//! keyed by handler identity.

use crate::crd::{clone_filters, clone_routes, Filter, HandlerModel, Route};
use std::collections::HashMap;
use vstd::prelude::*;

verus! {

/// What the data plane needs to know of one handler.
#[derive(Debug)]
pub struct HandlerConfig {
    pub topic: String,
    pub signature_key: Option<String>,
    pub filters: Option<Vec<Filter>>,
    pub routes: Option<Vec<Route>>,
}

impl View for HandlerConfig {
    type V = HandlerModel;

    open spec fn view(&self) -> HandlerModel {
        HandlerModel {
            topic: self.topic@,
            signature_key: self.signature_key.deep_view(),
            filters: self.filters.deep_view(),
            routes: self.routes.deep_view(),
        }
    }
}

impl Clone for HandlerConfig {
    fn clone(&self) -> (r: Self)
        ensures
            r@ == self@,
    {
        HandlerConfig {
            topic: self.topic.clone(),
            signature_key: self.signature_key.clone(),
            filters: clone_filters(&self.filters),
            routes: clone_routes(&self.routes),
        }
    }
}

/// The handlers known to this process, by identity.
pub struct RoutingTable {
    entries: HashMap<u128, HandlerConfig>,
}

impl View for RoutingTable {
    type V = Map<u128, HandlerModel>;

    closed spec fn view(&self) -> Map<u128, HandlerModel> {
        self.entries@.map_values(|c: HandlerConfig| c@)
    }
}

impl RoutingTable {
    /// A table without handlers.
    pub fn new() -> (table: Self)
        ensures
            table@ == Map::<u128, HandlerModel>::empty(),
    {
        let table = RoutingTable { entries: HashMap::new() };
        assert(table@ =~= Map::<u128, HandlerModel>::empty());
        table
    }

    /// Sets the entry of `id`, replacing the one it had.
    pub fn insert(&mut self, id: u128, config: HandlerConfig)
        ensures
            final(self)@ == old(self)@.insert(id, config@),
    {
        broadcast use vstd::std_specs::hash::group_hash_axioms;

        self.entries.insert(id, config);
        assert(self@ =~= old(self)@.insert(id, config@));
    }

    /// Drops the entry of `id`. Says whether there was one.
    pub fn remove(&mut self, id: u128) -> (had: bool)
        ensures
            final(self)@ == old(self)@.remove(id),
            had == old(self)@.contains_key(id),
    {
        broadcast use vstd::std_specs::hash::group_hash_axioms;

        let gone = self.entries.remove(&id);
        assert(self@ =~= old(self)@.remove(id));
        gone.is_some()
    }

    /// The entry of `id`, if it has one.
    pub fn get(&self, id: u128) -> (r: Option<&HandlerConfig>)
        ensures
            match r {
                Some(config) => self@.contains_key(id) && self@[id] == config@,
                None => !self@.contains_key(id),
            },
    {
        broadcast use vstd::std_specs::hash::group_hash_axioms;

        self.entries.get(&id)
    }

    /// A copy of the entry of `id`, for use after the table is released.
    pub fn snapshot(&self, id: u128) -> (r: Option<HandlerConfig>)
        ensures
            match r {
                Some(config) => self@.contains_key(id) && self@[id] == config@,
                None => !self@.contains_key(id),
            },
    {
        match self.get(id) {
            Some(config) => Some(config.clone()),
            None => None,
        }
    }

    /// The number of handlers.
    pub fn len(&self) -> (n: usize)
        ensures
            n == self@.dom().len(),
    {
        broadcast use vstd::std_specs::hash::group_hash_axioms;

        assert(self@.dom() =~= self.entries@.dom());
        self.entries.len()
    }
}

} // verus!
