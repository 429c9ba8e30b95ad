//! The endpoint cache: a concurrent map from table name to endpoint.

use dashmap::DashMap;
use vstd::prelude::*;

use crate::model::{Endpoint, EndpointView};

verus! {

#[verifier::external_type_specification]
#[verifier::external_body]
#[verifier::reject_recursive_types(K)]
#[verifier::reject_recursive_types(V)]
#[verifier::reject_recursive_types(S)]
pub struct ExDashMap<K, V, S>(DashMap<K, V, S>);

/// The entries of a map of routes: table name to endpoint.
pub uninterp spec fn routes_in(m: DashMap<String, Endpoint>) -> Map<Seq<char>, EndpointView>;

/// Relies on `DashMap::new`: a new map holds no entry.
#[verifier::external_body]
fn map_new() -> (r: DashMap<String, Endpoint>)
    ensures
        routes_in(r).dom() == Set::<Seq<char>>::empty(),
{
    DashMap::new()
}

/// Relies on `DashMap::get`: the value under a key equal to `k`, if there is one.
#[verifier::external_body]
fn map_get(m: &DashMap<String, Endpoint>, k: &String) -> (r: Option<Endpoint>)
    ensures
        match r {
            Some(e) => routes_in(*m).contains_key(k@) && routes_in(*m)[k@] == e@,
            None => !routes_in(*m).contains_key(k@),
        },
{
    m.get(k).map(|pair| pair.value().clone())
}

/// Relies on `DashMap::insert`: the key now maps to the value, whatever it
/// mapped to before.
#[verifier::external_body]
fn map_insert(m: &mut DashMap<String, Endpoint>, k: String, v: Endpoint)
    ensures
        routes_in(*final(m)) == routes_in(*old(m)).insert(k@, v@),
{
    m.insert(k, v);
}

/// Relies on `DashMap::remove`: the key, if present, is gone afterwards.
#[verifier::external_body]
fn map_remove(m: &mut DashMap<String, Endpoint>, k: &String)
    ensures
        routes_in(*final(m)) == routes_in(*old(m)).remove(k@),
{
    m.remove(k);
}

/// Endpoints of tables that were resolved before. Entries have no age: they
/// stay until removed or overwritten.
pub struct EndpointCache {
    map: DashMap<String, Endpoint>,
}

impl View for EndpointCache {
    type V = Map<Seq<char>, EndpointView>;

    closed spec fn view(&self) -> Map<Seq<char>, EndpointView> {
        routes_in(self.map)
    }
}

impl EndpointCache {
    pub fn new() -> (r: EndpointCache)
        ensures
            r@.dom() == Set::<Seq<char>>::empty(),
    {
        EndpointCache { map: map_new() }
    }

    pub fn get(&self, table: &String) -> (r: Option<Endpoint>)
        ensures
            match r {
                Some(e) => self@.contains_key(table@) && self@[table@] == e@,
                None => !self@.contains_key(table@),
            },
    {
        map_get(&self.map, table)
    }

    pub fn insert(&mut self, table: String, endpoint: Endpoint)
        ensures
            final(self)@ == old(self)@.insert(table@, endpoint@),
    {
        map_insert(&mut self.map, table, endpoint)
    }

    pub fn remove(&mut self, table: &String)
        ensures
            final(self)@ == old(self)@.remove(table@),
    {
        map_remove(&mut self.map, table)
    }
}

} // verus!
