//! The shared cache: calendar identifier to the most recently built document.
use dashmap::DashMap;
use std::collections::hash_map::RandomState;
use vstd::prelude::*;

verus! {

#[verifier::external_type_specification]
#[verifier::external_body]
#[verifier::reject_recursive_types(K)]
#[verifier::reject_recursive_types(V)]
#[verifier::reject_recursive_types(S)]
pub struct ExDashMap<K, V, S>(DashMap<K, V, S>);

/// The concurrent map that holds the cached documents.
pub type CacheMap = DashMap<String, String, RandomState>;

/// What a `DashMap<String, String>` holds, as a map of character sequences.
pub uninterp spec fn dashmap_contents(m: CacheMap) -> Map<Seq<char>, Seq<char>>;

/// Relies on dashmap::DashMap::new: a fresh map holds no entries.
#[verifier::external_body]
fn dashmap_new() -> (r: CacheMap)
    ensures
        dashmap_contents(r).dom() == Set::<Seq<char>>::empty(),
{
    DashMap::new()
}

/// Relies on dashmap::DashMap::insert: afterwards the key maps to the new
/// value and every other key keeps its value.
#[verifier::external_body]
fn dashmap_insert(m: &mut CacheMap, key: String, value: String)
    ensures
        dashmap_contents(*final(m)) == dashmap_contents(*old(m)).insert(key@, value@),
{
    m.insert(key, value);
}

/// Relies on dashmap::DashMap::get: the value stored under the key, if any,
/// copied out of the read guard.
#[verifier::external_body]
fn dashmap_get(m: &CacheMap, key: &String) -> (r: Option<String>)
    ensures
        r matches Some(v) ==> dashmap_contents(*m).contains_key(key@) && dashmap_contents(*m)[key@] == v@,
        r is None ==> !dashmap_contents(*m).contains_key(key@),
{
    m.get(key).map(|entry| entry.value().clone())
}

/// The shared cache. A missing entry means that no build of that calendar
/// has succeeded yet; each `put` replaces an entry whole.
pub struct CalendarCache {
    map: CacheMap,
}

impl View for CalendarCache {
    type V = Map<Seq<char>, Seq<char>>;

    closed spec fn view(&self) -> Map<Seq<char>, Seq<char>> {
        dashmap_contents(self.map)
    }
}

impl CalendarCache {
    /// An empty cache.
    pub fn new() -> (r: CalendarCache)
        ensures
            r@.dom() == Set::<Seq<char>>::empty(),
    {
        CalendarCache { map: dashmap_new() }
    }

    /// The document cached for `ident`, if a build of it has succeeded.
    pub fn get(&self, ident: &String) -> (r: Option<String>)
        ensures
            r matches Some(d) ==> self@.contains_key(ident@) && self@[ident@] == d@,
            r is None ==> !self@.contains_key(ident@),
    {
        dashmap_get(&self.map, ident)
    }

    /// Replaces the entry for `ident` by `document`; other entries stay.
    pub fn put(&mut self, ident: String, document: String)
        ensures
            final(self)@ == old(self)@.insert(ident@, document@),
    {
        dashmap_insert(&mut self.map, ident, document);
    }
}

} // verus!
