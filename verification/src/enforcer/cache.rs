//! Remembering what the policy said of a dependency.

use crate::enforcer::dependency::Dependency;
use crate::enforcer::outcome::{Judgement, Outcome};
use vstd::hash_map::StringHashMap;
use vstd::prelude::*;

verus! {

/// A cache for the results of checking dependencies, keyed by the dependency's package URL.
pub trait Cache {
    /// What the cache holds.
    spec fn entries(&self) -> Map<Seq<char>, Judgement>;

    /// Whether the cache keeps what it is given.
    spec fn keeps(&self) -> bool;

    /// The result kept for `dependency`, if there is one.
    fn get(&self, dependency: &Dependency) -> (found: Option<Outcome>)
        ensures
            match found {
                Some(outcome) => self.entries().contains_key(dependency@) && outcome@ == self.entries()[dependency@],
                None => !self.entries().contains_key(dependency@),
            },
    ;

    /// Keeps `response` as the result for `dependency`, in place of an earlier one. A cache
    /// that keeps nothing stays as it is.
    fn store(&mut self, dependency: &Dependency, response: Outcome)
        ensures
            final(self).keeps() == old(self).keeps(),
            final(self).entries() == (if old(self).keeps() {
                old(self).entries().insert(dependency@, response@)
            } else {
                old(self).entries()
            }),
    ;
}

/// The cache that holds nothing: every lookup misses and nothing is ever kept.
pub struct NoCache;

impl Cache for NoCache {
    open spec fn entries(&self) -> Map<Seq<char>, Judgement> {
        Map::empty()
    }

    open spec fn keeps(&self) -> bool {
        false
    }

    fn get(&self, _dependency: &Dependency) -> (found: Option<Outcome>) {
        None
    }

    fn store(&mut self, _dependency: &Dependency, _response: Outcome) {
    }
}

/// The cache of an enforcer: a map from package URL to result, emptied as a whole when the
/// configuration is read anew.
pub struct DefaultCache {
    store: StringHashMap<Outcome>,
}

impl Cache for DefaultCache {
    closed spec fn entries(&self) -> Map<Seq<char>, Judgement> {
        self.store@.map_values(|outcome: Outcome| outcome@)
    }

    open spec fn keeps(&self) -> bool {
        true
    }

    fn get(&self, dependency: &Dependency) -> (found: Option<Outcome>) {
        match self.store.get(dependency.cache_key()) {
            Some(outcome) => Some(outcome.clone()),
            None => None,
        }
    }

    fn store(&mut self, dependency: &Dependency, response: Outcome) {
        self.store.insert(dependency.purl.clone(), response);
        assert(self.store@.map_values(|outcome: Outcome| outcome@) =~= old(self).store@.map_values(
            |outcome: Outcome| outcome@,
        ).insert(dependency@, response@));
    }
}

impl Default for DefaultCache {
    fn default() -> (cache: Self)
        ensures
            cache.entries() == Map::<Seq<char>, Judgement>::empty(),
    {
        let cache = DefaultCache { store: StringHashMap::new() };
        assert(cache.store@.map_values(|outcome: Outcome| outcome@) =~= Map::empty());
        cache
    }
}

impl DefaultCache {
    /// Forgets every result.
    pub fn invalidate(&mut self)
        ensures
            final(self).entries() == Map::<Seq<char>, Judgement>::empty(),
    {
        self.store.clear();
        assert(self.store@.map_values(|outcome: Outcome| outcome@) =~= Map::empty());
    }
}

} // verus!
