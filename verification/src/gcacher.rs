//! A generic caching wrapper around a [`HashMap`]: it stores the result of
//! an expensive closure per key, so the value can be retrieved later
//! without running the closure again.
//!
//! The cacher's pledge of correctness is a type invariant here: every
//! cached value is a possible output of the instancing closure for its
//! key, so reading the cache is as good as re-running the closure.

use std::collections::HashMap;
use std::collections::TryReserveError;
use std::collections::hash_map::Entry;
use std::collections::hash_map::RandomState;
use vstd::prelude::*;
use vstd::std_specs::hash::obeys_key_model;
use vstd::std_specs::hash::builds_valid_hashers;

verus! {

broadcast use vstd::std_specs::hash::group_hash_axioms;

/// Relies on std's `HashMap::with_hasher`: the created map is empty.
#[verifier::external_body]
fn hash_map_with_hasher<K, V, S>(hash_builder: S) -> (result: HashMap<K, V, S>)
    ensures
        result@.dom() == Set::<K>::empty(),
{
    HashMap::with_hasher(hash_builder)
}

/// Relies on std's `HashMap::with_capacity_and_hasher`: the created map is
/// empty.
#[verifier::external_body]
fn hash_map_with_capacity_and_hasher<K, V, S>(capacity: usize, hash_builder: S) -> (m: HashMap<
    K,
    V,
    S,
>)
    ensures
        m@.dom() == Set::<K>::empty(),
{
    HashMap::with_capacity_and_hasher(capacity, hash_builder)
}

/// Relies on std's `HashMap::try_reserve`: it only adjusts capacity, so
/// the entries are unchanged whether or not allocation succeeds.
#[verifier::external_body]
fn hash_map_try_reserve<K: core::hash::Hash + core::cmp::Eq, V, S: core::hash::BuildHasher>(
    m: &mut HashMap<K, V, S>,
    additional: usize,
) -> (result: Result<(), TryReserveError>)
    ensures
        final(m)@ == old(m)@,
{
    m.try_reserve(additional)
}

/// Relies on std's `HashMap::shrink_to_fit`: it only adjusts capacity, so
/// the entries are unchanged.
#[verifier::external_body]
fn hash_map_shrink_to_fit<K: core::hash::Hash + core::cmp::Eq, V, S: core::hash::BuildHasher>(
    m: &mut HashMap<K, V, S>,
)
    ensures
        final(m)@ == old(m)@,
{
    m.shrink_to_fit()
}

/// Relies on std's `HashMap::shrink_to`: it only adjusts capacity, so the
/// entries are unchanged.
#[verifier::external_body]
fn hash_map_shrink_to<K: core::hash::Hash + core::cmp::Eq, V, S: core::hash::BuildHasher>(
    m: &mut HashMap<K, V, S>,
    min_capacity: usize,
)
    ensures
        final(m)@ == old(m)@,
{
    m.shrink_to(min_capacity)
}

/// Relies on std's `HashMap::remove_entry`: it removes the entry for the
/// key and returns the stored pair when one was present.
#[verifier::external_body]
fn hash_map_remove_entry<K: core::hash::Hash + core::cmp::Eq, V, S: core::hash::BuildHasher>(
    m: &mut HashMap<K, V, S>,
    k: &K,
) -> (result: Option<(K, V)>)
    ensures
        obeys_key_model::<K>() && builds_valid_hashers::<S>() ==> {
            &&& final(m)@ == old(m)@.remove(*k)
            &&& match result {
                Some(pair) => old(m)@.contains_key(*k) && pair == (*k, old(m)@[*k]),
                None => !old(m)@.contains_key(*k),
            }
        },
{
    m.remove_entry(k)
}

/// Relies on std's `HashMap::drain`: it empties the map, yielding every
/// stored entry exactly once, in no promised order.
#[verifier::external_body]
fn hash_map_drain_to_vec<K: core::hash::Hash + core::cmp::Eq, V, S: core::hash::BuildHasher>(
    m: &mut HashMap<K, V, S>,
) -> (pairs: Vec<(K, V)>)
    ensures
        final(m)@.dom() == Set::<K>::empty(),
        obeys_key_model::<K>() && builds_valid_hashers::<S>() ==> {
            &&& pairs@.len() == old(m)@.dom().len()
            &&& forall|i: int|
                0 <= i < pairs@.len() ==> old(m)@.contains_key((#[trigger] pairs@[i]).0) && old(
                    m,
                )@[pairs@[i].0] == pairs@[i].1
            &&& forall|i: int, j: int|
                0 <= i < j < pairs@.len() ==> (#[trigger] pairs@[i]).0 != (#[trigger] pairs@[j]).0
        },
{
    m.drain().collect()
}

/// Relies on std's `HashMap::retain`: it keeps exactly the entries for
/// which the predicate answers true, and visits each entry once. The
/// predicate here cannot mutate the stored values, so surviving entries
/// keep their values.
#[verifier::external_body]
fn hash_map_retain<
    K: core::hash::Hash + core::cmp::Eq,
    V,
    S: core::hash::BuildHasher,
    F: Fn(&K, &V) -> bool,
>(m: &mut HashMap<K, V, S>, f: F)
    ensures
        obeys_key_model::<K>() && builds_valid_hashers::<S>() ==> {
            &&& forall|k: K|
                #[trigger] final(m)@.contains_key(k) ==> old(m)@.contains_key(k) && final(m)@[k]
                    == old(m)@[k]
            &&& forall|k: K|
                #[trigger] final(m)@.contains_key(k) ==> call_ensures(f, (&k, &old(m)@[k]), true)
            &&& forall|k: K|
                old(m)@.contains_key(k) && !(#[trigger] final(m)@.contains_key(k))
                    ==> call_ensures(f, (&k, &old(m)@[k]), false)
        },
{
    m.retain(|k, v| f(k, v))
}

/// A generic caching struct.
///
/// Written as a wrapper over an underlying [`HashMap`], it stores the
/// result of the instancing closure for each requested key, so the value
/// can be retrieved later without running the closure again. Entries are
/// only ever created through [`GCacher::value_from`] or removed through
/// the explicit destructor methods, never silently replaced, which keeps
/// every cached value a faithful output of the closure.
#[derive(Debug, Clone)]
#[verifier::reject_recursive_types(K)]
#[verifier::reject_recursive_types(V)]
#[verifier::reject_recursive_types(S)]
pub struct GCacher<K, F, V, S = RandomState> where K: core::hash::Hash + core::cmp::Eq, F: Fn(
    &K,
) -> V {
    /// The cacher's instancing closure.
    pub instancer: F,
    /// The underlying map from keys to cached closure results.
    cache: HashMap<K, V, S>,
}

impl<K, F, V, S> GCacher<K, F, V, S> where K: core::hash::Hash + core::cmp::Eq, F: Fn(&K) -> V {
    /// The entries currently cached.
    pub closed spec fn cache_map(&self) -> Map<K, V> {
        self.cache@
    }

    /// The instancing closure, for contracts.
    pub closed spec fn spec_instancer(&self) -> F {
        self.instancer
    }

    /// The pledge of correctness: every cached value is a possible output
    /// of the instancing closure for its key. (The pledge is stated under
    /// the standard hash-table model; the model holds for the primitive
    /// key types and the default hasher.)
    pub open spec fn wf(&self) -> bool {
        obeys_key_model::<K>() && builds_valid_hashers::<S>() ==> forall|k: K|
            #[trigger] self.cache_map().contains_key(k) ==> call_ensures(
                self.spec_instancer(),
                (&k,),
                self.cache_map()[k],
            )
    }

    /// The base associated function for instancing new caches: pairs the
    /// closure with the map that backs the cache.
    fn create(instancer: F, cache: HashMap<K, V, S>) -> (cacher: GCacher<K, F, V, S>)
        requires
            cache@.dom() == Set::<K>::empty(),
        ensures
            cacher.spec_instancer() == instancer,
            cacher.cache_map().dom() == Set::<K>::empty(),
            cacher.wf(),
    {
        GCacher { instancer, cache }
    }

    /// Creates a new cache with an empty map, using the given hash
    /// builder to hash keys.
    pub fn with_hasher(instancer: F, hash_builder: S) -> (cacher: GCacher<K, F, V, S>)
        ensures
            cacher.spec_instancer() == instancer,
            cacher.cache_map().dom() == Set::<K>::empty(),
            cacher.wf(),
    {
        Self::create(instancer, hash_map_with_hasher(hash_builder))
    }

    /// Creates a new cache with a map of the given capacity, using the
    /// given hash builder to hash keys.
    pub fn with_capacity_and_hasher(instancer: F, capacity: usize, hash_builder: S) -> (cacher:
        GCacher<K, F, V, S>)
        ensures
            cacher.spec_instancer() == instancer,
            cacher.cache_map().dom() == Set::<K>::empty(),
            cacher.wf(),
    {
        Self::create(instancer, hash_map_with_capacity_and_hasher(capacity, hash_builder))
    }
}


impl<K, F, V> GCacher<K, F, V> where K: core::hash::Hash + core::cmp::Eq, F: Fn(&K) -> V {
    /// Creates a cacher with an empty map, which will not allocate until
    /// the first value is cached.
    pub fn new(instancer: F) -> (cacher: GCacher<K, F, V>)
        ensures
            cacher.spec_instancer() == instancer,
            cacher.cache_map().dom() == Set::<K>::empty(),
            cacher.wf(),
    {
        Self::create(instancer, HashMap::new())
    }

    /// Creates a cacher whose map can hold at least `capacity` entries
    /// without reallocating.
    pub fn with_capacity(instancer: F, capacity: usize) -> (cacher: GCacher<K, F, V>)
        ensures
            cacher.spec_instancer() == instancer,
            cacher.cache_map().dom() == Set::<K>::empty(),
            cacher.wf(),
    {
        Self::create(instancer, HashMap::with_capacity(capacity))
    }

    /// A reference to the value cached for the key, instancing a new one
    /// through the closure when no pairing exists yet.
    ///
    /// A key already cached keeps its value and the closure is left
    /// alone; a new key is handed to the closure exactly once and the
    /// result is cached under it.
    pub fn value_from<'a>(&'a mut self, val: K) -> (r: &'a V)
        requires
            old(self).wf(),
            forall|k: K| call_requires(old(self).spec_instancer(), (&k,)),
        ensures
            final(self).wf(),
            final(self).spec_instancer() == old(self).spec_instancer(),
            obeys_key_model::<K>() ==> {
                &&& final(self).cache_map().contains_key(val)
                &&& *r == final(self).cache_map()[val]
                &&& old(self).cache_map().contains_key(val) ==> (*r == old(self).cache_map()[val]
                    && final(self).cache_map() == old(self).cache_map())
                &&& !old(self).cache_map().contains_key(val) ==> (call_ensures(
                    old(self).spec_instancer(),
                    (&val,),
                    *r,
                ) && final(self).cache_map() == old(self).cache_map().insert(val, *r))
            },
    {
        let ghost m0 = self.cache@;
        match self.cache.entry(val) {
            Entry::Occupied(e) => {
                let r = e.into_mut();
                proof {
                    if obeys_key_model::<K>() {
                        assert(m0.insert(val, m0[val]) =~= m0);
                        assert forall|k2: K| #[trigger] m0.contains_key(k2) implies call_ensures(
                            old(self).spec_instancer(),
                            (&k2,),
                            m0[k2],
                        ) by {
                            assert(old(self).cache_map().contains_key(k2));
                        }
                    }
                }
                r
            },
            Entry::Vacant(e) => {
                let kref = e.key();
                let ghost kv: K = *kref;
                proof {
                    assert(call_requires(old(self).spec_instancer(), (&kv,)));
                    assert(self.instancer == old(self).spec_instancer());
                    assert(call_requires(self.instancer, (&kv,)));
                }
                let v = (self.instancer)(kref);
                proof {
                    if obeys_key_model::<K>() {
                        assert(call_ensures(old(self).spec_instancer(), (&val,), v));
                        let m1 = m0.insert(val, v);
                        assert forall|k2: K| #[trigger] m1.contains_key(k2) implies call_ensures(
                            old(self).spec_instancer(),
                            (&k2,),
                            m1[k2],
                        ) by {
                            if k2 != val {
                                assert(old(self).cache_map().contains_key(k2));
                            }
                        }
                    }
                }
                e.insert(v)
            },
        }
    }

    /// Removes a key from the cache, returning the associated value when
    /// one was cached. The closure is not consulted: a missing key simply
    /// answers nothing.
    pub fn remove(&mut self, k: &K) -> (result: Option<V>)
        requires
            old(self).wf(),
        ensures
            final(self).wf(),
            final(self).spec_instancer() == old(self).spec_instancer(),
            obeys_key_model::<K>() && builds_valid_hashers::<RandomState>() ==> {
                &&& final(self).cache_map() == old(self).cache_map().remove(*k)
                &&& match result {
                    Some(v) => old(self).cache_map().contains_key(*k) && v == old(
                        self,
                    ).cache_map()[*k],
                    None => !old(self).cache_map().contains_key(*k),
                }
            },
    {
        let result = self.cache.remove(k);
        proof {
            if obeys_key_model::<K>() {
                assert forall|k2: K| #[trigger] self.cache_map().contains_key(k2) implies call_ensures(
                    self.spec_instancer(),
                    (&k2,),
                    self.cache_map()[k2],
                ) by {
                    assert(old(self).cache_map().contains_key(k2));
                }
            }
            assert(self.wf());
        }
        result
    }

    /// Removes a key from the cache, returning the stored key and value
    /// when they were cached.
    pub fn remove_entry(&mut self, k: &K) -> (result: Option<(K, V)>)
        requires
            old(self).wf(),
        ensures
            final(self).wf(),
            final(self).spec_instancer() == old(self).spec_instancer(),
            obeys_key_model::<K>() && builds_valid_hashers::<RandomState>() ==> {
                &&& final(self).cache_map() == old(self).cache_map().remove(*k)
                &&& match result {
                    Some(pair) => old(self).cache_map().contains_key(*k) && pair == (
                        *k,
                        old(self).cache_map()[*k],
                    ),
                    None => !old(self).cache_map().contains_key(*k),
                }
            },
    {
        let result = hash_map_remove_entry(&mut self.cache, k);
        proof {
            if obeys_key_model::<K>() {
                assert forall|k2: K| #[trigger] self.cache_map().contains_key(k2) implies call_ensures(
                    self.spec_instancer(),
                    (&k2,),
                    self.cache_map()[k2],
                ) by {
                    assert(old(self).cache_map().contains_key(k2));
                }
            }
            assert(self.wf());
        }
        result
    }

    /// Clears the cache, removing all key-value pairs and keeping the
    /// allocated memory for reuse.
    pub fn clear(&mut self)
        ensures
            final(self).wf(),
            final(self).spec_instancer() == old(self).spec_instancer(),
            final(self).cache_map().dom() == Set::<K>::empty(),
    {
        self.cache.clear();
    }

    /// Clears the cache, returning all the cached key-value pairs, each
    /// exactly once, in no promised order. Keeps the allocated memory for
    /// reuse.
    pub fn drain(&mut self) -> (pairs: Vec<(K, V)>)
        ensures
            final(self).wf(),
            final(self).spec_instancer() == old(self).spec_instancer(),
            final(self).cache_map().dom() == Set::<K>::empty(),
            obeys_key_model::<K>() && builds_valid_hashers::<RandomState>() ==> {
                &&& pairs@.len() == old(self).cache_map().dom().len()
                &&& forall|i: int|
                    0 <= i < pairs@.len() ==> old(self).cache_map().contains_key(
                        (#[trigger] pairs@[i]).0,
                    ) && old(self).cache_map()[pairs@[i].0] == pairs@[i].1
                &&& forall|i: int, j: int|
                    0 <= i < j < pairs@.len() ==> (#[trigger] pairs@[i]).0 != (
                    #[trigger] pairs@[j]).0
            },
    {
        hash_map_drain_to_vec(&mut self.cache)
    }

    /// Reserves capacity for at least `additional` more entries; the
    /// cached entries themselves are untouched.
    pub fn reserve(&mut self, additional: usize)
        requires
            old(self).wf(),
        ensures
            final(self).wf(),
            final(self).spec_instancer() == old(self).spec_instancer(),
            final(self).cache_map() == old(self).cache_map(),
    {
        self.cache.reserve(additional);
        proof {
            assert(self.cache_map() == old(self).cache_map());
            assert(self.wf());
        }
    }

    /// Tries to reserve capacity for at least `additional` more entries;
    /// whether or not the allocation succeeds, the cached entries are
    /// untouched.
    pub fn try_reserve(&mut self, additional: usize) -> (result: Result<(), TryReserveError>)
        requires
            old(self).wf(),
        ensures
            final(self).wf(),
            final(self).spec_instancer() == old(self).spec_instancer(),
            final(self).cache_map() == old(self).cache_map(),
    {
        let result = hash_map_try_reserve(&mut self.cache, additional);
        proof {
            assert(self.cache_map() == old(self).cache_map());
            assert(self.wf());
        }
        result
    }

    /// Shrinks the capacity of the cache as much as possible; the cached
    /// entries themselves are untouched.
    pub fn shrink_to_fit(&mut self)
        requires
            old(self).wf(),
        ensures
            final(self).wf(),
            final(self).spec_instancer() == old(self).spec_instancer(),
            final(self).cache_map() == old(self).cache_map(),
    {
        hash_map_shrink_to_fit(&mut self.cache);
        proof {
            assert(self.cache_map() == old(self).cache_map());
            assert(self.wf());
        }
    }

    /// Shrinks the capacity of the cache with a lower limit; the cached
    /// entries themselves are untouched.
    pub fn shrink_to(&mut self, min_capacity: usize)
        requires
            old(self).wf(),
        ensures
            final(self).wf(),
            final(self).spec_instancer() == old(self).spec_instancer(),
            final(self).cache_map() == old(self).cache_map(),
    {
        hash_map_shrink_to(&mut self.cache, min_capacity);
        proof {
            assert(self.cache_map() == old(self).cache_map());
            assert(self.wf());
        }
    }

    /// Retains only the entries the predicate approves of: afterwards the
    /// cache holds a subset of its old entries, unchanged in value.
    pub fn retain<U: Fn(&K, &V) -> bool>(&mut self, f: U)
        requires
            old(self).wf(),
        ensures
            final(self).wf(),
            final(self).spec_instancer() == old(self).spec_instancer(),
            obeys_key_model::<K>() && builds_valid_hashers::<RandomState>() ==> forall|k: K|
                #[trigger] final(self).cache_map().contains_key(k) ==> old(
                    self,
                ).cache_map().contains_key(k) && final(self).cache_map()[k] == old(
                    self,
                ).cache_map()[k],
    {
        hash_map_retain(&mut self.cache, f);
        proof {
            if obeys_key_model::<K>() {
                assert forall|k2: K| #[trigger] self.cache_map().contains_key(k2) implies call_ensures(
                    self.spec_instancer(),
                    (&k2,),
                    self.cache_map()[k2],
                ) by {
                    assert(old(self).cache_map().contains_key(k2));
                }
            }
            assert(self.wf());
        }
    }

    /// A reference to the value cached for the key, when one is cached.
    pub fn get<'a>(&'a self, k: &K) -> (result: Option<&'a V>)
        ensures
            obeys_key_model::<K>() && builds_valid_hashers::<RandomState>() ==> match result {
                Some(v) => self.cache_map().contains_key(*k) && *v == self.cache_map()[*k],
                None => !self.cache_map().contains_key(*k),
            },
    {
        self.cache.get(k)
    }

    /// The number of cached entries.
    pub fn len(&self) -> (n: usize)
        ensures
            obeys_key_model::<K>() && builds_valid_hashers::<RandomState>() ==> n
                == self.cache_map().dom().len(),
    {
        self.cache.len()
    }

    /// Whether the cache currently holds no entries.
    pub fn is_empty(&self) -> (empty: bool)
        ensures
            empty == (self.cache_map().dom() =~= Set::<K>::empty()),
    {
        self.cache.is_empty()
    }

    /// A reference to the cacher's instancing closure.
    pub fn instancer(&self) -> (f: &F)
        ensures
            f == &self.spec_instancer(),
    {
        &self.instancer
    }

    /// A reference to the underlying map that acts as the cache.
    pub fn cache(&self) -> (cache: &HashMap<K, V>)
        ensures
            cache@ == self.cache_map(),
    {
        &self.cache
    }

    /// Consumes the cacher, returning its underlying map.
    pub fn into_cache(self) -> (cache: HashMap<K, V>)
        ensures
            cache@ == self.cache_map(),
    {
        self.cache
    }

    /// Consumes the cacher, returning its instancing closure.
    pub fn into_instancer(self) -> (f: F)
        ensures
            f == self.spec_instancer(),
    {
        self.instancer
    }

    /// Consumes the cacher, returning its closure and its map as a pair.
    pub fn into_inner(self) -> (inner: (F, HashMap<K, V>))
        ensures
            inner.0 == self.spec_instancer(),
            inner.1@ == self.cache_map(),
    {
        (self.instancer, self.cache)
    }

}

} // verus!
