//! A multi-map from keys to sets of entities in which every entity belongs to
//! the set of at most one key.
//!
//! Its mathematical model is the map from each entity to the key that it is
//! filed under; the set of a key is the set of entities that this map sends to
//! it. Two hash maps back it: one from key to entity set, which answers
//! lookups, and one from entity to key, which finds the set an entity has to
//! leave when it is filed under another key.

use crate::entity_set::{set_clone, set_insert, set_is_empty, set_new, set_remove, EntitySet};
use std::collections::HashMap;
use std::hash::Hash;
use vstd::prelude::*;
use vstd::std_specs::hash::obeys_key_model;

verus! {

broadcast use vstd::std_specs::hash::group_hash_axioms;

/// What the multi-map asks of its key type: hashing and equality agree with
/// each other, and a clone of a key is that key.
pub open spec fn lawful_key<K: Clone>() -> bool {
    &&& obeys_key_model::<K>()
    &&& forall|a: K, b: K| #[trigger] cloned(a, b) ==> a == b
}

/// The entities that `filed` sends to `key`.
pub open spec fn entities_of<K>(filed: Map<u64, K>, key: K) -> Set<u64> {
    Set::new(|entity: u64| filed.contains_key(entity) && filed[entity] == key)
}

/// No entity is filed under two keys.
pub proof fn lemma_entity_has_one_key<K>(filed: Map<u64, K>, entity: u64, first: K, second: K)
    requires
        entities_of(filed, first).contains(entity),
        entities_of(filed, second).contains(entity),
    ensures
        first == second,
{
}

/// The set of a key is finite whenever finitely many entities are filed.
pub proof fn lemma_entities_of_finite<K>(filed: Map<u64, K>, key: K)
    requires
        filed.dom().finite(),
    ensures
        entities_of(filed, key).finite(),
{
    vstd::set_lib::lemma_len_subset(entities_of(filed, key), filed.dom());
}

/// Filing an entity under a key puts it into that key's set, takes it out of
/// every other key's set, and leaves all other entities where they were.
pub proof fn lemma_insert_moves_entity<K>(filed: Map<u64, K>, key: K, entity: u64, other: K)
    ensures
        entities_of(filed.insert(entity, key), key) == entities_of(filed, key).insert(entity),
        other != key ==> entities_of(filed.insert(entity, key), other) == entities_of(
            filed,
            other,
        ).remove(entity),
{
    assert(entities_of(filed.insert(entity, key), key) =~= entities_of(filed, key).insert(entity));
    if other != key {
        assert(entities_of(filed.insert(entity, key), other) =~= entities_of(filed, other).remove(
            entity,
        ));
    }
}

/// Filing an entity under the key that it is already filed under changes
/// nothing.
pub proof fn lemma_insert_idempotent<K>(filed: Map<u64, K>, key: K, entity: u64)
    requires
        filed.contains_key(entity),
        filed[entity] == key,
    ensures
        filed.insert(entity, key) == filed,
{
    assert(filed.insert(entity, key) =~= filed);
}

/// A multi-map from keys to sets of entities that keeps every entity in the
/// set of at most one key. Its view is the map from each filed entity to its
/// key.
pub struct UniqueMultiMap<K: Hash + Eq + Clone> {
    forward: HashMap<K, EntitySet>,
    reverse: HashMap<u64, K>,
}

/// The two hash maps describe the same relation, and no key is kept with an
/// empty set.
spec fn consistent<K>(forward: Map<K, EntitySet>, reverse: Map<u64, K>) -> bool {
    &&& forall|entity: u64| #[trigger]
        reverse.contains_key(entity) ==> forward.contains_key(reverse[entity])
            && forward[reverse[entity]]@.contains(entity)
    &&& forall|key: K, entity: u64|
        forward.contains_key(key) && #[trigger] forward[key]@.contains(entity)
            ==> reverse.contains_key(entity) && reverse[entity] == key
    &&& forall|key: K| #[trigger]
        forward.contains_key(key) ==> forward[key]@ != Set::<u64>::empty()
}

/// Takes `entity` out of the set kept for `key`, and drops the key where its
/// set becomes empty.
fn detach<K: Hash + Eq + Clone>(forward: &mut HashMap<K, EntitySet>, key: K, entity: u64)
    requires
        lawful_key::<K>(),
    ensures
        forall|other: K|
            other != key ==> (final(forward)@.contains_key(other) <==> old(forward)@.contains_key(
                other,
            )),
        forall|other: K|
            other != key && final(forward)@.contains_key(other) ==> final(forward)@[other] == old(
                forward,
            )@[other],
        final(forward)@.contains_key(key) <==> old(forward)@.contains_key(key) && old(
            forward,
        )@[key]@.remove(entity) != Set::<u64>::empty(),
        final(forward)@.contains_key(key) ==> final(forward)@[key]@ == old(forward)@[key]@.remove(
            entity,
        ),
{
    let found = forward.remove(&key);
    if let Some(mut set) = found {
        set_remove(&mut set, entity);
        if !set_is_empty(&set) {
            forward.insert(key, set);
        }
    }
}

/// Puts `entity` into the set kept for `key`, starting a set where the key has
/// none.
fn attach<K: Hash + Eq + Clone>(forward: &mut HashMap<K, EntitySet>, key: &K, entity: u64)
    requires
        lawful_key::<K>(),
    ensures
        forall|other: K|
            other != *key ==> (final(forward)@.contains_key(other) <==> old(
                forward,
            )@.contains_key(other)),
        forall|other: K|
            other != *key && final(forward)@.contains_key(other) ==> final(forward)@[other] == old(
                forward,
            )@[other],
        final(forward)@.contains_key(*key),
        final(forward)@[*key]@ == (if old(forward)@.contains_key(*key) {
            old(forward)@[*key]@
        } else {
            Set::<u64>::empty()
        }).insert(entity),
{
    let found = forward.remove(key);
    let mut set = match found {
        Some(set) => set,
        None => set_new(),
    };
    set_insert(&mut set, entity);
    let owned = key.clone();
    assert(cloned(*key, owned));
    forward.insert(owned, set);
}

impl<K: Hash + Eq + Clone> View for UniqueMultiMap<K> {
    type V = Map<u64, K>;

    closed spec fn view(&self) -> Map<u64, K> {
        self.reverse@
    }
}

impl<K: Hash + Eq + Clone> UniqueMultiMap<K> {
    #[verifier::type_invariant]
    spec fn inv(self) -> bool {
        lawful_key::<K>() ==> consistent(self.forward@, self.reverse@)
    }

    /// The entities filed under `key`.
    pub open spec fn entities(&self, key: K) -> Set<u64> {
        entities_of(self@, key)
    }

    /// Finitely many entities are filed.
    pub proof fn lemma_finite(&self)
        ensures
            self@.dom().finite(),
    {
    }

    /// A multi-map without entries.
    pub fn new() -> (map: Self)
        ensures
            map@ == Map::<u64, K>::empty(),
    {
        UniqueMultiMap { forward: HashMap::new(), reverse: HashMap::new() }
    }

    /// Files `entity` under `key`. Where it was filed under another key, it
    /// leaves that key's set first, so that it is never in two sets.
    pub fn insert(&mut self, key: &K, entity: u64)
        requires
            lawful_key::<K>(),
        ensures
            final(self)@ == old(self)@.insert(entity, *key),
    {
        proof {
            use_type_invariant(&*self);
        }
        let mut taken = UniqueMultiMap::new();
        std::mem::swap(self, &mut taken);
        let UniqueMultiMap { mut forward, mut reverse } = taken;
        let ghost forward_before = forward@;
        let ghost reverse_before = reverse@;
        let key_for_reverse = key.clone();
        assert(cloned(*key, key_for_reverse));
        let previous = reverse.insert(entity, key_for_reverse);
        if let Some(previous_key) = previous {
            detach(&mut forward, previous_key, entity);
        }
        let ghost forward_detached = forward@;
        attach(&mut forward, key, entity);
        proof {
            let f = forward@;
            let r = reverse@;
            assert forall|e: u64| #[trigger] r.contains_key(e) implies f.contains_key(r[e])
                && f[r[e]]@.contains(e) by {
                if e != entity {
                    let k = reverse_before[e];
                    assert(forward_before[k]@.contains(e));
                    assert(forward_detached[k]@.contains(e));
                }
            }
            assert forall|k: K, e: u64| f.contains_key(k) && #[trigger] f[k]@.contains(e) implies r.contains_key(e)
                && r[e] == k by {
                if e != entity || k != *key {
                    assert(forward_detached[k]@.contains(e));
                    assert(forward_before[k]@.contains(e));
                }
            }
            assert forall|k: K| #[trigger] f.contains_key(k) implies f[k]@ != Set::<u64>::empty() by {
                if k == *key {
                    assert(f[k]@.contains(entity));
                }
            }
        }
        *self = UniqueMultiMap { forward, reverse };
    }

    /// The set of entities filed under `key`; empty where there is none.
    pub fn get(&self, key: &K) -> (set: EntitySet)
        requires
            lawful_key::<K>(),
        ensures
            set@ == entities_of(self@, *key),
            set@.finite(),
    {
        proof {
            use_type_invariant(self);
        }
        proof {
            lemma_entities_of_finite(self@, *key);
        }
        match self.forward.get(key) {
            Some(found) => {
                let set = set_clone(found);
                assert(set@ =~= entities_of(self@, *key));
                set
            },
            None => {
                let set = set_new();
                assert(set@ =~= entities_of(self@, *key));
                set
            },
        }
    }
}

} // verus!
