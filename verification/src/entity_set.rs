//! A set of entities, kept in the hash set that the host engine uses for
//! entity collections.
//!
//! The verifier cannot look inside that hash set, so its contents are given a
//! name, [`entity_set_contents`], and each operation on it goes through one
//! small function whose contract is taken from the hash set's documented
//! behaviour rather than proved.

use vstd::prelude::*;

verus! {

/// A finite set of entities, each identified by its 64-bit id.
#[verifier::external_body]
pub struct EntitySet {
    inner: bevy::utils::HashSet<u64>,
}

/// The entities that an [`EntitySet`] holds.
pub uninterp spec fn entity_set_contents(set: EntitySet) -> Set<u64>;

impl View for EntitySet {
    type V = Set<u64>;

    open spec fn view(&self) -> Set<u64> {
        entity_set_contents(*self)
    }
}

/// Calls `Default::default` of `bevy::utils::HashSet`, which makes a hash set
/// without elements.
#[verifier::external_body]
pub(crate) fn set_new() -> (set: EntitySet)
    ensures
        entity_set_contents(set) == Set::<u64>::empty(),
{
    EntitySet { inner: bevy::utils::HashSet::default() }
}

/// Calls `clone` of `bevy::utils::HashSet`, which gives a hash set with the
/// same elements.
#[verifier::external_body]
pub(crate) fn set_clone(set: &EntitySet) -> (copy: EntitySet)
    ensures
        entity_set_contents(copy) == entity_set_contents(*set),
{
    EntitySet { inner: set.inner.clone() }
}

/// Calls `insert` of `bevy::utils::HashSet`: the value is in the set
/// afterwards, nothing else changes, and the result tells whether the value
/// was absent before.
#[verifier::external_body]
pub(crate) fn set_insert(set: &mut EntitySet, entity: u64) -> (added: bool)
    ensures
        entity_set_contents(*final(set)) == entity_set_contents(*old(set)).insert(entity),
        added == !entity_set_contents(*old(set)).contains(entity),
{
    set.inner.insert(entity)
}

/// Calls `remove` of `bevy::utils::HashSet`: the value is not in the set
/// afterwards, nothing else changes, and the result tells whether the value
/// was present before.
#[verifier::external_body]
pub(crate) fn set_remove(set: &mut EntitySet, entity: u64) -> (removed: bool)
    ensures
        entity_set_contents(*final(set)) == entity_set_contents(*old(set)).remove(entity),
        removed == entity_set_contents(*old(set)).contains(entity),
{
    set.inner.remove(&entity)
}

/// Calls `contains` of `bevy::utils::HashSet`, which tells whether the value
/// is an element.
#[verifier::external_body]
fn set_contains(set: &EntitySet, entity: u64) -> (found: bool)
    ensures
        found == entity_set_contents(*set).contains(entity),
{
    set.inner.contains(&entity)
}

/// Calls `len` of `bevy::utils::HashSet`, which gives the number of
/// elements.
#[verifier::external_body]
fn set_len(set: &EntitySet) -> (n: usize)
    ensures
        n == entity_set_contents(*set).len(),
{
    set.inner.len()
}

/// Calls `is_empty` of `bevy::utils::HashSet`, which tells whether the set
/// has no element.
#[verifier::external_body]
pub(crate) fn set_is_empty(set: &EntitySet) -> (empty: bool)
    ensures
        empty == (entity_set_contents(*set) == Set::<u64>::empty()),
{
    set.inner.is_empty()
}

/// Walks `iter` of `bevy::utils::HashSet`, which visits every element once,
/// in an order that is not specified.
#[verifier::external_body]
fn set_items(set: &EntitySet) -> (items: Vec<u64>)
    ensures
        items@.no_duplicates(),
        items@.to_set() == entity_set_contents(*set),
{
    set.inner.iter().copied().collect()
}

impl EntitySet {
    /// The number of entities in the set.
    pub fn len(&self) -> (n: usize)
        ensures
            n == self@.len(),
    {
        set_len(self)
    }

    /// Whether the set holds no entity.
    pub fn is_empty(&self) -> (empty: bool)
        ensures
            empty == (self@ == Set::<u64>::empty()),
    {
        set_is_empty(self)
    }

    /// Whether `entity` is in the set.
    pub fn contains(&self, entity: u64) -> (found: bool)
        ensures
            found == self@.contains(entity),
    {
        set_contains(self, entity)
    }

    /// The entities of the set, each once, in no particular order.
    pub fn to_vec(&self) -> (items: Vec<u64>)
        ensures
            items@.no_duplicates(),
            items@.to_set() == self@,
            items@.len() == self@.len(),
    {
        let items: Vec<u64> = set_items(self);
        proof {
            items@.unique_seq_to_set();
        }
        items
    }
}

} // verus!
