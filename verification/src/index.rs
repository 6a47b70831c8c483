//! The index proper: a store that files every entity under the key of its
//! component, and an accessor that brings the store up to date before it
//! answers a lookup.

use crate::entity_set::EntitySet;
use crate::tick::{changed_since, is_changed_since};
use crate::unique_multimap::{entities_of, lawful_key, UniqueMultiMap};
use std::hash::Hash;
use vstd::prelude::*;

verus! {

/// The definition of an index: which component it watches, which key it
/// files entities under, and how the key is read off a component.
///
/// Reading the key has to be a pure and total function of the component:
/// `value` returns what `value_spec` says, for every component. Everything
/// proved about an index holds for definitions that keep this promise.
pub trait IndexInfo {
    type Component;

    type Value: Send + Sync + Hash + Eq + Clone;

    /// The key of a component, as a mathematical function.
    spec fn value_spec(c: &Self::Component) -> Self::Value;

    /// Computes the key of a component.
    fn value(c: &Self::Component) -> (v: Self::Value)
        ensures
            v == Self::value_spec(c),
    ;
}

/// One entry of the live view that the host hands to the index: an entity,
/// its component, and the logical time at which the component last changed.
pub struct Stamped<'a, C> {
    pub entity: u64,
    pub component: &'a C,
    pub last_changed: u32,
}

/// What an index store stands for: the key each entity is filed under, and
/// the logical time through which that filing is known to be right.
pub struct IndexState<K> {
    pub filed: Map<u64, K>,
    pub watermark: u32,
}

/// The filing after the entries of `live` that count as changed have been
/// filed again, one after the other, under the key of their component.
pub open spec fn refreshed_map<I: IndexInfo>(
    filed: Map<u64, I::Value>,
    live: Seq<Stamped<I::Component>>,
    watermark: u32,
    now: u32,
) -> Map<u64, I::Value>
    decreases live.len(),
{
    if live.len() == 0 {
        filed
    } else {
        let earlier = refreshed_map::<I>(filed, live.drop_last(), watermark, now);
        let entry = live.last();
        if changed_since(watermark, entry.last_changed, now) {
            earlier.insert(entry.entity, I::value_spec(entry.component))
        } else {
            earlier
        }
    }
}

/// The state after a refresh at time `now` against the live view `live`: a
/// store that was already refreshed at or after `now` stays as it is; any
/// other files the changed entries again and moves its watermark to `now`.
pub open spec fn refreshed<I: IndexInfo>(
    state: IndexState<I::Value>,
    live: Seq<Stamped<I::Component>>,
    now: u32,
) -> IndexState<I::Value> {
    if state.watermark >= now {
        state
    } else {
        IndexState { filed: refreshed_map::<I>(state.filed, live, state.watermark, now), watermark: now }
    }
}

/// The store of one index: the multi-map from keys to entities, and the
/// logical time of the last refresh. Its view is an [`IndexState`].
pub struct IndexStorage<I: IndexInfo> {
    map: UniqueMultiMap<I::Value>,
    last_refresh_tick: u32,
}

impl<I: IndexInfo> View for IndexStorage<I> {
    type V = IndexState<I::Value>;

    closed spec fn view(&self) -> IndexState<I::Value> {
        IndexState { filed: self.map@, watermark: self.last_refresh_tick }
    }
}

impl<I: IndexInfo> Default for IndexStorage<I> {
    /// A store that files nothing and was never refreshed.
    fn default() -> (storage: Self)
        ensures
            storage@ == (IndexState { filed: Map::<u64, I::Value>::empty(), watermark: 0 }),
    {
        IndexStorage::new()
    }
}

impl<I: IndexInfo> IndexStorage<I> {
    /// A store that files nothing and was never refreshed.
    pub fn new() -> (storage: Self)
        ensures
            storage@ == (IndexState { filed: Map::<u64, I::Value>::empty(), watermark: 0 }),
    {
        IndexStorage { map: UniqueMultiMap::new(), last_refresh_tick: 0 }
    }

    /// The logical time through which the store is up to date.
    pub fn last_refresh_tick(&self) -> (tick: u32)
        ensures
            tick == self@.watermark,
    {
        self.last_refresh_tick
    }

    /// Whether a refresh at `current_tick` would read the live view, that is,
    /// whether the store was last refreshed before that time.
    pub fn is_stale(&self, current_tick: u32) -> (stale: bool)
        ensures
            stale == (self@.watermark < current_tick),
    {
        self.last_refresh_tick < current_tick
    }
}

/// A handle for one query: the store, borrowed for writing, the live view of
/// the components, and the logical time at which the caller reads.
///
/// The methods change the store behind `storage` and nothing else: the
/// handle keeps lending the same store, reads the same live view and stays
/// at the same time.
pub struct Index<'a, I: IndexInfo> {
    pub storage: &'a mut IndexStorage<I>,
    pub components: &'a [Stamped<'a, I::Component>],
    pub current_tick: u32,
}

impl<'a, I: IndexInfo> Index<'a, I> {
    /// Refreshes the store, then gives the entities filed under `val`: those
    /// whose component has that key as of the current time.
    pub fn lookup(&mut self, val: &I::Value) -> (set: EntitySet)
        requires
            lawful_key::<I::Value>(),
        ensures
            final(self).storage@ == refreshed::<I>(
                old(self).storage@,
                old(self).components@,
                old(self).current_tick,
            ),
            set@ == entities_of(final(self).storage@.filed, *val),
            set@.finite(),
            final(self).components == old(self).components,
            final(self).current_tick == old(self).current_tick,
            *final(final(self).storage) == *final(old(self).storage),
    {
        self.refresh();
        self.storage.map.get(val)
    }

    /// Brings the store up to date with the live view as of the current
    /// time. Where the store was already refreshed at this time or later,
    /// nothing happens; otherwise every entry that counts as changed since
    /// the last refresh is filed again under the key of its component, and
    /// the watermark moves to the current time.
    pub fn refresh(&mut self)
        requires
            lawful_key::<I::Value>(),
        ensures
            final(self).storage@ == refreshed::<I>(
                old(self).storage@,
                old(self).components@,
                old(self).current_tick,
            ),
            final(self).components == old(self).components,
            final(self).current_tick == old(self).current_tick,
            *final(final(self).storage) == *final(old(self).storage),
    {
        if self.storage.last_refresh_tick >= self.current_tick {
            return;
        }
        let watermark: u32 = self.storage.last_refresh_tick;
        let ghost filed_before = self.storage.map@;
        let mut i: usize = 0;
        while i < self.components.len()
            invariant
                lawful_key::<I::Value>(),
                0 <= i <= self.components.len(),
                self.components == old(self).components,
                self.current_tick == old(self).current_tick,
                *final(self.storage) == *final(old(self).storage),
                self.storage.last_refresh_tick == watermark,
                self.storage.map@ == refreshed_map::<I>(
                    filed_before,
                    self.components@.take(i as int),
                    watermark,
                    self.current_tick,
                ),
            decreases self.components.len() - i,
        {
            let entry = &self.components[i];
            proof {
                assert(self.components@.take(i + 1).drop_last() == self.components@.take(i as int));
            }
            if is_changed_since(watermark, entry.last_changed, self.current_tick) {
                let key = I::value(entry.component);
                self.storage.map.insert(&key, entry.entity);
            }
            i = i + 1;
        }
        proof {
            assert(self.components@.take(self.components.len() as int) == self.components@);
        }
        self.storage.last_refresh_tick = self.current_tick;
    }
}

} // verus!
