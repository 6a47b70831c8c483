//! What holds of refreshes and lookups, stated over the model of the store
//! and proved once for every index definition.

use crate::index::{refreshed, refreshed_map, IndexInfo, IndexState, Stamped};
use crate::tick::{changed_since, lemma_changed_for_fresh_index};
use crate::unique_multimap::entities_of;
use vstd::prelude::*;

verus! {

/// No entity occurs twice in the live view.
pub open spec fn distinct_entities<C>(live: Seq<Stamped<C>>) -> bool {
    forall|i: int, j: int| 0 <= i < j < live.len() ==> live[i].entity != live[j].entity
}

/// The entry's entity is filed under the key of the entry's component.
pub open spec fn indexed<I: IndexInfo>(
    filed: Map<u64, I::Value>,
    entry: Stamped<I::Component>,
) -> bool {
    filed.contains_key(entry.entity) && filed[entry.entity] == I::value_spec(entry.component)
}

/// The state after one refresh for each time in `times`, in order, each
/// against the live view at the same position in `views`.
pub open spec fn refreshed_through<I: IndexInfo>(
    state: IndexState<I::Value>,
    views: Seq<Seq<Stamped<I::Component>>>,
    times: Seq<u32>,
) -> IndexState<I::Value>
    recommends
        views.len() == times.len(),
    decreases times.len(),
{
    if times.len() == 0 {
        state
    } else {
        refreshed::<I>(
            refreshed_through::<I>(state, views.drop_last(), times.drop_last()),
            views.last(),
            times.last(),
        )
    }
}

/// A refresh leaves an entity where it was unless an entry for that entity
/// counts as changed.
pub proof fn lemma_refresh_keeps_untouched<I: IndexInfo>(
    filed: Map<u64, I::Value>,
    live: Seq<Stamped<I::Component>>,
    watermark: u32,
    now: u32,
    entity: u64,
)
    requires
        forall|j: int|
            0 <= j < live.len() && changed_since(watermark, live[j].last_changed, now)
                ==> live[j].entity != entity,
    ensures
        refreshed_map::<I>(filed, live, watermark, now).contains_key(entity)
            == filed.contains_key(entity),
        filed.contains_key(entity) ==> refreshed_map::<I>(filed, live, watermark, now)[entity]
            == filed[entity],
    decreases live.len(),
{
    if live.len() > 0 {
        lemma_refresh_keeps_untouched::<I>(filed, live.drop_last(), watermark, now, entity);
    }
}

/// A refresh files an entry that counts as changed under the key of its
/// component, unless a later entry for the same entity counts as changed
/// too.
pub proof fn lemma_refresh_files_changed<I: IndexInfo>(
    filed: Map<u64, I::Value>,
    live: Seq<Stamped<I::Component>>,
    watermark: u32,
    now: u32,
    i: int,
)
    requires
        0 <= i < live.len(),
        changed_since(watermark, live[i].last_changed, now),
        forall|j: int|
            i < j < live.len() && changed_since(watermark, live[j].last_changed, now)
                ==> live[j].entity != live[i].entity,
    ensures
        indexed::<I>(refreshed_map::<I>(filed, live, watermark, now), live[i]),
    decreases live.len(),
{
    if i < live.len() - 1 {
        lemma_refresh_files_changed::<I>(filed, live.drop_last(), watermark, now, i);
    }
}

/// Refreshing twice at the same time gives the state that refreshing once
/// gives.
pub proof fn lemma_refresh_idempotent<I: IndexInfo>(
    state: IndexState<I::Value>,
    live: Seq<Stamped<I::Component>>,
    now: u32,
)
    ensures
        refreshed::<I>(refreshed::<I>(state, live, now), live, now) == refreshed::<I>(
            state,
            live,
            now,
        ),
{
}

/// A refresh moves the watermark to the later of its old value and the time
/// of the refresh; it never moves it back.
pub proof fn lemma_watermark_after_refresh<I: IndexInfo>(
    state: IndexState<I::Value>,
    live: Seq<Stamped<I::Component>>,
    now: u32,
)
    ensures
        refreshed::<I>(state, live, now).watermark == (if state.watermark >= now {
            state.watermark
        } else {
            now
        }),
{
}

/// After refreshes at times that never decrease, the watermark is the
/// greatest of these times, which is the last one, provided the store was not
/// already refreshed at a later time than that.
pub proof fn lemma_watermark_is_latest_time<I: IndexInfo>(
    state: IndexState<I::Value>,
    views: Seq<Seq<Stamped<I::Component>>>,
    times: Seq<u32>,
)
    requires
        views.len() == times.len(),
        times.len() > 0,
        forall|i: int, j: int| 0 <= i <= j < times.len() ==> times[i] <= times[j],
        state.watermark <= times.last(),
    ensures
        refreshed_through::<I>(state, views, times).watermark == times.last(),
        forall|i: int| 0 <= i < times.len() ==> times[i] <= times.last(),
    decreases times.len(),
{
    let earlier = times.drop_last();
    let before = refreshed_through::<I>(state, views.drop_last(), earlier);
    if times.len() == 1 {
        assert(before == state);
    } else if state.watermark <= earlier.last() {
        lemma_watermark_is_latest_time::<I>(state, views.drop_last(), earlier);
    } else {
        lemma_watermark_stays_beyond_times::<I>(state, views.drop_last(), earlier);
    }
    assert(before.watermark <= times.last());
}

/// Refreshes at times that the watermark has already reached leave the state
/// as it is.
pub proof fn lemma_watermark_stays_beyond_times<I: IndexInfo>(
    state: IndexState<I::Value>,
    views: Seq<Seq<Stamped<I::Component>>>,
    times: Seq<u32>,
)
    requires
        views.len() == times.len(),
        forall|i: int| 0 <= i < times.len() ==> times[i] <= state.watermark,
    ensures
        refreshed_through::<I>(state, views, times) == state,
    decreases times.len(),
{
    if times.len() > 0 {
        lemma_watermark_stays_beyond_times::<I>(state, views.drop_last(), times.drop_last());
    }
}

/// Completeness of a lookup. Take a live view without repeated entities and a
/// store whose watermark lies before the current time. Every entry that
/// counts as changed, or was already filed under the key of its component, is
/// in the set that a lookup of that key gives after the refresh.
pub proof fn lemma_lookup_complete<I: IndexInfo>(
    state: IndexState<I::Value>,
    live: Seq<Stamped<I::Component>>,
    now: u32,
    i: int,
)
    requires
        distinct_entities(live),
        state.watermark < now,
        0 <= i < live.len(),
        changed_since(state.watermark, live[i].last_changed, now) || indexed::<I>(
            state.filed,
            live[i],
        ),
    ensures
        entities_of(refreshed::<I>(state, live, now).filed, I::value_spec(live[i].component))
            .contains(live[i].entity),
{
    if changed_since(state.watermark, live[i].last_changed, now) {
        lemma_refresh_files_changed::<I>(state.filed, live, state.watermark, now, i);
    } else {
        lemma_refresh_keeps_untouched::<I>(state.filed, live, state.watermark, now, live[i].entity);
    }
}

/// Soundness of a lookup. Under the conditions of completeness, the entity of
/// such an entry is in the set of no key but the key of its component.
pub proof fn lemma_lookup_sound<I: IndexInfo>(
    state: IndexState<I::Value>,
    live: Seq<Stamped<I::Component>>,
    now: u32,
    i: int,
    key: I::Value,
)
    requires
        distinct_entities(live),
        state.watermark < now,
        0 <= i < live.len(),
        changed_since(state.watermark, live[i].last_changed, now) || indexed::<I>(
            state.filed,
            live[i],
        ),
        entities_of(refreshed::<I>(state, live, now).filed, key).contains(live[i].entity),
    ensures
        key == I::value_spec(live[i].component),
{
    lemma_lookup_complete::<I>(state, live, now, i);
}

/// The first lookup on a store that was never refreshed sees every entry of
/// the live view whose stamp is not later than the current time.
pub proof fn lemma_first_lookup_complete<I: IndexInfo>(
    live: Seq<Stamped<I::Component>>,
    now: u32,
    i: int,
)
    requires
        distinct_entities(live),
        0 < now < u32::MAX,
        0 <= i < live.len(),
        live[i].last_changed <= now,
    ensures
        entities_of(
            refreshed::<I>(
                IndexState { filed: Map::<u64, I::Value>::empty(), watermark: 0 },
                live,
                now,
            ).filed,
            I::value_spec(live[i].component),
        ).contains(live[i].entity),
{
    lemma_changed_for_fresh_index(live[i].last_changed, now);
    lemma_lookup_complete::<I>(
        IndexState { filed: Map::<u64, I::Value>::empty(), watermark: 0 },
        live,
        now,
        i,
    );
}

} // verus!
