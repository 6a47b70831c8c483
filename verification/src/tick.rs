//! Wraparound-aware comparison of logical times.
//!
//! Logical time is a `u32` counter that may wrap around. Two stamps are
//! compared by their age relative to the current time, and ages are clamped so
//! that the comparison stays deterministic for very old stamps.

use vstd::prelude::*;

verus! {

/// The largest age a stamp can have; older stamps compare as exactly this old.
pub const MAX_CHANGE_AGE: u32 = 3258167296u32;

/// `now - tick` in wrapping `u32` arithmetic.
pub open spec fn wrapping_distance(tick: u32, now: u32) -> int {
    if now >= tick {
        now - tick
    } else {
        now - tick + 0x1_0000_0000
    }
}

/// How many steps ago `tick` happened, seen from `now`, clamped to
/// [`MAX_CHANGE_AGE`].
pub open spec fn tick_age(tick: u32, now: u32) -> int {
    let d = wrapping_distance(tick, now);
    if d <= MAX_CHANGE_AGE {
        d
    } else {
        MAX_CHANGE_AGE as int
    }
}

/// `tick` happened strictly after `last_run`, both seen from `now`.
pub open spec fn newer_than(tick: u32, last_run: u32, now: u32) -> bool {
    tick_age(last_run, now) > tick_age(tick, now)
}

/// A component stamped `last_changed` counts as changed for a refresh that
/// starts from `watermark` at time `now`: its stamp is not older than the step
/// just before the watermark.
pub open spec fn changed_since(watermark: u32, last_changed: u32, now: u32) -> bool {
    tick_age(last_changed, now) <= tick_age(previous_tick(watermark), now)
}

/// The step before `tick`, wrapping below zero.
pub open spec fn previous_tick(tick: u32) -> u32 {
    if tick == 0 {
        u32::MAX
    } else {
        (tick - 1) as u32
    }
}

/// Calls `bevy::ecs::component::Tick::is_newer_than` on a tick made with
/// `Tick::new`. The contract restates that method: both ticks are aged
/// against `change_tick` with a wrapping subtraction, each age is clamped to
/// `bevy::ecs::change_detection::MAX_CHANGE_AGE`, and the answer is whether
/// `last_change_tick` is strictly the older of the two.
#[verifier::external_body]
fn tick_is_newer_than(tick: u32, last_change_tick: u32, change_tick: u32) -> (newer: bool)
    ensures
        newer == newer_than(tick, last_change_tick, change_tick),
{
    bevy::ecs::component::Tick::new(tick).is_newer_than(last_change_tick, change_tick)
}

/// Decides whether a component stamped `last_changed` has to be indexed again
/// by a refresh that starts from `watermark` at time `now`.
pub fn is_changed_since(watermark: u32, last_changed: u32, now: u32) -> (changed: bool)
    ensures
        changed == changed_since(watermark, last_changed, now),
{
    let before: u32 = watermark.wrapping_sub(1);
    !tick_is_newer_than(before, last_changed, now)
}

/// Without wraparound, every stamp from the step before the watermark up to
/// the current time counts as changed.
pub proof fn lemma_changed_in_window(watermark: u32, last_changed: u32, now: u32)
    requires
        1 <= watermark <= now,
        watermark - 1 <= last_changed <= now,
    ensures
        changed_since(watermark, last_changed, now),
{
}

/// Seen from an index that was never refreshed, every stamp up to the current
/// time counts as changed.
pub proof fn lemma_changed_for_fresh_index(last_changed: u32, now: u32)
    requires
        last_changed <= now < u32::MAX,
    ensures
        changed_since(0, last_changed, now),
{
}

/// Without wraparound, a stamp from before the window of the watermark, and
/// still young enough to be told apart, does not count as changed.
pub proof fn lemma_unchanged_before_window(watermark: u32, last_changed: u32, now: u32)
    requires
        1 <= watermark <= now,
        last_changed < watermark - 1,
        now - (watermark - 1) < MAX_CHANGE_AGE,
    ensures
        !changed_since(watermark, last_changed, now),
{
}

} // verus!
