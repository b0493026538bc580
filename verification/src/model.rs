//! The mathematical model of the tracker state.
//!
//! `TrackerModel` is the ghost image of the tracker's five fields;
//! `step` says exactly how one event transforms it, and `fold_events`
//! extends that to an ordered batch. The tracker's `process` operation
//! promises to realize `fold_events` on its concrete state.

use vstd::prelude::*;

use crate::events::InputEvent;
use crate::held::insert_sorted;
use crate::held::lemma_insert_sorted_props;
use crate::held::lemma_remove_key_props;
use crate::held::remove_key;
use crate::held::sorted_strict;
use crate::keys::Key;

verus! {

/// The tracker state as mathematical values.
#[verifier::ext_equal]
pub ghost struct TrackerModel {
    /// Currently held keys, in strictly increasing rank order.
    pub held: Seq<Key>,
    /// The key of the most recent press, if any press was ever seen.
    pub last_pressed: Option<Key>,
    /// The key of the most recent release, if any release was ever seen.
    pub last_released: Option<Key>,
    /// How many consecutive releases of `last_released` were seen, with
    /// no other release in between; saturates at `u32::MAX`.
    pub last_released_count: u32,
    /// The payload of the most recent text event.
    pub last_text: Seq<char>,
    /// The display name of the most recent physical key reported.
    pub last_physical: Seq<char>,
}

/// The state before any event was ever processed.
pub open spec fn init_model() -> TrackerModel {
    TrackerModel {
        held: Seq::empty(),
        last_pressed: None,
        last_released: None,
        last_released_count: 0,
        last_text: Seq::empty(),
        last_physical: Seq::empty(),
    }
}

/// Well-formedness: the held sequence is sorted and duplicate-free, and
/// the release counter is positive exactly when a release was seen.
pub open spec fn model_wf(m: TrackerModel) -> bool {
    &&& sorted_strict(m.held)
    &&& m.last_released is None ==> m.last_released_count == 0
    &&& m.last_released is Some ==> m.last_released_count >= 1
}

/// The release counter after a release of `k`: one more than before when
/// `k` matches the key of the previous release (saturating at
/// `u32::MAX`), reset to one otherwise.
pub open spec fn next_release_count(m: TrackerModel, k: Key) -> u32 {
    if m.last_released == Some(k) {
        if m.last_released_count < u32::MAX {
            (m.last_released_count + 1) as u32
        } else {
            u32::MAX
        }
    } else {
        1u32
    }
}

/// The state after one event.
///
/// A press inserts the key into the held set and overwrites the last
/// pressed key; a release removes it and updates the release streak.
/// Independently of either branch, a reported physical key overwrites
/// the last physical name, while an absent one leaves it untouched.
/// A text event overwrites the last text; other events change nothing.
pub open spec fn step(m: TrackerModel, e: InputEvent) -> TrackerModel {
    match e {
        InputEvent::Key { key, pressed, physical_key } => {
            let after_key = if pressed {
                TrackerModel {
                    held: insert_sorted(m.held, key),
                    last_pressed: Some(key),
                    last_released: m.last_released,
                    last_released_count: m.last_released_count,
                    last_text: m.last_text,
                    last_physical: m.last_physical,
                }
            } else {
                TrackerModel {
                    held: remove_key(m.held, key),
                    last_pressed: m.last_pressed,
                    last_released: Some(key),
                    last_released_count: next_release_count(m, key),
                    last_text: m.last_text,
                    last_physical: m.last_physical,
                }
            };
            match physical_key {
                Some(pk) => TrackerModel {
                    held: after_key.held,
                    last_pressed: after_key.last_pressed,
                    last_released: after_key.last_released,
                    last_released_count: after_key.last_released_count,
                    last_text: after_key.last_text,
                    last_physical: pk.name_spec(),
                },
                None => after_key,
            }
        }
        InputEvent::Text { text } => TrackerModel {
            held: m.held,
            last_pressed: m.last_pressed,
            last_released: m.last_released,
            last_released_count: m.last_released_count,
            last_text: text@,
            last_physical: m.last_physical,
        },
        InputEvent::Other => m,
    }
}

/// The state after an ordered batch of events, first event first.
pub open spec fn fold_events(m: TrackerModel, evs: Seq<InputEvent>) -> TrackerModel
    decreases evs.len(),
{
    if evs.len() == 0 {
        m
    } else {
        fold_events(step(m, evs[0]), evs.drop_first())
    }
}

/// One step preserves well-formedness.
pub proof fn lemma_step_wf(m: TrackerModel, e: InputEvent)
    requires
        model_wf(m),
    ensures
        model_wf(step(m, e)),
{
    match e {
        InputEvent::Key { key, pressed, physical_key } => {
            if pressed {
                lemma_insert_sorted_props(m.held, key);
            } else {
                lemma_remove_key_props(m.held, key);
            }
        }
        InputEvent::Text { text } => {}
        InputEvent::Other => {}
    }
}

} // verus!
