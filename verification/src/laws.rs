//! Properties of the tracker's transition function.
//!
//! Each lemma states, over the ghost model, a guarantee the tracker
//! gives for every state and every batch of events.

use vstd::prelude::*;

use crate::events::InputEvent;
use crate::held::lemma_insert_sorted_props;
use crate::held::lemma_remove_key_props;
use crate::keys::Key;
use crate::keys::PhysicalKey;
use crate::model::TrackerModel;
use crate::model::fold_events;
use crate::model::model_wf;
use crate::model::step;

verus! {

/// A release event for `k` with no physical key reported.
pub open spec fn release_event(k: Key) -> InputEvent {
    InputEvent::Key { key: k, pressed: false, physical_key: None }
}

/// A batch of `n` consecutive releases of `k`.
pub open spec fn releases_of(k: Key, n: nat) -> Seq<InputEvent>
    decreases n,
{
    if n == 0 {
        Seq::empty()
    } else {
        seq![release_event(k)] + releases_of(k, (n - 1) as nat)
    }
}

/// After a press of `k`, `k` is in the held set, whatever was held
/// before and whether or not a physical key was reported.
pub proof fn lemma_press_adds_to_held(m: TrackerModel, k: Key, pk: Option<PhysicalKey>)
    requires
        model_wf(m),
    ensures
        step(m, InputEvent::Key { key: k, pressed: true, physical_key: pk }).held.contains(k),
{
    lemma_insert_sorted_props(m.held, k);
}

/// After a release of `k`, `k` is not in the held set, whatever was
/// held before and whether or not a physical key was reported.
pub proof fn lemma_release_removes_from_held(m: TrackerModel, k: Key, pk: Option<PhysicalKey>)
    requires
        model_wf(m),
    ensures
        !step(m, InputEvent::Key { key: k, pressed: false, physical_key: pk }).held.contains(k),
{
    lemma_remove_key_props(m.held, k);
}

/// A press of `k` records `k` as the last pressed key, regardless of
/// the prior state; in particular re-pressing an already-held key still
/// updates the field, and its re-insertion leaves the held set as it
/// was.
pub proof fn lemma_press_sets_last_pressed(m: TrackerModel, k: Key, pk: Option<PhysicalKey>)
    requires
        model_wf(m),
    ensures
        step(m, InputEvent::Key { key: k, pressed: true, physical_key: pk }).last_pressed == Some(
            k,
        ),
        m.held.contains(k) ==> step(
            m,
            InputEvent::Key { key: k, pressed: true, physical_key: pk },
        ).held =~= m.held,
{
    lemma_insert_sorted_redundant(m.held, k);
}

/// Inserting a key that is already present leaves the sequence as it
/// was.
proof fn lemma_insert_sorted_redundant(s: Seq<Key>, k: Key)
    requires
        crate::held::sorted_strict(s),
    ensures
        s.contains(k) ==> crate::held::insert_sorted(s, k) =~= s,
    decreases s.len(),
{
    if s.contains(k) {
        if s.len() == 0 {
        } else if k.rank_spec() < s[0].rank_spec() {
            let i = choose|i: int| 0 <= i < s.len() && s[i] == k;
            if i > 0 {
                assert(s[0].rank_spec() < s[i].rank_spec());
            }
            assert(false);
        } else if k == s[0] {
        } else {
            let tail = s.drop_first();
            assert(crate::held::sorted_strict(tail)) by {
                assert forall|i: int, j: int|
                    0 <= i < j < tail.len() implies #[trigger] tail[i].rank_spec()
                    < #[trigger] tail[j].rank_spec() by {
                    assert(tail[i] == s[i + 1]);
                    assert(tail[j] == s[j + 1]);
                }
            }
            assert(tail.contains(k)) by {
                let i = choose|i: int| 0 <= i < s.len() && s[i] == k;
                assert(i >= 1);
                assert(tail[i - 1] == k);
            }
            lemma_insert_sorted_redundant(tail, k);
            assert(seq![s[0]] + tail =~= s);
        }
    }
}

/// Releasing `k` and then `j` with `j != k` resets the streak: the last
/// released key is `j` with a count of one.
pub proof fn lemma_release_other_key_resets(m: TrackerModel, k: Key, j: Key)
    requires
        j != k,
    ensures
        fold_events(m, seq![release_event(k), release_event(j)]).last_released == Some(j),
        fold_events(m, seq![release_event(k), release_event(j)]).last_released_count == 1,
{
    let evs = seq![release_event(k), release_event(j)];
    let m1 = step(m, release_event(k));
    let m2 = step(m1, release_event(j));
    assert(m1.last_released == Some(k));
    assert(m2.last_released_count == 1);
    assert(evs[0] == release_event(k));
    assert(evs.drop_first() =~= seq![release_event(j)]);
    assert(fold_events(m, evs) == fold_events(m1, seq![release_event(j)]));
    assert(seq![release_event(j)][0] == release_event(j));
    assert(seq![release_event(j)].drop_first() =~= Seq::<InputEvent>::empty());
    assert(fold_events(m1, seq![release_event(j)]) == fold_events(m2, Seq::empty()));
    assert(fold_events(m2, Seq::empty()) == m2);
}

/// From a state whose last release was already `k`, `n` further
/// releases of `k` advance the streak count by `n`.
proof fn lemma_releases_extend(m: TrackerModel, k: Key, n: nat)
    requires
        m.last_released == Some(k),
        m.last_released_count + n <= u32::MAX,
    ensures
        fold_events(m, releases_of(k, n)).last_released == Some(k),
        fold_events(m, releases_of(k, n)).last_released_count == m.last_released_count + n,
    decreases n,
{
    if n > 0 {
        let m1 = step(m, release_event(k));
        assert(m1.last_released == Some(k));
        assert(m1.last_released_count == m.last_released_count + 1);
        assert(releases_of(k, n)[0] == release_event(k));
        assert(releases_of(k, n).drop_first() =~= releases_of(k, (n - 1) as nat));
        lemma_releases_extend(m1, k, (n - 1) as nat);
    }
}

/// Releasing `k` `n` times in a row, with no other release recorded
/// before and none interleaved, yields last released `k` with a streak
/// count of exactly `n`.
pub proof fn lemma_consecutive_releases(m: TrackerModel, k: Key, n: nat)
    requires
        m.last_released != Some(k),
        1 <= n <= u32::MAX,
    ensures
        fold_events(m, releases_of(k, n)).last_released == Some(k),
        fold_events(m, releases_of(k, n)).last_released_count == n,
{
    let m1 = step(m, release_event(k));
    assert(m1.last_released == Some(k));
    assert(m1.last_released_count == 1);
    assert(releases_of(k, n)[0] == release_event(k));
    assert(releases_of(k, n).drop_first() =~= releases_of(k, (n - 1) as nat));
    lemma_releases_extend(m1, k, (n - 1) as nat);
}

/// A later text event overwrites an earlier one in the same batch: the
/// stored text is a full replacement, never a concatenation.
pub proof fn lemma_text_overwrites(m: TrackerModel, t1: String, t2: String)
    ensures
        fold_events(
            m,
            seq![InputEvent::Text { text: t1 }, InputEvent::Text { text: t2 }],
        ).last_text == t2@,
{
    let evs = seq![InputEvent::Text { text: t1 }, InputEvent::Text { text: t2 }];
    let m1 = step(m, evs[0]);
    let m2 = step(m1, evs[1]);
    assert(evs.drop_first() =~= seq![InputEvent::Text { text: t2 }]);
    assert(fold_events(m, evs) == fold_events(m1, seq![InputEvent::Text { text: t2 }]));
    assert(seq![InputEvent::Text { text: t2 }][0] == evs[1]);
    assert(seq![InputEvent::Text { text: t2 }].drop_first() =~= Seq::<InputEvent>::empty());
    assert(fold_events(m1, seq![InputEvent::Text { text: t2 }]) == fold_events(m2, Seq::empty()));
    assert(fold_events(m2, Seq::empty()) == m2);
}

/// A key event that reports no physical key leaves the last physical
/// name exactly as it was, pressed or released.
pub proof fn lemma_missing_physical_preserved(m: TrackerModel, k: Key, pressed: bool)
    ensures
        step(m, InputEvent::Key { key: k, pressed: pressed, physical_key: None }).last_physical
            == m.last_physical,
{
}

/// An empty batch changes nothing at all.
pub proof fn lemma_empty_batch(m: TrackerModel)
    ensures
        fold_events(m, Seq::empty()) == m,
{
}

} // verus!
