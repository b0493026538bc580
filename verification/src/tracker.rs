//! The input state tracker.
//!
//! `InputTracker` owns the five state fields and folds one ordered
//! batch of events into them per frame. Its contracts are stated over
//! the ghost `TrackerModel`: `process` realizes `fold_events`, and
//! `render_snapshot` produces exactly the display strings the model
//! prescribes.

use vstd::prelude::*;
use vstd::string::StringExecFns;

use crate::display::DisplayState;
use crate::display::held_display_spec;
use crate::display::pressed_display_spec;
use crate::display::released_display_spec;
use crate::display::render_held;
use crate::display::render_pressed;
use crate::display::render_released;
use crate::display::render_text;
use crate::display::text_display_spec;
use crate::events::InputEvent;
use crate::held::insert_held;
use crate::held::remove_held;
use crate::keys::Key;
use crate::model::TrackerModel;
use crate::model::fold_events;
use crate::model::init_model;
use crate::model::lemma_step_wf;
use crate::model::model_wf;
use crate::model::next_release_count;
use crate::model::step;

verus! {

/// Tracks which keys are held, the most recent press and release (with
/// a consecutive-release counter), the last text produced, and the last
/// physical key reported.
pub struct InputTracker {
    held: Vec<Key>,
    last_pressed: Option<Key>,
    last_released: Option<Key>,
    last_released_count: u32,
    last_text: String,
    last_physical: String,
}

impl View for InputTracker {
    type V = TrackerModel;

    closed spec fn view(&self) -> TrackerModel {
        TrackerModel {
            held: self.held@,
            last_pressed: self.last_pressed,
            last_released: self.last_released,
            last_released_count: self.last_released_count,
            last_text: self.last_text@,
            last_physical: self.last_physical@,
        }
    }
}

impl InputTracker {
    /// The tracker's state is a well-formed model.
    pub open spec fn wf(self) -> bool {
        model_wf(self@)
    }

    /// A tracker that has seen no events: nothing held, nothing
    /// pressed, released or typed.
    pub fn new() -> (t: InputTracker)
        ensures
            t.wf(),
            t@ == init_model(),
    {
        let t = InputTracker {
            held: Vec::new(),
            last_pressed: None,
            last_released: None,
            last_released_count: 0,
            last_text: String::new(),
            last_physical: String::new(),
        };
        proof {
            assert(t@ =~= init_model());
        }
        t
    }

    /// Fold one ordered batch of events into the state, first event
    /// first: presses insert into the held set and overwrite the last
    /// pressed key, releases remove from it and advance the release
    /// streak, reported physical keys and text fragments overwrite
    /// their fields, and any other event is ignored.
    #[verifier::loop_isolation(false)]
    pub fn process(&mut self, events: &Vec<InputEvent>)
        requires
            old(self).wf(),
        ensures
            final(self).wf(),
            final(self)@ == fold_events(old(self)@, events@),
    {
        let ghost m0 = self@;
        proof {
            assert(events@.skip(0) =~= events@);
        }
        let mut i: usize = 0;
        while i < events.len()
            invariant
                0 <= i <= events@.len(),
                self.wf(),
                fold_events(self@, events@.skip(i as int)) == fold_events(m0, events@),
            decreases events@.len() - i,
        {
            let ghost m_prev = self@;
            let ghost e_spec = events@[i as int];
            match &events[i] {
                InputEvent::Key { key, pressed, physical_key } => {
                    let k = *key;
                    if *pressed {
                        insert_held(&mut self.held, k);
                        self.last_pressed = Some(k);
                    } else {
                        remove_held(&mut self.held, k);
                        let ghost c = next_release_count(m_prev, k);
                        let same = match self.last_released {
                            Some(prev) => prev == k,
                            None => false,
                        };
                        if same {
                            if self.last_released_count < u32::MAX {
                                self.last_released_count = self.last_released_count + 1;
                            }
                        } else {
                            self.last_released = Some(k);
                            self.last_released_count = 1;
                        }
                        proof {
                            assert(self.last_released_count == c);
                        }
                    }
                    if let Some(pk) = *physical_key {
                        self.last_physical = String::from_str(pk.name());
                    }
                }
                InputEvent::Text { text } => {
                    self.last_text = text.clone();
                }
                InputEvent::Other => {}
            }
            proof {
                assert(events@.skip(i as int)[0] == e_spec);
                assert(self@ =~= step(m_prev, e_spec));
                lemma_step_wf(m_prev, e_spec);
                assert(events@.skip(i as int).drop_first() =~= events@.skip(i as int + 1));
                assert(fold_events(m_prev, events@.skip(i as int)) == fold_events(
                    step(m_prev, e_spec),
                    events@.skip(i as int + 1),
                ));
            }
            i = i + 1;
        }
        proof {
            assert(events@.skip(events@.len() as int) =~= Seq::<InputEvent>::empty());
        }
    }

    /// The read-only display projection of the current state: each of
    /// the five lines as the model prescribes it, with `"(none)"`
    /// standing for an empty or never-set field.
    pub fn render_snapshot(&self) -> (d: DisplayState)
        ensures
            d.held_display@ == held_display_spec(self@.held),
            d.last_pressed_display@ == pressed_display_spec(self@.last_pressed),
            d.last_released_display@ == released_display_spec(
                self@.last_released,
                self@.last_released_count,
            ),
            d.last_text_display@ == text_display_spec(self@.last_text),
            d.last_physical_display@ == text_display_spec(self@.last_physical),
    {
        DisplayState {
            held_display: render_held(&self.held),
            last_pressed_display: render_pressed(self.last_pressed),
            last_released_display: render_released(self.last_released, self.last_released_count),
            last_text_display: render_text(&self.last_text),
            last_physical_display: render_text(&self.last_physical),
        }
    }
}

} // verus!
