use keywatch::display::u32_digits;
use keywatch::events::InputEvent;
use keywatch::keys::Key;
use keywatch::keys::PhysicalKey;
use keywatch::tracker::InputTracker;

fn press(key: Key) -> InputEvent {
    InputEvent::Key { key, pressed: true, physical_key: None }
}

fn release(key: Key) -> InputEvent {
    InputEvent::Key { key, pressed: false, physical_key: None }
}

#[test]
fn initial_state_displays_none() {
    let t = InputTracker::new();
    let d = t.render_snapshot();
    assert_eq!(d.held_display, "(none)");
    assert_eq!(d.last_pressed_display, "(none)");
    assert_eq!(d.last_released_display, "(none)");
    assert_eq!(d.last_text_display, "(none)");
    assert_eq!(d.last_physical_display, "(none)");
}

#[test]
fn press_adds_key_and_release_removes_it() {
    let mut t = InputTracker::new();
    t.process(&vec![press(Key::K)]);
    assert_eq!(t.render_snapshot().held_display, "K");
    t.process(&vec![release(Key::K)]);
    assert_eq!(t.render_snapshot().held_display, "(none)");
}

#[test]
fn held_keys_are_shown_in_sorted_order() {
    let mut t = InputTracker::new();
    t.process(&vec![press(Key::Space), press(Key::B), press(Key::A)]);
    assert_eq!(t.render_snapshot().held_display, "A + B + Space");
}

#[test]
fn repressing_a_held_key_updates_last_pressed_only() {
    let mut t = InputTracker::new();
    t.process(&vec![press(Key::A), press(Key::B)]);
    assert_eq!(t.render_snapshot().last_pressed_display, "B");
    t.process(&vec![press(Key::A)]);
    let d = t.render_snapshot();
    assert_eq!(d.last_pressed_display, "A");
    assert_eq!(d.held_display, "A + B");
}

#[test]
fn consecutive_releases_count_up() {
    let mut t = InputTracker::new();
    t.process(&vec![release(Key::K), release(Key::K), release(Key::K)]);
    assert_eq!(t.render_snapshot().last_released_display, "K (x3)");
}

#[test]
fn single_release_shows_no_counter() {
    let mut t = InputTracker::new();
    t.process(&vec![release(Key::K)]);
    assert_eq!(t.render_snapshot().last_released_display, "K");
}

#[test]
fn release_of_another_key_resets_counter() {
    let mut t = InputTracker::new();
    t.process(&vec![release(Key::K), release(Key::K), release(Key::J)]);
    assert_eq!(t.render_snapshot().last_released_display, "J");
    t.process(&vec![release(Key::J)]);
    assert_eq!(t.render_snapshot().last_released_display, "J (x2)");
}

#[test]
fn release_counter_reaches_double_digits() {
    let mut t = InputTracker::new();
    let events: Vec<InputEvent> = (0..12).map(|_| release(Key::Enter)).collect();
    t.process(&events);
    assert_eq!(t.render_snapshot().last_released_display, "Enter (x12)");
}

#[test]
fn later_text_event_replaces_earlier_one() {
    let mut t = InputTracker::new();
    let events = vec![
        InputEvent::Text { text: String::from("a") },
        InputEvent::Text { text: String::from("bc") },
    ];
    t.process(&events);
    assert_eq!(t.render_snapshot().last_text_display, "bc");
}

#[test]
fn missing_physical_key_preserves_previous_value() {
    let mut t = InputTracker::new();
    t.process(&vec![InputEvent::Key {
        key: Key::A,
        pressed: true,
        physical_key: Some(PhysicalKey(Key::Q)),
    }]);
    assert_eq!(t.render_snapshot().last_physical_display, "Q");
    t.process(&vec![press(Key::B), release(Key::B)]);
    assert_eq!(t.render_snapshot().last_physical_display, "Q");
}

#[test]
fn physical_key_updates_on_release_too() {
    let mut t = InputTracker::new();
    t.process(&vec![InputEvent::Key {
        key: Key::A,
        pressed: false,
        physical_key: Some(PhysicalKey(Key::Tab)),
    }]);
    assert_eq!(t.render_snapshot().last_physical_display, "Tab");
}

#[test]
fn other_events_are_ignored() {
    let mut t = InputTracker::new();
    t.process(&vec![press(Key::A), InputEvent::Other, release(Key::A)]);
    let d = t.render_snapshot();
    assert_eq!(d.held_display, "(none)");
    assert_eq!(d.last_pressed_display, "A");
    assert_eq!(d.last_released_display, "A");
}

#[test]
fn empty_batch_changes_nothing() {
    let mut t = InputTracker::new();
    t.process(&vec![press(Key::X), InputEvent::Text { text: String::from("x") }]);
    let before = t.render_snapshot();
    t.process(&vec![]);
    let after = t.render_snapshot();
    assert_eq!(before.held_display, after.held_display);
    assert_eq!(before.last_pressed_display, after.last_pressed_display);
    assert_eq!(before.last_released_display, after.last_released_display);
    assert_eq!(before.last_text_display, after.last_text_display);
    assert_eq!(before.last_physical_display, after.last_physical_display);
}

#[test]
fn press_two_release_one_twice_scenario() {
    let mut t = InputTracker::new();
    t.process(&vec![
        press(Key::A),
        press(Key::B),
        release(Key::A),
        release(Key::B),
        release(Key::B),
    ]);
    let d = t.render_snapshot();
    assert_eq!(d.held_display, "(none)");
    assert_eq!(d.last_pressed_display, "B");
    assert_eq!(d.last_released_display, "B (x2)");
}

#[test]
fn empty_text_event_displays_none() {
    let mut t = InputTracker::new();
    t.process(&vec![
        InputEvent::Text { text: String::from("hi") },
        InputEvent::Text { text: String::new() },
    ]);
    assert_eq!(t.render_snapshot().last_text_display, "(none)");
}

#[test]
fn decimal_rendering_is_exact() {
    assert_eq!(u32_digits(0), "0");
    assert_eq!(u32_digits(7), "7");
    assert_eq!(u32_digits(10), "10");
    assert_eq!(u32_digits(1234), "1234");
    assert_eq!(u32_digits(u32::MAX), "4294967295");
}
