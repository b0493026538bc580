//! Input events consumed by the tracker.

use vstd::prelude::*;

use crate::keys::Key;
use crate::keys::PhysicalKey;

verus! {

/// One input event, in the order the host delivered it.
///
/// A `Key` event carries the logical key, whether it was pressed or
/// released, and, when the backend reports one, the physical key.
/// A `Text` event carries the text fragment produced. Every other kind
/// of host event is `Other` and is ignored by the tracker.
pub enum InputEvent {
    Key { key: Key, pressed: bool, physical_key: Option<PhysicalKey> },
    Text { text: String },
    Other,
}

} // verus!
