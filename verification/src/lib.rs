//! Keyboard input state tracking.
//!
//! The crate folds ordered batches of input events into a small state
//! record: the set of currently held logical keys, the most recently
//! pressed and released keys (with a consecutive-release counter), the
//! last text fragment produced, and the last physical key reported.
//! A read-only snapshot of display strings can be taken at any time.

pub mod display;
pub mod events;
pub mod held;
pub mod keys;
pub mod laws;
pub mod model;
pub mod tracker;
