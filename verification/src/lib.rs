//! Event-translation engine for remapping a handheld controller's raw input.
//!
//! The engine consumes raw button and absolute-axis samples, reinterprets
//! them under a user configuration of launch combos and key mappings, and
//! produces synthesized output events: jitter-filtered relative motion from
//! the trackpads, remapped key frames, and detached command launches. All
//! state, ordering and edge-case policy lives here, behind contracts; device
//! discovery, configuration loading and the event loop are left to the host.

use vstd::prelude::*;

pub mod key;
pub mod axis;
pub mod events;
pub mod delta;
pub mod config;
pub mod daemon;

verus! {

} // verus!
