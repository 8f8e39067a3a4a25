//! A network-controllable sound-scape engine core: a clip catalog, per-clip
//! gain envelopes and panning, and a command coordinator that reconciles
//! remote scene requests against the currently playing set.
//!
//! All mixing quantities are fixed-point: gains and volumes are expressed in
//! thousandths (a gain of 1.0 is `1000`), pan positions in thousandths of a
//! channel index, and times in whole milliseconds.

pub mod panning;
pub mod utils;
pub mod loader;
pub mod playback;
pub mod remote_control;
pub mod model;

use vstd::prelude::*;

verus! {

/// Fixed-point scale: one unit of gain, volume, or channel position.
pub const SCALE: u32 = 1000;

} // verus!
