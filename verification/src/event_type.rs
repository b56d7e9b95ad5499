//! Kinds of pending events, one per simulation handler.

use vstd::prelude::*;

verus! {

/// Growth progress.
pub const ADD_EXP: u64 = 1;

/// Gold production.
pub const ADD_GOLD: u64 = 2;

/// Health decay.
pub const HEALTH_REDUCE: u64 = 3;

/// Satiety decay.
pub const SATIETY_REDUCE: u64 = 4;

/// Fouling of the ranch.
pub const ADD_SHIT: u64 = 5;

/// Health regeneration in a clean ranch.
pub const HEALTH_ADD: u64 = 6;

/// Ticks between two health regenerations, two gold productions and two
/// satiety decays: one minute of five-second ticks.
pub const TICKS_PER_MINUTE: usize = 12;

/// Ticks between two foulings of a ranch: three minutes.
pub const TICKS_PER_FOULING: usize = 36;

} // verus!
