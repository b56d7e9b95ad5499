//! Simulation core of a tick-driven ranch: elves grow, produce gold, get hungry
//! and fall ill over time, driven by a sparse queue of pending events. Every
//! state change is a deterministic function of the commands applied and of the
//! random values revealed, so that any party can replay a history exactly.

use vstd::prelude::*;

pub mod error;
pub mod event_type;
pub mod math;
pub mod prop;
pub mod elf;
pub mod events;
pub mod ranch;
pub mod player;
pub mod chains;
pub mod queue;
pub mod settlement;
pub mod random;
pub mod config;
pub mod state;
pub mod command;
pub mod tick;
pub mod process;
pub mod invariants;
pub mod storage;


verus! {

/// Number of attribute slots of an entity: level, speed, efficiency, productivity.
pub const ENTITY_ATTRIBUTES_SIZE: usize = 4;

/// Number of local attribute slots of a player.
pub const LOCAL_ATTRIBUTES_SIZE: usize = 8;

} // verus!
