//! A small verified core for a frame-ticked entity world: a store of live
//! entities with deferred spawn and despawn, a movement rule driven by held
//! direction keys, a spawn rule that buys a timed "cow" entity out of a shared
//! money balance, a lifetime rule that pays out when a cow's countdown runs
//! down, and a scheduler that drives the three rules once per frame and then
//! commits the deferred mutations.

use vstd::prelude::*;

pub mod components;
pub mod rules;
pub mod store;
pub mod world;

verus! {

/// Price of spawning one cow, in currency units.
pub const SPAWN_COST: u64 = 10;

/// Payout when a cow's countdown runs down, in currency units.
pub const COW_REWARD: u64 = 15;

/// How long a cow lives, in time units.
pub const COW_DURATION: u64 = 5;

/// The balance a fresh world starts with.
pub const STARTING_MONEY: u64 = 100;

/// Movement speed of the player spawned by `world::setup`, in units per time unit.
pub const PLAYER_SPEED: u64 = 100;

} // verus!
