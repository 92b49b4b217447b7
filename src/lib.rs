//! Simulation core of a small falling-block action game.
//!
//! - `scheduler`: turns wall-clock progress into bounded simulation ticks.
//! - `store`: component storage with bitmask queries; inserts and removals
//!   wait for an explicit commit.
//! - `physics`: the live physics handles and the last known body poses.
//! - `world`: the store and the handles together, with the rule that an
//!   entity's handles live exactly as long as the entity.
//! - `components`, `prefab`: the component types and the entity bundles.
//! - `input`, `spawn`, `systems`, `simulation`: the per-tick game rules and
//!   their order.
//! - `snapshot`: the owned copy of renderable state handed to rendering.
//! - `time`: the monotonic clock.
//!
//! Positions are held in thousandths of a pixel and rotations in millionths
//! of a radian; the physics solver and the renderer live outside.

pub mod components;
pub mod handle;
pub mod input;
pub mod physics;
pub mod prefab;
pub mod scheduler;
pub mod simulation;
pub mod snapshot;
pub mod spawn;
pub mod store;
pub mod systems;
pub mod time;
pub mod world;
